//! Navigation core of a maze-chase game: tile collision, move candidates,
//! pursuit strategies, stuck recovery and the ghost lifecycle, with the
//! rules of the player, the food and the map around them.
//!
//! Every coordinate is an integer count of thousandths of a world unit, so
//! that distances are compared exactly. Positions kept in the maze or in an
//! actor lie within `game::WORLD_LIMIT` of zero, which is what the functions
//! ask of their arguments; nothing else is asked of a caller but what a
//! function's own rules need.
//!
//! The module `game::util` holds the collision oracle and the choice of
//! moves, `game::enemy` the ghosts with their turn (`lifecycle`) and the
//! tick of all of them (`tick`), `game::map` the map and its text,
//! `game::food` the food and the change of levels, and `game::player` the
//! player.

pub mod data;
pub mod game;
