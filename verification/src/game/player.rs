//! The player: its lives, score and state.

use vstd::prelude::*;
use crate::game::{
    CurrentDirection, EntityState, MovementHelper, Position, EXTRA_LIFE_SCORE_THRESHOLD,
};
use crate::game::map::{TileCollider, tiles_in_world, default_map_origin, map_origin};
use crate::game::util::{
    calculate_next_step, check_collosion, get_real_pos, is_blocked, next_step, real_pos, step_from,
    step_toward,
};

verus! {

/// What the game keeps about the player.
#[derive(Clone, Copy, Debug, PartialEq, Eq, Structural)]
pub struct PlayerData {
    pub lives: u64,
    pub score: usize,
    pub state: EntityState,
    pub extra_life_given: bool,
}

/// What the game keeps about its own progress.
#[derive(Clone, Copy, Debug, PartialEq, Eq, Structural)]
pub struct GameData {
    pub level: usize,
    /// The maze is between two levels: the ghosts go back to spawning.
    pub transitioning: bool,
}

impl PlayerData {
    /// The player is energized: the ghosts flee.
    pub open spec fn energized(self) -> bool {
        self.state is Energized
    }

    /// Tells whether the player is energized.
    pub fn is_energized(&self) -> (b: bool)
        ensures
            b == self.energized(),
    {
        match self.state {
            EntityState::Alive => false,
            EntityState::Dead => false,
            EntityState::Respawning => false,
            EntityState::Created => false,
            EntityState::Energized(_) => true,
        }
    }
}

/// A part of the game that has no behaviour yet.
#[derive(Clone, Copy, Debug, PartialEq, Eq, Structural)]
pub enum MissingFeature {
    /// Starting over when the player has lost its last life.
    Restart,
    /// Fruit.
    Fruit,
}

/// Which of the keys that steer the player are held down.
#[derive(Clone, Copy, Debug, PartialEq, Eq, Structural)]
pub struct Keys {
    pub up: bool,
    pub down: bool,
    pub left: bool,
    pub right: bool,
    pub pause: bool,
}

impl PlayerData {
    /// The player at the start of a game: two lives in reserve, no score,
    /// not yet in the maze.
    pub fn new() -> (data: PlayerData)
        ensures
            data == (PlayerData {
                lives: 2,
                score: 0,
                state: EntityState::Created,
                extra_life_given: false,
            }),
    {
        PlayerData { lives: 2, score: 0, state: EntityState::Created, extra_life_given: false }
    }
}

impl GameData {
    /// The game at its start: level 0, not between levels.
    pub fn new() -> (game: GameData)
        ensures
            game == (GameData { level: 0, transitioning: false }),
    {
        GameData { level: 0, transitioning: false }
    }
}

/// The rules of the player's life.
pub struct Player;

/// What a check of the player's state leaves: its data, its place and its
/// direction.
pub struct PlayerAfter {
    pub data: PlayerData,
    pub position: Position,
    pub helper: MovementHelper,
}

impl Player {
    /// What a new player is made of: its data, the data of the game, no
    /// direction, and the world's zero point as its place until it is put
    /// on its spawn point.
    pub fn new() -> (made: (PlayerData, GameData, MovementHelper, Position))
        ensures
            made.0 == (PlayerData {
                lives: 2,
                score: 0,
                state: EntityState::Created,
                extra_life_given: false,
            }),
            made.1 == (GameData { level: 0, transitioning: false }),
            made.2 == (MovementHelper { direction: None }),
            made.3 == (Position { x: 0, y: 0 }),
    {
        (
            PlayerData::new(),
            GameData::new(),
            MovementHelper { direction: None },
            Position { x: 0, y: 0 },
        )
    }

    /// The player after a check of its state, or what is missing for it. A
    /// dead player loses a life and comes back, which needs a life left
    /// after that. A player that comes back stands idle on its spawn point;
    /// a new one is put there. An energized player counts its ticks down
    /// and is alive again when the last one is gone.
    pub open spec fn checked(
        data: PlayerData,
        position: Position,
        helper: MovementHelper,
        spawn: Position,
    ) -> Result<PlayerAfter, MissingFeature> {
        match data.state {
            EntityState::Alive => Ok(PlayerAfter { data, position, helper }),
            EntityState::Dead => if data.lives == 1 {
                Err(MissingFeature::Restart)
            } else {
                Ok(
                    PlayerAfter {
                        data: PlayerData {
                            lives: (data.lives - 1) as u64,
                            state: EntityState::Respawning,
                            ..data
                        },
                        position,
                        helper,
                    },
                )
            },
            EntityState::Respawning => Ok(
                PlayerAfter {
                    data: PlayerData { state: EntityState::Alive, ..data },
                    position: real_pos(spawn, default_map_origin()),
                    helper: MovementHelper { direction: Some(CurrentDirection::Idle) },
                },
            ),
            EntityState::Created => Ok(
                PlayerAfter {
                    data: PlayerData { state: EntityState::Alive, ..data },
                    position: real_pos(spawn, default_map_origin()),
                    helper,
                },
            ),
            EntityState::Energized(time) => Ok(
                PlayerAfter {
                    data: PlayerData {
                        state: if time == 1 {
                            EntityState::Alive
                        } else {
                            EntityState::Energized((time - 1) as u64)
                        },
                        ..data
                    },
                    position,
                    helper,
                },
            ),
        }
    }

    /// Checks the player's state and moves it on. `spawn` is the player's
    /// spawn point, relative to the map. Where something is missing the
    /// player is left as it was.
    pub fn state_checks(
        data: &mut PlayerData,
        position: &mut Position,
        helper: &mut MovementHelper,
        spawn: Position,
    ) -> (r: Result<(), MissingFeature>)
        requires
            spawn.in_world(),
            old(data).state == EntityState::Dead ==> old(data).lives >= 1,
            old(data).state matches EntityState::Energized(time) ==> time >= 1,
        ensures
            match Player::checked(*old(data), *old(position), *old(helper), spawn) {
                Ok(after) => r is Ok && *final(data) == after.data && *final(position)
                    == after.position && *final(helper) == after.helper,
                Err(e) => r == Err::<(), MissingFeature>(e) && *final(data) == *old(data)
                    && *final(position) == *old(position) && *final(helper) == *old(helper),
            },
    {
        match data.state {
            EntityState::Alive => {},
            EntityState::Dead => {
                if data.lives - 1 == 0 {
                    return Err(MissingFeature::Restart);
                }
                data.lives -= 1;
                data.state = EntityState::Respawning;
            },
            EntityState::Respawning => {
                *position = get_real_pos(spawn, map_origin());
                helper.direction = Some(CurrentDirection::Idle);
                data.state = EntityState::Alive;
            },
            EntityState::Created => {
                *position = get_real_pos(spawn, map_origin());
                data.state = EntityState::Alive;
            },
            EntityState::Energized(time) => {
                if time - 1 == 0 {
                    data.state = EntityState::Alive;
                } else {
                    data.state = EntityState::Energized(time - 1);
                }
            },
        }
        Ok(())
    }

    /// The player's data after the check for events: a player whose score
    /// has reached the threshold gets its one extra life. A player without
    /// lives needs the game to start over.
    pub open spec fn rewarded(data: PlayerData) -> Result<PlayerData, MissingFeature> {
        if data.lives == 0 {
            Err(MissingFeature::Restart)
        } else if data.score >= EXTRA_LIFE_SCORE_THRESHOLD && !data.extra_life_given {
            Ok(PlayerData { lives: (data.lives + 1) as u64, extra_life_given: true, ..data })
        } else {
            Ok(data)
        }
    }

    /// Checks the player's data for events.
    pub fn player_checks(data: &mut PlayerData) -> (r: Result<(), MissingFeature>)
        requires
            old(data).lives < u64::MAX,
        ensures
            match Player::rewarded(*old(data)) {
                Ok(after) => r is Ok && *final(data) == after,
                Err(e) => r == Err::<(), MissingFeature>(e) && *final(data) == *old(data),
            },
    {
        if data.lives == 0 {
            return Err(MissingFeature::Restart);
        }
        if data.score >= EXTRA_LIFE_SCORE_THRESHOLD && !data.extra_life_given {
            data.lives += 1;
            data.extra_life_given = true;
        }
        Ok(())
    }
}

/// How the player moves.
pub struct PlayerMovement;

impl PlayerMovement {
    /// The direction that the keys ask for. Of several keys held down the
    /// last in the order up, down, left, right, pause counts; no key leaves
    /// the direction as it is.
    pub open spec fn steered(direction: Option<CurrentDirection>, keys: Keys) -> Option<CurrentDirection> {
        if keys.pause {
            Some(CurrentDirection::Idle)
        } else if keys.right {
            Some(CurrentDirection::Right)
        } else if keys.left {
            Some(CurrentDirection::Left)
        } else if keys.down {
            Some(CurrentDirection::Down)
        } else if keys.up {
            Some(CurrentDirection::Up)
        } else {
            direction
        }
    }

    /// Turns the player the way the keys ask for.
    pub fn steer(helper: &mut MovementHelper, keys: Keys)
        ensures
            final(helper).direction == PlayerMovement::steered(old(helper).direction, keys),
    {
        if keys.up {
            helper.direction = Some(CurrentDirection::Up);
        }
        if keys.down {
            helper.direction = Some(CurrentDirection::Down);
        }
        if keys.left {
            helper.direction = Some(CurrentDirection::Left);
        }
        if keys.right {
            helper.direction = Some(CurrentDirection::Right);
        }
        if keys.pause {
            helper.direction = Some(CurrentDirection::Idle);
        }
    }

    /// Where the player stands after a tick: one player step on in its
    /// direction, if that place is not blocked, and where it stood
    /// otherwise.
    pub open spec fn advanced(
        position: Position,
        direction: Option<CurrentDirection>,
        walls: Seq<TileCollider>,
    ) -> Position {
        match direction {
            None => position,
            Some(d) => {
                let target = step_toward(position, d, next_step(false));
                if is_blocked(target, walls, default_map_origin()) {
                    position
                } else {
                    target
                }
            },
        }
    }

    /// Moves the player one tick. A player without a direction gets the
    /// direction left and stays where it is for this tick.
    pub fn tick(position: &mut Position, helper: &mut MovementHelper, wall: &Vec<TileCollider>)
        requires
            old(position).in_world(),
            tiles_in_world(wall@),
        ensures
            *final(position) == PlayerMovement::advanced(*old(position), old(helper).direction, wall@),
            final(helper).direction == match old(helper).direction {
                None => Some(CurrentDirection::Left),
                Some(d) => Some(d),
            },
    {
        match helper.direction {
            Some(CurrentDirection::Idle) => {},
            Some(o) => {
                let raw_target = calculate_next_step(false);
                let target = step_from(*position, o, raw_target);
                let touching = !check_collosion(target, wall, map_origin());
                if touching {
                    *position = target;
                }
            },
            None => {
                helper.direction = Some(CurrentDirection::Left);
            },
        }
    }
}

} // verus!
