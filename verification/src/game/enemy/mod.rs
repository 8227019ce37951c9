//! The ghosts: who they are, what each one pursues, how one moves and how it
//! gets out of a corner.

use vstd::prelude::*;
use crate::game::{
    Position, CurrentDirection, MovementHelper, EntityState, ENERGIZED_GHOST_DEBUFF,
    PINKY_LEAVE_TIME, INKY_LEAVE_TIME, CLYDE_LEAVE_TIME,
};
use crate::game::map::{TileCollider, tiles_in_world, default_map_origin, map_origin};
use crate::game::util::{
    calculate_distance, calculate_next_step, candidate, candidates, chase, check_collosion, dist2,
    farthest, farthest_index, get_heighest_distance, get_pos_infront_of_pacman, is_blocked,
    lemma_candidates_are_steps, lemma_candidates_exclude_reverse,
    lemma_farthest_index_is_first_farthest, lemma_nearest_index_is_first_nearest, nearest,
    nearest_index, next_step, pos_in_front, step_from, step_toward, MoveDesc, SHY_DISTANCE,
};

pub mod lifecycle;
pub mod tick;
pub mod util;

verus! {

/// Ticks that a ghost spends getting out of a corner before it chases
/// again.
pub const STUCK_TICKS: isize = 60;

/// The four ghosts. Blinky chases the player, Pinky lies in ambush ahead of
/// it, Inky flanks it from the far side of Pinky, and Clyde chases it but
/// shies away when close.
#[derive(Clone, Copy, Debug, PartialEq, Eq, Structural)]
pub enum GhostPersonality {
    Blinky,
    Pinky,
    Inky,
    Clyde,
}

/// A place on the map where a ghost comes into the maze, with the number of
/// the power pellet that is its scatter zone.
#[derive(Clone, Copy, Debug, PartialEq, Eq, Structural)]
pub struct GhostSpawn {
    pub spawn_for: GhostPersonality,
    pub power_pellet: usize,
    pub position: Position,
}

/// Why a tick of the ghosts stopped.
#[derive(Clone, Copy, Debug, PartialEq, Eq, Structural)]
pub enum TickError {
    /// An active ghost has to choose a move and has no legal one.
    NoLegalMove,
    /// The table of power pellets holds no pellet under the number of a
    /// ghost's scatter zone.
    MissingScatterZone,
    /// A ghost is in a state that has no behaviour yet.
    NotImplemented,
}

/// A ghost: one of the four agents that hunt the player.
#[derive(Clone, Copy, Debug, PartialEq, Eq, Structural)]
pub struct GhostAgent {
    /// Whether the ghost is in the game. Inky moves only while it is.
    pub alive: bool,
    pub personality: GhostPersonality,
    /// Where the ghost stands in its life cycle: `Created` while it is
    /// spawning, `Respawning` while it waits in the house, `Alive` while it
    /// is active, `Dead` once the player has caught it.
    pub state: EntityState,
    /// Whether the ghost moves by itself.
    pub has_ai: bool,
    /// Counts down while the ghost gets out of a corner.
    pub stuck_ticks: Option<isize>,
    /// Allows the ghost to be given its AI back when it leaves the house.
    pub award_ai: bool,
    /// Number of the power pellet that the ghost flees to.
    pub scatter_zone: usize,
    /// Ticks left before the ghost may leave the house.
    pub house_time: u64,
    /// Where the ghost is, in the world.
    pub position: Position,
    /// The direction the ghost last moved in.
    pub helper: MovementHelper,
}

/// Ticks that a ghost of the given personality waits in the house.
pub open spec fn leave_time(personality: GhostPersonality) -> u64 {
    match personality {
        GhostPersonality::Blinky => 0,
        GhostPersonality::Pinky => PINKY_LEAVE_TIME,
        GhostPersonality::Inky => INKY_LEAVE_TIME,
        GhostPersonality::Clyde => CLYDE_LEAVE_TIME,
    }
}

/// Ticks that a ghost of the given personality waits in the house.
pub fn house_time_of(personality: GhostPersonality) -> (ticks: u64)
    ensures
        ticks == leave_time(personality),
        personality == GhostPersonality::Blinky <==> ticks == 0,
{
    match personality {
        GhostPersonality::Blinky => 0,
        GhostPersonality::Pinky => PINKY_LEAVE_TIME,
        GhostPersonality::Inky => INKY_LEAVE_TIME,
        GhostPersonality::Clyde => CLYDE_LEAVE_TIME,
    }
}

/// Length of the step that a ghost takes while it gets out of a corner: a
/// ghost step, shortened while the player is energized.
pub open spec fn recovery_step(scatter_mode: bool) -> int {
    if scatter_mode {
        next_step(true) - ENERGIZED_GHOST_DEBUFF
    } else {
        next_step(true)
    }
}

/// The point on the far side of the player from `ambusher`, twice as far
/// from the player as the ambusher is.
pub open spec fn flank_point(player_pos: Position, ambusher: Position) -> Position {
    player_pos.offset(2 * (player_pos.x - ambusher.x), 2 * (player_pos.y - ambusher.y))
}

/// The direction in which a ghost at `my_pos` that last moved in direction
/// `heading` reaches `pos` by a legal move, looked up in the order up, down,
/// left, right.
pub open spec fn direction_among(
    my_pos: Position,
    heading: CurrentDirection,
    walls: Seq<TileCollider>,
    pos: Position,
) -> Option<CurrentDirection> {
    if candidate(my_pos, heading, CurrentDirection::Up, walls) == Some(pos) {
        Some(CurrentDirection::Up)
    } else if candidate(my_pos, heading, CurrentDirection::Down, walls) == Some(pos) {
        Some(CurrentDirection::Down)
    } else if candidate(my_pos, heading, CurrentDirection::Left, walls) == Some(pos) {
        Some(CurrentDirection::Left)
    } else if candidate(my_pos, heading, CurrentDirection::Right, walls) == Some(pos) {
        Some(CurrentDirection::Right)
    } else {
        None
    }
}

/// The counter one lower, where there is one.
pub open spec fn counted_down(counter: Option<isize>) -> Option<isize> {
    match counter {
        Some(c) => Some((c - 1) as isize),
        None => None,
    }
}

impl GhostAgent {
    /// Tells whether the ghost is getting out of a corner: the signal for
    /// those who watch the ghosts.
    pub fn is_stuck(&self) -> (stuck: bool)
        ensures
            stuck == self.stuck_ticks is Some,
    {
        self.stuck_ticks.is_some()
    }

    /// A new ghost: spawning, at the world's zero point, with its AI and
    /// with the house time of its personality.
    pub fn new(personaility: GhostPersonality, scatter_zone: usize) -> (made: GhostAgent)
        ensures
            made == new_ghost(personaility, scatter_zone),
    {
        let house_time = house_time_of(personaility);
        GhostAgent {
            alive: true,
            personality: personaility,
            state: EntityState::Created,
            has_ai: true,
            stuck_ticks: None,
            award_ai: true,
            scatter_zone: scatter_zone,
            house_time: house_time,
            position: Position { x: 0, y: 0 },
            helper: MovementHelper { direction: None },
        }
    }

    /// What the ghost heads for in this tick. `zone` is the place of its
    /// scatter zone and `ambusher` the place that Pinky moved to in this
    /// tick, if it moved. Blinky heads for the player and Pinky for the
    /// point ahead of the player, both for their zone while the player is
    /// energized. Clyde heads for the player, and for its zone while the
    /// player is energized or nearer than `SHY_DISTANCE`. Inky heads for the
    /// flank point, energized player or not, and for nothing where Pinky
    /// did not move.
    pub open spec fn target(
        self,
        player_pos: Position,
        player_heading: CurrentDirection,
        scatter_mode: bool,
        zone: Position,
        ambusher: Option<Position>,
    ) -> Option<Position> {
        match self.personality {
            GhostPersonality::Blinky => Some(if scatter_mode { zone } else { player_pos }),
            GhostPersonality::Pinky => Some(
                if scatter_mode {
                    zone
                } else {
                    pos_in_front(player_pos, player_heading)
                },
            ),
            GhostPersonality::Inky => match ambusher {
                Some(p) => Some(flank_point(player_pos, p)),
                None => None,
            },
            GhostPersonality::Clyde => Some(
                if scatter_mode || dist2(player_pos, self.position) < SHY_DISTANCE * SHY_DISTANCE {
                    zone
                } else {
                    player_pos
                },
            ),
        }
    }

    /// Computes what the ghost heads for in this tick.
    pub fn pursuit_target(
        &self,
        player_pos: Position,
        player_heading: CurrentDirection,
        scatter_mode: bool,
        zone: Position,
        ambusher: Option<Position>,
    ) -> (target: Option<Position>)
        requires
            self.position.in_world(),
            player_pos.in_world(),
            zone.in_reach(),
            ambusher matches Some(p) ==> p.near_world(),
        ensures
            target == self.target(player_pos, player_heading, scatter_mode, zone, ambusher),
            target matches Some(t) ==> t.in_reach(),
    {
        match self.personality {
            GhostPersonality::Blinky => Some(if scatter_mode { zone } else { player_pos }),
            GhostPersonality::Pinky => Some(
                if scatter_mode {
                    zone
                } else {
                    get_pos_infront_of_pacman(player_pos, player_heading)
                },
            ),
            GhostPersonality::Inky => match ambusher {
                Some(p) => {
                    let dx: i64 = 2 * (player_pos.x - p.x);
                    let dy: i64 = 2 * (player_pos.y - p.y);
                    Some(Position { x: player_pos.x + dx, y: player_pos.y + dy })
                },
                None => None,
            },
            GhostPersonality::Clyde => Some(
                if scatter_mode || calculate_distance(player_pos, self.position) < SHY_DISTANCE
                    * SHY_DISTANCE {
                    zone
                } else {
                    player_pos
                },
            ),
        }
    }
}

impl GhostAgent {
    /// The counter that a tick of recovery works with: started at
    /// `STUCK_TICKS` where the ghost had none, and cleared where it has run
    /// below -1.
    pub open spec fn armed_counter(self) -> Option<isize> {
        match self.stuck_ticks {
            None => Some(STUCK_TICKS),
            Some(c) => if c < -1 {
                None
            } else {
                Some(c)
            },
        }
    }

    /// The ghost after the step to `pos`, one of its legal moves: it stands
    /// at `pos` and has recorded the direction of that move.
    pub open spec fn stepped_to(self, pos: Position, walls: Seq<TileCollider>) -> GhostAgent {
        GhostAgent {
            position: pos,
            helper: MovementHelper {
                direction: direction_among(self.position, self.helper.heading(), walls, pos),
            },
            ..self
        }
    }

    /// The ghost after a tick of recovery that is not the first of its
    /// episode. It decides nothing anew: it takes one recovery step in the
    /// direction it has recorded and counts down, or, where that step is
    /// blocked, stays and ends the episode. A ghost that is idle stays and
    /// counts down; one without a direction records `Idle`.
    pub open spec fn carried_on(
        self,
        counter: Option<isize>,
        walls: Seq<TileCollider>,
        scatter_mode: bool,
    ) -> GhostAgent {
        match self.helper.direction {
            None => GhostAgent {
                helper: MovementHelper { direction: Some(CurrentDirection::Idle) },
                stuck_ticks: counted_down(counter),
                ..self
            },
            Some(CurrentDirection::Idle) => GhostAgent { stuck_ticks: counted_down(counter), ..self },
            Some(d) => {
                let ahead = step_toward(self.position, d, recovery_step(scatter_mode));
                if is_blocked(ahead, walls, default_map_origin()) {
                    GhostAgent { stuck_ticks: None, ..self }
                } else {
                    GhostAgent { position: ahead, stuck_ticks: counted_down(counter), ..self }
                }
            },
        }
    }

    /// The ghost after it has moved towards `target`, or the reason why it
    /// cannot.
    ///
    /// With two legal moves or more and no recovery under way it takes the
    /// move nearest to the target. Otherwise it is in recovery. On the first
    /// tick of an episode it jumps to the legal move farthest from the
    /// target, records that direction and is left with a counter of
    /// `STUCK_TICKS - 1`; without any legal move it fails. On a later tick
    /// it carries on as `carried_on` says.
    pub open spec fn pursued(
        self,
        target: Position,
        walls: Seq<TileCollider>,
        scatter_mode: bool,
    ) -> Result<GhostAgent, TickError> {
        let all = candidates(self.position, self.helper.heading(), walls);
        if all.len() >= 2 && self.stuck_ticks is None {
            Ok(self.stepped_to(nearest(all, target), walls))
        } else if self.armed_counter() == Some(STUCK_TICKS) {
            if all.len() == 0 {
                Err(TickError::NoLegalMove)
            } else {
                Ok(
                    GhostAgent {
                        stuck_ticks: Some((STUCK_TICKS - 1) as isize),
                        ..self.stepped_to(farthest(all, target), walls)
                    },
                )
            }
        } else {
            Ok(self.carried_on(self.armed_counter(), walls, scatter_mode))
        }
    }

    /// Takes the ghost through a tick of recovery that is not the first of
    /// its episode, with `counter` as the counter that the tick works with.
    pub fn carry_on(&mut self, counter: Option<isize>, walls: &Vec<TileCollider>, scatter_mode: bool)
        requires
            old(self).position.in_world(),
            tiles_in_world(walls@),
            counter matches Some(c) ==> c > isize::MIN,
        ensures
            *final(self) == old(self).carried_on(counter, walls@, scatter_mode),
            final(self).position.near_world(),
    {
        let mut counter = counter;
        match self.helper.direction {
            Some(CurrentDirection::Idle) => {},
            Some(d) => {
                let raw_target: i64 = if scatter_mode {
                    calculate_next_step(true) - ENERGIZED_GHOST_DEBUFF
                } else {
                    calculate_next_step(true)
                };
                let ahead = step_from(self.position, d, raw_target);
                if !check_collosion(ahead, walls, map_origin()) {
                    self.position = ahead;
                } else {
                    counter = None;
                }
            },
            None => {
                self.helper.direction = Some(CurrentDirection::Idle);
            },
        }
        self.stuck_ticks = match counter {
            Some(c) => Some(c - 1),
            None => None,
        };
    }

    /// Puts the ghost on `pos` and records the direction under which
    /// `moves` holds that position.
    pub fn step_to(&mut self, moves: &MoveDesc, pos: Position)
        ensures
            *final(self) == (GhostAgent {
                position: pos,
                helper: MovementHelper { direction: moves.direction_to(pos) },
                ..*old(self)
            }),
    {
        self.helper.direction = moves.direction_of(pos);
        self.position = pos;
    }

    /// Moves the ghost one tick towards `target`: by the nearest legal move,
    /// or, in a corner, by the recovery that `pursued` describes. Where it
    /// fails the ghost is left as it was.
    pub fn pursue(&mut self, target: Position, walls: &Vec<TileCollider>, scatter_mode: bool) -> (r:
        Result<(), TickError>)
        requires
            old(self).position.in_world(),
            target.in_reach(),
            tiles_in_world(walls@),
        ensures
            match old(self).pursued(target, walls@, scatter_mode) {
                Ok(after) => r is Ok && *final(self) == after,
                Err(e) => r == Err::<(), TickError>(e) && *final(self) == *old(self),
            },
            final(self).position.near_world(),
    {
        let heading = self.helper.current();
        proof {
            lemma_candidates_are_steps(self.position, heading, walls@);
        }
        let found = chase(target, heading, self.position, walls);
        let count: usize = match &found {
            Some(obj) => obj.all.len(),
            None => 0,
        };
        if count <= 1 || self.stuck_ticks.is_some() {
            let counter: Option<isize> = match self.stuck_ticks {
                None => Some(STUCK_TICKS),
                Some(c) => if c < -1 {
                    None
                } else {
                    Some(c)
                },
            };
            let first_tick = match counter {
                Some(c) => c == STUCK_TICKS,
                None => false,
            };
            if first_tick {
                match get_heighest_distance(target, heading, self.position, walls) {
                    Some(o) => match o.choice {
                        Some(h) => {
                            self.step_to(&o, h);
                            self.stuck_ticks = Some(STUCK_TICKS - 1);
                        },
                        None => {
                            return Err(TickError::NoLegalMove);
                        },
                    },
                    None => {
                        return Err(TickError::NoLegalMove);
                    },
                }
            } else {
                self.carry_on(counter, walls, scatter_mode);
            }
        } else {
            match found {
                Some(obj) => match obj.choice {
                    Some(o) => {
                        self.step_to(&obj, o);
                    },
                    None => {
                        return Err(TickError::NoLegalMove);
                    },
                },
                None => {
                    return Err(TickError::NoLegalMove);
                },
            }
        }
        Ok(())
    }
}

impl GhostAgent {
    /// The tick of `pursued` is one of recovery: the ghost has at most one
    /// legal move, or an episode of recovery is under way.
    pub open spec fn in_recovery(self, walls: Seq<TileCollider>) -> bool {
        candidates(self.position, self.helper.heading(), walls).len() <= 1 || self.stuck_ticks is Some
    }

    /// A tick of recovery ends the episode: the counter has run below -1,
    /// or the tick is not the first of the episode and the step in the
    /// recorded direction is blocked.
    pub open spec fn episode_ends(self, walls: Seq<TileCollider>, scatter_mode: bool) -> bool {
        match self.armed_counter() {
            None => true,
            Some(c) => c != STUCK_TICKS && match self.helper.direction {
                None => false,
                Some(CurrentDirection::Idle) => false,
                Some(d) => is_blocked(
                    step_toward(self.position, d, recovery_step(scatter_mode)),
                    walls,
                    default_map_origin(),
                ),
            },
        }
    }
}

/// The life of the stuck counter. A tick that is not one of recovery leaves
/// the ghost without a counter. A tick of recovery starts the counter at
/// `STUCK_TICKS` where there was none, and then either ends the episode,
/// which clears the counter, or leaves the counter exactly one lower than
/// the tick found it. The episode ends when the tick finds the counter below
/// -1, or when the recorded direction is blocked.
pub proof fn lemma_stuck_counter_runs_down(
    ghost_before: GhostAgent,
    target: Position,
    walls: Seq<TileCollider>,
    scatter_mode: bool,
)
    requires
        ghost_before.position.in_world(),
    ensures
        match ghost_before.pursued(target, walls, scatter_mode) {
            Ok(after) => {
                &&& !ghost_before.in_recovery(walls) ==> after.stuck_ticks is None
                &&& ghost_before.in_recovery(walls) && ghost_before.episode_ends(walls, scatter_mode)
                    ==> after.stuck_ticks is None
                &&& ghost_before.in_recovery(walls) && !ghost_before.episode_ends(walls, scatter_mode)
                    ==> {
                    &&& ghost_before.stuck_ticks is None ==> after.stuck_ticks == Some(
                        (STUCK_TICKS - 1) as isize,
                    )
                    &&& ghost_before.stuck_ticks matches Some(c) ==> c >= -1 && after.stuck_ticks
                        == Some((c - 1) as isize)
                }
            },
            Err(e) => {
                &&& e == TickError::NoLegalMove
                &&& candidates(ghost_before.position, ghost_before.helper.heading(), walls).len() == 0
                &&& ghost_before.armed_counter() == Some(STUCK_TICKS)
            },
        },
{
}

/// The counter that a tick of recovery works with lies between -1 and the
/// counter that the ghost had, or is `STUCK_TICKS`; and a counter that lies
/// between -2 and `STUCK_TICKS` before a tick does so after it.
pub proof fn lemma_stuck_counter_stays_in_bounds(
    ghost_before: GhostAgent,
    target: Position,
    walls: Seq<TileCollider>,
    scatter_mode: bool,
)
    requires
        ghost_before.position.in_world(),
        ghost_before.stuck_ticks matches Some(c) ==> -2 <= c <= STUCK_TICKS,
    ensures
        ghost_before.armed_counter() matches Some(c) ==> -1 <= c <= STUCK_TICKS,
        ghost_before.pursued(target, walls, scatter_mode) matches Ok(after) ==> (
        after.stuck_ticks matches Some(c) ==> -2 <= c < STUCK_TICKS),
{
}

/// Blinky heads for the player, and for its scatter zone from the very tick
/// in which the player is energized; so does Pinky, with the point ahead of
/// the player in place of the player.
pub proof fn lemma_chasers_flee_while_player_is_energized(
    chaser: GhostAgent,
    player_pos: Position,
    player_heading: CurrentDirection,
    zone: Position,
    ambusher: Option<Position>,
)
    requires
        chaser.personality == GhostPersonality::Blinky || chaser.personality
            == GhostPersonality::Pinky,
    ensures
        chaser.target(player_pos, player_heading, true, zone, ambusher) == Some(zone),
        chaser.personality == GhostPersonality::Blinky ==> chaser.target(
            player_pos,
            player_heading,
            false,
            zone,
            ambusher,
        ) == Some(player_pos),
        chaser.personality == GhostPersonality::Pinky ==> chaser.target(
            player_pos,
            player_heading,
            false,
            zone,
            ambusher,
        ) == Some(pos_in_front(player_pos, player_heading)),
{
}

/// Upper bound on the ticks that the episode of recovery still takes: none
/// without a counter, and at most `STUCK_TICKS + 3` for a counter that a
/// tick has left behind.
pub open spec fn episode_left(counter: Option<isize>) -> nat {
    match counter {
        None => 0,
        Some(c) => if c < -1 {
            1
        } else {
            (c + 3) as nat
        },
    }
}

/// An episode of recovery comes to an end: every tick of it brings the
/// bound on what is left of it down.
pub proof fn lemma_recovery_is_bounded(
    ghost_before: GhostAgent,
    target: Position,
    walls: Seq<TileCollider>,
    scatter_mode: bool,
)
    requires
        ghost_before.position.in_world(),
        ghost_before.stuck_ticks is Some,
    ensures
        ghost_before.pursued(target, walls, scatter_mode) matches Ok(after) ==> episode_left(
            after.stuck_ticks,
        ) < episode_left(ghost_before.stuck_ticks),
        ghost_before.stuck_ticks matches Some(c) ==> (c <= STUCK_TICKS ==> episode_left(
            ghost_before.stuck_ticks,
        ) <= STUCK_TICKS + 3),
{
}

/// A ghost never turns round, in a chase or in a recovery: after its move a
/// ghost that last moved in a direction other than `Idle` is not one step
/// back from where it was, and the direction it has recorded is not the
/// reverse of the one it had.
pub proof fn lemma_move_is_never_the_reverse(
    ghost_before: GhostAgent,
    target: Position,
    walls: Seq<TileCollider>,
    scatter_mode: bool,
)
    requires
        ghost_before.position.in_world(),
        ghost_before.helper.heading() != CurrentDirection::Idle,
    ensures
        ghost_before.pursued(target, walls, scatter_mode) matches Ok(after) ==> {
            &&& after.position != step_toward(
                ghost_before.position,
                ghost_before.helper.heading().opposite(),
                next_step(true),
            )
            &&& after.helper.direction != Some(ghost_before.helper.heading().opposite())
            &&& after.helper.direction is Some
        },
{
    let heading = ghost_before.helper.heading();
    let all = candidates(ghost_before.position, heading, walls);
    lemma_candidates_are_steps(ghost_before.position, heading, walls);
    lemma_candidates_exclude_reverse(ghost_before.position, heading, walls);
    if all.len() > 0 {
        lemma_nearest_index_is_first_nearest(all, target);
        lemma_farthest_index_is_first_farthest(all, target);
        let n = nearest(all, target);
        let f = farthest(all, target);
        assert(n == all[nearest_index(all, target)]);
        assert(f == all[farthest_index(all, target)]);
    }
}

/// A ghost that stood clear of the tiles stands clear of them after it has
/// moved: where it ends up it either stood before or it is not blocked.
pub proof fn lemma_move_ends_clear_of_tiles(
    ghost_before: GhostAgent,
    target: Position,
    walls: Seq<TileCollider>,
    scatter_mode: bool,
)
    requires
        ghost_before.position.in_world(),
    ensures
        ghost_before.pursued(target, walls, scatter_mode) matches Ok(after) ==> after.position
            == ghost_before.position || !is_blocked(after.position, walls, default_map_origin()),
{
    let heading = ghost_before.helper.heading();
    let all = candidates(ghost_before.position, heading, walls);
    lemma_candidates_are_steps(ghost_before.position, heading, walls);
    if all.len() > 0 {
        lemma_nearest_index_is_first_nearest(all, target);
        lemma_farthest_index_is_first_farthest(all, target);
    }
}

/// With two legal moves or more and no recovery under way, a ghost ends up
/// on the legal move nearest to what it pursues: no legal move is nearer.
pub proof fn lemma_chase_takes_the_nearest_move(
    ghost_before: GhostAgent,
    target: Position,
    walls: Seq<TileCollider>,
    scatter_mode: bool,
)
    requires
        ghost_before.position.in_world(),
        !ghost_before.in_recovery(walls),
    ensures
        ghost_before.pursued(target, walls, scatter_mode) matches Ok(after) && forall|i: int|
            0 <= i < candidates(ghost_before.position, ghost_before.helper.heading(), walls).len()
                ==> dist2(after.position, target) <= dist2(
                #[trigger] candidates(ghost_before.position, ghost_before.helper.heading(), walls)[i],
                target,
            ),
{
    let all = candidates(ghost_before.position, ghost_before.helper.heading(), walls);
    lemma_nearest_index_is_first_nearest(all, target);
}

/// Whether Blinky takes part in the game.
pub const ALLOW_BLINKY: bool = true;

/// Whether Pinky takes part in the game.
pub const ALLOW_PINKY: bool = true;

/// Whether Inky takes part in the game.
pub const ALLOW_INKY: bool = true;

/// Whether Clyde takes part in the game.
pub const ALLOW_CLYDE: bool = true;

impl GhostPersonality {
    /// The ghost takes part in the game.
    pub open spec fn allowed(self) -> bool {
        match self {
            GhostPersonality::Blinky => ALLOW_BLINKY,
            GhostPersonality::Pinky => ALLOW_PINKY,
            GhostPersonality::Inky => ALLOW_INKY,
            GhostPersonality::Clyde => ALLOW_CLYDE,
        }
    }

    /// Tells whether the ghost takes part in the game.
    pub fn is_allowed(&self) -> (b: bool)
        ensures
            b == self.allowed(),
    {
        match self {
            GhostPersonality::Blinky => ALLOW_BLINKY,
            GhostPersonality::Pinky => ALLOW_PINKY,
            GhostPersonality::Inky => ALLOW_INKY,
            GhostPersonality::Clyde => ALLOW_CLYDE,
        }
    }

    /// The ghost's name.
    pub open spec fn spec_name(&self) -> Seq<char> {
        match self {
            GhostPersonality::Blinky => "Blinky"@,
            GhostPersonality::Pinky => "Pinky"@,
            GhostPersonality::Inky => "Inky"@,
            GhostPersonality::Clyde => "Clyde"@,
        }
    }

    /// The ghost's name.
    pub fn name(&self) -> (name: &'static str)
        ensures
            name@ == self.spec_name(),
    {
        match self {
            GhostPersonality::Blinky => "Blinky",
            GhostPersonality::Pinky => "Pinky",
            GhostPersonality::Inky => "Inky",
            GhostPersonality::Clyde => "Clyde",
        }
    }

    /// Where the picture of the ghost is kept.
    pub open spec fn spec_texture(&self) -> Seq<char> {
        match self {
            GhostPersonality::Blinky => "ghosts/blinky.png"@,
            GhostPersonality::Pinky => "ghosts/pinky.png"@,
            GhostPersonality::Inky => "ghosts/inky.png"@,
            GhostPersonality::Clyde => "ghosts/clyde.png"@,
        }
    }

    /// Where the picture of the ghost is kept.
    pub fn texture(&self) -> (path: &'static str)
        ensures
            path@ == self.spec_texture(),
    {
        match self {
            GhostPersonality::Blinky => "ghosts/blinky.png",
            GhostPersonality::Pinky => "ghosts/pinky.png",
            GhostPersonality::Inky => "ghosts/inky.png",
            GhostPersonality::Clyde => "ghosts/clyde.png",
        }
    }
}

/// A new ghost of the given personality and scatter zone.
pub open spec fn new_ghost(personality: GhostPersonality, scatter_zone: usize) -> GhostAgent {
    GhostAgent {
        alive: true,
        personality,
        state: EntityState::Created,
        has_ai: true,
        stuck_ticks: None,
        award_ai: true,
        scatter_zone,
        house_time: leave_time(personality),
        position: Position { x: 0, y: 0 },
        helper: MovementHelper { direction: None },
    }
}

/// The ghosts that the spawn points bring into the game: a new ghost for
/// each spawn point whose ghost takes part, in the order of the points.
pub open spec fn spawned(spawn_points: Seq<GhostSpawn>) -> Seq<GhostAgent>
    decreases spawn_points.len(),
{
    if spawn_points.len() == 0 {
        Seq::empty()
    } else if spawn_points.last().spawn_for.allowed() {
        spawned(spawn_points.drop_last()).push(
            new_ghost(spawn_points.last().spawn_for, spawn_points.last().power_pellet),
        )
    } else {
        spawned(spawn_points.drop_last())
    }
}

/// A spawn point brings Pinky into the game.
pub open spec fn pinky_present(spawn_points: Seq<GhostSpawn>) -> bool {
    ALLOW_PINKY && exists|i: int|
        0 <= i < spawn_points.len() && (#[trigger] spawn_points[i]).spawn_for
            == GhostPersonality::Pinky
}

/// The ghosts can be brought into the game: Inky needs Pinky to be there.
pub open spec fn can_spawn(spawn_points: Seq<GhostSpawn>) -> bool {
    ALLOW_INKY ==> pinky_present(spawn_points)
}

impl GhostAgent {
    /// Tells whether the spawn points allow the ghosts to be brought into
    /// the game.
    pub fn check_can_spawn(spawn_points: &Vec<GhostSpawn>) -> (ok: bool)
        ensures
            ok == can_spawn(spawn_points@),
    {
        if !ALLOW_INKY {
            return true;
        }
        if !ALLOW_PINKY {
            return false;
        }
        let mut i: usize = 0;
        while i < spawn_points.len()
            invariant
                i <= spawn_points.len(),
                forall|j: int|
                    0 <= j < i ==> (#[trigger] spawn_points@[j]).spawn_for != GhostPersonality::Pinky,
            decreases spawn_points.len() - i,
        {
            if matches!(spawn_points[i].spawn_for, GhostPersonality::Pinky) {
                return true;
            }
            i += 1;
        }
        false
    }

    /// Brings the ghosts into the game: a new ghost for each spawn point
    /// whose ghost takes part.
    pub fn spawn(spawn_points: &Vec<GhostSpawn>) -> (ghosts: Vec<GhostAgent>)
        requires
            can_spawn(spawn_points@),
        ensures
            ghosts@ == spawned(spawn_points@),
            forall|i: int|
                0 <= i < ghosts@.len() ==> (#[trigger] ghosts@[i]).position == (Position {
                    x: 0,
                    y: 0,
                }),
    {
        let mut ghosts: Vec<GhostAgent> = Vec::new();
        let mut i: usize = 0;
        assert(spawn_points@.take(0) =~= Seq::<GhostSpawn>::empty());
        while i < spawn_points.len()
            invariant
                i <= spawn_points.len(),
                ghosts@ == spawned(spawn_points@.take(i as int)),
                forall|j: int|
                    0 <= j < ghosts@.len() ==> (#[trigger] ghosts@[j]).position == (Position {
                        x: 0,
                        y: 0,
                    }),
            decreases spawn_points.len() - i,
        {
            proof {
                let upto = spawn_points@.take(i + 1);
                assert(upto.drop_last() =~= spawn_points@.take(i as int));
                assert(upto.last() == spawn_points@[i as int]);
            }
            let point = spawn_points[i];
            if point.spawn_for.is_allowed() {
                ghosts.push(GhostAgent::new(point.spawn_for, point.power_pellet));
            }
            i += 1;
        }
        assert(spawn_points@.take(spawn_points.len() as int) =~= spawn_points@);
        ghosts
    }

    /// Ensures all ghosts are spawned: where there are spawn points and no
    /// ghosts, the ghosts are brought into the game.
    pub fn enforcer(spawn_points: &Vec<GhostSpawn>, ghosts: &mut Vec<GhostAgent>)
        requires
            spawn_points@.len() > 0 && old(ghosts)@.len() == 0 ==> can_spawn(spawn_points@),
        ensures
            final(ghosts)@ == if spawn_points@.len() > 0 && old(ghosts)@.len() == 0 {
                spawned(spawn_points@)
            } else {
                old(ghosts)@
            },
    {
        if spawn_points.len() != 0 && ghosts.len() == 0 {
            *ghosts = GhostAgent::spawn(spawn_points);
        }
    }
}

} // verus!
