//! Shared constants, positions, directions and entity states.

use vstd::prelude::*;

pub mod enemy;
pub mod food;
pub mod map;
pub mod player;
pub mod table;
pub mod util;

verus! {

/// Fixed-point steps in one world unit. Every coordinate, length and step
/// size in this crate is counted in these steps.
pub const UNIT: i64 = 1000;

/// Tiles covered by one movement step.
pub const STEP_SIZE: i64 = 1;

/// Edge of one tile: 2.5 world units.
pub const TILE_SIZE: i64 = 2500;

/// What a ghost's step is shorter than the player's: 0.5 world units.
pub const GHOST_DEBUFF: i64 = 500;

/// What a ghost's recovery step loses while the player is energized: 1.0
/// world unit.
pub const ENERGIZED_GHOST_DEBUFF: i64 = 1000;

/// How long the player stays energized, in ticks.
pub const ENERGIZED_MAX_LENGTH: u64 = 1333;

/// Ticks that Pinky waits in the house.
pub const PINKY_LEAVE_TIME: u64 = 300;

/// Ticks that Inky waits in the house.
pub const INKY_LEAVE_TIME: u64 = 600;

/// Ticks that Clyde waits in the house.
pub const CLYDE_LEAVE_TIME: u64 = 900;

/// Score at which the one extra life is granted.
pub const EXTRA_LIFE_SCORE_THRESHOLD: usize = 10000;

/// Points for a pac-dot.
pub const PAC_DOT_WORTH: i64 = 10;

/// Points for a power pellet.
pub const POWER_PELLET_WORTH: i64 = 50;

/// Largest absolute coordinate of a position kept in the maze or in an
/// actor. It leaves room for every sum and square that the crate computes
/// in an `i64`.
pub const WORLD_LIMIT: i64 = 100_000_000;

/// Largest absolute coordinate of a point that the crate derives from
/// positions in the world: a step, a position moved by the map origin, a
/// pursuit target.
pub const REACH_LIMIT: i64 = 1_000_000_000;

/// A point of the plane, in fixed-point steps.
#[derive(Clone, Copy, Debug, PartialEq, Eq, Structural)]
pub struct Position {
    pub x: i64,
    pub y: i64,
}

impl Position {
    /// Both coordinates lie within `limit` of zero.
    pub open spec fn within(self, limit: int) -> bool {
        &&& -limit <= self.x <= limit
        &&& -limit <= self.y <= limit
    }

    /// Both coordinates lie within `WORLD_LIMIT` of zero.
    pub open spec fn in_world(self) -> bool {
        self.within(WORLD_LIMIT as int)
    }

    /// Both coordinates lie within three times `WORLD_LIMIT` of zero, as
    /// they do for an actor that has stepped out of the world or left the
    /// house by a gate.
    pub open spec fn near_world(self) -> bool {
        self.within(3 * WORLD_LIMIT)
    }

    /// Both coordinates lie within `REACH_LIMIT` of zero.
    pub open spec fn in_reach(self) -> bool {
        self.within(REACH_LIMIT as int)
    }

    /// The point `dx` to the right of this one and `dy` above it.
    pub open spec fn offset(self, dx: int, dy: int) -> Position {
        Position { x: (self.x + dx) as i64, y: (self.y + dy) as i64 }
    }

    /// The point with the given coordinates.
    pub fn new(x: i64, y: i64) -> (p: Position)
        ensures
            p == (Position { x, y }),
    {
        Position { x, y }
    }

    /// Tells whether the position lies in the world.
    pub fn is_in_world(&self) -> (b: bool)
        ensures
            b == self.in_world(),
    {
        -WORLD_LIMIT <= self.x && self.x <= WORLD_LIMIT && -WORLD_LIMIT <= self.y && self.y
            <= WORLD_LIMIT
    }

    /// Tells whether the position lies within reach.
    pub fn is_in_reach(&self) -> (b: bool)
        ensures
            b == self.in_reach(),
    {
        -REACH_LIMIT <= self.x && self.x <= REACH_LIMIT && -REACH_LIMIT <= self.y && self.y
            <= REACH_LIMIT
    }
}

/// The direction an actor last moved in.
#[derive(Clone, Copy, Debug, PartialEq, Eq, PartialOrd, Ord, Structural)]
pub enum CurrentDirection {
    Up,
    Down,
    Left,
    Right,
    Idle,
}

impl CurrentDirection {
    /// The reverse of a direction; `Idle` is its own reverse.
    pub open spec fn spec_opposite(&self) -> CurrentDirection {
        match self {
            CurrentDirection::Up => CurrentDirection::Down,
            CurrentDirection::Down => CurrentDirection::Up,
            CurrentDirection::Left => CurrentDirection::Right,
            CurrentDirection::Right => CurrentDirection::Left,
            CurrentDirection::Idle => CurrentDirection::Idle,
        }
    }

    /// The reverse of the direction.
    #[verifier::when_used_as_spec(spec_opposite)]
    pub fn opposite(&self) -> (r: CurrentDirection)
        ensures
            r == self.spec_opposite(),
    {
        match self {
            CurrentDirection::Up => CurrentDirection::Down,
            CurrentDirection::Down => CurrentDirection::Up,
            CurrentDirection::Left => CurrentDirection::Right,
            CurrentDirection::Right => CurrentDirection::Left,
            CurrentDirection::Idle => CurrentDirection::Idle,
        }
    }
}

/// Reversing twice gives the direction back.
pub proof fn lemma_opposite_is_involution(d: CurrentDirection)
    ensures
        d.opposite().opposite() == d,
{
}

/// The direction an actor last moved in, if it has moved at all.
#[derive(Clone, Copy, Debug, PartialEq, Eq, Structural)]
pub struct MovementHelper {
    pub direction: Option<CurrentDirection>,
}

impl MovementHelper {
    /// The recorded direction, `Idle` where none is recorded.
    pub open spec fn heading(self) -> CurrentDirection {
        match self.direction {
            Some(d) => d,
            None => CurrentDirection::Idle,
        }
    }

    /// The recorded direction, `Idle` where none is recorded.
    pub fn current(&self) -> (d: CurrentDirection)
        ensures
            d == self.heading(),
    {
        match self.direction {
            Some(d) => d,
            None => CurrentDirection::Idle,
        }
    }
}

/// Where an entity stands in its life cycle. For a ghost `Created` is the
/// spawning state, `Respawning` the wait in the house and `Alive` the
/// active state; `Energized` belongs to the player alone and counts the
/// ticks that are left of it.
#[derive(Clone, Copy, Debug, PartialEq, Eq, Structural)]
pub enum EntityState {
    Alive,
    Dead,
    Respawning,
    Created,
    Energized(u64),
}

/// Steps through the frames of a sprite by hand.
#[derive(Clone, Copy, Debug, PartialEq, Eq, Structural)]
pub struct ManualAnimationControl {
    pub enable: bool,
    pub max_index: usize,
    pub index: usize,
    pub current_index: Option<usize>,
}

/// How the frames of a sprite are chosen.
#[derive(Clone, Copy, Debug, PartialEq, Eq, Structural)]
pub struct AnimationDescriptor {
    /// Allows the main animation controller to control the animation.
    pub main_controller: bool,
    pub reset_on_idle: bool,
    pub manual: ManualAnimationControl,
}

/// The frame that follows `index` for an actor that moves in `direction`.
/// Each direction has a pair of frames that take turns: 0 and 1 to the
/// right, 2 and 3 to the left, 4 and 5 upwards, 6 and 7 downwards. An idle
/// actor goes back to frame 0 where the descriptor says so.
pub open spec fn next_frame(index: usize, direction: CurrentDirection, reset_on_idle: bool) -> usize {
    match direction {
        CurrentDirection::Up => if index == 4 {
            5
        } else {
            4
        },
        CurrentDirection::Down => if index == 6 {
            7
        } else {
            6
        },
        CurrentDirection::Left => if index == 2 {
            3
        } else {
            2
        },
        CurrentDirection::Right => if index % 2 == 0 {
            1
        } else {
            0
        },
        CurrentDirection::Idle => if reset_on_idle {
            0
        } else {
            index
        },
    }
}

/// The frame that a sprite shows after a step of the animation. When the
/// timer has run out and the main controller is in charge, an actor with
/// a direction goes on to its next frame. After that a manual control that
/// is enabled puts its own frame in place, unless its frame lies below its
/// maximum.
pub open spec fn animated(
    index: usize,
    helper: MovementHelper,
    desc: AnimationDescriptor,
    timer_finished: bool,
) -> usize {
    let stepped = if timer_finished && desc.main_controller && helper.direction is Some {
        next_frame(index, helper.direction->Some_0, desc.reset_on_idle)
    } else {
        index
    };
    if desc.manual.enable && desc.manual.max_index <= desc.manual.index {
        desc.manual.index
    } else {
        stepped
    }
}

/// The rules of the animation.
#[derive(Debug)]
pub struct GameController;

impl GameController {
    /// Chooses the frame that a sprite shows next. `index` is the frame it
    /// shows now, and `timer_finished` tells whether the animation's timer
    /// has just run out.
    pub fn animation_controller(
        index: usize,
        helper: &MovementHelper,
        desc: &AnimationDescriptor,
        timer_finished: bool,
    ) -> (frame: usize)
        ensures
            frame == animated(index, *helper, *desc, timer_finished),
    {
        let mut frame = index;
        if timer_finished && desc.main_controller {
            match helper.direction {
                Some(CurrentDirection::Up) => {
                    frame = if index == 4 {
                        5
                    } else {
                        4
                    };
                },
                Some(CurrentDirection::Down) => {
                    frame = if index == 6 {
                        7
                    } else {
                        6
                    };
                },
                Some(CurrentDirection::Left) => {
                    frame = if index == 2 {
                        3
                    } else {
                        2
                    };
                },
                Some(CurrentDirection::Right) => {
                    frame = if index % 2 == 0 {
                        1
                    } else {
                        0
                    };
                },
                Some(CurrentDirection::Idle) => {
                    if desc.reset_on_idle {
                        frame = 0;
                    }
                },
                None => {},
            }
        }
        if desc.manual.enable {
            if desc.manual.max_index > desc.manual.index {
            } else {
                frame = desc.manual.index;
            }
        }
        frame
    }
}

} // verus!
