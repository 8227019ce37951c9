//! The mode that the ghosts as a group are in.

use vstd::prelude::*;

verus! {

/// What the ghosts as a group do.
#[derive(Clone, Copy, Debug, PartialEq, Eq, Hash, Structural)]
pub enum GhostState {
    Chase,
    Scatter,
    /// Disables the ghosts' AI.
    Frozen,
}

impl Default for GhostState {
    /// The ghosts start frozen.
    fn default() -> (state: GhostState)
        ensures
            state == GhostState::Frozen,
    {
        GhostState::Frozen
    }
}

} // verus!
