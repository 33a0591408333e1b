//! Toggles the debugging views offer.

use vstd::prelude::*;

verus! {

/// Whether wall visuals are currently shown.
#[derive(Debug, Copy, Clone, Eq, PartialEq, Hash, Structural)]
pub enum DebugWallVisibilityState {
    Visible,
    Hidden,
}

impl Default for DebugWallVisibilityState {
    fn default() -> (r: Self)
        ensures
            r == DebugWallVisibilityState::Visible,
    {
        DebugWallVisibilityState::Visible
    }
}

} // verus!
