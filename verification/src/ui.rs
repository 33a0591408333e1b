//! State shared with the on-screen UI.

use vstd::prelude::*;

verus! {

/// Whether the mouse cursor currently hovers over a UI element; while it
/// does, tile interactions are not detected.
#[derive(Debug, Copy, Clone, Eq, PartialEq, Hash, Structural)]
pub enum MouseCursorOverUiState {
    NotOverUI,
    OverUI,
}

impl Default for MouseCursorOverUiState {
    fn default() -> (r: Self)
        ensures
            r == MouseCursorOverUiState::NotOverUI,
    {
        MouseCursorOverUiState::NotOverUI
    }
}

} // verus!
