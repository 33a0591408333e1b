//! The actions a player can perform, as the input layer reports them.

use vstd::prelude::*;

verus! {

/// Marks the entity the player currently controls.
#[derive(Debug, Copy, Clone, Eq, PartialEq, Structural)]
pub struct ControlledByPlayer {}

/// Every discrete action the input layer can report: movement, the
/// interact button, the hotbar slots and the debug overlay toggle.
#[derive(Debug, Copy, Clone, Eq, PartialEq, Hash, Structural)]
pub enum PlayerAction {
    Move,
    Up,
    Down,
    Left,
    Right,
    Interact,
    Hotbar1,
    Hotbar2,
    Hotbar3,
    Hotbar4,
    Hotbar5,
    Hotbar6,
    ToggleDebugOverlay,
}

} // verus!
