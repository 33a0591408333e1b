//! Toggles for the debugging grid drawn over the tiles.

use vstd::prelude::*;

verus! {

/// Whether the tile grid overlay is drawn.
#[derive(Debug, Copy, Clone, Eq, PartialEq, Hash, Structural)]
pub enum TileGridRenderingState {
    Hidden,
    Visible,
}

impl Default for TileGridRenderingState {
    fn default() -> (r: Self)
        ensures
            r == TileGridRenderingState::Hidden,
    {
        TileGridRenderingState::Hidden
    }
}

/// Whether the within-tile subdivision overlay is drawn.
#[derive(Debug, Copy, Clone, Eq, PartialEq, Hash, Structural)]
pub enum SubGridRenderingState {
    Hidden,
    Visible,
}

impl Default for SubGridRenderingState {
    fn default() -> (r: Self)
        ensures
            r == SubGridRenderingState::Hidden,
    {
        SubGridRenderingState::Hidden
    }
}

} // verus!
