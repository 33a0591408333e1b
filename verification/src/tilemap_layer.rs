//! The layers the tile map is rendered in.

use vstd::prelude::*;

verus! {

/// Marks the layer holding the natural ground tiles.
#[derive(Debug, Copy, Clone, Eq, PartialEq, Structural)]
pub struct GroundLayer;

/// Vertical ordering of tile map layers: natural ground below, walkable
/// placements above.
#[derive(Debug, Copy, Clone, Eq, PartialEq, Structural)]
pub enum TilemapLayer {
    Ground,
    Floor,
}

impl TilemapLayer {
    /// Height at which the layer is drawn, in whole units.
    pub fn height(&self) -> (r: u32)
        ensures
            r == (match self {
                TilemapLayer::Ground => 0u32,
                TilemapLayer::Floor => 1u32,
            }),
    {
        match self {
            TilemapLayer::Ground => 0,
            TilemapLayer::Floor => 1,
        }
    }
}

} // verus!
