//! The kinds of natural ground a tile can have.

use vstd::prelude::*;

verus! {

/// The natural ground of a tile, before anything is placed on it.
#[derive(Debug, Copy, Clone, Eq, PartialEq, Structural)]
pub enum GroundType {
    Grass,
}

impl GroundType {
    /// Index of the tile variant that renders this ground type.
    pub fn texture_index(&self) -> (r: usize)
        ensures
            r == self.spec_texture_index(),
    {
        match self {
            GroundType::Grass => 2,
        }
    }

    pub open spec fn spec_texture_index(self) -> usize {
        match self {
            GroundType::Grass => 2,
        }
    }
}

} // verus!
