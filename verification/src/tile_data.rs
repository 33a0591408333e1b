//! Per-tile simulation state: ground type, tilled flag and wall placement.

use vstd::prelude::*;
use crate::CardinalDirection;
use crate::ground_type::GroundType;

verus! {

/// Wall presence on each of a tile's four edges; the edges are independent.
#[derive(Debug, Copy, Clone, Eq, PartialEq, Structural)]
pub struct TileWalls {
    pub north: bool,
    pub east: bool,
    pub south: bool,
    pub west: bool,
}

impl TileWalls {
    /// Whether the edge facing `direction` carries a wall.
    pub fn at(&self, direction: CardinalDirection) -> (r: bool)
        ensures
            r == self.spec_at(direction),
    {
        match direction {
            CardinalDirection::North => self.north,
            CardinalDirection::East => self.east,
            CardinalDirection::South => self.south,
            CardinalDirection::West => self.west,
        }
    }

    /// Sets the wall flag of the edge facing `direction`, leaving the other
    /// three edges as they were.
    pub fn set_at(&mut self, direction: CardinalDirection, value: bool)
        ensures
            *final(self) == old(self).spec_set_at(direction, value),
    {
        match direction {
            CardinalDirection::North => self.north = value,
            CardinalDirection::East => self.east = value,
            CardinalDirection::South => self.south = value,
            CardinalDirection::West => self.west = value,
        }
    }

    pub open spec fn spec_at(self, direction: CardinalDirection) -> bool {
        match direction {
            CardinalDirection::North => self.north,
            CardinalDirection::East => self.east,
            CardinalDirection::South => self.south,
            CardinalDirection::West => self.west,
        }
    }

    pub open spec fn spec_set_at(self, direction: CardinalDirection, value: bool) -> TileWalls {
        match direction {
            CardinalDirection::North => TileWalls { north: value, ..self },
            CardinalDirection::East => TileWalls { east: value, ..self },
            CardinalDirection::South => TileWalls { south: value, ..self },
            CardinalDirection::West => TileWalls { west: value, ..self },
        }
    }
}

impl Default for TileWalls {
    /// No edge carries a wall.
    fn default() -> (r: Self)
        ensures
            r == (TileWalls { north: false, east: false, south: false, west: false }),
    {
        TileWalls { north: false, east: false, south: false, west: false }
    }
}

/// The full simulation state of one tile.
#[derive(Debug, Copy, Clone, Eq, PartialEq, Structural)]
pub struct TileData {
    pub ground_type: GroundType,
    pub is_tilled: bool,
    pub walls: TileWalls,
}

impl TileData {
    /// The state every tile starts in: untilled grass without walls.
    pub open spec fn default_tile() -> TileData {
        TileData {
            ground_type: GroundType::Grass,
            is_tilled: false,
            walls: TileWalls { north: false, east: false, south: false, west: false },
        }
    }
}

impl Default for TileData {
    /// Untilled grass without walls.
    fn default() -> (r: Self)
        ensures
            r == TileData::default_tile(),
    {
        TileData {
            ground_type: GroundType::Grass,
            is_tilled: false,
            walls: TileWalls { north: false, east: false, south: false, west: false },
        }
    }
}

} // verus!
