//! Addressing: chunk coordinates, tile coordinates inside a chunk, and the
//! composite world tile address.

use vstd::prelude::*;
use crate::CHUNK_SIZE;

verus! {

/// Signed 2D coordinate of a chunk in the world.
#[derive(Debug, Copy, Clone, Eq, PartialEq, Hash, Structural)]
pub struct ChunkPos {
    pub x: i32,
    pub y: i32,
}

impl ChunkPos {
    pub fn new(x: i32, y: i32) -> (r: ChunkPos)
        ensures
            r == (ChunkPos { x, y }),
    {
        ChunkPos { x, y }
    }
}

/// Unsigned 2D coordinate of a tile inside a chunk; valid coordinates lie in
/// `[0, CHUNK_SIZE)` on both axes.
#[derive(Debug, Copy, Clone, Eq, PartialEq, Hash, Structural)]
pub struct TilePos {
    pub x: u32,
    pub y: u32,
}

impl TilePos {
    pub fn new(x: u32, y: u32) -> (r: TilePos)
        ensures
            r == (TilePos { x, y }),
    {
        TilePos { x, y }
    }

    /// Both coordinates lie inside a chunk.
    pub open spec fn wf(self) -> bool {
        self.x < CHUNK_SIZE && self.y < CHUNK_SIZE
    }

    /// Position in the flat per-chunk tile array: `x + y * CHUNK_SIZE`.
    pub open spec fn spec_index(self) -> int {
        self.x + self.y * CHUNK_SIZE
    }
}

/// A world tile address: the owning chunk plus the tile inside it.
#[derive(Debug, Copy, Clone, Eq, PartialEq, Hash, Structural)]
pub struct MapPos {
    pub chunk: ChunkPos,
    pub tile: TilePos,
}

impl MapPos {
    pub fn new(chunk_pos: ChunkPos, tile_pos: TilePos) -> (r: MapPos)
        ensures
            r == (MapPos { chunk: chunk_pos, tile: tile_pos }),
    {
        MapPos { tile: tile_pos, chunk: chunk_pos }
    }

    pub open spec fn wf(self) -> bool {
        self.tile.wf()
    }
}

/// The tile the player's cursor currently rests on.
#[derive(Debug, Copy, Clone, Eq, PartialEq, Structural)]
pub struct TileCursor {
    pub pos: MapPos,
}

impl TileCursor {
    /// Absolute world coordinates of the tile: `chunk * CHUNK_SIZE + tile`
    /// on each axis.
    pub fn global_position(&self) -> (r: (i64, i64))
        ensures
            r.0 == self.pos.chunk.x * CHUNK_SIZE + self.pos.tile.x,
            r.1 == self.pos.chunk.y * CHUNK_SIZE + self.pos.tile.y,
    {
        (
            self.pos.chunk.x as i64 * CHUNK_SIZE as i64 + self.pos.tile.x as i64,
            self.pos.chunk.y as i64 * CHUNK_SIZE as i64 + self.pos.tile.y as i64,
        )
    }
}

} // verus!
