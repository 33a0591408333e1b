//! Notifications that a tile's derived appearance must be recomputed.

use vstd::prelude::*;
use crate::CHUNK_SIZE;
use crate::helpers::{
    below_of, left_of, right_of, spec_below_of, spec_left_of, spec_right_of, spec_top_of, top_of,
};
use crate::map_pos::{ChunkPos, TilePos};

verus! {

/// Asks the presentation layer to re-derive the appearance of one tile from
/// the current world state.
#[derive(Debug, Copy, Clone, Eq, PartialEq, Structural)]
pub struct UpdateTileEvent {
    pub chunk_pos: ChunkPos,
    pub tile_pos: TilePos,
}

impl UpdateTileEvent {
    pub fn new(chunk_pos: ChunkPos, tile_pos: TilePos) -> (r: Self)
        ensures
            r == (UpdateTileEvent { chunk_pos, tile_pos }),
    {
        UpdateTileEvent { chunk_pos, tile_pos }
    }

    /// The event for the neighbor in direction `spec_left_of` etc., as a
    /// single value.
    pub open spec fn spec_for(addr: (ChunkPos, TilePos)) -> UpdateTileEvent {
        UpdateTileEvent { chunk_pos: addr.0, tile_pos: addr.1 }
    }

    /// The four update events a tilled-state change at a tile demands beyond
    /// the tile itself: west, east, north and south neighbor, in that order.
    pub open spec fn spec_surrounding_tiles(chunk_pos: ChunkPos, tile_pos: TilePos)
        -> Seq<UpdateTileEvent>
    {
        seq![
            Self::spec_for(spec_left_of(chunk_pos, tile_pos)),
            Self::spec_for(spec_right_of(chunk_pos, tile_pos)),
            Self::spec_for(spec_top_of(chunk_pos, tile_pos)),
            Self::spec_for(spec_below_of(chunk_pos, tile_pos)),
        ]
    }

    /// Update events for the four direct neighbors of a tile, crossing chunk
    /// boundaries at chunk edges.
    pub fn surrounding_tiles(chunk_pos: ChunkPos, tile_pos: TilePos) -> (r: [Self; 4])
        requires
            tile_pos.wf(),
            tile_pos.x == 0 ==> chunk_pos.x > i32::MIN,
            tile_pos.x >= CHUNK_SIZE - 1 ==> chunk_pos.x < i32::MAX,
            tile_pos.y == 0 ==> chunk_pos.y > i32::MIN,
            tile_pos.y >= CHUNK_SIZE - 1 ==> chunk_pos.y < i32::MAX,
        ensures
            r@ == Self::spec_surrounding_tiles(chunk_pos, tile_pos),
            forall|i: int| 0 <= i < 4 ==> (#[trigger] r@[i]).tile_pos.wf(),
    {
        let left = left_of(&chunk_pos, &tile_pos);
        let right = right_of(&chunk_pos, &tile_pos);
        let top = top_of(&chunk_pos, &tile_pos);
        let bottom = below_of(&chunk_pos, &tile_pos);
        let r = [
            UpdateTileEvent::new(left.0, left.1),
            UpdateTileEvent::new(right.0, right.1),
            UpdateTileEvent::new(top.0, top.1),
            UpdateTileEvent::new(bottom.0, bottom.1),
        ];
        proof {
            assert(r@ =~= Self::spec_surrounding_tiles(chunk_pos, tile_pos));
        }
        r
    }
}

} // verus!
