//! Neighbor addressing across chunk boundaries, and the autotile index a
//! tile's appearance is derived from.

use vstd::prelude::*;
use crate::CHUNK_SIZE;
use crate::map_pos::{ChunkPos, TilePos};
use crate::world_data::WorldData;

verus! {

/// Address of the tile directly west, wrapping into the neighboring chunk at
/// the chunk edge.
pub open spec fn spec_left_of(chunk: ChunkPos, tile: TilePos) -> (ChunkPos, TilePos) {
    if tile.x == 0 {
        (
            ChunkPos { x: (chunk.x - 1) as i32, y: chunk.y },
            TilePos { x: (CHUNK_SIZE - 1) as u32, y: tile.y },
        )
    } else {
        (chunk, TilePos { x: (tile.x - 1) as u32, y: tile.y })
    }
}

/// Address of the tile directly east, wrapping into the neighboring chunk at
/// the chunk edge.
pub open spec fn spec_right_of(chunk: ChunkPos, tile: TilePos) -> (ChunkPos, TilePos) {
    if tile.x >= CHUNK_SIZE - 1 {
        (ChunkPos { x: (chunk.x + 1) as i32, y: chunk.y }, TilePos { x: 0, y: tile.y })
    } else {
        (chunk, TilePos { x: (tile.x + 1) as u32, y: tile.y })
    }
}

/// Address of the tile directly south, wrapping into the neighboring chunk
/// at the chunk edge.
pub open spec fn spec_below_of(chunk: ChunkPos, tile: TilePos) -> (ChunkPos, TilePos) {
    if tile.y == 0 {
        (
            ChunkPos { x: chunk.x, y: (chunk.y - 1) as i32 },
            TilePos { x: tile.x, y: (CHUNK_SIZE - 1) as u32 },
        )
    } else {
        (chunk, TilePos { x: tile.x, y: (tile.y - 1) as u32 })
    }
}

/// Address of the tile directly north, wrapping into the neighboring chunk
/// at the chunk edge.
pub open spec fn spec_top_of(chunk: ChunkPos, tile: TilePos) -> (ChunkPos, TilePos) {
    if tile.y >= CHUNK_SIZE - 1 {
        (ChunkPos { x: chunk.x, y: (chunk.y + 1) as i32 }, TilePos { x: tile.x, y: 0 })
    } else {
        (chunk, TilePos { x: tile.x, y: (tile.y + 1) as u32 })
    }
}

pub fn left_of(chunk_pos: &ChunkPos, tile_pos: &TilePos) -> (r: (ChunkPos, TilePos))
    requires
        tile_pos.wf(),
        tile_pos.x == 0 ==> chunk_pos.x > i32::MIN,
    ensures
        r == spec_left_of(*chunk_pos, *tile_pos),
        r.1.wf(),
{
    if tile_pos.x == 0 {
        (
            ChunkPos::new(chunk_pos.x - 1, chunk_pos.y),
            TilePos::new(CHUNK_SIZE as u32 - 1, tile_pos.y),
        )
    } else {
        (*chunk_pos, TilePos::new(tile_pos.x - 1, tile_pos.y))
    }
}

pub fn right_of(chunk_pos: &ChunkPos, tile_pos: &TilePos) -> (r: (ChunkPos, TilePos))
    requires
        tile_pos.wf(),
        tile_pos.x >= CHUNK_SIZE - 1 ==> chunk_pos.x < i32::MAX,
    ensures
        r == spec_right_of(*chunk_pos, *tile_pos),
        r.1.wf(),
{
    if tile_pos.x >= CHUNK_SIZE as u32 - 1 {
        (ChunkPos::new(chunk_pos.x + 1, chunk_pos.y), TilePos::new(0, tile_pos.y))
    } else {
        (*chunk_pos, TilePos::new(tile_pos.x + 1, tile_pos.y))
    }
}

pub fn below_of(chunk_pos: &ChunkPos, tile_pos: &TilePos) -> (r: (ChunkPos, TilePos))
    requires
        tile_pos.wf(),
        tile_pos.y == 0 ==> chunk_pos.y > i32::MIN,
    ensures
        r == spec_below_of(*chunk_pos, *tile_pos),
        r.1.wf(),
{
    if tile_pos.y == 0 {
        (
            ChunkPos::new(chunk_pos.x, chunk_pos.y - 1),
            TilePos::new(tile_pos.x, CHUNK_SIZE as u32 - 1),
        )
    } else {
        (*chunk_pos, TilePos::new(tile_pos.x, tile_pos.y - 1))
    }
}

pub fn top_of(chunk_pos: &ChunkPos, tile_pos: &TilePos) -> (r: (ChunkPos, TilePos))
    requires
        tile_pos.wf(),
        tile_pos.y >= CHUNK_SIZE - 1 ==> chunk_pos.y < i32::MAX,
    ensures
        r == spec_top_of(*chunk_pos, *tile_pos),
        r.1.wf(),
{
    if tile_pos.y >= CHUNK_SIZE as u32 - 1 {
        (ChunkPos::new(chunk_pos.x, chunk_pos.y + 1), TilePos::new(tile_pos.x, 0))
    } else {
        (*chunk_pos, TilePos::new(tile_pos.x, tile_pos.y + 1))
    }
}

/// Whether the tile at the given address is tilled; an address in a chunk
/// that is not loaded counts as untilled.
pub open spec fn spec_tilled_at(world: WorldData, addr: (ChunkPos, TilePos)) -> bool {
    &&& world.has_chunk(addr.0)
    &&& world.chunk_of(addr.0).spec_at(addr.1.x as int, addr.1.y as int).is_tilled
}

/// The 16-entry autotile table: which tile variant to display, selected by
/// which of the four direct neighbors are tilled.
pub open spec fn spec_autotile_index(up: bool, down: bool, left: bool, right: bool) -> usize {
    if up {
        if down {
            if left {
                if right { 10 } else { 11 }
            } else if right { 9 } else { 8 }
        } else if left {
            if right { 14 } else { 15 }
        } else {
            if right { 13 } else { 12 }
        }
    } else if down {
        if left {
            if right { 6 } else { 7 }
        } else if right { 5 } else { 4 }
    } else if left {
        if right { 2 } else { 3 }
    } else {
        if right { 1 } else { 0 }
    }
}

/// Recomputes the autotile index of the tile at `pos` in the chunk at
/// `chunk_pos` from the tilled state of its four direct neighbors, crossing
/// chunk boundaries where the tile sits at a chunk edge. A neighbor in a
/// chunk that is not loaded counts as untilled.
pub fn determine_texture_index(
    pos: &TilePos,
    chunk_pos: &ChunkPos,
    world_data: &WorldData,
) -> (r: usize)
    requires
        world_data.wf(),
        world_data.has_chunk(*chunk_pos),
        pos.wf(),
        pos.x == 0 ==> chunk_pos.x > i32::MIN,
        pos.x >= CHUNK_SIZE - 1 ==> chunk_pos.x < i32::MAX,
        pos.y == 0 ==> chunk_pos.y > i32::MIN,
        pos.y >= CHUNK_SIZE - 1 ==> chunk_pos.y < i32::MAX,
    ensures
        r == spec_autotile_index(
            spec_tilled_at(*world_data, spec_top_of(*chunk_pos, *pos)),
            spec_tilled_at(*world_data, spec_below_of(*chunk_pos, *pos)),
            spec_tilled_at(*world_data, spec_left_of(*chunk_pos, *pos)),
            spec_tilled_at(*world_data, spec_right_of(*chunk_pos, *pos)),
        ),
{
    let chunk = world_data.get_chunk(chunk_pos).unwrap();

    let up = if pos.y < CHUNK_SIZE as u32 - 1 {
        chunk.at(pos.x, pos.y + 1).is_tilled
    } else {
        match world_data.get_chunk(&ChunkPos::new(chunk_pos.x, chunk_pos.y + 1)) {
            Some(c) => c.at(pos.x, 0).is_tilled,
            None => false,
        }
    };
    let down = if pos.y > 0 {
        chunk.at(pos.x, pos.y - 1).is_tilled
    } else {
        match world_data.get_chunk(&ChunkPos::new(chunk_pos.x, chunk_pos.y - 1)) {
            Some(c) => c.at(pos.x, CHUNK_SIZE as u32 - 1).is_tilled,
            None => false,
        }
    };
    let right = if pos.x < CHUNK_SIZE as u32 - 1 {
        chunk.at(pos.x + 1, pos.y).is_tilled
    } else {
        match world_data.get_chunk(&ChunkPos::new(chunk_pos.x + 1, chunk_pos.y)) {
            Some(c) => c.at(0, pos.y).is_tilled,
            None => false,
        }
    };
    let left = if pos.x > 0 {
        chunk.at(pos.x - 1, pos.y).is_tilled
    } else {
        match world_data.get_chunk(&ChunkPos::new(chunk_pos.x - 1, chunk_pos.y)) {
            Some(c) => c.at(CHUNK_SIZE as u32 - 1, pos.y).is_tilled,
            None => false,
        }
    };

    if up {
        if down {
            if left {
                if right { 10 } else { 11 }
            } else if right { 9 } else { 8 }
        } else if left {
            if right { 14 } else { 15 }
        } else {
            if right { 13 } else { 12 }
        }
    } else if down {
        if left {
            if right { 6 } else { 7 }
        } else if right { 5 } else { 4 }
    } else if left {
        if right { 2 } else { 3 }
    } else {
        if right { 1 } else { 0 }
    }
}

/// A tile whose four direct neighbors are all tilled always gets the single
/// all-sides variant, and one with no tilled neighbor always gets the
/// isolated variant.
pub proof fn lemma_autotile_extremes()
    ensures
        spec_autotile_index(true, true, true, true) == 10,
        spec_autotile_index(false, false, false, false) == 0,
{
}

/// The neighbor lookup is symmetric across a chunk boundary: for a tile in
/// the leftmost column, the west neighbor read is the tile in the rightmost
/// column of the same row of the chunk directly west.
pub proof fn lemma_autotile_chunk_boundary(world: WorldData, chunk: ChunkPos, tile: TilePos)
    requires
        tile.wf(),
        tile.x == 0,
        chunk.x > i32::MIN,
    ensures
        ({
            let west = ChunkPos { x: (chunk.x - 1) as i32, y: chunk.y };
            spec_tilled_at(world, spec_left_of(chunk, tile)) == (world.has_chunk(west)
                && world.chunk_of(west).spec_at(CHUNK_SIZE - 1, tile.y as int).is_tilled)
        }),
{
}

} // verus!
