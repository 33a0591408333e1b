//! The world: a map from chunk coordinate to chunk, with the operations the
//! interaction resolver and the growth scheduler need.
//!
//! Every chunk inside the game's active bounds is inserted once at world
//! initialization; looking up a missing chunk is a programming error, so all
//! accessors require the chunk to be present.

use vstd::prelude::*;
use crate::CHUNK_SIZE;
use crate::CardinalDirection;
use crate::chunk_data::{ChunkData, CropData};
use crate::map_pos::{ChunkPos, MapPos};
use crate::tile_data::TileData;

verus! {

/// One chunk together with the coordinate it sits at.
pub struct ChunkEntry {
    pub pos: ChunkPos,
    pub data: ChunkData,
}

/// No two entries share a coordinate.
pub open spec fn unique_positions(s: Seq<ChunkEntry>) -> bool {
    forall|i: int, j: int|
        0 <= i < s.len() && 0 <= j < s.len() && i != j
            ==> (#[trigger] s[i]).pos != (#[trigger] s[j]).pos
}

/// Whether some entry sits at `p`.
pub open spec fn seq_has_chunk(s: Seq<ChunkEntry>, p: ChunkPos) -> bool {
    exists|i: int| 0 <= i < s.len() && (#[trigger] s[i]).pos == p
}

/// Index of the entry at `p` (meaningful when `seq_has_chunk(s, p)`).
pub open spec fn seq_index_of(s: Seq<ChunkEntry>, p: ChunkPos) -> int {
    choose|i: int| 0 <= i < s.len() && (#[trigger] s[i]).pos == p
}

/// The chunk stored at `p` (meaningful when `seq_has_chunk(s, p)`).
pub open spec fn seq_chunk_of(s: Seq<ChunkEntry>, p: ChunkPos) -> ChunkData {
    s[seq_index_of(s, p)].data
}

/// With unique positions, any entry whose position is `p` is the one that
/// `seq_chunk_of` returns.
proof fn lemma_chunk_of_at(s: Seq<ChunkEntry>, i: int)
    requires
        unique_positions(s),
        0 <= i < s.len(),
    ensures
        seq_has_chunk(s, s[i].pos),
        seq_index_of(s, s[i].pos) == i,
        seq_chunk_of(s, s[i].pos) == s[i].data,
{
    let p = s[i].pos;
    assert(seq_has_chunk(s, p));
    let j = seq_index_of(s, p);
    assert(0 <= j < s.len() && s[j].pos == p);
    if i != j {
        assert(s[i].pos != s[j].pos);
    }
}

/// Replacing the entry at index `i` by one at the same position keeps the
/// positions unique, keeps the set of occupied coordinates, stores the new
/// chunk at that position and leaves every other position's chunk as it was.
proof fn lemma_entry_update(s: Seq<ChunkEntry>, i: int, e: ChunkEntry)
    requires
        unique_positions(s),
        0 <= i < s.len(),
        e.pos == s[i].pos,
    ensures
        unique_positions(s.update(i, e)),
        forall|p: ChunkPos| seq_has_chunk(s.update(i, e), p) <==> seq_has_chunk(s, p),
        seq_chunk_of(s.update(i, e), e.pos) == e.data,
        forall|p: ChunkPos| p != e.pos && seq_has_chunk(s, p)
            ==> seq_chunk_of(s.update(i, e), p) == seq_chunk_of(s, p),
{
    let s2 = s.update(i, e);
    assert forall|p: ChunkPos| seq_has_chunk(s2, p) <==> seq_has_chunk(s, p) by {
        if seq_has_chunk(s2, p) {
            let j = choose|j: int| 0 <= j < s2.len() && (#[trigger] s2[j]).pos == p;
            if j == i {
                assert(s[i].pos == p);
            } else {
                assert(s[j].pos == p);
            }
            assert(seq_has_chunk(s, p));
        }
        if seq_has_chunk(s, p) {
            let j = choose|j: int| 0 <= j < s.len() && (#[trigger] s[j]).pos == p;
            if j == i {
                assert(s2[i].pos == p);
            } else {
                assert(s2[j].pos == p);
            }
            assert(seq_has_chunk(s2, p));
        }
    }
    lemma_chunk_of_at(s2, i);
    assert forall|p: ChunkPos| p != e.pos && seq_has_chunk(s, p)
        implies seq_chunk_of(s2, p) == seq_chunk_of(s, p) by {
        let j = seq_index_of(s, p);
        assert(0 <= j < s.len() && s[j].pos == p);
        assert(j != i);
        assert(s2[j].pos == p);
        lemma_chunk_of_at(s2, j);
        lemma_chunk_of_at(s, j);
    }
}

/// The world's full simulation state: every active chunk, keyed by its
/// coordinate.
pub struct WorldData {
    chunks: Vec<ChunkEntry>,
}

impl WorldData {
    /// The stored entries, in insertion order.
    pub closed spec fn entries(self) -> Seq<ChunkEntry> {
        self.chunks@
    }

    /// Coordinates are unique and every chunk is well formed.
    pub open spec fn wf(self) -> bool {
        &&& unique_positions(self.entries())
        &&& forall|i: int| 0 <= i < self.entries().len()
            ==> (#[trigger] self.entries()[i]).data.wf()
    }

    /// Whether a chunk is loaded at `p`.
    pub open spec fn has_chunk(self, p: ChunkPos) -> bool {
        seq_has_chunk(self.entries(), p)
    }

    /// The chunk at `p` (meaningful when `has_chunk(p)`).
    pub open spec fn chunk_of(self, p: ChunkPos) -> ChunkData {
        seq_chunk_of(self.entries(), p)
    }

    /// The tile at a world address (meaningful when its chunk is loaded).
    pub open spec fn tile_of(self, pos: MapPos) -> TileData {
        self.chunk_of(pos.chunk).spec_at(pos.tile.x as int, pos.tile.y as int)
    }

    /// The crop at a world address (meaningful when its chunk is loaded).
    pub open spec fn crop_of(self, pos: MapPos) -> Option<CropData> {
        self.chunk_of(pos.chunk).spec_crop_at(pos.tile.x as int, pos.tile.y as int)
    }

    /// The set of occupied coordinates and the chunks stored at every other
    /// coordinate are unchanged, and at `at` only the given fields may have
    /// changed.
    pub open spec fn same_chunks_except(self, other: WorldData, at: ChunkPos) -> bool {
        &&& forall|p: ChunkPos| other.has_chunk(p) <==> self.has_chunk(p)
        &&& forall|p: ChunkPos| p != at && self.has_chunk(p)
            ==> other.chunk_of(p) == self.chunk_of(p)
    }

    /// An empty world, to be populated by `insert_chunk`.
    pub fn new() -> (r: WorldData)
        ensures
            r.wf(),
            forall|p: ChunkPos| !r.has_chunk(p),
    {
        WorldData { chunks: Vec::new() }
    }

    /// Loads a chunk at a coordinate that holds none yet. World
    /// initialization calls this once for every coordinate inside the active
    /// bounds.
    pub fn insert_chunk(&mut self, pos: ChunkPos, data: ChunkData)
        requires
            old(self).wf(),
            !old(self).has_chunk(pos),
            data.wf(),
        ensures
            final(self).wf(),
            forall|p: ChunkPos| #[trigger] final(self).has_chunk(p)
                <==> old(self).has_chunk(p) || p == pos,
            final(self).chunk_of(pos) == data,
            forall|p: ChunkPos| p != pos && old(self).has_chunk(p)
                ==> final(self).chunk_of(p) == old(self).chunk_of(p),
    {
        self.chunks.push(ChunkEntry { pos, data });
        proof {
            let s = old(self).entries();
            let s2 = self.entries();
            let n = s.len() as int;
            assert(s2 =~= s.push(ChunkEntry { pos, data }));
            assert forall|i: int, j: int|
                0 <= i < s2.len() && 0 <= j < s2.len() && i != j
                implies (#[trigger] s2[i]).pos != (#[trigger] s2[j]).pos by {
                if i < n && j < n {
                    assert(s[i] == s2[i] && s[j] == s2[j]);
                } else if i == n {
                    assert(s2[j].pos == s[j].pos);
                    if s2[i].pos == s2[j].pos {
                        assert(seq_has_chunk(s, pos));
                    }
                } else {
                    assert(s2[i].pos == s[i].pos);
                    if s2[i].pos == s2[j].pos {
                        assert(seq_has_chunk(s, pos));
                    }
                }
            }
            lemma_chunk_of_at(s2, n);
            assert forall|p: ChunkPos| #[trigger] final(self).has_chunk(p)
                implies old(self).has_chunk(p) || p == pos by {
                let i = seq_index_of(s2, p);
                if i < n {
                    assert(s[i].pos == p);
                }
            }
            assert forall|p: ChunkPos| old(self).has_chunk(p) || p == pos
                implies #[trigger] final(self).has_chunk(p) by {
                if p == pos {
                    assert(s2[n].pos == p);
                } else {
                    let i = seq_index_of(s, p);
                    assert(0 <= i < n && s[i].pos == p);
                    assert(s2[i].pos == p);
                }
            }
            assert forall|p: ChunkPos| p != pos && old(self).has_chunk(p)
                implies final(self).chunk_of(p) == old(self).chunk_of(p) by {
                let i = seq_index_of(s, p);
                assert(0 <= i < n && s[i].pos == p);
                assert(s2[i].pos == p);
                lemma_chunk_of_at(s2, i);
                lemma_chunk_of_at(s, i);
            }
        }
    }


    /// Number of loaded chunks.
    pub fn chunk_count(&self) -> (r: usize)
        ensures
            r == self.entries().len(),
    {
        self.chunks.len()
    }

    /// Coordinate of the chunk entry at `i`, in insertion order.
    pub fn entry_pos(&self, i: usize) -> (r: ChunkPos)
        requires
            i < self.entries().len(),
        ensures
            r == self.entries()[i as int].pos,
            self.wf() ==> self.has_chunk(r) && self.chunk_of(r) == self.entries()[i as int].data,
    {
        proof {
            if self.wf() {
                lemma_chunk_of_at(self.entries(), i as int);
            }
        }
        self.chunks[i].pos
    }

    /// The chunk entry at `i`, in insertion order.
    pub fn entry_data(&self, i: usize) -> (r: &ChunkData)
        requires
            i < self.entries().len(),
        ensures
            *r == self.entries()[i as int].data,
    {
        &self.chunks[i].data
    }

    /// Index of the entry for `pos`, if one is loaded.
    fn chunk_index(&self, pos: &ChunkPos) -> (r: Option<usize>)
        requires
            self.wf(),
        ensures
            r is Some <==> self.has_chunk(*pos),
            r matches Some(i) ==> i < self.entries().len()
                && self.entries()[i as int].pos == *pos
                && self.entries()[i as int].data == self.chunk_of(*pos),
    {
        let n = self.chunks.len();
        for i in 0..n
            invariant
                n == self.entries().len(),
                self.wf(),
                forall|j: int| 0 <= j < i ==> (#[trigger] self.entries()[j]).pos != *pos,
        {
            if self.chunks[i].pos == *pos {
                proof {
                    lemma_chunk_of_at(self.entries(), i as int);
                }
                return Some(i);
            }
        }
        None
    }

    /// Whether a chunk is loaded at `pos`.
    pub fn contains_chunk(&self, pos: &ChunkPos) -> (r: bool)
        requires
            self.wf(),
        ensures
            r == self.has_chunk(*pos),
    {
        self.chunk_index(pos).is_some()
    }

    /// The chunk at `pos`, if one is loaded.
    pub fn get_chunk(&self, pos: &ChunkPos) -> (r: Option<&ChunkData>)
        requires
            self.wf(),
        ensures
            r is Some <==> self.has_chunk(*pos),
            r matches Some(c) ==> *c == self.chunk_of(*pos),
    {
        match self.chunk_index(pos) {
            Some(i) => Some(&self.chunks[i].data),
            None => None,
        }
    }

    /// The tile at a world address. The chunk must be loaded.
    pub fn tile_at(&self, pos: &MapPos) -> (r: TileData)
        requires
            self.wf(),
            self.has_chunk(pos.chunk),
            pos.wf(),
        ensures
            r == self.tile_of(*pos),
    {
        let i = self.chunk_index(&pos.chunk).unwrap();
        *self.chunks[i].data.at_pos(&pos.tile)
    }

    /// The crop at a world address, if any. The chunk must be loaded.
    pub fn crop_at(&self, pos: &MapPos) -> (r: Option<CropData>)
        requires
            self.wf(),
            self.has_chunk(pos.chunk),
            pos.wf(),
        ensures
            r == self.crop_of(*pos),
    {
        let i = self.chunk_index(&pos.chunk).unwrap();
        self.chunks[i].data.crop_at(&pos.tile)
    }

    /// Sets the tilled flag of the tile at `pos`, leaving the tile's other
    /// fields, every other tile, every crop and every other chunk unchanged.
    pub fn set_tilled(&mut self, pos: &MapPos, value: bool)
        requires
            old(self).wf(),
            old(self).has_chunk(pos.chunk),
            pos.wf(),
        ensures
            final(self).wf(),
            old(self).same_chunks_except(*final(self), pos.chunk),
            final(self).chunk_of(pos.chunk).spec_tiles()
                == old(self).chunk_of(pos.chunk).spec_tiles().update(
                    pos.tile.spec_index(),
                    (TileData { is_tilled: value, ..old(self).tile_of(*pos) }),
                ),
            final(self).chunk_of(pos.chunk).spec_crops()
                == old(self).chunk_of(pos.chunk).spec_crops(),
    {
        let i = self.chunk_index(&pos.chunk).unwrap();
        let ghost s = self.entries();
        let entry = &mut self.chunks[i];
        entry.data.set_at_pos(&pos.tile, value);
        proof {
            lemma_entry_update(s, i as int, self.entries()[i as int]);
        }
    }

    /// Sets the wall flag on edge `direction` of the tile at `pos`, leaving
    /// everything else unchanged.
    pub fn set_wall(&mut self, pos: &MapPos, direction: CardinalDirection, value: bool)
        requires
            old(self).wf(),
            old(self).has_chunk(pos.chunk),
            pos.wf(),
        ensures
            final(self).wf(),
            old(self).same_chunks_except(*final(self), pos.chunk),
            final(self).chunk_of(pos.chunk).spec_tiles()
                == old(self).chunk_of(pos.chunk).spec_tiles().update(
                    pos.tile.spec_index(),
                    (TileData {
                        walls: old(self).tile_of(*pos).walls.spec_set_at(direction, value),
                        ..old(self).tile_of(*pos)
                    }),
                ),
            final(self).chunk_of(pos.chunk).spec_crops()
                == old(self).chunk_of(pos.chunk).spec_crops(),
    {
        let i = self.chunk_index(&pos.chunk).unwrap();
        let ghost s = self.entries();
        let entry = &mut self.chunks[i];
        let old_tile = *entry.data.at_pos(&pos.tile);
        let mut walls = old_tile.walls;
        walls.set_at(direction, value);
        entry.data.put_at(pos.tile.x, pos.tile.y, TileData { walls, ..old_tile });
        proof {
            lemma_entry_update(s, i as int, self.entries()[i as int]);
        }
    }

    /// Puts a crop on the tile at `pos`, replacing any crop already there;
    /// everything else is unchanged.
    pub fn insert_crop(&mut self, pos: &MapPos, crop: CropData)
        requires
            old(self).wf(),
            old(self).has_chunk(pos.chunk),
            pos.wf(),
        ensures
            final(self).wf(),
            old(self).same_chunks_except(*final(self), pos.chunk),
            final(self).chunk_of(pos.chunk).spec_crops()
                == old(self).chunk_of(pos.chunk).spec_crops().update(
                    pos.tile.spec_index(),
                    Some(crop),
                ),
            final(self).chunk_of(pos.chunk).spec_tiles()
                == old(self).chunk_of(pos.chunk).spec_tiles(),
    {
        let i = self.chunk_index(&pos.chunk).unwrap();
        let ghost s = self.entries();
        let entry = &mut self.chunks[i];
        entry.data.insert_crop(&pos.tile, crop);
        proof {
            lemma_entry_update(s, i as int, self.entries()[i as int]);
        }
    }

    /// Removes and returns the crop on the tile at `pos`, if any; everything
    /// else is unchanged.
    pub fn remove_crop(&mut self, pos: &MapPos) -> (r: Option<CropData>)
        requires
            old(self).wf(),
            old(self).has_chunk(pos.chunk),
            pos.wf(),
        ensures
            final(self).wf(),
            old(self).same_chunks_except(*final(self), pos.chunk),
            r == old(self).crop_of(*pos),
            final(self).chunk_of(pos.chunk).spec_crops()
                == old(self).chunk_of(pos.chunk).spec_crops().update(
                    pos.tile.spec_index(),
                    None::<CropData>,
                ),
            final(self).chunk_of(pos.chunk).spec_tiles()
                == old(self).chunk_of(pos.chunk).spec_tiles(),
    {
        let i = self.chunk_index(&pos.chunk).unwrap();
        let ghost s = self.entries();
        let entry = &mut self.chunks[i];
        let r = entry.data.remove_crop(&pos.tile);
        proof {
            lemma_entry_update(s, i as int, self.entries()[i as int]);
        }
        r
    }
}

impl Default for WorldData {
    /// The world the game starts with: default chunks at the four
    /// coordinates whose components are -1 or 0.
    fn default() -> (r: Self)
        ensures
            r.wf(),
            forall|p: ChunkPos| #[trigger] r.has_chunk(p)
                <==> (p.x == -1 || p.x == 0) && (p.y == -1 || p.y == 0),
            forall|p: ChunkPos, i: int|
                r.has_chunk(p) && 0 <= i < CHUNK_SIZE * CHUNK_SIZE
                    ==> (#[trigger] r.chunk_of(p).spec_tiles()[i])
                            == TileData::default_tile()
                        && r.chunk_of(p).spec_crops()[i] is None,
    {
        let mut result = WorldData::new();
        result.insert_chunk(ChunkPos { x: -1, y: -1 }, ChunkData::default());
        result.insert_chunk(ChunkPos { x: -1, y: 0 }, ChunkData::default());
        result.insert_chunk(ChunkPos { x: 0, y: -1 }, ChunkData::default());
        result.insert_chunk(ChunkPos { x: 0, y: 0 }, ChunkData::default());
        result
    }
}



/// Tilling a tile and then untilling it leaves the tile untilled and has no
/// crop side effects: for any worlds `w1`, `w2` that `set_tilled(pos, true)`
/// and then `set_tilled(pos, false)` left behind, the tile reads untilled,
/// its ground type and walls are as they started, every other tile and every
/// crop in the world is unchanged, and no chunk appeared or vanished.
pub proof fn lemma_set_tilled_roundtrip(w0: WorldData, w1: WorldData, w2: WorldData, pos: MapPos)
    requires
        w0.wf(),
        w0.has_chunk(pos.chunk),
        pos.wf(),
        w0.same_chunks_except(w1, pos.chunk),
        w1.chunk_of(pos.chunk).spec_tiles() == w0.chunk_of(pos.chunk).spec_tiles().update(
            pos.tile.spec_index(),
            (TileData { is_tilled: true, ..w0.tile_of(pos) }),
        ),
        w1.chunk_of(pos.chunk).spec_crops() == w0.chunk_of(pos.chunk).spec_crops(),
        w1.same_chunks_except(w2, pos.chunk),
        w2.chunk_of(pos.chunk).spec_tiles() == w1.chunk_of(pos.chunk).spec_tiles().update(
            pos.tile.spec_index(),
            (TileData { is_tilled: false, ..w1.tile_of(pos) }),
        ),
        w2.chunk_of(pos.chunk).spec_crops() == w1.chunk_of(pos.chunk).spec_crops(),
    ensures
        !w2.tile_of(pos).is_tilled,
        w2.tile_of(pos).ground_type == w0.tile_of(pos).ground_type,
        w2.tile_of(pos).walls == w0.tile_of(pos).walls,
        forall|p: ChunkPos| w2.has_chunk(p) <==> w0.has_chunk(p),
        forall|p: ChunkPos| w0.has_chunk(p)
            ==> #[trigger] w2.chunk_of(p).spec_crops() == w0.chunk_of(p).spec_crops(),
        forall|p: ChunkPos| p != pos.chunk && w0.has_chunk(p)
            ==> #[trigger] w2.chunk_of(p) == w0.chunk_of(p),
        forall|i: int| 0 <= i < w0.chunk_of(pos.chunk).spec_tiles().len()
            && i != pos.tile.spec_index()
            ==> #[trigger] w2.chunk_of(pos.chunk).spec_tiles()[i]
                == w0.chunk_of(pos.chunk).spec_tiles()[i],
{
    let idx = pos.tile.spec_index();
    assert(0 <= idx < CHUNK_SIZE * CHUNK_SIZE) by (nonlinear_arith)
        requires pos.tile.x < CHUNK_SIZE && pos.tile.y < CHUNK_SIZE
            && idx == pos.tile.x + pos.tile.y * CHUNK_SIZE;
    let i0 = seq_index_of(w0.entries(), pos.chunk);
    assert(w0.entries()[i0].data.wf());
    assert(w0.chunk_of(pos.chunk).spec_tiles().len() == CHUNK_SIZE * CHUNK_SIZE);
    assert(w1.tile_of(pos) == (TileData { is_tilled: true, ..w0.tile_of(pos) }));
    assert(w2.tile_of(pos) == (TileData { is_tilled: false, ..w1.tile_of(pos) }));
}

/// Mathematical view of one chunk: its tiles and crops as sequences.
pub ghost struct ChunkModel {
    pub tiles: Seq<TileData>,
    pub crops: Seq<Option<CropData>>,
}

impl ChunkData {
    /// The chunk as a mathematical value.
    pub open spec fn model(self) -> ChunkModel {
        ChunkModel { tiles: self.spec_tiles(), crops: self.spec_crops() }
    }
}

impl WorldData {
    /// The world as a mathematical value: a map from the loaded chunk
    /// coordinates to their chunks' contents.
    pub open spec fn model(self) -> Map<ChunkPos, ChunkModel> {
        Map::new(|p: ChunkPos| self.has_chunk(p), |p: ChunkPos| self.chunk_of(p).model())
    }
}

/// A mutation that touched only the chunk at `at` moves the model to the
/// old model with that chunk's entry replaced.
pub proof fn lemma_model_update(w0: WorldData, w1: WorldData, at: ChunkPos)
    requires
        w0.has_chunk(at),
        w0.same_chunks_except(w1, at),
    ensures
        w1.model() == w0.model().insert(at, w1.chunk_of(at).model()),
{
    let m0 = w0.model().insert(at, w1.chunk_of(at).model());
    let m1 = w1.model();
    assert forall|p: ChunkPos| m1.dom().contains(p) implies m0.dom().contains(p) by {}
    assert forall|p: ChunkPos| m0.dom().contains(p) implies m1.dom().contains(p) by {}
    assert forall|p: ChunkPos| #[trigger] m1.dom().contains(p) implies m1[p] == m0[p] by {}
    assert(m1 =~= m0);
}

} // verus!
