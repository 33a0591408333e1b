//! One chunk of the world: a fixed-size square of tiles plus the crops
//! planted on them.

use vstd::prelude::*;
use crate::CHUNK_SIZE;
use crate::item_definitions::CropDefinition;
use crate::item_id::CropId;
use crate::map_pos::TilePos;
use crate::simulation_time::SimulationTime;
use crate::tile_data::TileData;

verus! {

/// A crop growing on one tile. `next_stage_at` is the simulation time at
/// which the crop may advance to its next stage; it is `None` exactly when
/// the crop has reached its species' final stage.
#[derive(Debug, Copy, Clone, Eq, PartialEq, Structural)]
pub struct CropData {
    pub crop_id: CropId,
    pub next_stage_at: Option<u64>,
    pub stage: u8,
}

impl CropData {
    /// A freshly planted crop: stage zero, scheduled to advance one growth
    /// duration from now.
    pub fn new(from: &CropDefinition, simulation_time: &SimulationTime) -> (r: Self)
        requires
            simulation_time.spec_elapsed() + from.growth_time_per_stage <= u64::MAX,
        ensures
            r == (CropData {
                crop_id: from.id,
                next_stage_at: Some(
                    (simulation_time.spec_elapsed() + from.growth_time_per_stage) as u64,
                ),
                stage: 0,
            }),
    {
        Self {
            crop_id: from.id,
            next_stage_at: Some(
                simulation_time.elapsed_seconds() + from.growth_time_per_stage as u64,
            ),
            stage: 0,
        }
    }
}

/// A chunk: exactly `CHUNK_SIZE * CHUNK_SIZE` tiles, addressed by
/// `x + y * CHUNK_SIZE`, and at most one crop per tile.
pub struct ChunkData {
    tiles: Vec<TileData>,
    crops: Vec<Option<CropData>>,
}

impl ChunkData {
    /// The tiles, as a sequence of length `CHUNK_SIZE * CHUNK_SIZE`.
    pub closed spec fn spec_tiles(self) -> Seq<TileData> {
        self.tiles@
    }

    /// The crops: entry `i` is the crop on the tile at flat index `i`.
    pub closed spec fn spec_crops(self) -> Seq<Option<CropData>> {
        self.crops@
    }

    /// Both arrays cover the whole chunk.
    pub open spec fn wf(self) -> bool {
        &&& self.spec_tiles().len() == CHUNK_SIZE * CHUNK_SIZE
        &&& self.spec_crops().len() == CHUNK_SIZE * CHUNK_SIZE
    }

    /// The tile at coordinates `(x, y)`.
    pub open spec fn spec_at(self, x: int, y: int) -> TileData {
        self.spec_tiles()[x + y * CHUNK_SIZE]
    }

    /// The crop on the tile at coordinates `(x, y)`, if any.
    pub open spec fn spec_crop_at(self, x: int, y: int) -> Option<CropData> {
        self.spec_crops()[x + y * CHUNK_SIZE]
    }

    /// Flat index of in-chunk coordinates `(x, y)`.
    fn index_of(x: u32, y: u32) -> (r: usize)
        requires
            x < CHUNK_SIZE,
            y < CHUNK_SIZE,
        ensures
            r == x + y * CHUNK_SIZE,
            r < CHUNK_SIZE * CHUNK_SIZE,
    {
        proof {
            assert(x + y * (CHUNK_SIZE as u32) < CHUNK_SIZE * CHUNK_SIZE) by (nonlinear_arith)
                requires x < CHUNK_SIZE && y < CHUNK_SIZE;
        }
        x as usize + y as usize * CHUNK_SIZE
    }

    pub fn at(&self, x: u32, y: u32) -> (r: &TileData)
        requires
            self.wf(),
            x < CHUNK_SIZE,
            y < CHUNK_SIZE,
        ensures
            *r == self.spec_at(x as int, y as int),
    {
        &self.tiles[Self::index_of(x, y)]
    }

    pub fn at_pos(&self, pos: &TilePos) -> (r: &TileData)
        requires
            self.wf(),
            pos.wf(),
        ensures
            *r == self.spec_at(pos.x as int, pos.y as int),
    {
        self.at(pos.x, pos.y)
    }

    /// Replaces the tile at `(x, y)` wholesale.
    pub fn put_at(&mut self, x: u32, y: u32, tile: TileData)
        requires
            old(self).wf(),
            x < CHUNK_SIZE,
            y < CHUNK_SIZE,
        ensures
            final(self).wf(),
            final(self).spec_tiles()
                == old(self).spec_tiles().update(x + y * CHUNK_SIZE, tile),
            final(self).spec_crops() == old(self).spec_crops(),
    {
        let i = Self::index_of(x, y);
        self.tiles.set(i, tile);
    }

    /// Sets the tilled flag of the tile at `(x, y)`, leaving its ground
    /// type, its walls, every other tile and every crop unchanged.
    pub fn set_at(&mut self, x: u32, y: u32, value: bool)
        requires
            old(self).wf(),
            x < CHUNK_SIZE,
            y < CHUNK_SIZE,
        ensures
            final(self).wf(),
            final(self).spec_tiles() == old(self).spec_tiles().update(
                x + y * CHUNK_SIZE,
                (TileData { is_tilled: value, ..old(self).spec_at(x as int, y as int) }),
            ),
            final(self).spec_crops() == old(self).spec_crops(),
    {
        let i = Self::index_of(x, y);
        let tile = &mut self.tiles[i];
        tile.is_tilled = value;
    }

    pub fn set_at_pos(&mut self, pos: &TilePos, value: bool)
        requires
            old(self).wf(),
            pos.wf(),
        ensures
            final(self).wf(),
            final(self).spec_tiles() == old(self).spec_tiles().update(
                pos.spec_index(),
                (TileData {
                    is_tilled: value,
                    ..old(self).spec_at(pos.x as int, pos.y as int)
                }),
            ),
            final(self).spec_crops() == old(self).spec_crops(),
    {
        self.set_at(pos.x, pos.y, value);
    }

    /// The crop on the tile at `pos`, if any.
    pub fn crop_at(&self, pos: &TilePos) -> (r: Option<CropData>)
        requires
            self.wf(),
            pos.wf(),
        ensures
            r == self.spec_crop_at(pos.x as int, pos.y as int),
    {
        self.crops[Self::index_of(pos.x, pos.y)]
    }


    /// The crop at flat tile index `i`, if any.
    pub fn crop_at_index(&self, i: usize) -> (r: Option<CropData>)
        requires
            self.wf(),
            i < CHUNK_SIZE * CHUNK_SIZE,
        ensures
            r == self.spec_crops()[i as int],
    {
        self.crops[i]
    }

    /// Puts `crop` on the tile at `pos`, replacing whatever crop was there.
    pub fn insert_crop(&mut self, pos: &TilePos, crop: CropData)
        requires
            old(self).wf(),
            pos.wf(),
        ensures
            final(self).wf(),
            final(self).spec_crops()
                == old(self).spec_crops().update(pos.spec_index(), Some(crop)),
            final(self).spec_tiles() == old(self).spec_tiles(),
    {
        let i = Self::index_of(pos.x, pos.y);
        self.crops.set(i, Some(crop));
    }

    /// Removes and returns the crop on the tile at `pos`, if any.
    pub fn remove_crop(&mut self, pos: &TilePos) -> (r: Option<CropData>)
        requires
            old(self).wf(),
            pos.wf(),
        ensures
            final(self).wf(),
            r == old(self).spec_crop_at(pos.x as int, pos.y as int),
            final(self).spec_crops()
                == old(self).spec_crops().update(pos.spec_index(), None::<CropData>),
            final(self).spec_tiles() == old(self).spec_tiles(),
    {
        let i = Self::index_of(pos.x, pos.y);
        let r = self.crops[i];
        self.crops.set(i, None);
        r
    }
}

impl Default for ChunkData {
    /// A chunk of untilled grass without walls or crops.
    fn default() -> (r: Self)
        ensures
            r.wf(),
            forall|i: int| 0 <= i < CHUNK_SIZE * CHUNK_SIZE
                ==> r.spec_tiles()[i] == TileData::default_tile(),
            forall|i: int| 0 <= i < CHUNK_SIZE * CHUNK_SIZE
                ==> r.spec_crops()[i] is None,
    {
        let n = CHUNK_SIZE * CHUNK_SIZE;
        let mut tiles: Vec<TileData> = Vec::new();
        let mut crops: Vec<Option<CropData>> = Vec::new();
        let mut i: usize = 0;
        while i < n
            invariant
                n == CHUNK_SIZE * CHUNK_SIZE,
                i <= n,
                tiles@.len() == i,
                crops@.len() == i,
                forall|j: int| 0 <= j < i ==> tiles@[j] == TileData::default_tile(),
                forall|j: int| 0 <= j < i ==> crops@[j] is None,
            decreases n - i,
        {
            tiles.push(TileData::default());
            crops.push(None);
            i = i + 1;
        }
        ChunkData { tiles, crops }
    }
}

} // verus!
