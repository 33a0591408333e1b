//! The crop growth scheduler: finds the crop whose scheduled advancement
//! time is lowest and, once simulation time has reached it, advances that
//! crop by one stage.

use vstd::prelude::*;
use vstd::arithmetic::div_mod::{
    lemma_fundamental_div_mod, lemma_fundamental_div_mod_converse, lemma_mod_bound,
};
use crate::CHUNK_SIZE;
use crate::chunk_data::CropData;
use crate::item_definitions::AllCrops;
use crate::map_pos::{MapPos, TilePos};
use crate::simulation_time::SimulationTime;
use crate::world_data::{ChunkModel, WorldData, lemma_model_update, seq_index_of};

verus! {

/// Whether a growth advancement is scheduled at `pos`: the chunk is loaded
/// and a crop with a pending next-stage time is planted there.
pub open spec fn spec_scheduled_at(w: WorldData, pos: MapPos) -> bool {
    &&& pos.wf()
    &&& w.has_chunk(pos.chunk)
    &&& w.crop_of(pos) is Some
    &&& w.crop_of(pos)->Some_0.next_stage_at is Some
}

/// The time at which the crop at `pos` may advance (meaningful when
/// `spec_scheduled_at(w, pos)`).
pub open spec fn spec_scheduled_time(w: WorldData, pos: MapPos) -> u64 {
    w.crop_of(pos)->Some_0.next_stage_at->Some_0
}

/// The crop whose scheduled advancement comes next.
#[derive(Debug, Copy, Clone, Eq, PartialEq, Structural)]
pub struct NextItemToUpdate {
    pub update_at: u64,
    pub pos: MapPos,
}

/// A flat tile index splits back into its coordinates.
proof fn lemma_tile_index_coords(j: int)
    requires
        0 <= j < CHUNK_SIZE * CHUNK_SIZE,
    ensures
        j % (CHUNK_SIZE as int) + (j / (CHUNK_SIZE as int)) * (CHUNK_SIZE as int) == j,
        0 <= j % (CHUNK_SIZE as int) < CHUNK_SIZE,
        0 <= j / (CHUNK_SIZE as int) < CHUNK_SIZE,
{
    lemma_fundamental_div_mod(j, CHUNK_SIZE as int);
    lemma_mod_bound(j, CHUNK_SIZE as int);
    assert(0 <= j / (CHUNK_SIZE as int) < CHUNK_SIZE) by (nonlinear_arith)
        requires
            j == (CHUNK_SIZE as int) * (j / (CHUNK_SIZE as int)) + j % (CHUNK_SIZE as int),
            0 <= j % (CHUNK_SIZE as int) < CHUNK_SIZE,
            0 <= j < CHUNK_SIZE * CHUNK_SIZE;
}

/// A well-formed tile coordinate is determined by its flat index.
proof fn lemma_tile_index_unique(t: TilePos)
    requires
        t.wf(),
    ensures
        0 <= t.spec_index() < CHUNK_SIZE * CHUNK_SIZE,
        t.spec_index() % (CHUNK_SIZE as int) == t.x,
        t.spec_index() / (CHUNK_SIZE as int) == t.y,
{
    assert(0 <= t.spec_index() < CHUNK_SIZE * CHUNK_SIZE) by (nonlinear_arith)
        requires t.x < CHUNK_SIZE && t.y < CHUNK_SIZE
            && t.spec_index() == t.x + t.y * CHUNK_SIZE;
    lemma_fundamental_div_mod_converse(
        t.spec_index(), CHUNK_SIZE as int, t.y as int, t.x as int,
    );
}

/// Which scheduled positions a scan has covered: every tile of the chunk
/// entries before `i`, and the first `j` flat tile indices of entry `i`.
spec fn spec_scanned(w: WorldData, i: int, j: int, pos: MapPos) -> bool {
    let k = seq_index_of(w.entries(), pos.chunk);
    k < i || (k == i && pos.tile.spec_index() < j)
}

/// The best candidate so far is a minimum over the scanned region.
spec fn spec_scan_invariant(w: WorldData, i: int, j: int, best: Option<NextItemToUpdate>)
    -> bool
{
    match best {
        None => forall|pos: MapPos| #[trigger] spec_scanned(w, i, j, pos)
            ==> !spec_scheduled_at(w, pos),
        Some(next) => {
            &&& spec_scheduled_at(w, next.pos)
            &&& spec_scanned(w, i, j, next.pos)
            &&& spec_scheduled_time(w, next.pos) == next.update_at
            &&& forall|pos: MapPos| spec_scheduled_at(w, pos) && #[trigger] spec_scanned(
                w, i, j, pos) ==> next.update_at <= spec_scheduled_time(w, pos)
        },
    }
}

/// Scans every planted crop and returns the one whose scheduled advancement
/// time is lowest, with that time; `None` when no crop is waiting to grow.
pub fn find_next_tile_to_update(world_data: &WorldData) -> (r: Option<NextItemToUpdate>)
    requires
        world_data.wf(),
    ensures
        r is Some <==> exists|pos: MapPos| #[trigger] spec_scheduled_at(*world_data, pos),
        r matches Some(next) ==> {
            &&& spec_scheduled_at(*world_data, next.pos)
            &&& spec_scheduled_time(*world_data, next.pos) == next.update_at
            &&& forall|pos: MapPos| #[trigger] spec_scheduled_at(*world_data, pos)
                ==> next.update_at <= spec_scheduled_time(*world_data, pos)
        },
{
    let w = world_data;
    let mut next: Option<NextItemToUpdate> = None;
    let chunk_total = w.chunk_count();
    let tile_total = CHUNK_SIZE * CHUNK_SIZE;
    for i in 0..chunk_total
        invariant
            w.wf(),
            chunk_total == w.entries().len(),
            tile_total == CHUNK_SIZE * CHUNK_SIZE,
            spec_scan_invariant(*w, i as int, 0, next),
            next matches Some(n) ==> spec_scheduled_at(*w, n.pos)
                && spec_scheduled_time(*w, n.pos) == n.update_at,
    {
        let chunk_pos = w.entry_pos(i);
        let chunk = w.entry_data(i);
        for j in 0..tile_total
            invariant
                w.wf(),
                chunk_total == w.entries().len(),
                tile_total == CHUNK_SIZE * CHUNK_SIZE,
                i < chunk_total,
                chunk_pos == w.entries()[i as int].pos,
                w.has_chunk(chunk_pos),
                w.chunk_of(chunk_pos) == w.entries()[i as int].data,
                *chunk == w.entries()[i as int].data,
                seq_index_of(w.entries(), chunk_pos) == i,
                spec_scan_invariant(*w, i as int, j as int, next),
                next matches Some(n) ==> spec_scheduled_at(*w, n.pos)
                    && spec_scheduled_time(*w, n.pos) == n.update_at,
        {
            let x = (j % CHUNK_SIZE) as u32;
            let y = (j / CHUNK_SIZE) as u32;
            proof {
                lemma_tile_index_coords(j as int);
            }
            let tile = TilePos::new(x, y);
            let pos_here = MapPos::new(chunk_pos, tile);
            proof {
                lemma_tile_index_unique(tile);
                assert(pos_here.tile.spec_index() == j);
            }
            let improved: Option<NextItemToUpdate> = match chunk.crop_at_index(j) {
                Some(crop) => match crop.next_stage_at {
                    Some(remaining_time) => {
                        let better = match next {
                            Some(n) => n.update_at > remaining_time,
                            None => true,
                        };
                        if better {
                            Some(NextItemToUpdate { update_at: remaining_time, pos: pos_here })
                        } else {
                            next
                        }
                    },
                    None => next,
                },
                None => next,
            };
            proof {
                assert(w.crop_of(pos_here) == w.chunk_of(chunk_pos).spec_crop_at(
                    tile.x as int, tile.y as int));
                assert forall|pos: MapPos| spec_scheduled_at(*w, pos)
                    && #[trigger] spec_scanned(*w, i as int, j + 1, pos)
                    implies spec_scanned(*w, i as int, j as int, pos) || pos == pos_here by {
                    if !spec_scanned(*w, i as int, j as int, pos) {
                        let k = seq_index_of(w.entries(), pos.chunk);
                        assert(k == i && pos.tile.spec_index() == j);
                        assert(0 <= k < w.entries().len() && w.entries()[k].pos == pos.chunk);
                        assert(pos.chunk == chunk_pos);
                        lemma_tile_index_unique(pos.tile);
                        assert(pos.tile == tile);
                    }
                }
                if improved != next {
                    assert(spec_scanned(*w, i as int, j + 1, pos_here));
                }
            }
            next = improved;
        }
        proof {
            assert forall|pos: MapPos| spec_scheduled_at(*w, pos)
                && #[trigger] spec_scanned(*w, i + 1, 0, pos)
                implies spec_scanned(*w, i as int, tile_total as int, pos) by {
                let k = seq_index_of(w.entries(), pos.chunk);
                if k == i {
                    lemma_tile_index_unique(pos.tile);
                }
            }
        }
    }
    proof {
        if next is None {
            assert forall|pos: MapPos| !spec_scheduled_at(*w, pos) by {
                if spec_scheduled_at(*w, pos) {
                    let k = seq_index_of(w.entries(), pos.chunk);
                    assert(0 <= k < w.entries().len());
                    lemma_tile_index_unique(pos.tile);
                    assert(spec_scanned(*w, chunk_total as int, 0, pos));
                }
            }
        } else {
            assert forall|pos: MapPos| #[trigger] spec_scheduled_at(*w, pos)
                implies next->Some_0.update_at <= spec_scheduled_time(*w, pos) by {
                let k = seq_index_of(w.entries(), pos.chunk);
                assert(0 <= k < w.entries().len());
                lemma_tile_index_unique(pos.tile);
                assert(spec_scanned(*w, chunk_total as int, 0, pos));
            }
        }
    }
    next
}

/// A scheduled crop can actually be advanced: its species is registered and
/// its stage counter has room to grow.
pub open spec fn spec_advanceable(w: WorldData, all: AllCrops, pos: MapPos) -> bool {
    &&& all.spec_contains(w.crop_of(pos)->Some_0.crop_id)
    &&& w.crop_of(pos)->Some_0.stage < u8::MAX
}

/// The crop after one growth advancement at time `now`: one stage further,
/// rescheduled one growth duration ahead, or terminal (`next_stage_at ==
/// None`) once the new stage is the species' last.
pub open spec fn spec_advanced_crop(crop: CropData, def_stages: u8, def_growth: u32, now: u64)
    -> CropData
{
    CropData {
        crop_id: crop.crop_id,
        stage: (crop.stage + 1) as u8,
        next_stage_at: if crop.stage + 1 < def_stages - 1 {
            Some((now + def_growth) as u64)
        } else {
            None
        },
    }
}

/// One growth-scheduler tick: finds the crop with the lowest scheduled
/// advancement time and, if that time has been reached, advances exactly
/// that one crop by one stage; every other crop waits for a later tick.
/// Returns the advanced crop's position, so the presentation layer can step
/// its sprite. A tick with no due crop, or whose due crop cannot be
/// advanced (unknown species), changes nothing.
pub fn update_tiles(
    world: &mut WorldData,
    all_crops: &AllCrops,
    simulation_time: &SimulationTime,
) -> (r: Option<MapPos>)
    requires
        old(world).wf(),
        all_crops.wf(),
        simulation_time.spec_elapsed() + u32::MAX <= u64::MAX,
    ensures
        final(world).wf(),
        forall|p| final(world).has_chunk(p) <==> old(world).has_chunk(p),
        r is None ==> *final(world) == *old(world),
        ({
            let w0 = *old(world);
            let now = simulation_time.spec_elapsed();
            &&& (r matches Some(pos) ==> {
                let crop = w0.crop_of(pos)->Some_0;
                let def = all_crops.spec_get(crop.crop_id);
                &&& spec_scheduled_at(w0, pos)
                &&& spec_scheduled_time(w0, pos) <= now
                &&& forall|other: MapPos| #[trigger] spec_scheduled_at(w0, other)
                    ==> spec_scheduled_time(w0, pos) <= spec_scheduled_time(w0, other)
                &&& spec_advanceable(w0, *all_crops, pos)
                &&& final(world).model() == w0.model().insert(pos.chunk, ChunkModel {
                    tiles: w0.chunk_of(pos.chunk).spec_tiles(),
                    crops: w0.chunk_of(pos.chunk).spec_crops().update(
                        pos.tile.spec_index(),
                        Some(spec_advanced_crop(
                            crop, def.stages, def.growth_time_per_stage, now,
                        )),
                    ),
                })
            })
            &&& ((exists|pos: MapPos| #[trigger] spec_scheduled_at(w0, pos)
                    && spec_scheduled_time(w0, pos) <= now)
                && (forall|pos: MapPos| #[trigger] spec_scheduled_at(w0, pos)
                    ==> spec_advanceable(w0, *all_crops, pos))
                ==> r is Some)
        }),
{
    let next = match find_next_tile_to_update(world) {
        Some(next) => next,
        None => {
            return None;
        },
    };
    if !(next.update_at <= simulation_time.elapsed_seconds()) {
        return None;
    }
    let ghost w0 = *world;
    let crop = world.crop_at(&next.pos).unwrap();
    let definition = match all_crops.get(crop.crop_id) {
        Some(definition) => definition,
        None => {
            return None;
        },
    };
    if crop.stage == u8::MAX {
        return None;
    }
    let new_stage = crop.stage + 1;
    let next_stage_at = if new_stage < definition.stages - 1 {
        Some(simulation_time.elapsed_seconds() + definition.growth_time_per_stage as u64)
    } else {
        None
    };
    let advanced = CropData { crop_id: crop.crop_id, stage: new_stage, next_stage_at };
    world.insert_crop(&next.pos, advanced);
    proof {
        lemma_model_update(w0, *world, next.pos.chunk);
        assert(w0.model()[next.pos.chunk] == w0.chunk_of(next.pos.chunk).model());
        assert(world.model() =~= w0.model().insert(next.pos.chunk, ChunkModel {
            tiles: w0.chunk_of(next.pos.chunk).spec_tiles(),
            crops: w0.chunk_of(next.pos.chunk).spec_crops().update(
                next.pos.tile.spec_index(),
                Some(spec_advanced_crop(
                    crop,
                    all_crops.spec_get(crop.crop_id).stages,
                    all_crops.spec_get(crop.crop_id).growth_time_per_stage,
                    simulation_time.spec_elapsed(),
                )),
            ),
        }));
    }
    Some(next.pos)
}

} // verus!

