//! The interaction resolver: turns held-input cursor reports into
//! interaction events, and resolves those events against the world.

use vstd::prelude::*;
use crate::{CHUNK_SIZE, CardinalDirection};
use crate::active_tool::ActiveTool;
use crate::chunk_data::CropData;
use crate::drops::ItemDrop;
use crate::item_definitions::AllCrops;
use crate::item_id::{CropId, ItemId, ToolId};
use crate::map_pos::{ChunkPos, MapPos};
use crate::simulation_time::SimulationTime;
use crate::tile_data::TileData;
use crate::update_tile_event::UpdateTileEvent;
use crate::world_data::{ChunkModel, WorldData, lemma_model_update};

verus! {

/// The cardinal orientation the next placed wall will face.
pub struct BuildingRotation {
    pub direction: CardinalDirection,
}

/// One resolved decision to apply the current tool to one tile.
#[derive(Debug, Copy, Clone, Eq, PartialEq, Structural)]
pub struct TileInteractionEvent {
    pub pos: MapPos,
    pub rotation: CardinalDirection,
    pub used_tool: ActiveTool,
}

/// The crop at `pos` is to be removed from the world and its visual
/// discarded.
#[derive(Debug, Copy, Clone, Eq, PartialEq, Structural)]
pub struct CropDestroyedEvent {
    pub pos: MapPos,
}

/// The crop at `pos` was harvested; a drop of its species is owed.
#[derive(Debug, Copy, Clone, Eq, PartialEq, Structural)]
pub struct CropHarvestedEvent {
    pub pos: MapPos,
    pub crop_id: CropId,
}

/// A crop was planted at `pos`; the presentation layer is to create its
/// visual.
#[derive(Debug, Copy, Clone, Eq, PartialEq, Structural)]
pub struct CropPlantedEvent {
    pub pos: MapPos,
    pub crop_id: CropId,
}

/// A wall was placed on the given edge of the tile at `pos`; the
/// presentation layer is to construct its visual.
#[derive(Debug, Copy, Clone, Eq, PartialEq, Structural)]
pub struct WallBuiltEvent {
    pub pos: MapPos,
    pub direction: CardinalDirection,
}

/// Which hotbar slots were pressed this frame.
#[derive(Debug, Copy, Clone, Eq, PartialEq, Structural)]
pub struct HotbarPresses {
    pub hotbar1: bool,
    pub hotbar2: bool,
    pub hotbar3: bool,
    pub hotbar4: bool,
    pub hotbar5: bool,
    pub hotbar6: bool,
}

/// The tool the hotbar input selects: the lowest pressed slot wins, and with
/// no slot pressed the selection stays as it was.
pub open spec fn spec_selected_tool(current: ActiveTool, p: HotbarPresses) -> ActiveTool {
    if p.hotbar1 {
        ActiveTool::Item(ItemId::Tool { tool_id: ToolId::Hoe })
    } else if p.hotbar2 {
        ActiveTool::Item(ItemId::Tool { tool_id: ToolId::Pickaxe })
    } else if p.hotbar3 {
        ActiveTool::Item(ItemId::Tool { tool_id: ToolId::Scythe })
    } else if p.hotbar4 {
        ActiveTool::Item(ItemId::Seed { crop_id: CropId(0) })
    } else if p.hotbar5 {
        ActiveTool::Item(ItemId::Seed { crop_id: CropId(1) })
    } else if p.hotbar6 {
        ActiveTool::Wall
    } else {
        current
    }
}

/// Applies this frame's hotbar presses to the tool selection: slot one
/// through three select the hoe, pickaxe and scythe, slots four and five the
/// two seed kinds, slot six the wall-building mode.
pub fn select_active_tool(active_tool: &mut ActiveTool, just_pressed: &HotbarPresses)
    ensures
        *final(active_tool) == spec_selected_tool(*old(active_tool), *just_pressed),
{
    if just_pressed.hotbar1 {
        *active_tool = ActiveTool::Item(ItemId::Tool { tool_id: ToolId::Hoe });
    } else if just_pressed.hotbar2 {
        *active_tool = ActiveTool::Item(ItemId::Tool { tool_id: ToolId::Pickaxe });
    } else if just_pressed.hotbar3 {
        *active_tool = ActiveTool::Item(ItemId::Tool { tool_id: ToolId::Scythe });
    } else if just_pressed.hotbar4 {
        *active_tool = ActiveTool::Item(ItemId::Seed { crop_id: CropId(0) });
    } else if just_pressed.hotbar5 {
        *active_tool = ActiveTool::Item(ItemId::Seed { crop_id: CropId(1) });
    } else if just_pressed.hotbar6 {
        *active_tool = ActiveTool::Wall;
    }
}

/// The positions a held interact input fires at, given the tiles the cursor
/// reported and the last tile already interacted with: a cursor report on
/// the memoized tile is suppressed, any other report fires once and becomes
/// the new memo. Returns the fired positions and the final memo.
pub open spec fn spec_detect(memo: Option<MapPos>, cursors: Seq<MapPos>)
    -> (Seq<MapPos>, Option<MapPos>)
    decreases cursors.len(),
{
    if cursors.len() == 0 {
        (Seq::empty(), memo)
    } else {
        let first = cursors[0];
        let rest = cursors.drop_first();
        if memo == Some(first) {
            spec_detect(memo, rest)
        } else {
            let tail = spec_detect(Some(first), rest);
            (seq![first] + tail.0, tail.1)
        }
    }
}

/// While the interact input is held, emits one interaction event per cursor
/// report whose tile differs from the memoized last-interacted tile, with
/// the current tool and rotation snapshotted into each event. On the rising
/// edge of the input the memo is cleared first, so the first tile of a new
/// interaction sequence always fires. Without the input nothing fires and
/// the memo keeps its value.
pub fn detect_tile_interactions(
    active_tool: &ActiveTool,
    building_rotation: &BuildingRotation,
    interact_pressed: bool,
    interact_just_pressed: bool,
    cursors: &Vec<MapPos>,
    previously_interacted_tile: &mut Option<MapPos>,
) -> (events: Vec<TileInteractionEvent>)
    ensures
        ({
            let memo0 = if interact_just_pressed {
                None
            } else {
                *old(previously_interacted_tile)
            };
            let fired = spec_detect(memo0, cursors@);
            if interact_pressed {
                &&& *final(previously_interacted_tile) == fired.1
                &&& events@.len() == fired.0.len()
                &&& forall|i: int| 0 <= i < events@.len()
                    ==> #[trigger] events@[i] == (TileInteractionEvent {
                        pos: fired.0[i],
                        rotation: building_rotation.direction,
                        used_tool: *active_tool,
                    })
            } else {
                &&& *final(previously_interacted_tile) == *old(previously_interacted_tile)
                &&& events@.len() == 0
            }
        }),
{
    let mut events: Vec<TileInteractionEvent> = Vec::new();
    if !interact_pressed {
        return events;
    }
    if interact_just_pressed {
        *previously_interacted_tile = None;
    }
    let ghost memo0 = *previously_interacted_tile;
    proof {
        assert(cursors@.skip(0) =~= cursors@);
        assert(events@.map_values(|e: TileInteractionEvent| e.pos) =~= Seq::<MapPos>::empty());
        assert(spec_detect(memo0, cursors@).0 =~= events@.map_values(
            |e: TileInteractionEvent| e.pos) + spec_detect(memo0, cursors@.skip(0)).0);
    }
    let n = cursors.len();
    for i in 0..n
        invariant
            n == cursors@.len(),
            spec_detect(memo0, cursors@).0
                == events@.map_values(|e: TileInteractionEvent| e.pos)
                    + spec_detect(*previously_interacted_tile, cursors@.skip(i as int)).0,
            spec_detect(memo0, cursors@).1
                == spec_detect(*previously_interacted_tile, cursors@.skip(i as int)).1,
            forall|j: int| 0 <= j < events@.len()
                ==> (#[trigger] events@[j]).rotation == building_rotation.direction
                    && events@[j].used_tool == *active_tool,
    {
        let ghost pre_memo = *previously_interacted_tile;
        let ghost pre_events = events@;
        let cursor = cursors[i];
        let fire = match previously_interacted_tile {
            Some(previous) => *previous != cursor,
            None => true,
        };
        if fire {
            *previously_interacted_tile = Some(cursor);
            events.push(TileInteractionEvent {
                pos: cursor,
                used_tool: *active_tool,
                rotation: building_rotation.direction,
            });
        }
        proof {
            let pre_map = pre_events.map_values(|e: TileInteractionEvent| e.pos);
            let new_map = events@.map_values(|e: TileInteractionEvent| e.pos);
            assert(cursors@.skip(i as int)[0] == cursors@[i as int]);
            assert(cursors@.skip(i as int).drop_first() =~= cursors@.skip(i + 1));
            if fire {
                assert(new_map =~= pre_map + seq![cursor]);
                assert(spec_detect(pre_memo, cursors@.skip(i as int)).0
                    == seq![cursor] + spec_detect(Some(cursor), cursors@.skip(i + 1)).0);
                assert(spec_detect(memo0, cursors@).0
                    =~= new_map + spec_detect(Some(cursor), cursors@.skip(i + 1)).0);
            } else {
                assert(spec_detect(pre_memo, cursors@.skip(i as int))
                    == spec_detect(pre_memo, cursors@.skip(i + 1)));
            }
        }
    }
    proof {
        assert(cursors@.skip(n as int) =~= Seq::<MapPos>::empty());
        assert(spec_detect(memo0, cursors@).0
            =~= events@.map_values(|e: TileInteractionEvent| e.pos));
    }
    events
}

/// Suppression is exact: the fired positions never repeat back to back, the
/// first fired position is never the incoming memo, and afterwards the memo
/// is the last fired position (or the incoming memo when nothing fired).
pub proof fn lemma_detect_suppresses_repeats(memo: Option<MapPos>, cursors: Seq<MapPos>)
    ensures
        ({
            let fired = spec_detect(memo, cursors);
            &&& forall|i: int| 0 <= i < fired.0.len() - 1 ==> #[trigger] fired.0[i] != fired.0[i + 1]
            &&& fired.0.len() > 0 ==> Some(fired.0[0]) != memo
            &&& fired.1 == if fired.0.len() == 0 { memo } else { Some(fired.0.last()) }
        }),
    decreases cursors.len(),
{
    if cursors.len() > 0 {
        let first = cursors[0];
        let rest = cursors.drop_first();
        if memo == Some(first) {
            lemma_detect_suppresses_repeats(memo, rest);
        } else {
            lemma_detect_suppresses_repeats(Some(first), rest);
            let tail = spec_detect(Some(first), rest);
            let fired = spec_detect(memo, cursors);
            assert(fired.0 == seq![first] + tail.0);
            assert(fired.0[0] == first);
            if tail.0.len() > 0 {
                assert(tail.0[0] != first);
                assert(fired.0.last() == tail.0.last());
                assert forall|i: int| 0 <= i < fired.0.len() - 1
                    implies #[trigger] fired.0[i] != fired.0[i + 1] by {
                    if i > 0 {
                        assert(fired.0[i] == tail.0[i - 1]);
                        assert(fired.0[i + 1] == tail.0[i]);
                    }
                }
            }
        }
    }
}

/// Moving the cursor across tiles `a`, `a`, `b`, `b`, `a` during one held
/// interaction fires exactly at `a`, `b`, `a`.
pub proof fn lemma_detect_alternation(a: MapPos, b: MapPos)
    requires
        a != b,
    ensures
        spec_detect(None, seq![a, a, b, b, a]).0 =~= seq![a, b, a],
{
    let s0 = seq![a, a, b, b, a];
    let s1 = seq![a, b, b, a];
    let s2 = seq![b, b, a];
    let s3 = seq![b, a];
    let s4 = seq![a];
    let s5 = Seq::<MapPos>::empty();
    assert(s0.drop_first() =~= s1);
    assert(s1.drop_first() =~= s2);
    assert(s2.drop_first() =~= s3);
    assert(s3.drop_first() =~= s4);
    assert(s4.drop_first() =~= s5);
    assert(spec_detect(Some(a), s5).0 =~= Seq::<MapPos>::empty());
    assert(spec_detect(Some(b), s4).0 =~= seq![a]);
    assert(spec_detect(Some(b), s3).0 =~= seq![a]);
    assert(spec_detect(Some(a), s2).0 =~= seq![b] + seq![a]);
    assert(spec_detect(Some(a), s1).0 =~= seq![b, a]);
    assert(spec_detect(None, s0).0 =~= seq![a] + seq![b, a]);
}

/// Applying the hoe: tills the tile unless it is already tilled. Returns
/// whether anything changed; on a no-op the world is untouched.
pub fn till_tile(world: &mut WorldData, pos: &MapPos) -> (changed: bool)
    requires
        old(world).wf(),
        old(world).has_chunk(pos.chunk),
        pos.wf(),
    ensures
        final(world).wf(),
        changed == !old(world).tile_of(*pos).is_tilled,
        old(world).same_chunks_except(*final(world), pos.chunk),
        changed ==> final(world).chunk_of(pos.chunk).spec_tiles()
            == old(world).chunk_of(pos.chunk).spec_tiles().update(
                pos.tile.spec_index(),
                (TileData { is_tilled: true, ..old(world).tile_of(*pos) }),
            )
            && final(world).chunk_of(pos.chunk).spec_crops()
                == old(world).chunk_of(pos.chunk).spec_crops(),
        !changed ==> *final(world) == *old(world),
{
    if world.tile_at(pos).is_tilled {
        return false;
    }
    world.set_tilled(pos, true);
    true
}

/// What applying the pickaxe to a tile did.
#[derive(Debug, Copy, Clone, Eq, PartialEq, Structural)]
pub enum ClearOutcome {
    /// A crop was present: its destruction was requested and nothing else
    /// happened.
    DestroyedCrop,
    /// No crop, but the tile was tilled: it is untilled now.
    Cleared,
    /// Neither a crop nor a tilled tile: nothing to do.
    Nothing,
}

/// Applying the pickaxe: a crop on the tile is scheduled for destruction
/// (the tile stays tilled); otherwise a tilled tile is untilled; otherwise
/// nothing happens. The world changes only in the `Cleared` case.
pub fn clear_tile(world: &mut WorldData, pos: &MapPos) -> (r: ClearOutcome)
    requires
        old(world).wf(),
        old(world).has_chunk(pos.chunk),
        pos.wf(),
    ensures
        final(world).wf(),
        r == (if old(world).crop_of(*pos) is Some {
            ClearOutcome::DestroyedCrop
        } else if old(world).tile_of(*pos).is_tilled {
            ClearOutcome::Cleared
        } else {
            ClearOutcome::Nothing
        }),
        old(world).same_chunks_except(*final(world), pos.chunk),
        r == ClearOutcome::Cleared ==> final(world).chunk_of(pos.chunk).spec_tiles()
            == old(world).chunk_of(pos.chunk).spec_tiles().update(
                pos.tile.spec_index(),
                (TileData { is_tilled: false, ..old(world).tile_of(*pos) }),
            )
            && final(world).chunk_of(pos.chunk).spec_crops()
                == old(world).chunk_of(pos.chunk).spec_crops(),
        r != ClearOutcome::Cleared ==> *final(world) == *old(world),
{
    if world.crop_at(pos).is_some() {
        return ClearOutcome::DestroyedCrop;
    }
    if !world.tile_at(pos).is_tilled {
        return ClearOutcome::Nothing;
    }
    world.set_tilled(pos, false);
    ClearOutcome::Cleared
}

/// Whether the crop has reached its species' final growth stage.
pub open spec fn spec_fully_grown(crop: CropData, all_items: AllCrops) -> bool {
    &&& all_items.spec_contains(crop.crop_id)
    &&& crop.stage + 1 >= all_items.spec_get(crop.crop_id).stages
}

/// Applying the scythe: a crop at its species' final stage yields a
/// harvested and a destroyed notification; an immature or absent crop, or
/// one whose species the registry does not know, yields nothing. The world
/// itself is untouched either way; destruction is carried out by
/// `process_delete_crops`.
pub fn harvest_tile(world: &WorldData, all_items: &AllCrops, pos: &MapPos)
    -> (r: Option<(CropHarvestedEvent, CropDestroyedEvent)>)
    requires
        world.wf(),
        world.has_chunk(pos.chunk),
        pos.wf(),
        all_items.wf(),
    ensures
        r is Some <==> (world.crop_of(*pos) matches Some(crop)
            && spec_fully_grown(crop, *all_items)),
        r matches Some(events) ==> world.crop_of(*pos) matches Some(crop)
            && events == (
                CropHarvestedEvent { pos: *pos, crop_id: crop.crop_id },
                CropDestroyedEvent { pos: *pos },
            ),
{
    match world.crop_at(pos) {
        Some(crop) => {
            match all_items.get(crop.crop_id) {
                Some(definition) => {
                    if crop.stage as u32 + 1 >= definition.stages as u32 {
                        Some((
                            CropHarvestedEvent { pos: *pos, crop_id: crop.crop_id },
                            CropDestroyedEvent { pos: *pos },
                        ))
                    } else {
                        None
                    }
                },
                None => None,
            }
        },
        None => None,
    }
}

/// Whether a seed of `crop_id` can be planted at `pos`: the tile is tilled,
/// holds no crop yet, and the species is registered.
pub open spec fn spec_can_plant(
    world: WorldData,
    all_items: AllCrops,
    pos: MapPos,
    crop_id: CropId,
) -> bool {
    &&& world.tile_of(pos).is_tilled
    &&& world.crop_of(pos) is None
    &&& all_items.spec_contains(crop_id)
}

/// Applying a seed: plants a new crop at stage zero, scheduled one growth
/// duration from now, provided the tile is tilled and empty and the species
/// is known. Anywhere else planting is a no-op and the world is unchanged.
pub fn plant_seed(
    world: &mut WorldData,
    all_items: &AllCrops,
    pos: &MapPos,
    crop_id: CropId,
    simulation_time: &SimulationTime,
) -> (planted: bool)
    requires
        old(world).wf(),
        old(world).has_chunk(pos.chunk),
        pos.wf(),
        all_items.wf(),
        simulation_time.spec_elapsed() + u32::MAX <= u64::MAX,
    ensures
        final(world).wf(),
        planted == spec_can_plant(*old(world), *all_items, *pos, crop_id),
        old(world).same_chunks_except(*final(world), pos.chunk),
        planted ==> final(world).chunk_of(pos.chunk).spec_crops()
            == old(world).chunk_of(pos.chunk).spec_crops().update(
                pos.tile.spec_index(),
                Some(CropData {
                    crop_id,
                    next_stage_at: Some((simulation_time.spec_elapsed()
                        + all_items.spec_get(crop_id).growth_time_per_stage) as u64),
                    stage: 0,
                }),
            )
            && final(world).chunk_of(pos.chunk).spec_tiles()
                == old(world).chunk_of(pos.chunk).spec_tiles(),
        !planted ==> *final(world) == *old(world),
{
    if !world.tile_at(pos).is_tilled {
        return false;
    }
    if world.crop_at(pos).is_some() {
        return false;
    }
    let definition = match all_items.get(crop_id) {
        Some(definition) => definition,
        None => {
            return false;
        },
    };
    let crop = CropData::new(definition, simulation_time);
    world.insert_crop(pos, crop);
    true
}

/// Applying the wall tool: places a wall on the tile edge facing the
/// current building rotation, unless that edge already carries one. Returns
/// whether a wall was placed; on a no-op the world is untouched.
pub fn place_wall(world: &mut WorldData, pos: &MapPos, direction: CardinalDirection)
    -> (built: bool)
    requires
        old(world).wf(),
        old(world).has_chunk(pos.chunk),
        pos.wf(),
    ensures
        final(world).wf(),
        built == !old(world).tile_of(*pos).walls.spec_at(direction),
        old(world).same_chunks_except(*final(world), pos.chunk),
        built ==> final(world).chunk_of(pos.chunk).spec_tiles()
            == old(world).chunk_of(pos.chunk).spec_tiles().update(
                pos.tile.spec_index(),
                (TileData {
                    walls: old(world).tile_of(*pos).walls.spec_set_at(direction, true),
                    ..old(world).tile_of(*pos)
                }),
            )
            && final(world).chunk_of(pos.chunk).spec_crops()
                == old(world).chunk_of(pos.chunk).spec_crops(),
        !built ==> *final(world) == *old(world),
{
    let tile = world.tile_at(pos);
    if tile.walls.at(direction) {
        return false;
    }
    world.set_wall(pos, direction, true);
    true
}

/// The result of resolving a batch of interaction events: the world model
/// afterwards and every notification raised, in order.
pub ghost struct InteractionStep {
    pub world: Map<ChunkPos, ChunkModel>,
    pub updates: Seq<UpdateTileEvent>,
    pub destroyed: Seq<CropDestroyedEvent>,
    pub harvested: Seq<CropHarvestedEvent>,
    pub planted: Seq<CropPlantedEvent>,
    pub walls: Seq<WallBuiltEvent>,
}

/// A step that changed the world to `m` and raised nothing.
pub open spec fn spec_step_nothing(m: Map<ChunkPos, ChunkModel>) -> InteractionStep {
    InteractionStep {
        world: m,
        updates: Seq::empty(),
        destroyed: Seq::empty(),
        harvested: Seq::empty(),
        planted: Seq::empty(),
        walls: Seq::empty(),
    }
}

/// The five tile-update notifications a tilled-state change at `pos`
/// raises: the tile itself, then its four neighbors.
pub open spec fn spec_tilled_change_updates(pos: MapPos) -> Seq<UpdateTileEvent> {
    seq![UpdateTileEvent { chunk_pos: pos.chunk, tile_pos: pos.tile }]
        + UpdateTileEvent::spec_surrounding_tiles(pos.chunk, pos.tile)
}

/// What resolving one interaction event does to the world model and which
/// notifications it raises. Every precondition failure (tool applied where
/// its condition does not hold) leaves the world unchanged and raises
/// nothing.
pub open spec fn spec_apply_interaction(
    m: Map<ChunkPos, ChunkModel>,
    all: AllCrops,
    now: u64,
    ev: TileInteractionEvent,
) -> InteractionStep {
    let pos = ev.pos;
    let idx = pos.tile.spec_index();
    let chunk = m[pos.chunk];
    let tile = chunk.tiles[idx];
    match ev.used_tool {
        ActiveTool::NoTool => spec_step_nothing(m),
        ActiveTool::Wall => {
            if tile.walls.spec_at(ev.rotation) {
                spec_step_nothing(m)
            } else {
                InteractionStep {
                    world: m.insert(pos.chunk, ChunkModel {
                        tiles: chunk.tiles.update(idx, TileData {
                            walls: tile.walls.spec_set_at(ev.rotation, true),
                            ..tile
                        }),
                        crops: chunk.crops,
                    }),
                    walls: seq![WallBuiltEvent { pos, direction: ev.rotation }],
                    ..spec_step_nothing(m)
                }
            }
        },
        ActiveTool::Item(item) => match item {
            ItemId::Crop { .. } => spec_step_nothing(m),
            ItemId::Seed { crop_id } => {
                if tile.is_tilled && chunk.crops[idx] is None && all.spec_contains(crop_id) {
                    InteractionStep {
                        world: m.insert(pos.chunk, ChunkModel {
                            tiles: chunk.tiles,
                            crops: chunk.crops.update(idx, Some(CropData {
                                crop_id,
                                next_stage_at: Some((now
                                    + all.spec_get(crop_id).growth_time_per_stage) as u64),
                                stage: 0,
                            })),
                        }),
                        planted: seq![CropPlantedEvent { pos, crop_id }],
                        ..spec_step_nothing(m)
                    }
                } else {
                    spec_step_nothing(m)
                }
            },
            ItemId::Tool { tool_id } => match tool_id {
                ToolId::Hoe => {
                    if tile.is_tilled {
                        spec_step_nothing(m)
                    } else {
                        InteractionStep {
                            world: m.insert(pos.chunk, ChunkModel {
                                tiles: chunk.tiles.update(idx, TileData {
                                    is_tilled: true,
                                    ..tile
                                }),
                                crops: chunk.crops,
                            }),
                            updates: spec_tilled_change_updates(pos),
                            ..spec_step_nothing(m)
                        }
                    }
                },
                ToolId::Pickaxe => {
                    if chunk.crops[idx] is Some {
                        InteractionStep {
                            destroyed: seq![CropDestroyedEvent { pos }],
                            ..spec_step_nothing(m)
                        }
                    } else if tile.is_tilled {
                        InteractionStep {
                            world: m.insert(pos.chunk, ChunkModel {
                                tiles: chunk.tiles.update(idx, TileData {
                                    is_tilled: false,
                                    ..tile
                                }),
                                crops: chunk.crops,
                            }),
                            updates: spec_tilled_change_updates(pos),
                            ..spec_step_nothing(m)
                        }
                    } else {
                        spec_step_nothing(m)
                    }
                },
                ToolId::Scythe => match chunk.crops[idx] {
                    Some(crop) => {
                        if spec_fully_grown(crop, all) {
                            InteractionStep {
                                harvested: seq![CropHarvestedEvent {
                                    pos,
                                    crop_id: crop.crop_id,
                                }],
                                destroyed: seq![CropDestroyedEvent { pos }],
                                ..spec_step_nothing(m)
                            }
                        } else {
                            spec_step_nothing(m)
                        }
                    },
                    None => spec_step_nothing(m),
                },
            },
        },
    }
}

/// Resolving a batch of interaction events: each event is applied to the
/// world the previous one left behind, and the notifications concatenate in
/// order.
pub open spec fn spec_process_interactions(
    m: Map<ChunkPos, ChunkModel>,
    all: AllCrops,
    now: u64,
    events: Seq<TileInteractionEvent>,
) -> InteractionStep
    decreases events.len(),
{
    if events.len() == 0 {
        spec_step_nothing(m)
    } else {
        let head = spec_apply_interaction(m, all, now, events[0]);
        let rest = spec_process_interactions(head.world, all, now, events.drop_first());
        InteractionStep {
            world: rest.world,
            updates: head.updates + rest.updates,
            destroyed: head.destroyed + rest.destroyed,
            harvested: head.harvested + rest.harvested,
            planted: head.planted + rest.planted,
            walls: head.walls + rest.walls,
        }
    }
}

/// Every notification the interaction resolver raised while resolving a
/// batch of events, in the order it was raised.
pub struct InteractionNotifications {
    pub update_tile_events: Vec<UpdateTileEvent>,
    pub crops_destroyed: Vec<CropDestroyedEvent>,
    pub crops_harvested: Vec<CropHarvestedEvent>,
    pub crops_planted: Vec<CropPlantedEvent>,
    pub walls_built: Vec<WallBuiltEvent>,
}

/// An event batch is resolvable when every event addresses a valid tile of
/// a loaded chunk that does not sit at the numeric edge of the coordinate
/// space.
pub open spec fn spec_events_ok(w: WorldData, events: Seq<TileInteractionEvent>) -> bool {
    forall|i: int| 0 <= i < events.len() ==> {
        let pos = (#[trigger] events[i]).pos;
        &&& pos.wf()
        &&& w.has_chunk(pos.chunk)
        &&& (pos.tile.x == 0 ==> pos.chunk.x > i32::MIN)
        &&& (pos.tile.x >= CHUNK_SIZE - 1 ==> pos.chunk.x < i32::MAX)
        &&& (pos.tile.y == 0 ==> pos.chunk.y > i32::MIN)
        &&& (pos.tile.y >= CHUNK_SIZE - 1 ==> pos.chunk.y < i32::MAX)
    }
}

/// Resolves a batch of interaction events in order, dispatching on the tool
/// snapshotted into each event: the hoe tills, the pickaxe clears, the
/// scythe harvests, a seed plants, the wall tool places a wall. The world
/// afterwards and the notifications raised are exactly those of
/// `spec_process_interactions` on the incoming world model.
pub fn process_tile_interactions(
    world: &mut WorldData,
    all_items: &AllCrops,
    simulation_time: &SimulationTime,
    events: &Vec<TileInteractionEvent>,
) -> (r: InteractionNotifications)
    requires
        old(world).wf(),
        all_items.wf(),
        spec_events_ok(*old(world), events@),
        simulation_time.spec_elapsed() + u32::MAX <= u64::MAX,
    ensures
        final(world).wf(),
        forall|p: ChunkPos| final(world).has_chunk(p) <==> old(world).has_chunk(p),
        ({
            let step = spec_process_interactions(
                old(world).model(),
                *all_items,
                simulation_time.spec_elapsed(),
                events@,
            );
            &&& final(world).model() == step.world
            &&& r.update_tile_events@ == step.updates
            &&& r.crops_destroyed@ == step.destroyed
            &&& r.crops_harvested@ == step.harvested
            &&& r.crops_planted@ == step.planted
            &&& r.walls_built@ == step.walls
        }),
{
    let ghost m0 = old(world).model();
    let ghost now = simulation_time.spec_elapsed();
    let ghost total = spec_process_interactions(m0, *all_items, now, events@);
    let mut updates: Vec<UpdateTileEvent> = Vec::new();
    let mut destroyed: Vec<CropDestroyedEvent> = Vec::new();
    let mut harvested: Vec<CropHarvestedEvent> = Vec::new();
    let mut planted: Vec<CropPlantedEvent> = Vec::new();
    let mut walls: Vec<WallBuiltEvent> = Vec::new();

    proof {
        assert(events@.skip(0) =~= events@);
    }
    let n = events.len();
    for i in 0..n
        invariant
            n == events@.len(),
            world.wf(),
            all_items.wf(),
            simulation_time.spec_elapsed() == now,
            simulation_time.spec_elapsed() + u32::MAX <= u64::MAX,
            spec_events_ok(*world, events@),
            forall|p: ChunkPos| world.has_chunk(p) <==> old(world).has_chunk(p),
            total == spec_process_interactions(m0, *all_items, now, events@),
            ({
                let rest = spec_process_interactions(
                    world.model(), *all_items, now, events@.skip(i as int),
                );
                &&& total.world == rest.world
                &&& total.updates == updates@ + rest.updates
                &&& total.destroyed == destroyed@ + rest.destroyed
                &&& total.harvested == harvested@ + rest.harvested
                &&& total.planted == planted@ + rest.planted
                &&& total.walls == walls@ + rest.walls
            }),
    {
        let ghost w_pre = *world;
        let ghost pre_updates = updates@;
        let ghost pre_destroyed = destroyed@;
        let ghost pre_harvested = harvested@;
        let ghost pre_planted = planted@;
        let ghost pre_walls = walls@;
        let event = &events[i];
        let ghost step = spec_apply_interaction(w_pre.model(), *all_items, now, *event);
        proof {
            assert(events@.skip(i as int)[0] == events@[i as int]);
            assert(events@.skip(i as int).drop_first() =~= events@.skip(i + 1));
            assert(w_pre.model().dom().contains(event.pos.chunk));
            assert(w_pre.model()[event.pos.chunk] == w_pre.chunk_of(event.pos.chunk).model());
        }
        match event.used_tool {
            ActiveTool::NoTool => {
                proof {
                    assert(step.world =~= w_pre.model());
                }
            },
            ActiveTool::Wall => {
                let built = place_wall(world, &event.pos, event.rotation);
                if built {
                    walls.push(WallBuiltEvent {
                        pos: event.pos,
                        direction: event.rotation,
                    });
                    proof {
                        lemma_model_update(w_pre, *world, event.pos.chunk);
                        assert(world.model() =~= step.world);
                        assert(walls@ =~= pre_walls + step.walls);
                    }
                } else {
                    proof {
                        assert(step.world =~= w_pre.model());
                    }
                }
            },
            ActiveTool::Item(item) => {
                match item {
                    ItemId::Crop { .. } => {
                        proof {
                            assert(step.world =~= w_pre.model());
                        }
                    },
                    ItemId::Seed { crop_id } => {
                        let was_planted = plant_seed(
                            world, all_items, &event.pos, crop_id, simulation_time,
                        );
                        if was_planted {
                            planted.push(CropPlantedEvent {
                                pos: event.pos,
                                crop_id,
                            });
                            proof {
                                lemma_model_update(w_pre, *world, event.pos.chunk);
                                assert(world.model() =~= step.world);
                                assert(planted@ =~= pre_planted + step.planted);
                            }
                        } else {
                            proof {
                                assert(step.world =~= w_pre.model());
                            }
                        }
                    },
                    ItemId::Tool { tool_id } => match tool_id {
                        ToolId::Hoe => {
                            let changed = till_tile(world, &event.pos);
                            if changed {
                                updates.push(UpdateTileEvent::new(
                                    event.pos.chunk, event.pos.tile,
                                ));
                                let surrounding = UpdateTileEvent::surrounding_tiles(
                                    event.pos.chunk, event.pos.tile,
                                );
                                updates.push(surrounding[0]);
                                updates.push(surrounding[1]);
                                updates.push(surrounding[2]);
                                updates.push(surrounding[3]);
                                proof {
                                    lemma_model_update(w_pre, *world, event.pos.chunk);
                                    assert(world.model() =~= step.world);
                                    assert(updates@ =~= pre_updates + step.updates);
                                }
                            } else {
                                proof {
                                    assert(step.world =~= w_pre.model());
                                }
                            }
                        },
                        ToolId::Pickaxe => {
                            match clear_tile(world, &event.pos) {
                                ClearOutcome::DestroyedCrop => {
                                    destroyed.push(CropDestroyedEvent { pos: event.pos });
                                    proof {
                                        assert(step.world =~= w_pre.model());
                                        assert(destroyed@ =~= pre_destroyed + step.destroyed);
                                    }
                                },
                                ClearOutcome::Cleared => {
                                    updates.push(UpdateTileEvent::new(
                                        event.pos.chunk, event.pos.tile,
                                    ));
                                    let surrounding = UpdateTileEvent::surrounding_tiles(
                                        event.pos.chunk, event.pos.tile,
                                    );
                                    updates.push(surrounding[0]);
                                    updates.push(surrounding[1]);
                                    updates.push(surrounding[2]);
                                    updates.push(surrounding[3]);
                                    proof {
                                        lemma_model_update(w_pre, *world, event.pos.chunk);
                                        assert(world.model() =~= step.world);
                                        assert(updates@ =~= pre_updates + step.updates);
                                    }
                                },
                                ClearOutcome::Nothing => {
                                    proof {
                                        assert(step.world =~= w_pre.model());
                                    }
                                },
                            }
                        },
                        ToolId::Scythe => {
                            match harvest_tile(world, all_items, &event.pos) {
                                Some(harvest_events) => {
                                    harvested.push(harvest_events.0);
                                    destroyed.push(harvest_events.1);
                                    proof {
                                        assert(step.world =~= w_pre.model());
                                        assert(harvested@ =~= pre_harvested + step.harvested);
                                        assert(destroyed@ =~= pre_destroyed + step.destroyed);
                                    }
                                },
                                None => {
                                    proof {
                                        assert(step.world =~= w_pre.model());
                                    }
                                },
                            }
                        },
                    },
                }
            },
        }
        proof {
            let rest_pre = spec_process_interactions(
                w_pre.model(), *all_items, now, events@.skip(i as int),
            );
            let rest_post = spec_process_interactions(
                world.model(), *all_items, now, events@.skip(i + 1),
            );
            assert(world.model() == step.world);
            assert(rest_pre.world == rest_post.world);
            assert(rest_pre.updates =~= step.updates + rest_post.updates);
            assert(rest_pre.destroyed =~= step.destroyed + rest_post.destroyed);
            assert(rest_pre.harvested =~= step.harvested + rest_post.harvested);
            assert(rest_pre.planted =~= step.planted + rest_post.planted);
            assert(rest_pre.walls =~= step.walls + rest_post.walls);
            assert(updates@ =~= pre_updates + step.updates);
            assert(destroyed@ =~= pre_destroyed + step.destroyed);
            assert(harvested@ =~= pre_harvested + step.harvested);
            assert(planted@ =~= pre_planted + step.planted);
            assert(walls@ =~= pre_walls + step.walls);
            assert(total.updates =~= updates@ + rest_post.updates);
            assert(total.destroyed =~= destroyed@ + rest_post.destroyed);
            assert(total.harvested =~= harvested@ + rest_post.harvested);
            assert(total.planted =~= planted@ + rest_post.planted);
            assert(total.walls =~= walls@ + rest_post.walls);
        }
    }
    proof {
        assert(events@.skip(n as int) =~= Seq::<TileInteractionEvent>::empty());
        assert(total.updates =~= updates@);
        assert(total.destroyed =~= destroyed@);
        assert(total.harvested =~= harvested@);
        assert(total.planted =~= planted@);
        assert(total.walls =~= walls@);
    }
    InteractionNotifications {
        update_tile_events: updates,
        crops_destroyed: destroyed,
        crops_harvested: harvested,
        crops_planted: planted,
        walls_built: walls,
    }
}

/// What handling a batch of crop-destroyed notifications does: each
/// notification whose tile still holds a crop removes that crop and reports
/// the position, one whose tile holds none is ignored.
pub open spec fn spec_delete_crops(
    m: Map<ChunkPos, ChunkModel>,
    events: Seq<CropDestroyedEvent>,
) -> (Map<ChunkPos, ChunkModel>, Seq<MapPos>)
    decreases events.len(),
{
    if events.len() == 0 {
        (m, Seq::empty())
    } else {
        let pos = events[0].pos;
        let idx = pos.tile.spec_index();
        let chunk = m[pos.chunk];
        if chunk.crops[idx] is Some {
            let m2 = m.insert(pos.chunk, ChunkModel {
                tiles: chunk.tiles,
                crops: chunk.crops.update(idx, None),
            });
            let rest = spec_delete_crops(m2, events.drop_first());
            (rest.0, seq![pos] + rest.1)
        } else {
            spec_delete_crops(m, events.drop_first())
        }
    }
}

/// Handles crop-destroyed notifications: removes each still-present crop
/// from the world and returns the positions whose crop was removed, so the
/// presentation layer can discard the matching visuals.
pub fn process_delete_crops(world: &mut WorldData, events: &Vec<CropDestroyedEvent>)
    -> (removed: Vec<MapPos>)
    requires
        old(world).wf(),
        forall|i: int| 0 <= i < events@.len()
            ==> (#[trigger] events@[i]).pos.wf()
                && old(world).has_chunk(events@[i].pos.chunk),
    ensures
        final(world).wf(),
        forall|p: ChunkPos| final(world).has_chunk(p) <==> old(world).has_chunk(p),
        final(world).model() == spec_delete_crops(old(world).model(), events@).0,
        removed@ == spec_delete_crops(old(world).model(), events@).1,
{
    let ghost m0 = old(world).model();
    let ghost total = spec_delete_crops(m0, events@);
    let mut removed: Vec<MapPos> = Vec::new();
    proof {
        assert(events@.skip(0) =~= events@);
    }
    let n = events.len();
    for i in 0..n
        invariant
            n == events@.len(),
            world.wf(),
            forall|p: ChunkPos| world.has_chunk(p) <==> old(world).has_chunk(p),
            forall|j: int| 0 <= j < events@.len()
                ==> (#[trigger] events@[j]).pos.wf()
                    && old(world).has_chunk(events@[j].pos.chunk),
            total == spec_delete_crops(m0, events@),
            ({
                let rest = spec_delete_crops(world.model(), events@.skip(i as int));
                &&& total.0 == rest.0
                &&& total.1 == removed@ + rest.1
            }),
    {
        let ghost w_pre = *world;
        let ghost pre_removed = removed@;
        let event = &events[i];
        proof {
            assert(events@.skip(i as int)[0] == events@[i as int]);
            assert(events@.skip(i as int).drop_first() =~= events@.skip(i + 1));
            assert(w_pre.model().dom().contains(event.pos.chunk));
            assert(w_pre.model()[event.pos.chunk] == w_pre.chunk_of(event.pos.chunk).model());
        }
        if world.crop_at(&event.pos).is_some() {
            world.remove_crop(&event.pos);
            removed.push(event.pos);
            proof {
                lemma_model_update(w_pre, *world, event.pos.chunk);
                let idx = event.pos.tile.spec_index();
                let chunk = w_pre.model()[event.pos.chunk];
                assert(world.model() =~= w_pre.model().insert(event.pos.chunk, ChunkModel {
                    tiles: chunk.tiles,
                    crops: chunk.crops.update(idx, None),
                }));
                assert(removed@ =~= pre_removed + seq![event.pos]);
            }
        }
        proof {
            let rest_pre = spec_delete_crops(w_pre.model(), events@.skip(i as int));
            let rest_post = spec_delete_crops(world.model(), events@.skip(i + 1));
            assert(rest_pre.0 == rest_post.0);
            assert(total.1 =~= removed@ + rest_post.1);
        }
    }
    proof {
        assert(events@.skip(n as int) =~= Seq::<CropDestroyedEvent>::empty());
        assert(total.1 =~= removed@);
    }
    removed
}

/// The drops a batch of harvest notifications owes: one single-item drop of
/// the harvested species at each notified position, skipping species the
/// registry does not know.
pub open spec fn spec_harvest_drops(all: AllCrops, events: Seq<CropHarvestedEvent>)
    -> Seq<(MapPos, ItemDrop)>
    decreases events.len(),
{
    if events.len() == 0 {
        Seq::empty()
    } else {
        let head = events[0];
        let rest = spec_harvest_drops(all, events.drop_first());
        if all.spec_contains(head.crop_id) {
            seq![(head.pos, ItemDrop {
                item_id: ItemId::Crop { crop_id: head.crop_id },
                amount: 1,
            })] + rest
        } else {
            rest
        }
    }
}

/// Handles crop-harvested notifications: for each one whose species the
/// registry knows, a drop of one item of that species appears at the tile's
/// position. A notification with an unknown species is abandoned.
pub fn process_harvested_crops(all_items: &AllCrops, events: &Vec<CropHarvestedEvent>)
    -> (drops: Vec<(MapPos, ItemDrop)>)
    requires
        all_items.wf(),
    ensures
        drops@ == spec_harvest_drops(*all_items, events@),
{
    let ghost total = spec_harvest_drops(*all_items, events@);
    let mut drops: Vec<(MapPos, ItemDrop)> = Vec::new();
    proof {
        assert(events@.skip(0) =~= events@);
    }
    let n = events.len();
    for i in 0..n
        invariant
            n == events@.len(),
            all_items.wf(),
            total == spec_harvest_drops(*all_items, events@),
            total == drops@ + spec_harvest_drops(*all_items, events@.skip(i as int)),
    {
        let ghost pre_drops = drops@;
        let event = &events[i];
        proof {
            assert(events@.skip(i as int)[0] == events@[i as int]);
            assert(events@.skip(i as int).drop_first() =~= events@.skip(i + 1));
        }
        if all_items.get(event.crop_id).is_some() {
            drops.push((event.pos, ItemDrop::from_crop(event.crop_id, 1)));
            proof {
                assert(drops@ =~= pre_drops + seq![(event.pos, ItemDrop {
                    item_id: ItemId::Crop { crop_id: event.crop_id },
                    amount: 1,
                })]);
            }
        }
        proof {
            assert(total =~= drops@ + spec_harvest_drops(*all_items, events@.skip(i + 1)));
        }
    }
    proof {
        assert(events@.skip(n as int) =~= Seq::<CropHarvestedEvent>::empty());
        assert(total =~= drops@);
    }
    drops
}

} // verus!



