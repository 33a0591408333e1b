use farmgrid::CardinalDirection;
use farmgrid::active_tool::ActiveTool;
use farmgrid::chunk_data::CropData;
use farmgrid::interaction::{
    BuildingRotation, ClearOutcome, CropDestroyedEvent, CropHarvestedEvent, HotbarPresses,
    TileInteractionEvent, clear_tile, detect_tile_interactions, harvest_tile, place_wall,
    plant_seed, process_delete_crops, process_harvested_crops, process_tile_interactions,
    select_active_tool, till_tile,
};
use farmgrid::item_definitions::parse_crops;
use farmgrid::item_id::{CropId, ItemId, ToolId};
use farmgrid::map_pos::{ChunkPos, MapPos, TilePos};
use farmgrid::simulation_time::SimulationTime;
use farmgrid::world_data::WorldData;

fn pos(cx: i32, cy: i32, tx: u32, ty: u32) -> MapPos {
    MapPos::new(ChunkPos::new(cx, cy), TilePos::new(tx, ty))
}

fn no_presses() -> HotbarPresses {
    HotbarPresses {
        hotbar1: false,
        hotbar2: false,
        hotbar3: false,
        hotbar4: false,
        hotbar5: false,
        hotbar6: false,
    }
}

#[test]
fn hotbar_slots_select_their_tools() {
    let mut tool = ActiveTool::default();
    assert_eq!(tool, ActiveTool::NoTool);

    select_active_tool(&mut tool, &HotbarPresses { hotbar1: true, ..no_presses() });
    assert_eq!(tool, ActiveTool::Item(ItemId::Tool { tool_id: ToolId::Hoe }));
    select_active_tool(&mut tool, &HotbarPresses { hotbar2: true, ..no_presses() });
    assert_eq!(tool, ActiveTool::Item(ItemId::Tool { tool_id: ToolId::Pickaxe }));
    select_active_tool(&mut tool, &HotbarPresses { hotbar3: true, ..no_presses() });
    assert_eq!(tool, ActiveTool::Item(ItemId::Tool { tool_id: ToolId::Scythe }));
    select_active_tool(&mut tool, &HotbarPresses { hotbar4: true, ..no_presses() });
    assert_eq!(tool, ActiveTool::Item(ItemId::Seed { crop_id: CropId(0) }));
    select_active_tool(&mut tool, &HotbarPresses { hotbar5: true, ..no_presses() });
    assert_eq!(tool, ActiveTool::Item(ItemId::Seed { crop_id: CropId(1) }));
    select_active_tool(&mut tool, &HotbarPresses { hotbar6: true, ..no_presses() });
    assert_eq!(tool, ActiveTool::Wall);
    select_active_tool(&mut tool, &no_presses());
    assert_eq!(tool, ActiveTool::Wall);
}

fn detect_one(
    cursor: MapPos,
    just_pressed: bool,
    memo: &mut Option<MapPos>,
) -> Vec<TileInteractionEvent> {
    detect_tile_interactions(
        &ActiveTool::Item(ItemId::Tool { tool_id: ToolId::Hoe }),
        &BuildingRotation { direction: CardinalDirection::North },
        true,
        just_pressed,
        &vec![cursor],
        memo,
    )
}

#[test]
fn held_interaction_fires_a_b_a_for_cursor_path_a_a_b_b_a() {
    let a = pos(0, 0, 1, 1);
    let b = pos(0, 0, 2, 1);
    let mut memo: Option<MapPos> = None;
    let mut fired: Vec<MapPos> = Vec::new();
    for (cursor, just_pressed) in [(a, true), (a, false), (b, false), (b, false), (a, false)] {
        for event in detect_one(cursor, just_pressed, &mut memo) {
            fired.push(event.pos);
        }
    }
    assert_eq!(fired, vec![a, b, a]);
}

#[test]
fn interaction_detection_needs_the_input_held() {
    let a = pos(0, 0, 1, 1);
    let mut memo: Option<MapPos> = Some(pos(0, 0, 9, 9));
    let events = detect_tile_interactions(
        &ActiveTool::Wall,
        &BuildingRotation { direction: CardinalDirection::East },
        false,
        false,
        &vec![a],
        &mut memo,
    );
    assert!(events.is_empty());
    assert_eq!(memo, Some(pos(0, 0, 9, 9)));
}

#[test]
fn rising_edge_clears_the_memo_so_the_same_tile_fires_again() {
    let a = pos(0, 0, 1, 1);
    let mut memo: Option<MapPos> = Some(a);
    let events = detect_one(a, true, &mut memo);
    assert_eq!(events.len(), 1);
    assert_eq!(events[0].pos, a);
    assert_eq!(events[0].rotation, CardinalDirection::North);
    assert_eq!(
        events[0].used_tool,
        ActiveTool::Item(ItemId::Tool { tool_id: ToolId::Hoe })
    );

    let events = detect_one(a, false, &mut memo);
    assert!(events.is_empty());
}

#[test]
fn tilling_is_idempotent() {
    let mut world = WorldData::default();
    let target = pos(0, 0, 5, 5);
    assert!(till_tile(&mut world, &target));
    assert!(world.tile_at(&target).is_tilled);
    assert!(!till_tile(&mut world, &target));
    assert!(world.tile_at(&target).is_tilled);
}

#[test]
fn planting_needs_tilled_ground_and_an_empty_tile() {
    let mut world = WorldData::default();
    let all = parse_crops();
    let clock = SimulationTime::default();
    let target = pos(0, 0, 5, 5);

    assert!(!plant_seed(&mut world, &all, &target, CropId(0), &clock));
    assert!(world.crop_at(&target).is_none());

    till_tile(&mut world, &target);
    assert!(plant_seed(&mut world, &all, &target, CropId(0), &clock));
    assert_eq!(
        world.crop_at(&target),
        Some(CropData { crop_id: CropId(0), next_stage_at: Some(5), stage: 0 })
    );

    assert!(!plant_seed(&mut world, &all, &target, CropId(1), &clock));
    assert_eq!(
        world.crop_at(&target),
        Some(CropData { crop_id: CropId(0), next_stage_at: Some(5), stage: 0 })
    );
}

#[test]
fn planting_an_unknown_species_is_abandoned() {
    let mut world = WorldData::default();
    let all = parse_crops();
    let clock = SimulationTime::default();
    let target = pos(0, 0, 5, 5);
    till_tile(&mut world, &target);
    assert!(!plant_seed(&mut world, &all, &target, CropId(77), &clock));
    assert!(world.crop_at(&target).is_none());
}

#[test]
fn harvest_succeeds_only_at_the_final_stage() {
    let mut world = WorldData::default();
    let all = parse_crops();
    let target = pos(0, 0, 5, 5);
    till_tile(&mut world, &target);

    assert!(harvest_tile(&world, &all, &target).is_none());

    for stage in 0..3u8 {
        world.insert_crop(
            &target,
            CropData { crop_id: CropId(0), next_stage_at: Some(99), stage },
        );
        assert!(harvest_tile(&world, &all, &target).is_none());
    }

    world.insert_crop(
        &target,
        CropData { crop_id: CropId(0), next_stage_at: None, stage: 3 },
    );
    let (harvested, destroyed) = harvest_tile(&world, &all, &target).unwrap();
    assert_eq!(harvested, CropHarvestedEvent { pos: target, crop_id: CropId(0) });
    assert_eq!(destroyed, CropDestroyedEvent { pos: target });
    assert_eq!(
        world.crop_at(&target),
        Some(CropData { crop_id: CropId(0), next_stage_at: None, stage: 3 })
    );
}

#[test]
fn clearing_prefers_the_crop_over_the_tilled_flag() {
    let mut world = WorldData::default();
    let target = pos(0, 0, 5, 5);
    till_tile(&mut world, &target);
    world.insert_crop(
        &target,
        CropData { crop_id: CropId(0), next_stage_at: Some(5), stage: 0 },
    );
    assert_eq!(clear_tile(&mut world, &target), ClearOutcome::DestroyedCrop);
    assert!(world.tile_at(&target).is_tilled);
    assert!(world.crop_at(&target).is_some());

    world.remove_crop(&target);
    assert_eq!(clear_tile(&mut world, &target), ClearOutcome::Cleared);
    assert!(!world.tile_at(&target).is_tilled);
    assert_eq!(clear_tile(&mut world, &target), ClearOutcome::Nothing);
}

#[test]
fn placing_a_wall_is_idempotent_per_edge() {
    let mut world = WorldData::default();
    let target = pos(0, 0, 5, 5);
    assert!(place_wall(&mut world, &target, CardinalDirection::West));
    assert!(!place_wall(&mut world, &target, CardinalDirection::West));
    assert!(place_wall(&mut world, &target, CardinalDirection::East));
    let tile = world.tile_at(&target);
    assert!(tile.walls.west && tile.walls.east && !tile.walls.north && !tile.walls.south);
}

fn event(target: MapPos, tool: ActiveTool) -> TileInteractionEvent {
    TileInteractionEvent {
        pos: target,
        rotation: CardinalDirection::North,
        used_tool: tool,
    }
}

#[test]
fn clearing_a_tilled_tile_updates_it_and_its_four_neighbors_only() {
    let mut world = WorldData::default();
    let all = parse_crops();
    let clock = SimulationTime::default();
    let target = pos(0, 0, 5, 5);
    till_tile(&mut world, &target);

    let pickaxe = ActiveTool::Item(ItemId::Tool { tool_id: ToolId::Pickaxe });
    let notifications =
        process_tile_interactions(&mut world, &all, &clock, &vec![event(target, pickaxe)]);

    assert!(!world.tile_at(&target).is_tilled);
    let updated: Vec<(i32, i32, u32, u32)> = notifications
        .update_tile_events
        .iter()
        .map(|u| (u.chunk_pos.x, u.chunk_pos.y, u.tile_pos.x, u.tile_pos.y))
        .collect();
    assert_eq!(
        updated,
        vec![(0, 0, 5, 5), (0, 0, 4, 5), (0, 0, 6, 5), (0, 0, 5, 6), (0, 0, 5, 4)]
    );
    assert!(notifications.crops_destroyed.is_empty());
    assert!(notifications.crops_harvested.is_empty());
    assert!(notifications.crops_planted.is_empty());
    assert!(notifications.walls_built.is_empty());
}

#[test]
fn tilling_updates_cross_the_chunk_boundary() {
    let mut world = WorldData::default();
    let all = parse_crops();
    let clock = SimulationTime::default();
    let target = pos(0, 0, 0, 0);

    let hoe = ActiveTool::Item(ItemId::Tool { tool_id: ToolId::Hoe });
    let notifications =
        process_tile_interactions(&mut world, &all, &clock, &vec![event(target, hoe)]);

    assert!(world.tile_at(&target).is_tilled);
    let updated: Vec<(i32, i32, u32, u32)> = notifications
        .update_tile_events
        .iter()
        .map(|u| (u.chunk_pos.x, u.chunk_pos.y, u.tile_pos.x, u.tile_pos.y))
        .collect();
    assert_eq!(
        updated,
        vec![(0, 0, 0, 0), (-1, 0, 31, 0), (0, 0, 1, 0), (0, 0, 0, 1), (0, -1, 0, 31)]
    );
}

#[test]
fn resolving_a_batch_tills_plants_and_builds_in_order() {
    let mut world = WorldData::default();
    let all = parse_crops();
    let clock = SimulationTime::default();
    let target = pos(0, 0, 8, 8);

    let hoe = ActiveTool::Item(ItemId::Tool { tool_id: ToolId::Hoe });
    let seed = ActiveTool::Item(ItemId::Seed { crop_id: CropId(1) });
    let events = vec![
        event(target, hoe),
        event(target, seed),
        event(target, seed),
        event(target, ActiveTool::Wall),
        event(target, ActiveTool::NoTool),
    ];
    let notifications = process_tile_interactions(&mut world, &all, &clock, &events);

    assert!(world.tile_at(&target).is_tilled);
    assert_eq!(
        world.crop_at(&target),
        Some(CropData { crop_id: CropId(1), next_stage_at: Some(1), stage: 0 })
    );
    assert!(world.tile_at(&target).walls.north);
    assert_eq!(notifications.update_tile_events.len(), 5);
    assert_eq!(notifications.crops_planted.len(), 1);
    assert_eq!(notifications.crops_planted[0].pos, target);
    assert_eq!(notifications.crops_planted[0].crop_id, CropId(1));
    assert_eq!(notifications.walls_built.len(), 1);
    assert_eq!(notifications.walls_built[0].direction, CardinalDirection::North);
}

#[test]
fn harvesting_an_immature_crop_emits_no_notifications() {
    let mut world = WorldData::default();
    let all = parse_crops();
    let clock = SimulationTime::default();
    let target = pos(0, 0, 8, 8);
    till_tile(&mut world, &target);
    world.insert_crop(
        &target,
        CropData { crop_id: CropId(0), next_stage_at: Some(5), stage: 1 },
    );

    let scythe = ActiveTool::Item(ItemId::Tool { tool_id: ToolId::Scythe });
    let notifications =
        process_tile_interactions(&mut world, &all, &clock, &vec![event(target, scythe)]);
    assert!(notifications.crops_harvested.is_empty());
    assert!(notifications.crops_destroyed.is_empty());
    assert!(notifications.update_tile_events.is_empty());
    assert!(world.crop_at(&target).is_some());
}

#[test]
fn harvesting_a_grown_crop_emits_both_notifications_and_deletion_removes_it() {
    let mut world = WorldData::default();
    let all = parse_crops();
    let clock = SimulationTime::default();
    let target = pos(0, 0, 8, 8);
    till_tile(&mut world, &target);
    world.insert_crop(
        &target,
        CropData { crop_id: CropId(0), next_stage_at: None, stage: 3 },
    );

    let scythe = ActiveTool::Item(ItemId::Tool { tool_id: ToolId::Scythe });
    let notifications =
        process_tile_interactions(&mut world, &all, &clock, &vec![event(target, scythe)]);
    assert_eq!(
        notifications.crops_harvested,
        vec![CropHarvestedEvent { pos: target, crop_id: CropId(0) }]
    );
    assert_eq!(notifications.crops_destroyed, vec![CropDestroyedEvent { pos: target }]);

    let removed = process_delete_crops(&mut world, &notifications.crops_destroyed);
    assert_eq!(removed, vec![target]);
    assert!(world.crop_at(&target).is_none());
    assert!(world.tile_at(&target).is_tilled);

    let drops = process_harvested_crops(&all, &notifications.crops_harvested);
    assert_eq!(drops.len(), 1);
    assert_eq!(drops[0].0, target);
    assert_eq!(drops[0].1.item_id, ItemId::Crop { crop_id: CropId(0) });
    assert_eq!(drops[0].1.amount, 1);
}

#[test]
fn deleting_where_no_crop_stands_is_ignored() {
    let mut world = WorldData::default();
    let removed = process_delete_crops(
        &mut world,
        &vec![CropDestroyedEvent { pos: pos(0, 0, 8, 8) }],
    );
    assert!(removed.is_empty());
}

#[test]
fn harvest_drops_skip_unknown_species() {
    let all = parse_crops();
    let events = vec![
        CropHarvestedEvent { pos: pos(0, 0, 1, 1), crop_id: CropId(42) },
        CropHarvestedEvent { pos: pos(0, 0, 2, 2), crop_id: CropId(1) },
    ];
    let drops = process_harvested_crops(&all, &events);
    assert_eq!(drops.len(), 1);
    assert_eq!(drops[0].0, pos(0, 0, 2, 2));
    assert_eq!(drops[0].1.item_id, ItemId::Crop { crop_id: CropId(1) });
}
