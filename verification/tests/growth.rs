use farmgrid::chunk_data::CropData;
use farmgrid::interaction::{plant_seed, till_tile};
use farmgrid::item_definitions::{AllCrops, CropDefinition, parse_crops};
use farmgrid::item_id::CropId;
use farmgrid::map_pos::{ChunkPos, MapPos, TilePos};
use farmgrid::simulation_time::SimulationTime;
use farmgrid::tile_updater::{find_next_tile_to_update, update_tiles};
use farmgrid::world_data::WorldData;

fn pos(cx: i32, cy: i32, tx: u32, ty: u32) -> MapPos {
    MapPos::new(ChunkPos::new(cx, cy), TilePos::new(tx, ty))
}

fn clock_at(seconds: u64) -> SimulationTime {
    let mut clock = SimulationTime::default();
    clock.advance(seconds);
    clock
}

#[test]
fn four_stage_crop_reaches_terminal_stage_after_three_gated_advancements() {
    let mut world = WorldData::default();
    let all = parse_crops();
    let target = pos(0, 0, 5, 5);
    till_tile(&mut world, &target);

    assert!(plant_seed(&mut world, &all, &target, CropId(0), &clock_at(0)));
    assert_eq!(
        world.crop_at(&target),
        Some(CropData { crop_id: CropId(0), next_stage_at: Some(5), stage: 0 })
    );

    assert_eq!(update_tiles(&mut world, &all, &clock_at(4)), None);
    assert_eq!(
        world.crop_at(&target),
        Some(CropData { crop_id: CropId(0), next_stage_at: Some(5), stage: 0 })
    );

    assert_eq!(update_tiles(&mut world, &all, &clock_at(5)), Some(target));
    assert_eq!(
        world.crop_at(&target),
        Some(CropData { crop_id: CropId(0), next_stage_at: Some(10), stage: 1 })
    );

    assert_eq!(update_tiles(&mut world, &all, &clock_at(9)), None);
    assert_eq!(update_tiles(&mut world, &all, &clock_at(10)), Some(target));
    assert_eq!(
        world.crop_at(&target),
        Some(CropData { crop_id: CropId(0), next_stage_at: Some(15), stage: 2 })
    );

    assert_eq!(update_tiles(&mut world, &all, &clock_at(15)), Some(target));
    assert_eq!(
        world.crop_at(&target),
        Some(CropData { crop_id: CropId(0), next_stage_at: None, stage: 3 })
    );

    assert_eq!(update_tiles(&mut world, &all, &clock_at(100)), None);
    assert_eq!(
        world.crop_at(&target),
        Some(CropData { crop_id: CropId(0), next_stage_at: None, stage: 3 })
    );
}

#[test]
fn scheduler_finds_the_lowest_scheduled_time() {
    let mut world = WorldData::default();
    let slow = pos(0, 0, 1, 1);
    let fast = pos(-1, -1, 30, 2);
    world.insert_crop(
        &slow,
        CropData { crop_id: CropId(0), next_stage_at: Some(50), stage: 0 },
    );
    world.insert_crop(
        &fast,
        CropData { crop_id: CropId(1), next_stage_at: Some(7), stage: 0 },
    );

    let next = find_next_tile_to_update(&world).unwrap();
    assert_eq!(next.update_at, 7);
    assert_eq!(next.pos, fast);
}

#[test]
fn scheduler_ignores_terminal_crops() {
    let mut world = WorldData::default();
    world.insert_crop(
        &pos(0, 0, 1, 1),
        CropData { crop_id: CropId(0), next_stage_at: None, stage: 3 },
    );
    assert!(find_next_tile_to_update(&world).is_none());

    let empty_world = WorldData::default();
    assert!(find_next_tile_to_update(&empty_world).is_none());
}

#[test]
fn one_crop_advances_per_tick_even_when_several_are_due() {
    let mut world = WorldData::default();
    let all = parse_crops();
    let first = pos(0, 0, 1, 1);
    let second = pos(0, 0, 2, 2);
    world.insert_crop(
        &first,
        CropData { crop_id: CropId(0), next_stage_at: Some(3), stage: 0 },
    );
    world.insert_crop(
        &second,
        CropData { crop_id: CropId(0), next_stage_at: Some(3), stage: 0 },
    );

    let advanced_first = update_tiles(&mut world, &all, &clock_at(3)).unwrap();
    let advanced_second = update_tiles(&mut world, &all, &clock_at(3)).unwrap();
    assert_ne!(advanced_first, advanced_second);
    assert_eq!(world.crop_at(&first).unwrap().stage, 1);
    assert_eq!(world.crop_at(&second).unwrap().stage, 1);
}

#[test]
fn a_due_crop_of_an_unknown_species_is_left_alone() {
    let mut world = WorldData::default();
    let mut registry = AllCrops::new();
    registry.insert(CropDefinition {
        id: CropId(9),
        name: String::from("Lone Plant"),
        stages: 2,
        growth_time_per_stage: 1,
    });
    let target = pos(0, 0, 1, 1);
    world.insert_crop(
        &target,
        CropData { crop_id: CropId(0), next_stage_at: Some(1), stage: 0 },
    );
    assert_eq!(update_tiles(&mut world, &registry, &clock_at(10)), None);
    assert_eq!(world.crop_at(&target).unwrap().stage, 0);
}

#[test]
fn a_two_stage_crop_is_terminal_after_one_advancement() {
    let mut world = WorldData::default();
    let mut registry = AllCrops::new();
    registry.insert(CropDefinition {
        id: CropId(3),
        name: String::from("Sprinter"),
        stages: 2,
        growth_time_per_stage: 4,
    });
    let target = pos(0, 0, 1, 1);
    till_tile(&mut world, &target);
    assert!(plant_seed(&mut world, &registry, &target, CropId(3), &clock_at(0)));
    assert_eq!(update_tiles(&mut world, &registry, &clock_at(4)), Some(target));
    assert_eq!(
        world.crop_at(&target),
        Some(CropData { crop_id: CropId(3), next_stage_at: None, stage: 1 })
    );
}
