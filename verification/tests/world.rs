use farmgrid::CHUNK_SIZE;
use farmgrid::CardinalDirection;
use farmgrid::chunk::Chunk;
use farmgrid::chunk_data::{ChunkData, CropData};
use farmgrid::ground_type::GroundType;
use farmgrid::item_id::CropId;
use farmgrid::map_pos::{ChunkPos, MapPos, TileCursor, TilePos};
use farmgrid::tile_data::{TileData, TileWalls};
use farmgrid::world_data::WorldData;

fn pos(cx: i32, cy: i32, tx: u32, ty: u32) -> MapPos {
    MapPos::new(ChunkPos::new(cx, cy), TilePos::new(tx, ty))
}

#[test]
fn default_world_has_four_chunks() {
    let world = WorldData::default();
    for x in [-1, 0] {
        for y in [-1, 0] {
            assert!(world.contains_chunk(&ChunkPos::new(x, y)));
        }
    }
    assert!(!world.contains_chunk(&ChunkPos::new(1, 0)));
    assert!(!world.contains_chunk(&ChunkPos::new(0, 1)));
    assert_eq!(world.chunk_count(), 4);
}

#[test]
fn default_tiles_are_untilled_grass() {
    let world = WorldData::default();
    let tile = world.tile_at(&pos(0, 0, 7, 9));
    assert_eq!(tile.ground_type, GroundType::Grass);
    assert!(!tile.is_tilled);
    assert!(!tile.walls.north && !tile.walls.east && !tile.walls.south && !tile.walls.west);
    assert!(world.crop_at(&pos(0, 0, 7, 9)).is_none());
}

#[test]
fn set_tilled_roundtrip_restores_untilled_without_crop_side_effects() {
    let mut world = WorldData::default();
    let crop_spot = pos(0, 0, 3, 3);
    let crop = CropData {
        crop_id: CropId(0),
        next_stage_at: Some(5),
        stage: 0,
    };
    world.insert_crop(&crop_spot, crop);

    let target = pos(0, 0, 3, 4);
    world.set_tilled(&target, true);
    assert!(world.tile_at(&target).is_tilled);
    world.set_tilled(&target, false);
    assert!(!world.tile_at(&target).is_tilled);
    assert_eq!(world.crop_at(&crop_spot), Some(crop));
    assert!(world.crop_at(&target).is_none());
}

#[test]
fn set_tilled_changes_only_the_target_tile() {
    let mut world = WorldData::default();
    world.set_tilled(&pos(0, 0, 3, 4), true);
    assert!(world.tile_at(&pos(0, 0, 3, 4)).is_tilled);
    assert!(!world.tile_at(&pos(0, 0, 4, 3)).is_tilled);
    assert!(!world.tile_at(&pos(0, 0, 2, 4)).is_tilled);
    assert!(!world.tile_at(&pos(-1, 0, 3, 4)).is_tilled);
}

#[test]
fn walls_are_independent_per_edge() {
    let mut walls = TileWalls::default();
    assert!(!walls.at(CardinalDirection::North));
    walls.set_at(CardinalDirection::North, true);
    walls.set_at(CardinalDirection::East, true);
    assert!(walls.at(CardinalDirection::North));
    assert!(walls.at(CardinalDirection::East));
    assert!(!walls.at(CardinalDirection::South));
    assert!(!walls.at(CardinalDirection::West));
    walls.set_at(CardinalDirection::North, false);
    assert!(!walls.at(CardinalDirection::North));
    assert!(walls.at(CardinalDirection::East));
}

#[test]
fn set_wall_in_world_touches_one_edge() {
    let mut world = WorldData::default();
    let target = pos(-1, -1, 0, 0);
    world.set_wall(&target, CardinalDirection::South, true);
    let tile = world.tile_at(&target);
    assert!(tile.walls.south);
    assert!(!tile.walls.north && !tile.walls.east && !tile.walls.west);
    assert!(!tile.is_tilled);
}

#[test]
fn insert_and_remove_crop() {
    let mut world = WorldData::default();
    let target = pos(-1, 0, 31, 31);
    let crop = CropData {
        crop_id: CropId(1),
        next_stage_at: None,
        stage: 3,
    };
    assert!(world.crop_at(&target).is_none());
    world.insert_crop(&target, crop);
    assert_eq!(world.crop_at(&target), Some(crop));
    assert_eq!(world.remove_crop(&target), Some(crop));
    assert!(world.crop_at(&target).is_none());
    assert_eq!(world.remove_crop(&target), None);
}

#[test]
fn bare_chunk_tracks_tilled_flags() {
    let mut chunk = Chunk::default();
    assert!(!chunk.at(0, 0));
    assert!(!chunk.at(31, 31));
    chunk.set_at(4, 7, true);
    assert!(chunk.at(4, 7));
    assert!(!chunk.at(7, 4));
    chunk.set_at(4, 7, false);
    assert!(!chunk.at(4, 7));
}

#[test]
fn ground_texture_index_is_two_for_grass() {
    assert_eq!(GroundType::Grass.texture_index(), 2);
}

#[test]
fn default_tile_data() {
    let tile = TileData::default();
    assert_eq!(tile.ground_type, GroundType::Grass);
    assert!(!tile.is_tilled);
    assert_eq!(tile.walls, TileWalls::default());
}

#[test]
fn chunk_data_accessors_address_by_flat_index() {
    let mut chunk = ChunkData::default();
    chunk.set_at(5, 2, true);
    assert!(chunk.at(5, 2).is_tilled);
    assert!(!chunk.at(2, 5).is_tilled);
    assert!(chunk.at_pos(&TilePos::new(5, 2)).is_tilled);
    chunk.set_at_pos(&TilePos::new(5, 2), false);
    assert!(!chunk.at(5, 2).is_tilled);
}

#[test]
fn tile_cursor_global_position_resolves_chunk_times_size_plus_local() {
    let cursor = TileCursor { pos: pos(-1, 2, 31, 4) };
    let (gx, gy) = cursor.global_position();
    assert_eq!(gx, -1 * CHUNK_SIZE as i64 + 31);
    assert_eq!(gy, 2 * CHUNK_SIZE as i64 + 4);
}
