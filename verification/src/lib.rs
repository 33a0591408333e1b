//! Simulation core of a tile-based farming game: a chunked world grid that
//! tracks per-tile ground state, tilled status, wall placement and growing
//! crops, together with the logic that resolves player tool interactions
//! against that state and keeps derived tile appearance consistent.

use vstd::prelude::*;

pub mod active_tool;
pub mod chunk;
pub mod chunk_data;
pub mod debug_actions;
pub mod drops;
pub mod ground_type;
pub mod helpers;
pub mod interaction;
pub mod inventory;
pub mod item_definitions;
pub mod item_id;
pub mod map_pos;
pub mod player;
pub mod simulation_time;
pub mod tile_data;
pub mod tile_grid_gizmo;
pub mod tile_updater;
pub mod tilemap_layer;
pub mod ui;
pub mod update_tile_event;
pub mod world_data;

verus! {

/// Side length of a square chunk, in tiles.
pub const CHUNK_SIZE: usize = 32;

/// One of the four cardinal directions; identifies a tile edge.
#[derive(Debug, Copy, Clone, Eq, PartialEq, Structural)]
pub enum CardinalDirection {
    North,
    East,
    South,
    West,
}

} // verus!
