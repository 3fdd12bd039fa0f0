//! A turn-based dungeon core: a layered 2D tile grid, randomized room
//! generation with corridors and derived walls, and a field-of-view engine
//! with persistent fog-of-war memory.

pub mod coordinate;
pub mod dungeon;
pub mod entity_components;
pub mod map_tile;
pub mod movement;
pub mod random_source;
pub mod rectangle;
pub mod tile_grid;
pub mod visibility_system;
pub mod walls;
