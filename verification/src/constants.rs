//! The game's fixed settings.
//!
//! Lengths are in world units, `UNIT` of which make one pixel; speeds are in
//! world units per second and times in nanoseconds.
use vstd::prelude::*;

verus! {

/// World units per pixel.
pub const UNIT: i64 = 1000;

pub const SPRITE_TILE_SIZE: u32 = 16;

pub const SPRITE_SCALE_FACTOR: u32 = 3;

/// Window width, in pixels.
pub const WW: u32 = 1200;

/// Window height, in pixels.
pub const WH: u32 = 700;

pub const PLAYER_SPEED: u32 = 200_000;

pub const BULLET_SPEED: u32 = 1_000_000;

pub const BULLET_DAMAGE: i64 = 25;

/// Time a bullet lives.
pub const BULLET_LIFETIME: u64 = 5_000_000_000;

/// Time between two shots while the trigger is held.
pub const GUN_FIRE_RATE: u64 = 125_000_000;

/// Distance of the gun from the player.
pub const GUN_OFFSET: u32 = 50_000;

pub const MAX_ENEMY_COUNT: usize = 1000;

/// The most enemies that one spawn adds.
pub const ENEMY_SPAWN_BATCH: usize = 10;

/// Time between two spawns.
pub const ENEMY_SPAWN_RATE: u64 = 1_000_000_000;

pub const ENEMY_SPEED: u32 = 150_000;

pub const ENEMY_HEALTH: i64 = 100;

pub const ENEMY_DAMAGE: i64 = 1;

pub const PLAYER_HEALTH: i64 = 100;

pub const KD_TREE_REFRESH_RATE: u64 = 100_000_000;

/// Time one animation frame is shown.
pub const ANIMATION_RATE: u64 = 125_000_000;

pub const NUM_WORLD_DECORATIONS: usize = 1000;

/// Half the width of the world.
pub const WORLD_W: i64 = 6_000_000;

/// Half the height of the world.
pub const WORLD_H: i64 = 4_000_000;

/// Draw layers.
pub const DECORATION_LAYER: i64 = 1;

pub const ENEMY_LAYER: i64 = 2;

pub const PLAYER_LAYER: i64 = 3;

/// Background colour, as red, green and blue.
pub const BG_COLOR: (u8, u8, u8) = (197, 204, 184);

} // verus!
