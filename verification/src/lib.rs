//! The rules of a small top-down shooter: a player who walks, a gun that
//! turns toward the cursor and fires, bullets, enemies that spawn and chase
//! the player, sprite animation, a camera and a debug display.
//!
//! The rules are a simulation on whole numbers. Positions are in world
//! units, of which `constants::UNIT` make one pixel, speeds in world units per
//! second and times in nanoseconds. A velocity is rounded toward zero to
//! whole units per second; the way made at it is exact, since every record
//! that moves carries what a frame leaves over of a unit to the next frame.
//! Movement is defined for coordinates of at most `vector::COORD_MAX` in
//! absolute value.
//!
//! Each rule is a function over the records it reads and changes. An entity
//! of which there is at most one is handed over as an `Option`, and a rule
//! does nothing while an entity that it needs is missing; the entities of
//! which there are many are handed over as a `Vec`.
pub mod animations;
pub mod camera;
pub mod constants;
pub mod enemy;
pub mod gui;
pub mod gun;
pub mod player;
pub mod random;
pub mod resources;
pub mod state;
pub mod timer;
pub mod vector;
pub mod world;

use crate::vector::Vec3;
use vstd::prelude::*;

verus! {

/// Whether `pos` lies outside the rectangle `[-world_width, world_width]` by
/// `[-world_h, world_h]`. A point on the edge is still inside.
pub open spec fn is_out_of_bounds(pos: Vec3, world_width: i64, world_h: i64) -> bool {
    pos.x > world_width || pos.x < -world_width || pos.y > world_h || pos.y < -world_h
}

/// Strict rectangle test on the x and y coordinates of `pos`.
pub fn out_of_bounds(pos: &Vec3, world_width: i64, world_h: i64) -> (out: bool)
    ensures
        out == is_out_of_bounds(*pos, world_width, world_h),
{
    // `-world_width` would overflow for `i64::MIN`: compare in a wider type.
    let x: i128 = pos.x as i128;
    let y: i128 = pos.y as i128;
    let w: i128 = world_width as i128;
    let h: i128 = world_h as i128;
    x > w || x < -w || y > h || y < -h
}

} // verus!
