//! The camera, which stays on the player.
use crate::player::Player;
use crate::vector::Vec3;
use vstd::prelude::*;

verus! {

/// The camera through which the world is seen.
#[derive(Clone, Copy, Debug, PartialEq, Eq, Structural)]
pub struct MainCamera {
    pub position: Vec3,
}

impl MainCamera {
    /// The camera as it is set up: over the origin.
    pub fn new() -> (camera: MainCamera)
        ensures
            camera.position == (Vec3 { x: 0, y: 0, z: 0 }),
    {
        MainCamera { position: Vec3 { x: 0, y: 0, z: 0 } }
    }
}

/// Puts the camera over the player, on layer 0. The camera jumps there at
/// once, whatever the distance. Without a camera or a player nothing
/// happens.
pub fn camera_follow_player(player: &Option<Player>, camera: &mut Option<MainCamera>)
    ensures
        player.is_none() || old(camera).is_none() ==> *final(camera) == *old(camera),
        player.is_some() && old(camera).is_some() ==> *final(camera) == Some(
            MainCamera {
                position: Vec3 { x: player.unwrap().position.x, y: player.unwrap().position.y, z: 0 },
            },
        ),
{
    match (player, camera) {
        (Some(p), Some(c)) => {
            c.position = Vec3 { x: p.position.x, y: p.position.y, z: 0 };
        },
        _ => {},
    }
}

} // verus!
