//! Setting the world up and tearing it down.
use crate::constants::{DECORATION_LAYER, GUN_FIRE_RATE, PLAYER_HEALTH};
use crate::gun::{Bullet, Gun};
use crate::player::Player;
use crate::random::{in_spawn_area, random_in_range, random_position};
use crate::resources::PlayerHealth;
use crate::state::GameState;
use crate::vector::{Vec2, Vec3};
use vstd::prelude::*;

verus! {

/// A piece of scenery. It shows one of the two frames of the decoration
/// sheet.
#[derive(Clone, Copy, Debug, PartialEq, Eq, Structural)]
pub struct Decoration {
    pub position: Vec3,
    pub frame: usize,
}

impl Decoration {
    /// The decoration lies in the world `[-w, w)` by `[-h, h)`, on the
    /// decorations' draw layer, and shows frame 0 or 1.
    pub open spec fn placed_within(self, w: i64, h: i64) -> bool {
        &&& in_spawn_area(Vec2 { x: self.position.x, y: self.position.y }, w, h)
        &&& self.position.z == DECORATION_LAYER
        &&& self.frame <= 1
    }
}

/// Puts the player and the gun into the world as a game starts, gives the
/// player full health, and names the stage that follows.
pub fn init_world(
    player: &mut Option<Player>,
    gun: &mut Option<Gun>,
    player_health: &mut PlayerHealth,
) -> (next: GameState)
    ensures
        *final(player) == Some(Player::initial()),
        *final(gun) == Some(Gun::initial(GUN_FIRE_RATE)),
        final(player_health).value == PLAYER_HEALTH,
        next == GameState::InGame,
{
    *player = Some(Player::new());
    *gun = Some(Gun::new(GUN_FIRE_RATE));
    player_health.value = PLAYER_HEALTH;
    GameState::InGame
}

/// Scatters `count` decorations over the world `[-world_w, world_w)` by
/// `[-world_h, world_h)`, each at a random place and with a random one of the
/// two frames. What was there before stays.
pub fn spawn_world_decoration(
    decorations: &mut Vec<Decoration>,
    count: usize,
    world_w: i64,
    world_h: i64,
)
    requires
        world_w > 0,
        world_h > 0,
        old(decorations)@.len() + count <= usize::MAX,
    ensures
        final(decorations)@.len() == old(decorations)@.len() + count,
        final(decorations)@.take(old(decorations)@.len() as int) == old(decorations)@,
        forall|i: int|
            old(decorations)@.len() <= i < final(decorations)@.len() ==> (
            #[trigger] final(decorations)@[i]).placed_within(world_w, world_h),
{
    let ghost before = decorations@;
    let mut added: usize = 0;
    while added < count
        invariant
            world_w > 0,
            world_h > 0,
            added <= count,
            before.len() + count <= usize::MAX,
            decorations@.len() == before.len() + added,
            decorations@.take(before.len() as int) == before,
            forall|i: int|
                before.len() <= i < decorations@.len() ==> (#[trigger] decorations@[i]).placed_within(
                    world_w,
                    world_h,
                ),
        decreases count - added,
    {
        let spot = random_position(world_w, world_h);
        let frame: i64 = random_in_range(0, 2);
        decorations.push(
            Decoration {
                position: Vec3 { x: spot.x, y: spot.y, z: DECORATION_LAYER },
                frame: frame as usize,
            },
        );
        added = added + 1;
    }
}

/// Takes the player, the gun, the bullets and the decorations out of the
/// world as a game ends.
pub fn despawn_all_game_entities(
    player: &mut Option<Player>,
    gun: &mut Option<Gun>,
    bullets: &mut Vec<Bullet>,
    decorations: &mut Vec<Decoration>,
)
    ensures
        final(player).is_none(),
        final(gun).is_none(),
        final(bullets)@.len() == 0,
        final(decorations)@.len() == 0,
{
    *player = None;
    *gun = None;
    bullets.clear();
    decorations.clear();
}

} // verus!
