//! The player: movement from the keys held, and damage from enemies.
use crate::animations::{AnimationTimer, Sprite};
use crate::constants::{ANIMATION_RATE, ENEMY_DAMAGE, PLAYER_LAYER};
use crate::resources::PlayerHealth;
use crate::timer::{Timer, TimerMode};
use crate::timer::total_time;
use crate::vector::{
    fine, floor_sqrt, glided, glides, lemma_glided_is_exact, lemma_glided_stays_near,
    lemma_scaled_length,
    lemma_share_at_most_length, lemma_share_on_axis, lemma_share_on_diagonal, lemma_slower_glides,
    share, signed_share, slid, slide, Carry, Vec2, Vec3, NANOS_PER_SECOND,
};
use vstd::prelude::*;

verus! {

/// Whether the player stands or runs; it selects the animation.
#[derive(Clone, Copy, Debug, PartialEq, Eq, Structural)]
pub enum PlayerState {
    Idle,
    Run,
}

/// The movement keys that are held down.
#[derive(Clone, Copy, Debug, PartialEq, Eq, Structural)]
pub struct MoveKeys {
    pub up: bool,
    pub down: bool,
    pub left: bool,
    pub right: bool,
}

/// The player.
#[derive(Clone, Copy, Debug, PartialEq, Eq, Structural)]
pub struct Player {
    pub position: Vec3,
    /// What is left over of a unit after the moves so far.
    pub carry: Carry,
    pub state: PlayerState,
    pub sprite: Sprite,
    pub animation: AnimationTimer,
}

/// An enemy has touched the player.
#[derive(Clone, Copy, Debug, PartialEq, Eq, Structural)]
pub struct PlayerEnemyCollisionEvent;

impl Default for PlayerState {
    /// The player starts out standing.
    fn default() -> (state: PlayerState)
        ensures
            state == PlayerState::Idle,
    {
        PlayerState::Idle
    }
}

/// The direction that the keys ask for along one axis: 1 forward, -1 back,
/// 0 for neither or both. A key counts only while the player has not reached
/// the edge of the world, `limit` or `-limit`, that it leads to.
pub open spec fn axis_heading(forward: bool, back: bool, at: i64, limit: i64) -> int {
    (if forward && at < limit {
        1int
    } else {
        0int
    }) - (if back && at > -limit {
        1int
    } else {
        0int
    })
}

/// The direction that the keys ask for along one axis.
fn axis_heading_of(forward: bool, back: bool, at: i64, limit: i64) -> (heading: i64)
    ensures
        heading == axis_heading(forward, back, at, limit),
{
    let mut heading: i64 = 0;
    if forward && at < limit {
        heading = heading + 1;
    }
    if back && (at as i128) > -(limit as i128) {
        heading = heading - 1;
    }
    heading
}

impl Player {
    /// The player as the game starts: standing at the origin of the world.
    pub open spec fn initial() -> Player {
        Player {
            position: Vec3 { x: 0, y: 0, z: PLAYER_LAYER },
            carry: Carry { x: 0, y: 0 },
            state: PlayerState::Idle,
            sprite: Sprite { index: 0, flip_x: false },
            animation: AnimationTimer(Timer::fresh(ANIMATION_RATE, TimerMode::Repeating)),
        }
    }

    /// The planar position lies in the range on which movement is defined.
    pub open spec fn in_range(self) -> bool {
        self.planar().in_range()
    }

    /// The position without its layer.
    pub open spec fn planar(self) -> Vec2 {
        Vec2 { x: self.position.x, y: self.position.y }
    }

    /// The direction in which the keys move the player in a world that
    /// reaches from `-w` to `w` and from `-h` to `h`.
    pub open spec fn heading(self, keys: MoveKeys, w: i64, h: i64) -> (int, int) {
        (
            axis_heading(keys.right, keys.left, self.position.x, w),
            axis_heading(keys.up, keys.down, self.position.y, h),
        )
    }

    /// The velocity at which the keys move the player: `speed` along the
    /// direction that the keys ask for, each coordinate rounded toward zero.
    pub open spec fn velocity(self, keys: MoveKeys, w: i64, h: i64, speed: u32) -> Vec2 {
        let (dx, dy) = self.heading(keys, w, h);
        (Vec2 { x: dx as i64, y: dy as i64 }).scaled_to(speed)
    }

    /// The player after a frame of `delta` nanoseconds in which `keys` are
    /// held.
    ///
    /// With no direction left the player stands and stays. Otherwise the
    /// player runs, and moves for `delta` nanoseconds at `speed` along the
    /// direction.
    pub open spec fn moved(self, keys: MoveKeys, w: i64, h: i64, speed: u32, delta: u64) -> Player {
        let (dx, dy) = self.heading(keys, w, h);
        if dx == 0 && dy == 0 {
            Player { state: PlayerState::Idle, ..self }
        } else {
            let after = slid(self.position, self.carry, self.velocity(keys, w, h, speed), delta);
            Player { position: after.0, carry: after.1, state: PlayerState::Run, ..self }
        }
    }

    /// The player after a frame for each entry of `deltas`, with `keys` held
    /// throughout.
    pub open spec fn moved_over(
        self,
        keys: MoveKeys,
        w: i64,
        h: i64,
        speed: u32,
        deltas: Seq<u64>,
    ) -> Player
        decreases deltas.len(),
    {
        if deltas.len() == 0 {
            self
        } else {
            self.moved_over(keys, w, h, speed, deltas.drop_last()).moved(
                keys,
                w,
                h,
                speed,
                deltas.last(),
            )
        }
    }

    /// The player as the game starts.
    pub fn new() -> (player: Player)
        ensures
            player == Player::initial(),
    {
        Player {
            position: Vec3 { x: 0, y: 0, z: PLAYER_LAYER },
            carry: Carry { x: 0, y: 0 },
            state: PlayerState::Idle,
            sprite: Sprite { index: 0, flip_x: false },
            animation: AnimationTimer(Timer::new(ANIMATION_RATE, TimerMode::Repeating)),
        }
    }

    /// Moves the player as the held keys ask, for `delta` nanoseconds at
    /// `speed`, inside a world that reaches from `-world_w` to `world_w` and
    /// from `-world_h` to `world_h`.
    pub fn handle_input(
        &mut self,
        keys: &MoveKeys,
        world_w: i64,
        world_h: i64,
        speed: u32,
        delta: u64,
    )
        requires
            old(self).in_range(),
            glides(speed as int, delta),
        ensures
            *final(self) == old(self).moved(*keys, world_w, world_h, speed, delta),
    {
        let dx: i64 = axis_heading_of(keys.right, keys.left, self.position.x, world_w);
        let dy: i64 = axis_heading_of(keys.up, keys.down, self.position.y, world_h);
        if dx == 0 && dy == 0 {
            self.state = PlayerState::Idle;
        } else {
            let velocity = (Vec2 { x: dx, y: dy }).with_length(speed);
            proof {
                lemma_slower_glides(velocity.x as int, speed as int, delta);
                lemma_slower_glides(velocity.y as int, speed as int, delta);
            }
            slide(&mut self.position, &mut self.carry, &velocity, delta);
            self.state = PlayerState::Run;
        }
    }

    /// What one frame does to the player, for every set of keys and every
    /// frame time.
    ///
    /// Keys that leave no direction leave the player standing where it was.
    /// Any other keys make the player run, and the player's place, counted in
    /// billionths of a unit, moves by exactly the velocity times the frame
    /// time. The velocity is `speed` laid along the direction: the whole of
    /// it on one axis where the direction lies on that axis, `speed / sqrt(2)`
    /// rounded down on both where it is diagonal, and so never more than
    /// `speed` and less than one unit per second and axis short of it. Where
    /// the player is in range and the frame is short enough to be computed,
    /// that place is the new position and what is carried.
    pub proof fn lemma_displacement(self, keys: MoveKeys, w: i64, h: i64, speed: u32, delta: u64)
        ensures
            ({
                let (dx, dy) = self.heading(keys, w, h);
                let after = self.moved(keys, w, h, speed, delta);
                let v = self.velocity(keys, w, h, speed);
                let x = glided(self.position.x as int, self.carry.x as int, v.x as int, delta as int);
                let y = glided(self.position.y as int, self.carry.y as int, v.y as int, delta as int);
                &&& (dx == 0 && dy == 0) ==> after.state == PlayerState::Idle && after.position
                    == self.position && after.carry == self.carry
                &&& (dx != 0 || dy != 0) ==> {
                    &&& after.state == PlayerState::Run
                    &&& after.position.z == self.position.z
                    &&& fine(x.0, x.1) == fine(self.position.x as int, self.carry.x as int) + v.x
                        * delta
                    &&& fine(y.0, y.1) == fine(self.position.y as int, self.carry.y as int) + v.y
                        * delta
                    &&& 0 <= x.1 < NANOS_PER_SECOND && 0 <= y.1 < NANOS_PER_SECOND
                    &&& self.in_range() && glides(speed as int, delta) ==> {
                        &&& after.position.x == x.0 && after.carry.x == x.1
                        &&& after.position.y == y.0 && after.carry.y == y.1
                    }
                    &&& v.x == signed_share(dx, dy, speed as nat)
                    &&& v.y == signed_share(dy, dx, speed as nat)
                    &&& v.x * v.x + v.y * v.y <= speed * speed
                    &&& speed * speed < (share(dx, dy, speed as nat) + 1) * (share(
                        dx,
                        dy,
                        speed as nat,
                    ) + 1) + (share(dy, dx, speed as nat) + 1) * (share(dy, dx, speed as nat) + 1)
                }
                &&& (dx != 0 && dy == 0) ==> v.x == dx * speed && v.y == 0
                &&& (dx == 0 && dy != 0) ==> v.x == 0 && v.y == dy * speed
                &&& (dx != 0 && dy != 0) ==> v.x == dx * floor_sqrt(speed as nat * speed as nat / 2)
                    && v.y == dy * floor_sqrt(speed as nat * speed as nat / 2)
            }),
    {
        let (dx, dy) = self.heading(keys, w, h);
        let len = speed as nat;
        if dx != 0 || dy != 0 {
            lemma_scaled_length(dx, dy, len);
            lemma_share_at_most_length(dx, dy, len);
            lemma_share_at_most_length(dy, dx, len);
            let kx = share(dx, dy, len) as int;
            let ky = share(dy, dx, len) as int;
            let vx = signed_share(dx, dy, len);
            let vy = signed_share(dy, dx, len);
            assert(vx * vx == kx * kx) by (nonlinear_arith)
                requires
                    vx == kx || vx == -kx,
            ;
            assert(vy * vy == ky * ky) by (nonlinear_arith)
                requires
                    vy == ky || vy == -ky,
            ;
            if dy == 0 {
                lemma_share_on_axis(dx, len);
            } else if dx == 0 {
                lemma_share_on_axis(dy, len);
            } else {
                lemma_share_on_diagonal(dx, dy, len);
                lemma_share_on_diagonal(dy, dx, len);
            }
            lemma_glided_is_exact(
                self.position.x as int,
                self.carry.x as int,
                vx,
                delta as int,
            );
            lemma_glided_is_exact(
                self.position.y as int,
                self.carry.y as int,
                vy,
                delta as int,
            );
            if self.in_range() && glides(speed as int, delta) {
                lemma_slower_glides(vx, speed as int, delta);
                lemma_slower_glides(vy, speed as int, delta);
                lemma_glided_stays_near(
                    self.position.x as int,
                    self.carry.x as int,
                    vx,
                    delta,
                );
                lemma_glided_stays_near(
                    self.position.y as int,
                    self.carry.y as int,
                    vy,
                    delta,
                );
            }
        }
    }

    /// The way made does not depend on how the time is cut into frames.
    ///
    /// Where the keys ask for the same direction at every one of the frames
    /// `deltas`, and every frame starts in range and is short enough to be
    /// computed, the player runs and the place, counted in billionths of a
    /// unit, has moved by exactly the velocity times the total time. So the
    /// whole units made differ from velocity times total time by less than
    /// one unit.
    pub proof fn lemma_way_over_frames(
        self,
        keys: MoveKeys,
        w: i64,
        h: i64,
        speed: u32,
        deltas: Seq<u64>,
    )
        requires
            deltas.len() > 0,
            self.heading(keys, w, h) != (0int, 0int),
            forall|k: int|
                0 <= k < deltas.len() ==> {
                    let at = #[trigger] self.moved_over(keys, w, h, speed, deltas.take(k));
                    &&& at.in_range()
                    &&& at.heading(keys, w, h) == self.heading(keys, w, h)
                    &&& glides(speed as int, deltas[k])
                },
        ensures
            ({
                let after = self.moved_over(keys, w, h, speed, deltas);
                let v = self.velocity(keys, w, h, speed);
                &&& after.state == PlayerState::Run
                &&& fine(after.position.x as int, after.carry.x as int) == fine(
                    self.position.x as int,
                    self.carry.x as int,
                ) + v.x * total_time(deltas)
                &&& fine(after.position.y as int, after.carry.y as int) == fine(
                    self.position.y as int,
                    self.carry.y as int,
                ) + v.y * total_time(deltas)
                &&& after.carry.x < NANOS_PER_SECOND && after.carry.y < NANOS_PER_SECOND
                &&& self.carry.x < NANOS_PER_SECOND ==> -NANOS_PER_SECOND < (after.position.x
                    - self.position.x) * NANOS_PER_SECOND - v.x * total_time(deltas)
                    < NANOS_PER_SECOND
                &&& self.carry.y < NANOS_PER_SECOND ==> -NANOS_PER_SECOND < (after.position.y
                    - self.position.y) * NANOS_PER_SECOND - v.y * total_time(deltas)
                    < NANOS_PER_SECOND
            }),
        decreases deltas.len(),
    {
        let init = deltas.drop_last();
        let last = deltas.last();
        let before = self.moved_over(keys, w, h, speed, init);
        let after = self.moved_over(keys, w, h, speed, deltas);
        let v = self.velocity(keys, w, h, speed);
        assert(deltas.take(init.len() as int) =~= init);
        assert(deltas[init.len() as int] == last);
        assert(before.velocity(keys, w, h, speed) == v);
        before.lemma_displacement(keys, w, h, speed, last);
        if init.len() == 0 {
            assert(before == self);
            assert(total_time(init) == 0);
        } else {
            assert forall|k: int| 0 <= k < init.len() implies {
                let at = #[trigger] self.moved_over(keys, w, h, speed, init.take(k));
                &&& at.in_range()
                &&& at.heading(keys, w, h) == self.heading(keys, w, h)
                &&& glides(speed as int, init[k])
            } by {
                assert(init.take(k) =~= deltas.take(k));
                assert(init[k] == deltas[k]);
            }
            self.lemma_way_over_frames(keys, w, h, speed, init);
        }
        let t0 = total_time(init);
        assert(v.x * t0 + v.x * last == v.x * total_time(deltas)) by (nonlinear_arith)
            requires
                total_time(deltas) == t0 + last,
        ;
        assert(v.y * t0 + v.y * last == v.y * total_time(deltas)) by (nonlinear_arith)
            requires
                total_time(deltas) == t0 + last,
        ;
        assert((after.position.x - self.position.x) * NANOS_PER_SECOND == after.position.x
            * NANOS_PER_SECOND - self.position.x * NANOS_PER_SECOND) by (nonlinear_arith);
        assert((after.position.y - self.position.y) * NANOS_PER_SECOND == after.position.y
            * NANOS_PER_SECOND - self.position.y * NANOS_PER_SECOND) by (nonlinear_arith);
    }
}

/// Moves the player, if there is one, as the held keys ask.
pub fn handle_player_input(
    player: &mut Option<Player>,
    keys: &MoveKeys,
    world_w: i64,
    world_h: i64,
    speed: u32,
    delta: u64,
)
    requires
        old(player).is_some() ==> old(player).unwrap().in_range() && glides(speed as int, delta),
    ensures
        old(player).is_none() ==> final(player).is_none(),
        old(player).is_some() ==> *final(player) == Some(
            old(player).unwrap().moved(*keys, world_w, world_h, speed, delta),
        ),
{
    match player {
        Some(p) => {
            p.handle_input(keys, world_w, world_h, speed, delta);
        },
        None => {},
    }
}

/// Takes `ENEMY_DAMAGE` from the player's health for every collision
/// reported.
pub fn handle_player_enemy_collision_events(
    player_health: &mut PlayerHealth,
    events: &Vec<PlayerEnemyCollisionEvent>,
)
    requires
        old(player_health).value - events@.len() * ENEMY_DAMAGE >= i64::MIN,
    ensures
        final(player_health).value == old(player_health).value - events@.len() * ENEMY_DAMAGE,
{
    let mut i: usize = 0;
    while i < events.len()
        invariant
            i <= events@.len(),
            old(player_health).value - events@.len() * ENEMY_DAMAGE >= i64::MIN,
            player_health.value == old(player_health).value - i * ENEMY_DAMAGE,
        decreases events@.len() - i,
    {
        player_health.value = player_health.value - ENEMY_DAMAGE;
        i = i + 1;
    }
}

} // verus!
