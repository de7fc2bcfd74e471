//! The gun that turns around the player, and the bullets it fires.
use crate::animations::Sprite;
use crate::constants::PLAYER_LAYER;
use crate::{is_out_of_bounds, out_of_bounds};
use crate::player::Player;
use crate::resources::CursorPos;
use crate::timer::{total_time, Timer, TimerMode};
use crate::vector::{
    fine, lemma_glided_is_exact, lemma_glided_stays_near, lemma_scaled_length,
    lemma_share_at_most_length, lemma_share_on_axis, share, signed_share, slid, slide, Carry,
    Vec2, Vec3, NANOS_PER_SECOND,
};
use vstd::prelude::*;

verus! {

/// The frame of the resource sheet that shows a bullet.
pub const BULLET_FRAME: usize = 1;

/// The one-shot timer that holds back the next shot while the trigger is
/// held.
#[derive(Clone, Copy, Debug, PartialEq, Eq, Structural)]
pub struct GunCooldown(pub Timer);

/// The gun. It points along `aim`; once it has been turned, `aim` is the
/// vector from the player to the gun.
#[derive(Clone, Copy, Debug, PartialEq, Eq, Structural)]
pub struct Gun {
    pub position: Vec3,
    pub aim: Vec2,
    pub sprite: Sprite,
    pub cooldown: GunCooldown,
}

/// A bullet in flight. `aim` is the aim of the gun that fired it, `velocity`
/// its way per second.
#[derive(Clone, Copy, Debug, PartialEq, Eq, Structural)]
pub struct Bullet {
    pub position: Vec3,
    /// What is left over of a unit after the flight so far.
    pub carry: Carry,
    pub aim: Vec2,
    pub velocity: Vec2,
    pub lifetime: Timer,
    pub sprite: Sprite,
}

/// The vector of length `offset` from `from` toward `target`, each coordinate
/// rounded toward zero. Where the two points are the same it points along the
/// x axis.
pub open spec fn aim_toward(from: Vec2, target: Vec2, offset: u32) -> (int, int) {
    let dx = target.x - from.x;
    let dy = target.y - from.y;
    if dx == 0 && dy == 0 {
        (offset as int, 0int)
    } else {
        (signed_share(dx, dy, offset as nat), signed_share(dy, dx, offset as nat))
    }
}

impl Gun {
    /// The gun as the game starts: at the origin on the player's layer,
    /// pointing up, with a cooldown of `fire_rate` nanoseconds.
    pub open spec fn initial(fire_rate: u64) -> Gun {
        Gun {
            position: Vec3 { x: 0, y: 0, z: PLAYER_LAYER },
            aim: Vec2 { x: 0, y: 1 },
            sprite: Sprite { index: 0, flip_x: false },
            cooldown: GunCooldown(Timer::fresh(fire_rate, TimerMode::Once)),
        }
    }

    /// The gun once it is turned toward `target`: it sits at the distance
    /// `offset` from `player` on the line to the target, on its own layer.
    pub open spec fn turned(self, player: Vec2, target: Vec2, offset: u32) -> Gun {
        let (ax, ay) = aim_toward(player, target, offset);
        Gun {
            position: Vec3 {
                x: (player.x + ax) as i64,
                y: (player.y + ay) as i64,
                z: self.position.z,
            },
            aim: Vec2 { x: ax as i64, y: ay as i64 },
            ..self
        }
    }

    /// The bullet that the gun fires: it starts at the gun with the gun's aim
    /// and flies along the aim at `speed`, for `lifetime` nanoseconds.
    pub open spec fn bullet(self, speed: u32, lifetime: u64) -> Bullet {
        Bullet {
            position: self.position,
            carry: Carry { x: 0, y: 0 },
            aim: self.aim,
            velocity: Vec2 {
                x: signed_share(self.aim.x as int, self.aim.y as int, speed as nat) as i64,
                y: signed_share(self.aim.y as int, self.aim.x as int, speed as nat) as i64,
            },
            lifetime: Timer::fresh(lifetime, TimerMode::Once),
            sprite: Sprite { index: BULLET_FRAME, flip_x: false },
        }
    }

    /// Whether a shot is fired in a frame of `delta` nanoseconds: when the
    /// trigger is pulled in that frame, and while it is held, as soon as the
    /// cooldown has run out.
    pub open spec fn fires(self, delta: u64, just_pressed: bool, pressed: bool) -> bool {
        just_pressed || (pressed && self.cooldown.0.ticked(delta).finished)
    }

    /// A gun that has been turned sits at the distance `offset` from the
    /// player, as far as whole coordinates allow: never farther, and less than
    /// one unit per axis nearer. With the target straight to the right of the
    /// player it sits at exactly `offset` to the right and aims along the x
    /// axis.
    pub proof fn lemma_turned_keeps_distance(self, player: Vec2, target: Vec2, offset: u32)
        requires
            player.in_range(),
            target.in_range(),
        ensures
            ({
                let gun = self.turned(player, target, offset);
                let dx = gun.position.x - player.x;
                let dy = gun.position.y - player.y;
                let (ax, ay) = aim_toward(player, target, offset);
                &&& dx == gun.aim.x && dy == gun.aim.y
                &&& dx == ax && dy == ay
                &&& dx * dx + dy * dy <= offset * offset
                &&& offset * offset < (vstd::math::abs(dx) + 1) * (vstd::math::abs(dx) + 1) + (
                vstd::math::abs(dy) + 1) * (vstd::math::abs(dy) + 1)
                &&& target.y == player.y && target.x > player.x ==> dx == offset && dy == 0
            }),
    {
        let tx = target.x - player.x;
        let ty = target.y - player.y;
        let len = offset as nat;
        if tx == 0 && ty == 0 {
            let gun = self.turned(player, target, offset);
            let dx = gun.position.x - player.x;
            let dy = gun.position.y - player.y;
            assert(dx == offset && dy == 0);
            assert(dx * dx + dy * dy <= offset * offset && offset * offset < (offset + 1) * (
            offset + 1) + (0 + 1) * (0 + 1)) by (nonlinear_arith)
                requires
                    dx == offset,
                    dy == 0,
            ;
        } else {
            lemma_scaled_length(tx, ty, len);
            lemma_share_at_most_length(tx, ty, len);
            lemma_share_at_most_length(ty, tx, len);
            let kx = share(tx, ty, len) as int;
            let ky = share(ty, tx, len) as int;
            let sx = signed_share(tx, ty, len);
            let sy = signed_share(ty, tx, len);
            assert(sx * sx == kx * kx) by (nonlinear_arith)
                requires
                    sx == kx || sx == -kx,
            ;
            assert(sy * sy == ky * ky) by (nonlinear_arith)
                requires
                    sy == ky || sy == -ky,
            ;
            if ty == 0 {
                lemma_share_on_axis(tx, len);
            }
            let gun = self.turned(player, target, offset);
            let dx = gun.position.x - player.x;
            let dy = gun.position.y - player.y;
            assert(dx == sx && dy == sy);
            assert(dx * dx + dy * dy == kx * kx + ky * ky) by (nonlinear_arith)
                requires
                    dx == sx,
                    dy == sy,
                    sx * sx == kx * kx,
                    sy * sy == ky * ky,
            ;
        }
    }

    /// The gun as the game starts, with a cooldown of `fire_rate`
    /// nanoseconds.
    pub fn new(fire_rate: u64) -> (gun: Gun)
        ensures
            gun == Gun::initial(fire_rate),
    {
        Gun {
            position: Vec3 { x: 0, y: 0, z: PLAYER_LAYER },
            aim: Vec2 { x: 0, y: 1 },
            sprite: Sprite { index: 0, flip_x: false },
            cooldown: GunCooldown(Timer::new(fire_rate, TimerMode::Once)),
        }
    }

    /// Turns the gun toward `target` and puts it at the distance `offset`
    /// from `player` on the line to the target. Where the target is the
    /// player's own position the gun points along the x axis.
    pub fn turn(&mut self, player: &Vec2, target: &Vec2, offset: u32)
        requires
            player.in_range(),
            target.in_range(),
        ensures
            *final(self) == old(self).turned(*player, *target, offset),
            final(self).aim.in_reach(),
    {
        let way = target.minus(player);
        let aim = if way.x == 0 && way.y == 0 {
            Vec2 { x: offset as i64, y: 0 }
        } else {
            way.with_length(offset)
        };
        self.aim = aim;
        self.position.x = player.x + aim.x;
        self.position.y = player.y + aim.y;
    }

    /// Counts `delta` nanoseconds on the cooldown and fires if the trigger
    /// asks for it. A shot starts the cooldown anew and is returned.
    pub fn handle_input(
        &mut self,
        delta: u64,
        just_pressed: bool,
        pressed: bool,
        speed: u32,
        lifetime: u64,
    ) -> (shot: Option<Bullet>)
        requires
            old(self).aim.in_reach(),
        ensures
            old(self).fires(delta, just_pressed, pressed) ==> shot == Some(
                old(self).bullet(speed, lifetime),
            ) && *final(self) == (Gun {
                cooldown: GunCooldown(old(self).cooldown.0.ticked(delta).rewound()),
                ..*old(self)
            }),
            !old(self).fires(delta, just_pressed, pressed) ==> shot.is_none() && *final(self)
                == (Gun { cooldown: GunCooldown(old(self).cooldown.0.ticked(delta)), ..*old(self) }),
    {
        self.cooldown.0.tick(delta);
        if just_pressed || (pressed && self.cooldown.0.finished()) {
            self.cooldown.0.reset();
            Some(
                Bullet {
                    position: self.position,
                    carry: Carry { x: 0, y: 0 },
                    aim: self.aim,
                    velocity: self.aim.with_length(speed),
                    lifetime: Timer::new(lifetime, TimerMode::Once),
                    sprite: Sprite { index: BULLET_FRAME, flip_x: false },
                },
            )
        } else {
            None
        }
    }
}

impl Bullet {
    /// Whether an update of `delta` nanoseconds removes the bullet where it
    /// is: its lifetime runs out in that frame, or it is outside the world
    /// that reaches from `-w` to `w` and from `-h` to `h`.
    pub open spec fn halts(self, delta: u64, w: i64, h: i64) -> bool {
        self.lifetime.ticked(delta).finished || is_out_of_bounds(self.position, w, h)
    }

    /// The bullet after `delta` nanoseconds of flight at its velocity.
    pub open spec fn advanced(self, delta: u64) -> Bullet {
        let after = slid(self.position, self.carry, self.velocity, delta);
        Bullet { position: after.0, carry: after.1, lifetime: self.lifetime.ticked(delta), ..self }
    }

    /// Whether an update of `delta` nanoseconds removes the bullet: its
    /// lifetime runs out in that frame, or it is outside the world before or
    /// after the flight of that frame.
    pub open spec fn expires(self, delta: u64, w: i64, h: i64) -> bool {
        self.halts(delta, w, h) || is_out_of_bounds(self.advanced(delta).position, w, h)
    }

    /// The bullet's flight over `delta` nanoseconds can be computed: its place
    /// is in range, and the way made is at most `WAY_MAX`.
    pub open spec fn can_advance(self, delta: u64) -> bool {
        (Vec2 { x: self.position.x, y: self.position.y }).in_range() && self.velocity.glides(delta)
    }

    /// Whether the bullet's flight over `delta` nanoseconds can be computed.
    pub fn check_can_advance(&self, delta: u64) -> (ok: bool)
        ensures
            ok == self.can_advance(delta),
    {
        self.position.truncate().is_in_range() && self.velocity.can_glide(delta)
    }

    /// Counts `delta` nanoseconds on the lifetime, lets the bullet fly, and
    /// says whether it stays in the game. A bullet whose lifetime runs out, or
    /// that is outside the world already, leaves where it is. Any other
    /// bullet flies on, and leaves if that takes it out of the world.
    pub fn update(&mut self, delta: u64, world_w: i64, world_h: i64) -> (stays: bool)
        requires
            !old(self).halts(delta, world_w, world_h) ==> old(self).can_advance(delta),
        ensures
            stays == !old(self).expires(delta, world_w, world_h),
            old(self).halts(delta, world_w, world_h) ==> *final(self) == (Bullet {
                lifetime: old(self).lifetime.ticked(delta),
                ..*old(self)
            }),
            !old(self).halts(delta, world_w, world_h) ==> *final(self) == old(self).advanced(delta),
    {
        self.lifetime.tick(delta);
        if self.lifetime.finished() || out_of_bounds(&self.position, world_w, world_h) {
            false
        } else {
            slide(&mut self.position, &mut self.carry, &self.velocity, delta);
            !out_of_bounds(&self.position, world_w, world_h)
        }
    }

    /// The bullet after a flight through the frames `deltas`, if nothing
    /// removes it on the way.
    pub open spec fn flown(self, deltas: Seq<u64>) -> Bullet
        decreases deltas.len(),
    {
        if deltas.len() == 0 {
            self
        } else {
            self.flown(deltas.drop_last()).advanced(deltas.last())
        }
    }

    /// Whether the bullet is still in the game after an update for each of
    /// the frames `deltas`: none of these updates has removed it.
    pub open spec fn survives(self, deltas: Seq<u64>, w: i64, h: i64) -> bool
        decreases deltas.len(),
    {
        deltas.len() == 0 || (self.survives(deltas.drop_last(), w, h) && !self.flown(
            deltas.drop_last(),
        ).expires(deltas.last(), w, h))
    }

    /// A bullet that is outside the world, or that its flight takes out of
    /// the world, leaves at that update, whatever is left of its lifetime.
    pub proof fn lemma_out_of_bounds_leaves(self, delta: u64, w: i64, h: i64)
        requires
            is_out_of_bounds(self.position, w, h) || is_out_of_bounds(
                self.advanced(delta).position,
                w,
                h,
            ),
        ensures
            self.expires(delta, w, h),
            !self.survives(seq![delta], w, h),
    {
        assert(seq![delta].drop_last() =~= Seq::<u64>::empty());
        assert(seq![delta].last() == delta);
        assert(self.flown(Seq::<u64>::empty()) == self);
    }

    /// On its flight a bullet's lifetime counts every frame, and its velocity
    /// stays.
    pub proof fn lemma_flown_lifetime(self, deltas: Seq<u64>)
        ensures
            self.flown(deltas).lifetime == self.lifetime.after_ticks(deltas),
            self.flown(deltas).velocity == self.velocity,
        decreases deltas.len(),
    {
        if deltas.len() > 0 {
            self.lemma_flown_lifetime(deltas.drop_last());
        }
    }

    /// A bullet lives as long as its lifetime says: of a bullet as it was
    /// fired, the lifetime has run out after some updates exactly if the
    /// frames of these updates add up to the lifetime or more.
    pub proof fn lemma_lifetime_expiry(self, deltas: Seq<u64>)
        requires
            self.lifetime == Timer::fresh(self.lifetime.duration, TimerMode::Once),
            deltas.len() > 0,
        ensures
            self.lifetime.after_ticks(deltas).finished == (total_time(deltas)
                >= self.lifetime.duration),
    {
        self.lifetime.lemma_once_expires_at_duration(deltas);
    }

    /// When a bullet is in the game and when it is gone. A bullet as it was
    /// fired is still there after some updates exactly if the frames of these
    /// updates add up to less than its lifetime and its place was inside the
    /// world before the first and after each of them. So it is there until
    /// just before its lifetime has passed, gone from then on, and gone in
    /// the frame in which it leaves the world.
    pub proof fn lemma_survives(self, deltas: Seq<u64>, w: i64, h: i64)
        requires
            self.lifetime == Timer::fresh(self.lifetime.duration, TimerMode::Once),
            deltas.len() > 0,
        ensures
            self.survives(deltas, w, h) == (total_time(deltas) < self.lifetime.duration
                && forall|k: int|
                0 <= k <= deltas.len() ==> !is_out_of_bounds(
                    (#[trigger] self.flown(deltas.take(k))).position,
                    w,
                    h,
                )),
        decreases deltas.len(),
    {
        let init = deltas.drop_last();
        let last = deltas.last();
        self.lemma_flown_lifetime(init);
        self.lemma_lifetime_expiry(deltas);
        crate::timer::lemma_total_time_nonnegative(init);
        assert(deltas.take(deltas.len() as int) =~= deltas);
        assert(deltas.take(init.len() as int) =~= init);
        assert(self.flown(deltas) == self.flown(init).advanced(last));
        assert forall|k: int| 0 <= k <= init.len() implies deltas.take(k) == init.take(k) by {
            assert(deltas.take(k) =~= init.take(k));
        }
        let inside = |d: Seq<u64>|
            forall|k: int|
                0 <= k <= d.len() ==> !is_out_of_bounds(
                    (#[trigger] self.flown(d.take(k))).position,
                    w,
                    h,
                );
        assert(inside(deltas) == (inside(init) && !is_out_of_bounds(
            self.flown(deltas).position,
            w,
            h,
        ))) by {
            if inside(deltas) {
                assert forall|k: int| 0 <= k <= init.len() implies !is_out_of_bounds(
                    (#[trigger] self.flown(init.take(k))).position,
                    w,
                    h,
                ) by {
                    assert(init.take(k) == deltas.take(k));
                    assert(!is_out_of_bounds(self.flown(deltas.take(k)).position, w, h));
                }
                assert(!is_out_of_bounds(
                    self.flown(deltas.take(deltas.len() as int)).position,
                    w,
                    h,
                ));
            }
            if inside(init) && !is_out_of_bounds(self.flown(deltas).position, w, h) {
                assert forall|k: int| 0 <= k <= deltas.len() implies !is_out_of_bounds(
                    (#[trigger] self.flown(deltas.take(k))).position,
                    w,
                    h,
                ) by {
                    if k <= init.len() {
                        assert(init.take(k) == deltas.take(k));
                        assert(!is_out_of_bounds(self.flown(init.take(k)).position, w, h));
                    }
                }
            }
        }
        assert(inside(init) ==> !is_out_of_bounds(self.flown(init).position, w, h)) by {
            if inside(init) {
                assert(init.take(init.len() as int) =~= init);
                assert(!is_out_of_bounds(self.flown(init.take(init.len() as int)).position, w, h));
            }
        }
        if init.len() == 0 {
            assert(self.survives(init, w, h));
            assert(self.flown(init) == self);
            assert(inside(init) == !is_out_of_bounds(self.position, w, h)) by {
                assert(init.take(0) =~= init);
                if !is_out_of_bounds(self.position, w, h) {
                    assert forall|k: int| 0 <= k <= init.len() implies !is_out_of_bounds(
                        (#[trigger] self.flown(init.take(k))).position,
                        w,
                        h,
                    ) by {
                        assert(init.take(k) =~= init);
                    }
                } else {
                    assert(self.flown(init.take(0)) == self);
                }
            }
        } else {
            self.lemma_survives(init, w, h);
        }
    }

    /// A flight loses nothing of its way, however the time is cut into
    /// frames: where every frame starts in range and is short enough to be
    /// computed, the bullet's place, counted in billionths of a unit, has moved
    /// by exactly its velocity times the total time.
    pub proof fn lemma_flown_place(self, deltas: Seq<u64>)
        requires
            forall|k: int|
                0 <= k < deltas.len() ==> (#[trigger] self.flown(deltas.take(k))).can_advance(
                    deltas[k],
                ),
        ensures
            fine(self.flown(deltas).position.x as int, self.flown(deltas).carry.x as int) == fine(
                self.position.x as int,
                self.carry.x as int,
            ) + self.velocity.x * total_time(deltas),
            fine(self.flown(deltas).position.y as int, self.flown(deltas).carry.y as int) == fine(
                self.position.y as int,
                self.carry.y as int,
            ) + self.velocity.y * total_time(deltas),
        decreases deltas.len(),
    {
        if deltas.len() == 0 {
            assert(self.velocity.x * total_time(deltas) == 0) by (nonlinear_arith)
                requires
                    total_time(deltas) == 0,
            ;
            assert(self.velocity.y * total_time(deltas) == 0) by (nonlinear_arith)
                requires
                    total_time(deltas) == 0,
            ;
        } else {
            let init = deltas.drop_last();
            let last = deltas.last();
            let before = self.flown(init);
            assert(deltas.take(init.len() as int) =~= init);
            assert forall|k: int| 0 <= k < init.len() implies (#[trigger] self.flown(
                init.take(k),
            )).can_advance(init[k]) by {
                assert(init.take(k) =~= deltas.take(k));
                assert(init[k] == deltas[k]);
            }
            self.lemma_flown_place(init);
            self.lemma_flown_lifetime(init);
            assert(before.can_advance(last));
            lemma_glided_is_exact(
                before.position.x as int,
                before.carry.x as int,
                before.velocity.x as int,
                last as int,
            );
            lemma_glided_is_exact(
                before.position.y as int,
                before.carry.y as int,
                before.velocity.y as int,
                last as int,
            );
            lemma_glided_stays_near(
                before.position.x as int,
                before.carry.x as int,
                before.velocity.x as int,
                last,
            );
            lemma_glided_stays_near(
                before.position.y as int,
                before.carry.y as int,
                before.velocity.y as int,
                last,
            );
            let t0 = total_time(init);
            assert(self.velocity.x * t0 + self.velocity.x * last == self.velocity.x * total_time(
                deltas,
            )) by (nonlinear_arith)
                requires
                    total_time(deltas) == t0 + last,
            ;
            assert(self.velocity.y * t0 + self.velocity.y * last == self.velocity.y * total_time(
                deltas,
            )) by (nonlinear_arith)
                requires
                    total_time(deltas) == t0 + last,
            ;
        }
    }
}

/// Turns the gun toward the cursor and keeps it at the distance `offset` from
/// the player. While there is no cursor the gun aims at the player's own
/// position, and so along the x axis. Without a player or a gun nothing
/// happens.
pub fn update_gun_transform(
    cursor_pos: &CursorPos,
    player: &Option<Player>,
    gun: &mut Option<Gun>,
    offset: u32,
)
    requires
        player.is_some() && old(gun).is_some() ==> player.unwrap().in_range() && (
        cursor_pos.0.is_some() ==> cursor_pos.0.unwrap().in_range()),
    ensures
        player.is_none() || old(gun).is_none() ==> *final(gun) == *old(gun),
        player.is_some() && old(gun).is_some() ==> *final(gun) == Some(
            old(gun).unwrap().turned(
                player.unwrap().planar(),
                cursor_pos.target_from(player.unwrap().planar()),
                offset,
            ),
        ),
{
    match (player, gun) {
        (Some(p), Some(g)) => {
            let from = p.position.truncate();
            let target = cursor_pos.target(from);
            g.turn(&from, &target, offset);
        },
        _ => {},
    }
}

/// Counts `delta` nanoseconds on the gun's cooldown and adds the bullet of a
/// shot, if one is fired, at the end of `bullets`. Without a gun nothing
/// happens.
pub fn handle_gun_input(
    gun: &mut Option<Gun>,
    bullets: &mut Vec<Bullet>,
    delta: u64,
    just_pressed: bool,
    pressed: bool,
    speed: u32,
    lifetime: u64,
)
    requires
        old(gun).is_some() ==> old(gun).unwrap().aim.in_reach(),
    ensures
        old(gun).is_none() ==> final(gun).is_none() && final(bullets)@ == old(bullets)@,
        old(gun).is_some() && old(gun).unwrap().fires(delta, just_pressed, pressed) ==> {
            &&& *final(gun) == Some(
                Gun {
                    cooldown: GunCooldown(old(gun).unwrap().cooldown.0.ticked(delta).rewound()),
                    ..old(gun).unwrap()
                },
            )
            &&& final(bullets)@ == old(bullets)@.push(old(gun).unwrap().bullet(speed, lifetime))
        },
        old(gun).is_some() && !old(gun).unwrap().fires(delta, just_pressed, pressed) ==> {
            &&& *final(gun) == Some(
                Gun {
                    cooldown: GunCooldown(old(gun).unwrap().cooldown.0.ticked(delta)),
                    ..old(gun).unwrap()
                },
            )
            &&& final(bullets)@ == old(bullets)@
        },
{
    match gun {
        Some(g) => {
            match g.handle_input(delta, just_pressed, pressed, speed, lifetime) {
                Some(bullet) => {
                    bullets.push(bullet);
                },
                None => {},
            }
        },
        None => {},
    }
}

/// Of the bullets that an update keeps, each was inside the world and had
/// lifetime left, and it is the flight of such a bullet and inside the world
/// again: no bullet that is left is outside the world.
pub proof fn lemma_kept_bullets_were_alive(bullets: Seq<Bullet>, delta: u64, w: i64, h: i64)
    ensures
        ({
            let kept = bullets.filter(|b: Bullet| !b.expires(delta, w, h));
            let after = kept.map_values(|b: Bullet| b.advanced(delta));
            &&& after.len() == kept.len() <= bullets.len()
            &&& forall|i: int|
                0 <= i < kept.len() ==> {
                    &&& bullets.contains(#[trigger] kept[i])
                    &&& !is_out_of_bounds(kept[i].position, w, h)
                    &&& !kept[i].lifetime.ticked(delta).finished
                    &&& after[i] == kept[i].advanced(delta)
                    &&& !is_out_of_bounds(after[i].position, w, h)
                }
        }),
{
    broadcast use vstd::seq_lib::group_filter_ensures;

    let stays = |b: Bullet| !b.expires(delta, w, h);
    let kept = bullets.filter(stays);
    assert forall|i: int| 0 <= i < kept.len() implies bullets.contains(#[trigger] kept[i])
        && stays(kept[i]) by {
        bullets.lemma_filter_contains_rev(stays, kept[i]);
    }
}

/// Updates every bullet by a frame of `delta` nanoseconds: those whose
/// lifetime runs out, those outside the world and those that their flight
/// takes out of the world are removed; the others fly on and keep their
/// order.
pub fn update_bullets(bullets: &mut Vec<Bullet>, delta: u64, world_w: i64, world_h: i64)
    requires
        forall|i: int|
            0 <= i < old(bullets)@.len() && !(#[trigger] old(bullets)@[i]).halts(
                delta,
                world_w,
                world_h,
            ) ==> old(bullets)@[i].can_advance(delta),
    ensures
        final(bullets)@ == old(bullets)@.filter(
            |b: Bullet| !b.expires(delta, world_w, world_h),
        ).map_values(|b: Bullet| b.advanced(delta)),
{
    let ghost stays = |b: Bullet| !b.expires(delta, world_w, world_h);
    let ghost flown = |b: Bullet| b.advanced(delta);
    let mut kept: Vec<Bullet> = Vec::new();
    let mut i: usize = 0;
    proof {
        reveal(Seq::filter);
    }
    while i < bullets.len()
        invariant
            i <= bullets@.len(),
            bullets@ == old(bullets)@,
            stays == |b: Bullet| !b.expires(delta, world_w, world_h),
            flown == |b: Bullet| b.advanced(delta),
            kept@ == bullets@.take(i as int).filter(stays).map_values(flown),
            forall|k: int|
                0 <= k < bullets@.len() && !(#[trigger] bullets@[k]).halts(
                    delta,
                    world_w,
                    world_h,
                ) ==> bullets@[k].can_advance(delta),
        decreases bullets@.len() - i,
    {
        let mut bullet = bullets[i];
        proof {
            reveal(Seq::filter);
            assert(bullets@.take(i + 1).drop_last() =~= bullets@.take(i as int));
        }
        if bullet.update(delta, world_w, world_h) {
            kept.push(bullet);
        }
        i = i + 1;
    }
    proof {
        assert(bullets@.take(i as int) =~= bullets@);
    }
    *bullets = kept;
}

} // verus!
