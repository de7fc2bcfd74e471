//! Integer vectors for positions, directions and velocities, and the
//! arithmetic that moves a point a given distance along a direction.
//!
//! Lengths are whole world units and times whole nanoseconds. A velocity is
//! rounded toward zero to whole units per second. The way made is not
//! rounded: what a frame leaves over of a unit is carried in billionths of a
//! unit to the next frame.
use crate::timer::total_time;
use vstd::prelude::*;

verus! {

/// The largest coordinate, in absolute value, for which every operation of
/// this module is free of overflow: 2^31.
pub const COORD_MAX: i64 = 2_147_483_648;

/// Nanoseconds per second, and so billionths of a unit per unit.
pub const NANOS_PER_SECOND: u64 = 1_000_000_000;

/// The longest way, in billionths of a unit, that one frame may add to a
/// place: 2^32 units.
pub const WAY_MAX: i64 = 4_294_967_296_000_000_000;

/// What is left over of a unit on each axis after the frames so far, in
/// billionths of a unit.
#[derive(Clone, Copy, Debug, PartialEq, Eq, Structural)]
pub struct Carry {
    pub x: u32,
    pub y: u32,
}

/// A point or direction in the plane, in world units.
#[derive(Clone, Copy, Debug, PartialEq, Eq, Structural)]
pub struct Vec2 {
    pub x: i64,
    pub y: i64,
}

/// A position with a draw layer `z`; only `x` and `y` take part in the rules.
#[derive(Clone, Copy, Debug, PartialEq, Eq, Structural)]
pub struct Vec3 {
    pub x: i64,
    pub y: i64,
    pub z: i64,
}

impl Vec2 {
    /// Both coordinates are at most `COORD_MAX` in absolute value.
    pub open spec fn in_range(self) -> bool {
        -COORD_MAX <= self.x <= COORD_MAX && -COORD_MAX <= self.y <= COORD_MAX
    }

    /// Both coordinates are at most twice `COORD_MAX` in absolute value, as
    /// those of the difference of two points in range are.
    pub open spec fn in_reach(self) -> bool {
        -2 * COORD_MAX <= self.x <= 2 * COORD_MAX && -2 * COORD_MAX <= self.y <= 2 * COORD_MAX
    }

    /// The vector of length `len` in the direction of `self`, each coordinate
    /// rounded toward zero; the null vector stays null.
    pub open spec fn scaled_to(self, len: u32) -> Vec2 {
        Vec2 {
            x: signed_share(self.x as int, self.y as int, len as nat) as i64,
            y: signed_share(self.y as int, self.x as int, len as nat) as i64,
        }
    }

    /// At the velocity `self` a frame of `delta` nanoseconds adds at most
    /// `WAY_MAX` to a place on either axis.
    pub open spec fn glides(self, delta: u64) -> bool {
        glides(self.x as int, delta) && glides(self.y as int, delta)
    }

    /// Whether a frame of `delta` nanoseconds at the velocity `self` adds at
    /// most `WAY_MAX` to a place on either axis.
    pub fn can_glide(&self, delta: u64) -> (ok: bool)
        ensures
            ok == self.glides(delta),
    {
        can_glide(self.x, delta) && can_glide(self.y, delta)
    }

    /// Whether both coordinates are at most `COORD_MAX` in absolute value.
    pub fn is_in_range(&self) -> (ok: bool)
        ensures
            ok == self.in_range(),
    {
        -COORD_MAX <= self.x && self.x <= COORD_MAX && -COORD_MAX <= self.y && self.y
            <= COORD_MAX
    }

    /// Whether both coordinates are at most twice `COORD_MAX` in absolute
    /// value.
    pub fn is_in_reach(&self) -> (ok: bool)
        ensures
            ok == self.in_reach(),
    {
        -2 * COORD_MAX <= self.x && self.x <= 2 * COORD_MAX && -2 * COORD_MAX <= self.y && self.y
            <= 2 * COORD_MAX
    }

    /// The vector from `from` to `self`.
    pub fn minus(&self, from: &Vec2) -> (d: Vec2)
        requires
            self.in_range(),
            from.in_range(),
        ensures
            d.x == self.x - from.x,
            d.y == self.y - from.y,
            d.in_reach(),
    {
        Vec2 { x: self.x - from.x, y: self.y - from.y }
    }

    /// The vector of length `len` in the direction of `self`, each coordinate
    /// rounded toward zero; the null vector stays null.
    pub fn with_length(&self, len: u32) -> (v: Vec2)
        requires
            self.in_reach(),
        ensures
            v == self.scaled_to(len),
            v.x == signed_share(self.x as int, self.y as int, len as nat),
            v.y == signed_share(self.y as int, self.x as int, len as nat),
            -len <= v.x <= len,
            -len <= v.y <= len,
    {
        let x: u32 = share_of(self.x, self.y, len);
        let y: u32 = share_of(self.y, self.x, len);
        Vec2 {
            x: if self.x < 0 {
                -(x as i64)
            } else {
                x as i64
            },
            y: if self.y < 0 {
                -(y as i64)
            } else {
                y as i64
            },
        }
    }
}

impl Vec3 {
    /// The planar part of the position.
    pub fn truncate(&self) -> (p: Vec2)
        ensures
            p == (Vec2 { x: self.x, y: self.y }),
    {
        Vec2 { x: self.x, y: self.y }
    }
}

/// `r` is the square root of `n`, rounded down.
pub open spec fn is_floor_sqrt(r: nat, n: nat) -> bool {
    r * r <= n && n < (r + 1) * (r + 1)
}

/// The square root of `n`, rounded down.
pub open spec fn floor_sqrt(n: nat) -> nat {
    choose|r: nat| is_floor_sqrt(r, n)
}

/// `k` is `len * |a| / sqrt(a^2 + b^2)`, rounded down: `k` squared times
/// `a^2 + b^2` is at most `a^2 * len^2`, and with `k + 1` that product is
/// larger.
pub open spec fn is_share(k: nat, a: int, b: int, len: nat) -> bool {
    k * k * (a * a + b * b) <= (a * a) * (len * len) && (a * a) * (len * len) < (k + 1) * (k
        + 1) * (a * a + b * b)
}

/// The part of a length `len` that falls on the axis of `a` when it is laid
/// along the direction `(a, b)`: `len * |a| / sqrt(a^2 + b^2)`, rounded down.
/// The null direction has no share.
pub open spec fn share(a: int, b: int, len: nat) -> nat {
    if a == 0 && b == 0 {
        0
    } else {
        choose|k: nat| is_share(k, a, b, len)
    }
}

/// `share` with the sign of `a`.
pub open spec fn signed_share(a: int, b: int, len: nat) -> int {
    if a < 0 {
        -(share(a, b, len) as int)
    } else {
        share(a, b, len) as int
    }
}

/// A place on one axis in billionths of a unit: `x` whole units and `carry`
/// billionths.
pub open spec fn fine(x: int, carry: int) -> int {
    x * (NANOS_PER_SECOND as int) + carry
}

/// At the velocity `v` units per second a frame of `delta` nanoseconds adds
/// at most `WAY_MAX` billionths of a unit to a place.
pub open spec fn glides(v: int, delta: u64) -> bool {
    -WAY_MAX <= v * (delta as int) <= WAY_MAX
}

/// The place on one axis after `delta` nanoseconds at the velocity `v` units
/// per second: the way made is `v * delta` billionths of a unit, and nothing
/// of it is lost. The result is the whole units, rounded down, and the
/// billionths that are left over.
pub open spec fn glided(x: int, carry: int, v: int, delta: int) -> (int, int) {
    let place = fine(x, carry) + v * delta;
    (place / (NANOS_PER_SECOND as int), place % (NANOS_PER_SECOND as int))
}

/// The place on one axis after a frame for each entry of `deltas`, all at the
/// velocity `v`.
pub open spec fn glided_over(x: int, carry: int, v: int, deltas: Seq<u64>) -> (int, int)
    decreases deltas.len(),
{
    if deltas.len() == 0 {
        (x, carry)
    } else {
        let before = glided_over(x, carry, v, deltas.drop_last());
        glided(before.0, before.1, v, deltas.last() as int)
    }
}

/// The position and what is carried after `delta` nanoseconds at the
/// velocity `velocity`. The layer stays.
pub open spec fn slid(position: Vec3, carry: Carry, velocity: Vec2, delta: u64) -> (Vec3, Carry) {
    let x = glided(position.x as int, carry.x as int, velocity.x as int, delta as int);
    let y = glided(position.y as int, carry.y as int, velocity.y as int, delta as int);
    (
        Vec3 { x: x.0 as i64, y: y.0 as i64, z: position.z },
        Carry { x: x.1 as u32, y: y.1 as u32 },
    )
}

/// A frame loses nothing of the way: the place in billionths of a unit grows
/// by exactly `v * delta`, and less than a unit is carried.
pub proof fn lemma_glided_is_exact(x: int, carry: int, v: int, delta: int)
    ensures
        fine(glided(x, carry, v, delta).0, glided(x, carry, v, delta).1) == fine(x, carry) + v
            * delta,
        0 <= glided(x, carry, v, delta).1 < NANOS_PER_SECOND,
{
    let place = fine(x, carry) + v * delta;
    vstd::arithmetic::div_mod::lemma_fundamental_div_mod(place, NANOS_PER_SECOND as int);
    vstd::arithmetic::div_mod::lemma_mod_bound(place, NANOS_PER_SECOND as int);
    assert((NANOS_PER_SECOND as int) * (place / (NANOS_PER_SECOND as int)) == (place / (
    NANOS_PER_SECOND as int)) * (NANOS_PER_SECOND as int)) by (nonlinear_arith);
}

/// The way made does not depend on how the time is cut into frames: after any
/// frames at the velocity `v` the place in billionths of a unit has grown by
/// exactly `v` times the total time.
pub proof fn lemma_glided_over_is_exact(x: int, carry: int, v: int, deltas: Seq<u64>)
    ensures
        fine(glided_over(x, carry, v, deltas).0, glided_over(x, carry, v, deltas).1) == fine(
            x,
            carry,
        ) + v * total_time(deltas),
        deltas.len() > 0 || 0 <= carry < NANOS_PER_SECOND ==> 0 <= glided_over(
            x,
            carry,
            v,
            deltas,
        ).1 < NANOS_PER_SECOND,
    decreases deltas.len(),
{
    if deltas.len() == 0 {
        assert(v * total_time(deltas) == 0) by (nonlinear_arith)
            requires
                total_time(deltas) == 0,
        ;
    } else {
        let init = deltas.drop_last();
        let last = deltas.last() as int;
        lemma_glided_over_is_exact(x, carry, v, init);
        let before = glided_over(x, carry, v, init);
        lemma_glided_is_exact(before.0, before.1, v, last);
        assert(v * total_time(init) + v * last == v * total_time(deltas)) by (nonlinear_arith)
            requires
                total_time(deltas) == total_time(init) + last,
        ;
    }
}

/// A place in range that glides stays within four times the range.
pub proof fn lemma_glided_stays_near(x: int, carry: int, v: int, delta: u64)
    requires
        -COORD_MAX <= x <= COORD_MAX,
        0 <= carry <= u32::MAX,
        glides(v, delta),
    ensures
        -4 * COORD_MAX <= glided(x, carry, v, delta as int).0 <= 4 * COORD_MAX,
        0 <= glided(x, carry, v, delta as int).1 < NANOS_PER_SECOND,
{
    lemma_glided_is_exact(x, carry, v, delta as int);
    let after = glided(x, carry, v, delta as int);
    let n = NANOS_PER_SECOND as int;
    assert(-4 * COORD_MAX <= after.0 <= 4 * COORD_MAX) by (nonlinear_arith)
        requires
            after.0 * n + after.1 == x * n + carry + v * delta,
            0 <= after.1 < n,
            n == 1_000_000_000,
            -2_147_483_648 <= x <= 2_147_483_648,
            0 <= carry <= 4_294_967_295,
            -4_294_967_296_000_000_000 <= v * delta <= 4_294_967_296_000_000_000,
            COORD_MAX == 2_147_483_648,
    ;
}

/// What glides at a speed glides at every velocity that is no faster.
pub proof fn lemma_slower_glides(v: int, speed: int, delta: u64)
    requires
        -speed <= v <= speed,
        glides(speed, delta),
    ensures
        glides(v, delta),
{
    assert(-(speed * delta) <= v * delta <= speed * delta) by (nonlinear_arith)
        requires
            -speed <= v <= speed,
            delta >= 0,
    ;
}

/// Over any frames the whole units made differ from the velocity times the
/// total time by less than one unit.
pub proof fn lemma_way_within_a_unit(x: int, carry: int, v: int, deltas: Seq<u64>)
    requires
        0 <= carry < NANOS_PER_SECOND,
    ensures
        ({
            let way = glided_over(x, carry, v, deltas).0 - x;
            -NANOS_PER_SECOND < way * NANOS_PER_SECOND - v * total_time(deltas)
                < NANOS_PER_SECOND
        }),
{
    lemma_glided_over_is_exact(x, carry, v, deltas);
    let after = glided_over(x, carry, v, deltas);
    assert((after.0 - x) * NANOS_PER_SECOND == after.0 * NANOS_PER_SECOND - x * NANOS_PER_SECOND)
        by (nonlinear_arith);
}

/// Every number has a rounded-down square root.
pub proof fn lemma_floor_sqrt_exists(n: nat) -> (r: nat)
    ensures
        is_floor_sqrt(r, n),
    decreases n,
{
    if n == 0 {
        assert(is_floor_sqrt(0, 0)) by (nonlinear_arith);
        0
    } else {
        let below = lemma_floor_sqrt_exists((n - 1) as nat);
        let next = below + 1;
        assert(next * next < (next + 1) * (next + 1)) by (nonlinear_arith);
        if next * next <= n {
            next
        } else {
            below
        }
    }
}

/// `floor_sqrt(n)` squared is at most `n`, and the next square is above `n`.
pub proof fn lemma_floor_sqrt(n: nat)
    ensures
        is_floor_sqrt(floor_sqrt(n), n),
{
    lemma_floor_sqrt_exists(n);
}

/// Only one number is the rounded-down square root of `n`.
pub proof fn lemma_floor_sqrt_unique(r: nat, n: nat)
    requires
        is_floor_sqrt(r, n),
    ensures
        r == floor_sqrt(n),
{
    lemma_floor_sqrt(n);
    let s = floor_sqrt(n);
    assert(r == s) by (nonlinear_arith)
        requires
            r * r <= n,
            n < (r + 1) * (r + 1),
            s * s <= n,
            n < (s + 1) * (s + 1),
    ;
}

/// The rounded-down square root of `a^2 * len^2 / (a^2 + b^2)`, itself
/// rounded down, is `len * |a| / sqrt(a^2 + b^2)` rounded down.
proof fn lemma_root_of_quotient_is_share(a: int, b: int, len: nat)
    requires
        a != 0 || b != 0,
    ensures
        (a * a) * (len * len) / (a * a + b * b) >= 0,
        is_share(floor_sqrt(((a * a) * (len * len) / (a * a + b * b)) as nat), a, b, len),
{
    let n = a * a + b * b;
    let p = (a * a) * (len * len);
    assert(n > 0 && p >= 0) by (nonlinear_arith)
        requires
            n == a * a + b * b,
            p == (a * a) * (len * len),
            a != 0 || b != 0,
    ;
    let q = p / n;
    assert(q >= 0 && q * n <= p && p < (q + 1) * n) by (nonlinear_arith)
        requires
            q == p / n,
            n > 0,
            p >= 0,
    ;
    let k = floor_sqrt(q as nat);
    lemma_floor_sqrt(q as nat);
    assert(k * k * n <= p) by (nonlinear_arith)
        requires
            k * k <= q,
            q * n <= p,
            n > 0,
    ;
    assert(p < (k + 1) * (k + 1) * n) by (nonlinear_arith)
        requires
            q + 1 <= (k + 1) * (k + 1),
            p < (q + 1) * n,
            n > 0,
    ;
}

/// `share(a, b, len)` is `len * |a| / sqrt(a^2 + b^2)` rounded down.
pub proof fn lemma_share_rounds_down(a: int, b: int, len: nat)
    requires
        a != 0 || b != 0,
    ensures
        is_share(share(a, b, len), a, b, len),
{
    lemma_root_of_quotient_is_share(a, b, len);
}

/// Only one number is `len * |a| / sqrt(a^2 + b^2)` rounded down.
pub proof fn lemma_share_unique(k: nat, a: int, b: int, len: nat)
    requires
        a != 0 || b != 0,
        is_share(k, a, b, len),
    ensures
        k == share(a, b, len),
{
    lemma_share_rounds_down(a, b, len);
    let s = share(a, b, len);
    let n = a * a + b * b;
    let p = (a * a) * (len * len);
    assert(k == s) by (nonlinear_arith)
        requires
            n == a * a + b * b,
            a != 0 || b != 0,
            k * k * n <= p,
            p < (k + 1) * (k + 1) * n,
            s * s * n <= p,
            p < (s + 1) * (s + 1) * n,
    ;
}

/// No axis gets more than the whole length.
pub proof fn lemma_share_at_most_length(a: int, b: int, len: nat)
    ensures
        share(a, b, len) <= len,
{
    if a != 0 || b != 0 {
        lemma_share_rounds_down(a, b, len);
        let k = share(a, b, len);
        let n = a * a + b * b;
        assert(k <= len) by (nonlinear_arith)
            requires
                k * k * n <= (a * a) * (len * len),
                n == a * a + b * b,
                a != 0 || b != 0,
        ;
    }
}

/// Along an axis the whole length falls on that axis and nothing on the
/// other.
pub proof fn lemma_share_on_axis(a: int, len: nat)
    requires
        a != 0,
    ensures
        share(a, 0, len) == len,
        share(0, a, len) == 0,
{
    let aa = a * a;
    let zero = 0int;
    assert(aa > 0) by (nonlinear_arith)
        requires
            aa == a * a,
            a != 0,
    ;
    assert(is_share(len, a, zero, len)) by (nonlinear_arith)
        requires
            a * a > 0,
            zero == 0,
    ;
    lemma_share_unique(len, a, 0, len);
    assert(is_share(0, zero, a, len)) by (nonlinear_arith)
        requires
            a * a > 0,
            zero == 0,
    ;
    lemma_share_unique(0, 0, a, len);
}

/// On a diagonal each axis gets `len / sqrt(2)`, rounded down.
pub proof fn lemma_share_on_diagonal(a: int, b: int, len: nat)
    requires
        a != 0,
        a == b || a == -b,
    ensures
        share(a, b, len) == floor_sqrt(len * len / 2),
{
    let aa = a * a;
    let ll = (len * len) as int;
    let k = floor_sqrt((ll / 2) as nat);
    lemma_floor_sqrt((ll / 2) as nat);
    assert(aa > 0 && b * b == aa) by (nonlinear_arith)
        requires
            aa == a * a,
            a != 0,
            a == b || a == -b,
    ;
    assert(is_share(k, a, b, len)) by (nonlinear_arith)
        requires
            aa == a * a,
            b * b == aa,
            aa > 0,
            ll == len * len,
            2 * (k * k) <= ll,
            ll < 2 * ((k + 1) * (k + 1)),
    ;
    lemma_share_unique(k, a, b, len);
}

/// A vector scaled to `len` is no longer than `len`, and adding one unit on
/// each axis would make it longer: rounding costs less than one unit per
/// axis.
pub proof fn lemma_scaled_length(a: int, b: int, len: nat)
    requires
        a != 0 || b != 0,
    ensures
        share(a, b, len) * share(a, b, len) + share(b, a, len) * share(b, a, len) <= len * len,
        len * len < (share(a, b, len) + 1) * (share(a, b, len) + 1) + (share(b, a, len) + 1)
            * (share(b, a, len) + 1),
{
    lemma_share_rounds_down(a, b, len);
    lemma_share_rounds_down(b, a, len);
    let n = a * a + b * b;
    let ll = (len * len) as int;
    let kx = share(a, b, len);
    let ky = share(b, a, len);
    assert(n > 0) by (nonlinear_arith)
        requires
            n == a * a + b * b,
            a != 0 || b != 0,
    ;
    assert((a * a) * ll + (b * b) * ll == n * ll) by (nonlinear_arith)
        requires
            n == a * a + b * b,
    ;
    assert(kx * kx + ky * ky <= ll) by (nonlinear_arith)
        requires
            kx * kx * n <= (a * a) * ll,
            ky * ky * n <= (b * b) * ll,
            (a * a) * ll + (b * b) * ll == n * ll,
            n > 0,
    ;
    assert(ll < (kx + 1) * (kx + 1) + (ky + 1) * (ky + 1)) by (nonlinear_arith)
        requires
            (a * a) * ll < (kx + 1) * (kx + 1) * n,
            (b * b) * ll < (ky + 1) * (ky + 1) * n,
            (a * a) * ll + (b * b) * ll == n * ll,
            n > 0,
    ;
}

/// The square root of `n`, rounded down.
pub fn isqrt(n: u128) -> (r: u64)
    ensures
        r == floor_sqrt(n as nat),
{
    let mut low: u128 = 0;
    let mut high: u128 = 0x1_0000_0000_0000_0000;
    while high - low > 1
        invariant
            low < high <= 0x1_0000_0000_0000_0000,
            low * low <= n,
            n < high * high,
        decreases high - low,
    {
        let mid: u128 = low + (high - low) / 2;
        assert(mid * mid <= u128::MAX) by (nonlinear_arith)
            requires
                mid < 0x1_0000_0000_0000_0000,
        ;
        if mid * mid <= n {
            low = mid;
        } else {
            high = mid;
        }
    }
    proof {
        lemma_floor_sqrt_unique(low as nat, n as nat);
    }
    low as u64
}

/// The absolute value of `a`.
fn magnitude(a: i64) -> (m: u128)
    ensures
        m == if a < 0 { -(a as int) } else { a as int },
{
    if a < 0 {
        (-(a as i128)) as u128
    } else {
        a as u128
    }
}

/// `len * |a| / sqrt(a^2 + b^2)`, rounded down, and 0 for the null direction.
pub fn share_of(a: i64, b: i64, len: u32) -> (k: u32)
    requires
        -2 * COORD_MAX <= a <= 2 * COORD_MAX,
        -2 * COORD_MAX <= b <= 2 * COORD_MAX,
    ensures
        k == share(a as int, b as int, len as nat),
        k <= len,
{
    if a == 0 && b == 0 {
        return 0;
    }
    let ua: u128 = magnitude(a);
    let ub: u128 = magnitude(b);
    let l: u128 = len as u128;
    assert(ua * ua <= 0x1_0000_0000_0000_0000 && ub * ub <= 0x1_0000_0000_0000_0000) by (nonlinear_arith)
        requires
            ua <= 0x1_0000_0000,
            ub <= 0x1_0000_0000,
    ;
    assert(l * l < 0x1_0000_0000_0000_0000) by (nonlinear_arith)
        requires
            l < 0x1_0000_0000,
    ;
    let aa: u128 = ua * ua;
    let bb: u128 = ub * ub;
    let ll: u128 = l * l;
    assert(aa * ll <= u128::MAX) by (nonlinear_arith)
        requires
            aa <= 0x1_0000_0000_0000_0000,
            ll < 0x1_0000_0000_0000_0000,
    ;
    assert(aa + bb > 0) by (nonlinear_arith)
        requires
            aa == ua * ua,
            bb == ub * ub,
            ua > 0 || ub > 0,
    ;
    let q: u128 = aa * ll / (aa + bb);
    let r: u64 = isqrt(q);
    proof {
        assert(aa == (a as int) * (a as int)) by (nonlinear_arith)
            requires
                aa == ua * ua,
                ua == a || ua == -a,
        ;
        assert(bb == (b as int) * (b as int)) by (nonlinear_arith)
            requires
                bb == ub * ub,
                ub == b || ub == -b,
        ;
        assert(q <= ll) by (nonlinear_arith)
            requires
                q == aa * ll / ((aa + bb) as int),
                aa + bb > 0,
                bb >= 0,
                aa >= 0,
                ll >= 0,
        ;
        lemma_floor_sqrt(q as nat);
        assert(r <= l) by (nonlinear_arith)
            requires
                r * r <= q,
                q <= ll,
                ll == l * l,
                r >= 0,
                l >= 0,
        ;
        lemma_root_of_quotient_is_share(a as int, b as int, len as nat);
        lemma_share_unique(r as nat, a as int, b as int, len as nat);
    }
    r as u32
}

/// Whether a frame of `delta` nanoseconds at the velocity `v` adds at most
/// `WAY_MAX` to a place.
pub fn can_glide(v: i64, delta: u64) -> (ok: bool)
    ensures
        ok == glides(v as int, delta),
{
    assert(-0x8000_0000_0000_0000_0000_0000_0000_0000 < (v as int) * (delta as int)
        < 0x8000_0000_0000_0000_0000_0000_0000_0000) by (nonlinear_arith)
        requires
            -0x8000_0000_0000_0000 <= v <= 0x8000_0000_0000_0000,
            0 <= delta < 0x1_0000_0000_0000_0000,
    ;
    let way: i128 = (v as i128) * (delta as i128);
    -(WAY_MAX as i128) <= way && way <= WAY_MAX as i128
}

/// The place on one axis after `delta` nanoseconds at the velocity `v`: the
/// whole units and the billionths of a unit that are carried.
pub fn glide(x: i64, carry: u32, v: i64, delta: u64) -> (after: (i64, u32))
    requires
        -COORD_MAX <= x <= COORD_MAX,
        glides(v as int, delta),
    ensures
        after.0 == glided(x as int, carry as int, v as int, delta as int).0,
        after.1 == glided(x as int, carry as int, v as int, delta as int).1,
        after.1 < NANOS_PER_SECOND,
        -4 * COORD_MAX <= after.0 <= 4 * COORD_MAX,
{
    let n: u128 = NANOS_PER_SECOND as u128;
    let way: i128 = (v as i128) * (delta as i128);
    let place: i128 = (x as i128) * (NANOS_PER_SECOND as i128) + (carry as i128) + way;
    assert(place == fine(x as int, carry as int) + (v as int) * (delta as int));
    if place >= 0 {
        let whole: u128 = (place as u128) / n;
        let rest: u128 = (place as u128) % n;
        (whole as i64, rest as u32)
    } else {
        let below: u128 = (-place) as u128;
        let whole: u128 = below / n;
        let rest: u128 = below % n;
        proof {
            vstd::arithmetic::div_mod::lemma_fundamental_div_mod(below as int, n as int);
        }
        if rest == 0 {
            proof {
                assert(place == (-(whole as int)) * (n as int) + 0) by (nonlinear_arith)
                    requires
                        -place == (n as int) * (whole as int) + 0,
                ;
                vstd::arithmetic::div_mod::lemma_fundamental_div_mod_converse(
                    place as int,
                    n as int,
                    -(whole as int),
                    0,
                );
            }
            (-(whole as i64), 0)
        } else {
            proof {
                assert(place == (-(whole as int) - 1) * (n as int) + (n - rest)) by (nonlinear_arith)
                    requires
                        -place == (n as int) * (whole as int) + rest,
                ;
                vstd::arithmetic::div_mod::lemma_fundamental_div_mod_converse(
                    place as int,
                    n as int,
                    -(whole as int) - 1,
                    (n - rest) as int,
                );
            }
            (-(whole as i64) - 1, (n - rest) as u32)
        }
    }
}

/// Moves `position` by `delta` nanoseconds at the velocity `velocity`, with
/// what was carried, and carries what is left over.
pub fn slide(position: &mut Vec3, carry: &mut Carry, velocity: &Vec2, delta: u64)
    requires
        -COORD_MAX <= old(position).x <= COORD_MAX,
        -COORD_MAX <= old(position).y <= COORD_MAX,
        velocity.glides(delta),
    ensures
        (*final(position), *final(carry)) == slid(*old(position), *old(carry), *velocity, delta),
        final(position).x == glided(
            old(position).x as int,
            old(carry).x as int,
            velocity.x as int,
            delta as int,
        ).0,
        final(position).y == glided(
            old(position).y as int,
            old(carry).y as int,
            velocity.y as int,
            delta as int,
        ).0,
        final(carry).x == glided(
            old(position).x as int,
            old(carry).x as int,
            velocity.x as int,
            delta as int,
        ).1,
        final(carry).y == glided(
            old(position).y as int,
            old(carry).y as int,
            velocity.y as int,
            delta as int,
        ).1,
{
    let x = glide(position.x, carry.x, velocity.x, delta);
    let y = glide(position.y, carry.y, velocity.y, delta);
    position.x = x.0;
    position.y = y.0;
    carry.x = x.1;
    carry.y = y.1;
}

} // verus!
