//! Random choices, drawn from the thread's generator.
use crate::vector::Vec2;
use rand::Rng;
use vstd::prelude::*;

verus! {

/// Calls `rand::Rng::gen_range` on `rand::thread_rng()` with the half-open
/// range `low..high`.
///
/// Trusted, not proved: the call returns for a range that is not empty, and
/// what it returns lies in the range. Which number comes is left open, so two
/// calls may differ. The generator panics if the operating system gives it
/// no seed, when it is first used and when it seeds itself anew.
#[verifier::external_body]
pub(crate) fn random_in_range(low: i64, high: i64) -> (value: i64)
    requires
        low < high,
    ensures
        low <= value < high,
{
    rand::thread_rng().gen_range(low..high)
}

/// `p` lies in the rectangle `[-w, w)` by `[-h, h)`.
pub open spec fn in_spawn_area(p: Vec2, w: i64, h: i64) -> bool {
    -w <= p.x < w && -h <= p.y < h
}

/// A random point of the world, with `x` in `[-w, w)` and `y` in `[-h, h)`.
pub fn random_position(w: i64, h: i64) -> (p: Vec2)
    requires
        w > 0,
        h > 0,
    ensures
        in_spawn_area(p, w, h),
{
    let x: i64 = random_in_range(-w, w);
    let y: i64 = random_in_range(-h, h);
    Vec2 { x, y }
}

} // verus!
