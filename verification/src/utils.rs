//! Random scalars and angle conversion.
//!
//! Randomness comes from `fastrand`'s thread-local generator through one
//! trusted wrapper that hands back a raw 16-bit value; everything derived
//! from it is verified, and contracts state only what holds of every
//! possible draw.

use vstd::prelude::*;

use crate::fx::{fx_add, fx_div, fx_mul, fx_sub, fxadd, fxd, fxm, fxsub, in_range, SCALE};

verus! {

/// pi in fixed point.
pub const PI_FX: i128 = 205887;

/// Relies on fastrand::u16 over the full range: a 16-bit value drawn from the
/// thread-local generator. Any value may come back, so nothing is promised.
#[verifier::external_body]
fn rand_u16() -> u16 {
    fastrand::u16(..)
}

/// Relies on fastrand::seed: reseeds the thread-local generator so that a
/// render is reproducible. Returns nothing, so nothing is promised.
#[verifier::external_body]
pub fn seed_random(seed_value: u64) {
    fastrand::seed(seed_value)
}

/// A uniformly drawn scalar in [0, 1).
pub fn random_double() -> (r: i128)
    ensures
        0 <= r < SCALE,
{
    let v: u16 = rand_u16();
    v as i128
}

/// A uniformly drawn scalar in [min, max).
pub fn random_double_range(min: i128, max: i128) -> (r: i128)
    requires
        in_range(min as int),
        in_range(max as int),
    ensures
        in_range(r as int),
        exists|d: int|
            0 <= d < SCALE && r == fxadd(min as int, fxm(fxsub(max as int, min as int), d)),
{
    let d: i128 = random_double();
    let span: i128 = fx_sub(max, min);
    let r: i128 = fx_add(min, fx_mul(span, d));
    proof {
        assert(r == fxadd(min as int, fxm(fxsub(max as int, min as int), d as int)));
    }
    r
}

/// Degrees to radians: `d * pi / 180`.
pub open spec fn deg2rad(d: int) -> int {
    fxd(fxm(d, PI_FX as int), 180 * SCALE)
}

pub fn degrees_to_radians(degrees: i128) -> (r: i128)
    requires
        in_range(degrees as int),
    ensures
        r == deg2rad(degrees as int),
        in_range(r as int),
{
    let n: i128 = fx_mul(degrees, PI_FX);
    fx_div(n, 11796480)
}

} // verus!
