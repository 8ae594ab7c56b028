//! Fixed-point scalars: the renderer's stand-in for real numbers.
//!
//! A scalar is an `i128` holding `value * SCALE` (16 fractional bits).
//! Every operation is total: results are saturated to `[-FX_MAX, FX_MAX]`
//! (the analogue of the infinities that floating point would produce) and
//! division by zero yields the saturation bound with the dividend's sign.
//! Each executable operation returns exactly the value of its spec-level
//! counterpart, so all higher layers are specified over `fxadd`, `fxm`,
//! `fxd`, `fxsqrt` and friends.

use vstd::arithmetic::div_mod::{
    lemma_div_is_ordered, lemma_div_pos_is_pos, lemma_fundamental_div_mod, lemma_mod_pos_bound,
};
use vstd::prelude::*;

verus! {

/// One unit, i.e. the real number 1.0, as a raw fixed-point scalar.
pub const SCALE: i128 = 65536;

/// Saturation bound for every fixed-point scalar.
pub const FX_MAX: i128 = 1152921504606846976;

/// Magnitude of a mathematical integer.
pub open spec fn mag(x: int) -> int {
    if x < 0 {
        -x
    } else {
        x
    }
}

/// Clamp a mathematical integer into the representable range.
pub open spec fn sat(x: int) -> int {
    if x > FX_MAX {
        FX_MAX as int
    } else if x < -FX_MAX {
        -(FX_MAX as int)
    } else {
        x
    }
}

pub open spec fn in_range(x: int) -> bool {
    -FX_MAX <= x <= FX_MAX
}

/// Division truncating toward zero, as machine division does.
pub open spec fn tdiv(a: int, b: int) -> int {
    if (a >= 0) == (b >= 0) {
        mag(a) / mag(b)
    } else {
        -(mag(a) / mag(b))
    }
}

/// Fixed-point addition.
pub open spec fn fxadd(a: int, b: int) -> int {
    sat(a + b)
}

/// Fixed-point subtraction.
pub open spec fn fxsub(a: int, b: int) -> int {
    sat(a - b)
}

/// Fixed-point multiplication.
pub open spec fn fxm(a: int, b: int) -> int {
    sat(tdiv(a * b, SCALE as int))
}

/// Fixed-point division; a zero divisor saturates with the dividend's sign.
pub open spec fn fxd(a: int, b: int) -> int {
    if b == 0 {
        if a < 0 {
            -(FX_MAX as int)
        } else {
            FX_MAX as int
        }
    } else {
        sat(tdiv(a * SCALE, b))
    }
}

/// Integer square root, `floor(sqrt(x))`.
pub open spec fn isqrt(x: nat) -> nat
    decreases x,
{
    if x == 0 {
        0
    } else {
        let p = isqrt((x - 1) as nat);
        if (p + 1) * (p + 1) <= x {
            p + 1
        } else {
            p
        }
    }
}

/// Fixed-point square root; negative inputs map to zero.
pub open spec fn fxsqrt(a: int) -> int {
    if a <= 0 {
        0
    } else {
        isqrt((a * SCALE) as nat) as int
    }
}

pub proof fn lemma_isqrt_bounds(x: nat)
    ensures
        isqrt(x) * isqrt(x) <= x,
        x < (isqrt(x) + 1) * (isqrt(x) + 1),
    decreases x,
{
    if x == 0 {
        assert(isqrt(0) == 0);
        assert((isqrt(x) + 1) * (isqrt(x) + 1) == 1) by (nonlinear_arith)
            requires isqrt(x) == 0,
        ;
    } else {
        lemma_isqrt_bounds((x - 1) as nat);
        let p = isqrt((x - 1) as nat);
        assert(p * p <= x - 1);
        assert(x - 1 < (p + 1) * (p + 1));
        if (p + 1) * (p + 1) <= x {
            assert(isqrt(x) == p + 1);
            assert((p + 1 + 1) * (p + 1 + 1) > (p + 1) * (p + 1)) by (nonlinear_arith);
            assert(x < (isqrt(x) + 1) * (isqrt(x) + 1));
        } else {
            assert(isqrt(x) == p);
            assert(x < (isqrt(x) + 1) * (isqrt(x) + 1));
        }
    }
}

pub proof fn lemma_isqrt_unique(x: nat, r: nat)
    requires
        r * r <= x,
        x < (r + 1) * (r + 1),
    ensures
        r == isqrt(x),
{
    lemma_isqrt_bounds(x);
    let s = isqrt(x);
    if r < s {
        assert((r + 1) * (r + 1) <= s * s) by (nonlinear_arith)
            requires r + 1 <= s,
        ;
    }
    if s < r {
        assert((s + 1) * (s + 1) <= r * r) by (nonlinear_arith)
            requires s + 1 <= r,
        ;
    }
}

/// Negating one factor negates a fixed-point product.
pub proof fn lemma_fxm_neg(a: int, b: int)
    ensures
        fxm(a, -b) == -fxm(a, b),
{
    assert(a * (-b) == -(a * b)) by (nonlinear_arith);
    assert(mag(-(a * b)) == mag(a * b));
    assert(tdiv(-(a * b), SCALE as int) == -tdiv(a * b, SCALE as int));
}

/// For a nonnegative dividend, truncating division loses less than one
/// divisor's worth.
pub proof fn lemma_tdiv_mul_bound(x: int, d: int)
    requires
        x >= 0,
        d > 0,
    ensures
        tdiv(x, d) >= 0,
        tdiv(x, d) * d <= x,
        tdiv(x, d) * d > x - d,
{
    lemma_div_pos_is_pos(x, d);
    lemma_fundamental_div_mod(x, d);
    lemma_mod_pos_bound(x, d);
    assert(tdiv(x, d) == x / d);
    assert(d * (x / d) == (x / d) * d) by (nonlinear_arith);
}

/// A fixed-point square is never negative.
pub proof fn lemma_fxm_square_nonneg(x: int)
    ensures
        fxm(x, x) >= 0,
{
    assert(x * x >= 0) by (nonlinear_arith);
    lemma_div_pos_is_pos(x * x, SCALE as int);
}

/// Truncating division is monotone in the dividend for a positive divisor.
pub proof fn lemma_tdiv_monotone(x1: int, x2: int, b: int)
    requires
        x1 <= x2,
        b > 0,
    ensures
        tdiv(x1, b) <= tdiv(x2, b),
{
    if x1 >= 0 {
        lemma_div_is_ordered(x1, x2, b);
    } else if x2 < 0 {
        lemma_div_is_ordered(-x2, -x1, b);
    } else {
        lemma_div_pos_is_pos(x2, b);
        lemma_div_pos_is_pos(-x1, b);
    }
}

/// Fixed-point division is monotone in the dividend for a nonnegative
/// divisor.
pub proof fn lemma_fxd_monotone(n1: int, n2: int, a: int)
    requires
        n1 <= n2,
        a >= 0,
    ensures
        fxd(n1, a) <= fxd(n2, a),
{
    if a > 0 {
        assert(n1 * 65536 <= n2 * 65536) by (nonlinear_arith)
            requires n1 <= n2,
        ;
        lemma_tdiv_monotone(n1 * SCALE, n2 * SCALE, a);
    }
}

/// Saturate a raw machine integer into the representable range.
pub fn sat_i(x: i128) -> (r: i128)
    ensures
        r == sat(x as int),
{
    if x > FX_MAX {
        FX_MAX
    } else if x < -FX_MAX {
        -FX_MAX
    } else {
        x
    }
}

/// Machine division truncating toward zero.
pub fn div_trunc(a: i128, b: i128) -> (r: i128)
    requires
        b != 0,
        mag(a as int) < 0x4000_0000_0000_0000_0000_0000_0000_0000,
        mag(b as int) < 0x4000_0000_0000_0000_0000_0000_0000_0000,
    ensures
        r == tdiv(a as int, b as int),
        mag(r as int) <= mag(a as int),
{
    let an: u128 = if a >= 0 {
        a as u128
    } else {
        (-a) as u128
    };
    let bn: u128 = if b >= 0 {
        b as u128
    } else {
        (-b) as u128
    };
    let q: u128 = an / bn;
    assert(q <= an) by (nonlinear_arith)
        requires bn >= 1, q == an / bn,
    ;
    if (a >= 0) == (b >= 0) {
        q as i128
    } else {
        -(q as i128)
    }
}

/// Fixed-point addition.
pub fn fx_add(a: i128, b: i128) -> (r: i128)
    requires
        in_range(a as int),
        in_range(b as int),
    ensures
        r == fxadd(a as int, b as int),
        in_range(r as int),
{
    sat_i(a + b)
}

/// Fixed-point subtraction.
pub fn fx_sub(a: i128, b: i128) -> (r: i128)
    requires
        in_range(a as int),
        in_range(b as int),
    ensures
        r == fxsub(a as int, b as int),
        in_range(r as int),
{
    sat_i(a - b)
}

/// Fixed-point negation.
pub fn fx_neg(a: i128) -> (r: i128)
    requires
        in_range(a as int),
    ensures
        r == -a,
        in_range(r as int),
{
    -a
}

/// Fixed-point multiplication.
pub fn fx_mul(a: i128, b: i128) -> (r: i128)
    requires
        in_range(a as int),
        in_range(b as int),
    ensures
        r == fxm(a as int, b as int),
        in_range(r as int),
{
    assert(mag(a as int * b as int) <= FX_MAX as int * FX_MAX as int) by (nonlinear_arith)
        requires in_range(a as int), in_range(b as int),
    ;
    let p: i128 = a * b;
    let q: i128 = div_trunc(p, SCALE);
    sat_i(q)
}

/// Fixed-point division.
pub fn fx_div(a: i128, b: i128) -> (r: i128)
    requires
        in_range(a as int),
        in_range(b as int),
    ensures
        r == fxd(a as int, b as int),
        in_range(r as int),
{
    if b == 0 {
        if a < 0 {
            -FX_MAX
        } else {
            FX_MAX
        }
    } else {
        let p: i128 = a * SCALE;
        let q: i128 = div_trunc(p, b);
        sat_i(q)
    }
}

/// Fixed-point square root.
pub fn fx_sqrt(a: i128) -> (r: i128)
    requires
        in_range(a as int),
    ensures
        r == fxsqrt(a as int),
        0 <= r,
        in_range(r as int),
{
    if a <= 0 {
        return 0;
    }
    let x: u128 = (a as u128) * (SCALE as u128);
    let mut lo: u128 = 0;
    let mut hi: u128 = 549755813888;
    assert(x < hi * hi) by (nonlinear_arith)
        requires x <= 1152921504606846976 * 65536, hi == 549755813888,
    ;
    while hi - lo > 1
        invariant
            lo * lo <= x,
            x < hi * hi,
            lo < hi <= 549755813888,
        decreases hi - lo,
    {
        let mid: u128 = lo + (hi - lo) / 2;
        assert(lo < mid < hi);
        assert(mid * mid <= 549755813888 * 549755813888) by (nonlinear_arith)
            requires mid <= 549755813888,
        ;
        if mid * mid <= x {
            lo = mid;
        } else {
            hi = mid;
        }
    }
    proof {
        lemma_isqrt_unique(x as nat, lo as nat);
    }
    lo as i128
}

} // verus!
