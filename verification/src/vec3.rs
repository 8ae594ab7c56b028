//! Three-component vectors over fixed-point scalars.
//!
//! The mathematical model of a vector is a triple of integers (`V3`); every
//! executable operation returns exactly the value of its spec-level
//! counterpart (`vadd`, `vdot`, `vunit`, ...). Division by a scalar goes
//! through the reciprocal, matching the way the renderer's arithmetic is
//! defined throughout.

use vstd::prelude::*;

use crate::fx::{
    fx_add, fx_div, fx_mul, fx_neg, fx_sqrt, fx_sub, fxadd, fxd, fxm, fxsqrt, fxsub, in_range,
    mag, sat, tdiv, SCALE,
};
use crate::utils::{random_double, random_double_range};

verus! {

/// Components below this magnitude count as zero; one fixed-point unit is
/// the smallest representable positive scalar.
pub const NEAR_ZERO_EPS: i128 = 1;

/// The mathematical value of a vector: a triple of integers.
pub type V3 = (int, int, int);

#[derive(Debug, Clone, Copy, PartialEq, Eq, Structural)]
pub struct Vec3 {
    pub x: i128,
    pub y: i128,
    pub z: i128,
}

pub open spec fn v3(v: Vec3) -> V3 {
    (v.x as int, v.y as int, v.z as int)
}

pub open spec fn vwf(a: V3) -> bool {
    in_range(a.0) && in_range(a.1) && in_range(a.2)
}

pub open spec fn vadd(a: V3, b: V3) -> V3 {
    (fxadd(a.0, b.0), fxadd(a.1, b.1), fxadd(a.2, b.2))
}

pub open spec fn vsub(a: V3, b: V3) -> V3 {
    (fxsub(a.0, b.0), fxsub(a.1, b.1), fxsub(a.2, b.2))
}

pub open spec fn vneg(a: V3) -> V3 {
    (-a.0, -a.1, -a.2)
}

/// Scale every component by the fixed-point scalar `s`.
pub open spec fn vscale(a: V3, s: int) -> V3 {
    (fxm(a.0, s), fxm(a.1, s), fxm(a.2, s))
}

/// Elementwise product.
pub open spec fn vmul(a: V3, b: V3) -> V3 {
    (fxm(a.0, b.0), fxm(a.1, b.1), fxm(a.2, b.2))
}

/// Divide by a scalar through its reciprocal, as the executable code does.
pub open spec fn vdivs(a: V3, s: int) -> V3 {
    vscale(a, fxd(SCALE as int, s))
}

pub open spec fn vdot(a: V3, b: V3) -> int {
    fxadd(fxadd(fxm(a.0, b.0), fxm(a.1, b.1)), fxm(a.2, b.2))
}

pub open spec fn vls(a: V3) -> int {
    vdot(a, a)
}

pub open spec fn vlen(a: V3) -> int {
    fxsqrt(vls(a))
}

pub open spec fn vunit(a: V3) -> V3 {
    vdivs(a, vlen(a))
}

pub open spec fn vcross(a: V3, b: V3) -> V3 {
    (
        fxsub(fxm(a.1, b.2), fxm(a.2, b.1)),
        fxsub(fxm(a.2, b.0), fxm(a.0, b.2)),
        fxsub(fxm(a.0, b.1), fxm(a.1, b.0)),
    )
}

/// Mirror `a` about the plane with normal `n`: `a - 2*dot(a, n)*n`.
pub open spec fn vreflect(a: V3, n: V3) -> V3 {
    vsub(a, vscale(vscale(n, vdot(a, n)), 2 * SCALE))
}

/// Snell refraction of the unit vector `uv` at normal `n` with index ratio
/// `etai`: the perpendicular part `etai*(uv + cos*n)` plus the parallel part
/// `-sqrt(|1 - |perp|^2|)*n`.
pub open spec fn vrefract(uv: V3, n: V3, etai: int) -> V3 {
    let cos0 = vdot(vneg(uv), n);
    let cos = if cos0 > SCALE {
        SCALE as int
    } else {
        cos0
    };
    let r_perp = vscale(vadd(uv, vscale(n, cos)), etai);
    let k = fxsub(SCALE as int, vls(r_perp));
    let r_par = vscale(n, -fxsqrt(mag(k)));
    vadd(r_perp, r_par)
}

/// All components below the near-zero threshold.
pub open spec fn nz(a: V3) -> bool {
    mag(a.0) < NEAR_ZERO_EPS && mag(a.1) < NEAR_ZERO_EPS && mag(a.2) < NEAR_ZERO_EPS
}

/// A vector obtained by normalizing some nonzero sample from the unit ball.
pub open spec fn unit_sample(u: V3) -> bool {
    exists|p: V3| vwf(p) && 1 <= vls(p) < SCALE && u == vunit(p)
}

/// A component drawn uniformly from the symmetric unit range lands in
/// [-1, 1): the span is exactly two, so the draw scales without rounding.
proof fn lemma_symmetric_draw_bounds(comp: int)
    requires
        exists|d: int|
            0 <= d < SCALE && comp == fxadd(
                -SCALE as int,
                #[trigger] fxm(fxsub(SCALE as int, -SCALE as int), d),
            ),
    ensures
        -SCALE <= comp < SCALE,
{
    let d = choose|d: int|
        0 <= d < SCALE && comp == fxadd(
            -SCALE as int,
            #[trigger] fxm(fxsub(SCALE as int, -SCALE as int), d),
        );
    assert(fxsub(SCALE as int, -SCALE as int) == 2 * SCALE);
    assert(2 * SCALE * d == SCALE as int * (2 * d)) by (nonlinear_arith);
    vstd::arithmetic::div_mod::lemma_div_multiples_vanish(2 * d, SCALE as int);
    assert(tdiv(2 * SCALE * d, SCALE as int) == 2 * d);
    assert(fxm(2 * SCALE, d) == 2 * d);
    assert(comp == -SCALE + 2 * d);
}

/// A squared length is never negative.
pub proof fn lemma_vls_nonneg(a: V3)
    ensures
        vls(a) >= 0,
{
    crate::fx::lemma_fxm_square_nonneg(a.0);
    crate::fx::lemma_fxm_square_nonneg(a.1);
    crate::fx::lemma_fxm_square_nonneg(a.2);
}

/// Negating one argument negates the dot product.
pub proof fn lemma_dot_neg(a: V3, b: V3)
    ensures
        vdot(a, vneg(b)) == -vdot(a, b),
{
    crate::fx::lemma_fxm_neg(a.0, b.0);
    crate::fx::lemma_fxm_neg(a.1, b.1);
    crate::fx::lemma_fxm_neg(a.2, b.2);
}

impl Vec3 {
    /// Build a vector, saturating each component into the representable range.
    pub fn new(x: i128, y: i128, z: i128) -> (r: Vec3)
        ensures
            v3(r) == (sat(x as int), sat(y as int), sat(z as int)),
            vwf(v3(r)),
    {
        Vec3 { x: crate::fx::sat_i(x), y: crate::fx::sat_i(y), z: crate::fx::sat_i(z) }
    }

    pub fn plus(self, other: Vec3) -> (r: Vec3)
        requires
            vwf(v3(self)),
            vwf(v3(other)),
        ensures
            v3(r) == vadd(v3(self), v3(other)),
            vwf(v3(r)),
    {
        Vec3 { x: fx_add(self.x, other.x), y: fx_add(self.y, other.y), z: fx_add(self.z, other.z) }
    }

    pub fn minus(self, other: Vec3) -> (r: Vec3)
        requires
            vwf(v3(self)),
            vwf(v3(other)),
        ensures
            v3(r) == vsub(v3(self), v3(other)),
            vwf(v3(r)),
    {
        Vec3 { x: fx_sub(self.x, other.x), y: fx_sub(self.y, other.y), z: fx_sub(self.z, other.z) }
    }

    pub fn negate(self) -> (r: Vec3)
        requires
            vwf(v3(self)),
        ensures
            v3(r) == vneg(v3(self)),
            vwf(v3(r)),
    {
        Vec3 { x: fx_neg(self.x), y: fx_neg(self.y), z: fx_neg(self.z) }
    }

    /// Scale by a fixed-point scalar.
    pub fn times(self, s: i128) -> (r: Vec3)
        requires
            vwf(v3(self)),
            in_range(s as int),
        ensures
            v3(r) == vscale(v3(self), s as int),
            vwf(v3(r)),
    {
        Vec3 { x: fx_mul(self.x, s), y: fx_mul(self.y, s), z: fx_mul(self.z, s) }
    }

    /// Divide by a fixed-point scalar, through its reciprocal.
    pub fn divided_by(self, s: i128) -> (r: Vec3)
        requires
            vwf(v3(self)),
            in_range(s as int),
        ensures
            v3(r) == vdivs(v3(self), s as int),
            vwf(v3(r)),
    {
        let inv: i128 = fx_div(SCALE, s);
        self.times(inv)
    }

    pub fn length_squared(self) -> (r: i128)
        requires
            vwf(v3(self)),
        ensures
            r == vls(v3(self)),
            in_range(r as int),
    {
        self.dot(self)
    }

    pub fn length(self) -> (r: i128)
        requires
            vwf(v3(self)),
        ensures
            r == vlen(v3(self)),
            in_range(r as int),
            r >= 0,
    {
        fx_sqrt(self.length_squared())
    }

    pub fn dot(self, other: Vec3) -> (r: i128)
        requires
            vwf(v3(self)),
            vwf(v3(other)),
        ensures
            r == vdot(v3(self), v3(other)),
            in_range(r as int),
    {
        fx_add(fx_add(fx_mul(self.x, other.x), fx_mul(self.y, other.y)), fx_mul(self.z, other.z))
    }

    pub fn cross(self, other: Vec3) -> (r: Vec3)
        requires
            vwf(v3(self)),
            vwf(v3(other)),
        ensures
            v3(r) == vcross(v3(self), v3(other)),
            vwf(v3(r)),
    {
        Vec3 {
            x: fx_sub(fx_mul(self.y, other.z), fx_mul(self.z, other.y)),
            y: fx_sub(fx_mul(self.z, other.x), fx_mul(self.x, other.z)),
            z: fx_sub(fx_mul(self.x, other.y), fx_mul(self.y, other.x)),
        }
    }

    pub fn normalized(self) -> (r: Vec3)
        requires
            vwf(v3(self)),
        ensures
            v3(r) == vunit(v3(self)),
            vwf(v3(r)),
    {
        let len: i128 = self.length();
        self.divided_by(len)
    }

    pub fn elementwise_mul(self, other: Vec3) -> (r: Vec3)
        requires
            vwf(v3(self)),
            vwf(v3(other)),
        ensures
            v3(r) == vmul(v3(self), v3(other)),
            vwf(v3(r)),
    {
        Vec3 { x: fx_mul(self.x, other.x), y: fx_mul(self.y, other.y), z: fx_mul(self.z, other.z) }
    }

    /// A vector with each component drawn uniformly from [0, 1).
    pub fn random_vec(self) -> (r: Vec3)
        ensures
            0 <= v3(r).0 < SCALE,
            0 <= v3(r).1 < SCALE,
            0 <= v3(r).2 < SCALE,
            vwf(v3(r)),
    {
        Vec3 { x: random_double(), y: random_double(), z: random_double() }
    }

    /// A vector with each component drawn uniformly from [min, max).
    pub fn random_with_min_max(min: i128, max: i128) -> (r: Vec3)
        requires
            in_range(min as int),
            in_range(max as int),
        ensures
            vwf(v3(r)),
            exists|d: int|
                0 <= d < SCALE && v3(r).0 == fxadd(
                    min as int,
                    fxm(fxsub(max as int, min as int), d),
                ),
            exists|d: int|
                0 <= d < SCALE && v3(r).1 == fxadd(
                    min as int,
                    fxm(fxsub(max as int, min as int), d),
                ),
            exists|d: int|
                0 <= d < SCALE && v3(r).2 == fxadd(
                    min as int,
                    fxm(fxsub(max as int, min as int), d),
                ),
    {
        let x: i128 = random_double_range(min, max);
        let y: i128 = random_double_range(min, max);
        let z: i128 = random_double_range(min, max);
        Vec3 { x, y, z }
    }

    pub fn unit_vector(v: Vec3) -> (r: Vec3)
        requires
            vwf(v3(v)),
        ensures
            v3(r) == vunit(v3(v)),
            vwf(v3(r)),
    {
        v.normalized()
    }

    /// Rejection-sample a nonzero point strictly inside the unit ball. The
    /// chance that one draw is rejected is well under a half, so the attempt
    /// bound is never reached in practice; a fixed interior point stands in
    /// if it ever is.
    pub fn random_in_unit_sphere() -> (r: Vec3)
        ensures
            vwf(v3(r)),
            1 <= vls(v3(r)) < SCALE,
            -SCALE <= v3(r).0 < SCALE,
            -SCALE <= v3(r).1 < SCALE,
            -SCALE <= v3(r).2 < SCALE,
    {
        let mut tries: u32 = 0;
        while tries < 64
            invariant
                tries <= 64,
            decreases 64 - tries,
        {
            let p = Self::random_with_min_max(-SCALE, SCALE);
            let ls: i128 = p.length_squared();
            if 1 <= ls && ls < SCALE {
                proof {
                    lemma_symmetric_draw_bounds(v3(p).0);
                    lemma_symmetric_draw_bounds(v3(p).1);
                    lemma_symmetric_draw_bounds(v3(p).2);
                }
                return p;
            }
            tries = tries + 1;
        }
        let fallback = Vec3 { x: 32768, y: 0, z: 0 };
        proof {
            assert(32768 * 32768 == 1073741824int) by (nonlinear_arith);
            assert(1073741824int / 65536int == 16384int) by (nonlinear_arith);
            assert(tdiv(1073741824, SCALE as int) == 16384);
            assert(fxm(32768, 32768) == 16384);
            assert(fxm(0, 0) == 0);
            assert(vls(v3(fallback)) == 16384);
        }
        fallback
    }

    /// A normalized sample from the unit ball.
    pub fn random_unit_vector() -> (r: Vec3)
        ensures
            vwf(v3(r)),
            unit_sample(v3(r)),
    {
        let p = Vec3::random_in_unit_sphere();
        let r = Vec3::unit_vector(p);
        proof {
            assert(vwf(v3(p)) && 1 <= vls(v3(p)) < SCALE && v3(r) == vunit(v3(p)));
        }
        r
    }

    /// A unit sample flipped onto the hemisphere around `normal`.
    pub fn random_on_hemisphere(normal: Vec3) -> (r: Vec3)
        requires
            vwf(v3(normal)),
        ensures
            vwf(v3(r)),
            exists|u: V3|
                unit_sample(u) && v3(r) == (if vdot(u, v3(normal)) > 0 {
                    u
                } else {
                    vneg(u)
                }),
    {
        let on_unit_sphere = Vec3::random_unit_vector();
        let d: i128 = on_unit_sphere.dot(normal);
        let r = if d > 0 {
            on_unit_sphere
        } else {
            on_unit_sphere.negate()
        };
        proof {
            let u = v3(on_unit_sphere);
            assert(unit_sample(u) && v3(r) == (if vdot(u, v3(normal)) > 0 {
                u
            } else {
                vneg(u)
            }));
        }
        r
    }

    pub fn near_zero(&self) -> (r: bool)
        ensures
            r == nz(v3(*self)),
    {
        self.x > -NEAR_ZERO_EPS && self.x < NEAR_ZERO_EPS && self.y > -NEAR_ZERO_EPS
            && self.y < NEAR_ZERO_EPS && self.z > -NEAR_ZERO_EPS && self.z < NEAR_ZERO_EPS
    }

    pub fn reflect(v: &Vec3, n: &Vec3) -> (r: Vec3)
        requires
            vwf(v3(*v)),
            vwf(v3(*n)),
        ensures
            v3(r) == vreflect(v3(*v), v3(*n)),
            vwf(v3(r)),
    {
        let d: i128 = v.dot(*n);
        v.minus(n.times(d).times(2 * SCALE))
    }

    pub fn refract(uv: &Vec3, n: &Vec3, etai: i128) -> (r: Vec3)
        requires
            vwf(v3(*uv)),
            vwf(v3(*n)),
            in_range(etai as int),
        ensures
            v3(r) == vrefract(v3(*uv), v3(*n), etai as int),
            vwf(v3(r)),
    {
        let cos0: i128 = uv.negate().dot(*n);
        let cos: i128 = if cos0 > SCALE { SCALE } else { cos0 };
        let r_perp = uv.plus(n.times(cos)).times(etai);
        let ls: i128 = r_perp.length_squared();
        let k: i128 = fx_sub(SCALE, ls);
        let ka: i128 = if k < 0 { -k } else { k };
        let r_par = n.times(fx_neg(fx_sqrt(ka)));
        r_perp.plus(r_par)
    }
}

impl Default for Vec3 {
    /// The zero vector.
    fn default() -> (r: Vec3)
        ensures
            v3(r) == (0int, 0int, 0int),
    {
        Vec3 { x: 0, y: 0, z: 0 }
    }
}

} // verus!
