//! Spheres and the ray-sphere intersection rule.
//!
//! The quadratic for the hit parameter is solved in half-angle form; the
//! nearer root is preferred and the farther one stands in when the nearer
//! falls outside the valid interval. `hit_t` is the spec-level account of
//! exactly which parameter, if any, a query reports, and `is_hit_record`
//! pins every field of the record built for it.

use vstd::prelude::*;

use crate::fx::{
    fx_add, fx_div, fx_mul, fx_sqrt, fx_sub, fxadd, fxd, fxm, fxsqrt, fxsub, in_range, mag, sat,
    tdiv, FX_MAX, SCALE,
};
use crate::hittable::{rec_wf, HitRecord};
use crate::interval::{spec_surrounds, Interval};
use crate::material::Material;
use crate::ray::{ray_at, ray_wf, Ray};
use crate::vec3::{v3, vdivs, vdot, vls, vneg, vsub, vwf, Vec3, V3};

verus! {

#[derive(Debug, Clone, Copy, PartialEq, Eq, Structural)]
pub struct Sphere {
    pub center: Vec3,
    pub radius: i128,
    pub mat: Material,
}

pub open spec fn sphere_wf(s: Sphere) -> bool {
    vwf(v3(s.center)) && in_range(s.radius as int) && s.radius >= 0 && crate::material::mat_wf(
        s.mat,
    )
}

/// Quadratic coefficient `a`: the squared length of the ray direction.
pub open spec fn quad_a(s: Sphere, r: Ray) -> int {
    vls(v3(r.dir))
}

/// Half-angle coefficient `h = dot(center - origin, dir)`.
pub open spec fn quad_h(s: Sphere, r: Ray) -> int {
    vdot(vsub(v3(s.center), v3(r.origin)), v3(r.dir))
}

/// Constant coefficient `c = |center - origin|^2 - radius^2`.
pub open spec fn quad_c(s: Sphere, r: Ray) -> int {
    fxsub(vls(vsub(v3(s.center), v3(r.origin))), fxm(s.radius as int, s.radius as int))
}

pub open spec fn quad_disc(s: Sphere, r: Ray) -> int {
    fxsub(fxm(quad_h(s, r), quad_h(s, r)), fxm(quad_a(s, r), quad_c(s, r)))
}

/// The nearer root `(h - sqrt(disc)) / a`.
pub open spec fn root_near(s: Sphere, r: Ray) -> int {
    fxd(fxsub(quad_h(s, r), fxsqrt(quad_disc(s, r))), quad_a(s, r))
}

/// The farther root `(h + sqrt(disc)) / a`.
pub open spec fn root_far(s: Sphere, r: Ray) -> int {
    fxd(fxadd(quad_h(s, r), fxsqrt(quad_disc(s, r))), quad_a(s, r))
}

/// The hit parameter a query over `(tmin, tmax)` reports: the nearer root
/// when it lies strictly inside, else the farther root, else nothing.
pub open spec fn hit_t(s: Sphere, r: Ray, tmin: int, tmax: int) -> Option<int> {
    if quad_disc(s, r) < 0 {
        None
    } else if spec_surrounds(tmin, tmax, root_near(s, r)) {
        Some(root_near(s, r))
    } else if spec_surrounds(tmin, tmax, root_far(s, r)) {
        Some(root_far(s, r))
    } else {
        None
    }
}

/// Every field of the record reported for a hit at parameter `t`.
pub open spec fn is_hit_record(s: Sphere, r: Ray, t: int, rec: HitRecord) -> bool {
    let p = ray_at(v3(r.origin), v3(r.dir), t);
    let outward = vdivs(vsub(p, v3(s.center)), s.radius as int);
    let front = vdot(v3(r.dir), outward) < 0;
    &&& rec.t == t
    &&& v3(rec.p) == p
    &&& rec.front_face == front
    &&& v3(rec.normal) == (if front {
        outward
    } else {
        vneg(outward)
    })
    &&& rec.mat == s.mat
}

/// When the ray origin lies inside the sphere — the constant coefficient is
/// negative, with a small fixed-point margin against rounding — and the
/// direction is roughly unit length, exactly one of the two roots is
/// positive: the near root is nonpositive, the far root is at least one
/// unit, and whenever the far root lies inside a query interval with a
/// nonnegative lower bound, it is exactly the parameter selected.
#[verifier::rlimit(100)]
pub proof fn lemma_origin_inside_selects_far_root(s: Sphere, r: Ray, tmin: int, tmax: int)
    requires
        SCALE / 2 <= quad_a(s, r) <= 2 * SCALE,
        quad_c(s, r) < 0,
        quad_a(s, r) * (-quad_c(s, r)) >= 4 * SCALE * SCALE + 4 * SCALE * mag(quad_h(s, r)),
        mag(quad_h(s, r)) <= 1000000 * SCALE,
        mag(quad_c(s, r)) <= 1000000 * SCALE,
        0 <= tmin,
    ensures
        quad_disc(s, r) >= 0,
        root_near(s, r) <= 0,
        root_far(s, r) >= 1,
        spec_surrounds(tmin, tmax, root_far(s, r)) ==> hit_t(s, r, tmin, tmax) == Some(
            root_far(s, r),
        ),
{
    let a = quad_a(s, r);
    let h = quad_h(s, r);
    let c = quad_c(s, r);
    let m = -c;
    let hh = mag(h);

    // The squared half-coefficient term, without saturation.
    assert(h * h <= 65536000000 * 65536000000int && h * h >= 0) by (nonlinear_arith)
        requires mag(h) <= 1000000 * SCALE,
    ;
    let q1 = tdiv(h * h, SCALE as int);
    crate::fx::lemma_tdiv_mul_bound(h * h, SCALE as int);
    assert(q1 <= FX_MAX) by (nonlinear_arith)
        requires q1 * SCALE <= 65536000000 * 65536000000int, q1 >= 0,
    ;
    assert(fxm(h, h) == q1);

    // The a*c term, negated without saturation.
    assert(0 <= a * m <= 131072 * 65536000000int) by (nonlinear_arith)
        requires 0 < a <= 2 * SCALE, 0 < m <= 1000000 * SCALE,
    ;
    let q2 = tdiv(a * m, SCALE as int);
    crate::fx::lemma_tdiv_mul_bound(a * m, SCALE as int);
    assert(q2 <= FX_MAX) by (nonlinear_arith)
        requires q2 * SCALE <= 131072 * 65536000000int, q2 >= 0,
    ;
    assert(a * c == -(a * m)) by (nonlinear_arith)
        requires m == -c,
    ;
    assert(mag(a * c) == a * m);
    assert(tdiv(a * c, SCALE as int) == -q2);
    assert(fxm(a, c) == -q2);

    // The discriminant is the unsaturated sum of the two nonnegative parts.
    let disc = quad_disc(s, r);
    assert(disc == fxsub(q1, -q2));
    assert(q1 + q2 <= 2 * FX_MAX && disc == sat(q1 + q2));
    assert(q1 + q2 <= FX_MAX) by (nonlinear_arith)
        requires
            q1 * SCALE <= 65536000000 * 65536000000int,
            q2 * SCALE <= 131072 * 65536000000int,
            q1 >= 0,
            q2 >= 0,
    ;
    assert(disc == q1 + q2);
    assert(disc >= 0);

    // Scaled back up, the discriminant clears (|h| + 2)^2.
    let ds = disc * SCALE;
    assert(ds == q1 * SCALE + q2 * SCALE) by (nonlinear_arith)
        requires disc == q1 + q2, ds == disc * SCALE,
    ;
    assert(ds > h * h + a * m - 2 * SCALE);
    assert(a * m >= 4 * SCALE * SCALE + 4 * SCALE * hh);
    assert(ds > h * h + 4 * mag(h) + 4) by (nonlinear_arith)
        requires
            ds > h * h + a * m - 2 * SCALE,
            a * m >= 4 * SCALE * SCALE + 4 * SCALE * hh,
            hh == mag(h),
            SCALE == 65536,
    ;
    assert((hh + 2) * (hh + 2) == hh * hh + 4 * hh + 4) by (nonlinear_arith);
    assert(h * h == hh * hh) by (nonlinear_arith)
        requires hh == mag(h),
    ;

    // So the integer square root clears |h| + 2.
    let sq = fxsqrt(disc);
    assert(disc > 0);
    assert(sq == crate::fx::isqrt(ds as nat));
    crate::fx::lemma_isqrt_bounds(ds as nat);
    assert((sq + 1) * (sq + 1) > ds);
    assert(sq + 1 > hh + 2) by (nonlinear_arith)
        requires
            (sq + 1) * (sq + 1) > ds,
            ds > (hh + 2) * (hh + 2) - 1,
            sq + 1 >= 0,
            hh + 2 >= 0,
    ;
    assert(sq >= hh + 2);
    assert(sq * sq <= ds);
    assert(ds <= FX_MAX * SCALE) by (nonlinear_arith)
        requires disc <= FX_MAX, ds == disc * SCALE, SCALE == 65536,
    ;
    assert(sq <= 274877906944) by (nonlinear_arith)
        requires sq * sq <= ds, ds <= FX_MAX * SCALE, sq >= 0,
    ;

    // The near root is nonpositive.
    let num_near = fxsub(h, sq);
    assert(num_near <= -2);
    assert(num_near * SCALE < 0) by (nonlinear_arith)
        requires num_near <= -2,
    ;
    assert(tdiv(num_near * SCALE, a) <= 0) by {
        assert(mag(num_near * SCALE) / mag(a) >= 0) by {
            vstd::arithmetic::div_mod::lemma_div_pos_is_pos(mag(num_near * SCALE), mag(a));
        }
    }
    assert(root_near(s, r) <= 0);

    // The far root is at least one unit.
    let num_far = fxadd(h, sq);
    assert(h + sq >= 2);
    assert(mag(h + sq) <= FX_MAX);
    assert(num_far == h + sq);
    assert(num_far * SCALE >= 2 * SCALE) by (nonlinear_arith)
        requires num_far >= 2,
    ;
    assert(tdiv(num_far * SCALE, a) >= 1) by {
        vstd::arithmetic::div_mod::lemma_div_is_ordered(a, num_far * SCALE, a);
        vstd::arithmetic::div_mod::lemma_div_by_self(a);
    }
    assert(root_far(s, r) >= 1);

    // Selection: the near root can never satisfy a nonnegative lower bound.
    assert(!spec_surrounds(tmin, tmax, root_near(s, r)));
}

/// When the ray origin lies outside the sphere and ahead of it — both the
/// constant and half coefficients are positive, with a small fixed-point
/// margin — any intersection has both roots positive, and the nearer root
/// is the parameter selected whenever it lies inside the query interval.
#[verifier::rlimit(100)]
pub proof fn lemma_origin_outside_selects_near_root(s: Sphere, r: Ray, tmin: int, tmax: int)
    requires
        SCALE / 2 <= quad_a(s, r) <= 2 * SCALE,
        quad_h(s, r) >= 1,
        quad_a(s, r) * quad_c(s, r) >= 2 * SCALE * SCALE + 4 * SCALE * quad_h(s, r),
        mag(quad_h(s, r)) <= 1000000 * SCALE,
        mag(quad_c(s, r)) <= 1000000 * SCALE,
        quad_disc(s, r) >= 0,
    ensures
        1 <= root_near(s, r) <= root_far(s, r),
        spec_surrounds(tmin, tmax, root_near(s, r)) ==> hit_t(s, r, tmin, tmax) == Some(
            root_near(s, r),
        ),
{
    let a = quad_a(s, r);
    let h = quad_h(s, r);
    let c = quad_c(s, r);

    assert(h * h <= 65536000000 * 65536000000int && h * h >= 0) by (nonlinear_arith)
        requires mag(h) <= 1000000 * SCALE, h >= 1,
    ;
    let q1 = tdiv(h * h, SCALE as int);
    crate::fx::lemma_tdiv_mul_bound(h * h, SCALE as int);
    assert(q1 <= FX_MAX) by (nonlinear_arith)
        requires q1 * SCALE <= 65536000000 * 65536000000int, q1 >= 0,
    ;
    assert(fxm(h, h) == q1);

    assert(c >= 1) by (nonlinear_arith)
        requires a * c >= 2 * SCALE * SCALE + 4 * SCALE * h, h >= 1, 0 < a <= 2 * SCALE,
    ;
    assert(0 <= a * c <= 131072 * 65536000000int) by (nonlinear_arith)
        requires 0 < a <= 2 * SCALE, 0 < c <= 1000000 * SCALE,
    ;
    let q2 = tdiv(a * c, SCALE as int);
    crate::fx::lemma_tdiv_mul_bound(a * c, SCALE as int);
    assert(fxm(a, c) == sat(q2));
    assert(q2 <= FX_MAX) by (nonlinear_arith)
        requires q2 * SCALE <= 131072 * 65536000000int, q2 >= 0,
    ;
    assert(fxm(a, c) == q2);

    // The discriminant sits at most S below h^2 - a*c, scaled down.
    let disc = quad_disc(s, r);
    assert(disc == sat(q1 - q2));
    assert(disc <= q1 - q2);
    let ds = disc * SCALE;
    assert(ds <= (q1 - q2) * SCALE) by (nonlinear_arith)
        requires disc <= q1 - q2, ds == disc * SCALE,
    ;
    assert((q1 - q2) * SCALE == q1 * SCALE - q2 * SCALE) by (nonlinear_arith);
    assert(ds <= h * h - (a * c) + SCALE);
    assert(ds <= h * h - 4 * h + 4) by (nonlinear_arith)
        requires
            ds <= h * h - (a * c) + SCALE,
            a * c >= 2 * SCALE * SCALE + 4 * SCALE * h,
            h >= 1,
            SCALE == 65536,
    ;
    assert((h - 2) * (h - 2) == h * h - 4 * h + 4) by (nonlinear_arith);

    // A nonnegative discriminant forces h well above two.
    assert(q1 >= q2);
    assert(q1 * SCALE >= q2 * SCALE) by (nonlinear_arith)
        requires q1 >= q2,
    ;
    assert(h * h >= 2 * SCALE * SCALE + 4 * SCALE * h - SCALE);
    assert(h >= 2) by (nonlinear_arith)
        requires h * h >= 2 * SCALE * SCALE + 4 * SCALE * h - SCALE, h >= 1, SCALE == 65536,
    ;

    // So the square root of the discriminant stays at least two below h.
    let sq = fxsqrt(disc);
    assert(disc >= 0);
    if disc == 0 {
        assert(sq == 0);
        assert(sq <= h - 2);
    } else {
        assert(sq == crate::fx::isqrt(ds as nat));
        crate::fx::lemma_isqrt_bounds(ds as nat);
        assert(sq * sq <= ds);
        assert(sq <= h - 2) by (nonlinear_arith)
            requires sq * sq <= ds, ds <= (h - 2) * (h - 2), sq >= 0, h >= 2,
        ;
    }

    // Both roots are at least one unit.
    let num_near = fxsub(h, sq);
    assert(h - sq >= 2);
    assert(mag(h - sq) <= FX_MAX);
    assert(num_near == h - sq);
    assert(num_near * SCALE >= 2 * SCALE) by (nonlinear_arith)
        requires num_near >= 2,
    ;
    assert(tdiv(num_near * SCALE, a) >= 1) by {
        vstd::arithmetic::div_mod::lemma_div_is_ordered(a, num_near * SCALE, a);
        vstd::arithmetic::div_mod::lemma_div_by_self(a);
    }
    assert(root_near(s, r) >= 1);
    lemma_roots_ordered(s, r);
}

/// The nearer root never exceeds the farther root.
pub proof fn lemma_roots_ordered(s: Sphere, r: Ray)
    ensures
        root_near(s, r) <= root_far(s, r),
{
    crate::vec3::lemma_vls_nonneg(v3(r.dir));
    let h = quad_h(s, r);
    let sq = fxsqrt(quad_disc(s, r));
    assert(sq >= 0);
    crate::fx::lemma_fxd_monotone(fxsub(h, sq), fxadd(h, sq), quad_a(s, r));
}

impl Sphere {
    /// A negative radius is clamped to zero at construction.
    pub fn new(center: Vec3, radius: i128, mat: Material) -> (r: Sphere)
        ensures
            r.center == center,
            r.mat == mat,
            r.radius == (if sat(radius as int) < 0 {
                0
            } else {
                sat(radius as int)
            }),
            in_range(r.radius as int),
            r.radius >= 0,
    {
        let rs: i128 = crate::fx::sat_i(radius);
        let rs: i128 = if rs < 0 {
            0
        } else {
            rs
        };
        Sphere { center, radius: rs, mat }
    }

    /// Report the nearest hit parameter inside `interval`, with its record.
    pub fn hit(&self, r: &Ray, interval: Interval) -> (res: Option<HitRecord>)
        requires
            sphere_wf(*self),
            ray_wf(*r),
        ensures
            match res {
                None => hit_t(*self, *r, interval.min as int, interval.max as int) is None,
                Some(rec) => {
                    &&& hit_t(*self, *r, interval.min as int, interval.max as int) == Some(
                        rec.t as int,
                    )
                    &&& is_hit_record(*self, *r, rec.t as int, rec)
                    &&& rec_wf(rec)
                },
            },
    {
        let oc = self.center.minus(r.origin);
        let a: i128 = r.dir.length_squared();
        let h: i128 = oc.dot(r.dir);
        let c: i128 = fx_sub(oc.length_squared(), fx_mul(self.radius, self.radius));
        let discriminant: i128 = fx_sub(fx_mul(h, h), fx_mul(a, c));
        if discriminant < 0 {
            return None;
        }
        let sqrtd: i128 = fx_sqrt(discriminant);
        let mut root: i128 = fx_div(fx_sub(h, sqrtd), a);
        if !interval.surrounds(root) {
            root = fx_div(fx_add(h, sqrtd), a);
            if !interval.surrounds(root) {
                return None;
            }
        }
        let mut rec = HitRecord::default();
        rec.t = root;
        rec.p = r.at(rec.t);
        let outward_normal = rec.p.minus(self.center).divided_by(self.radius);
        rec.set_face_normal(r, &outward_normal);
        rec.mat = self.mat;
        Some(rec)
    }
}

} // verus!
