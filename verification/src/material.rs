//! Surface materials and their scattering rules.
//!
//! The material set is closed, so dispatch is a tagged union over the three
//! physically inspired variants plus the inert placeholder that a default
//! hit record carries. A scatter result depends on random samples, so each
//! contract names the sampled values existentially and pins the outcome as
//! an exact function of them; what holds of every draw (the attenuation, the
//! absorption condition, the non-degenerate direction) is stated directly.

use vstd::prelude::*;

use crate::color::Color;
use crate::fx::{fx_sub, fxadd, fxd, fxm, fxsqrt, fxsub, in_range, sat, SCALE};
use crate::hittable::{rec_wf, HitRecord};
use crate::ray::Ray;
use crate::vec3::{
    nz, unit_sample, v3, vadd, vdot, vneg, vreflect, vrefract, vscale, vunit, vwf, Vec3, V3,
};

verus! {

/// The inert material a default hit record points at: absorbs everything.
#[derive(Debug, Clone, Copy, PartialEq, Eq, Structural)]
pub struct MaterialZST;

#[derive(Debug, Clone, Copy, PartialEq, Eq, Structural)]
pub struct Lambertian {
    pub albedo: Color,
}

#[derive(Debug, Clone, Copy, PartialEq, Eq, Structural)]
pub struct Metal {
    pub albedo: Color,
    pub fuzz: i128,
}

#[derive(Debug, Clone, Copy, PartialEq, Eq, Structural)]
pub struct Dielectric {
    pub ref_idx: i128,
}

#[derive(Debug, Clone, Copy, PartialEq, Eq, Structural)]
pub enum Material {
    Blank(MaterialZST),
    Diffuse(Lambertian),
    Specular(Metal),
    Refractive(Dielectric),
}

pub open spec fn mat_wf(m: Material) -> bool {
    match m {
        Material::Blank(_) => true,
        Material::Diffuse(l) => vwf(v3(l.albedo)),
        Material::Specular(mt) => vwf(v3(mt.albedo)) && in_range(mt.fuzz as int),
        Material::Refractive(d) => in_range(d.ref_idx as int),
    }
}

/// Diffuse bounce direction: normal plus a unit sample, falling back to the
/// normal itself when the sum degenerates to zero.
pub open spec fn lambertian_dir(n: V3, u: V3) -> V3 {
    if nz(vadd(n, u)) {
        n
    } else {
        vadd(n, u)
    }
}

/// Fuzzed specular direction: the normalized mirror reflection perturbed by
/// `fuzz` times a unit sample, then re-normalized.
pub open spec fn metal_dir(incoming: V3, n: V3, fuzz: int, u: V3) -> V3 {
    vunit(vadd(vunit(vreflect(incoming, n)), vscale(u, fuzz)))
}

/// Fifth power, multiplied out left to right.
pub open spec fn pow5(x: int) -> int {
    fxm(fxm(fxm(fxm(x, x), x), x), x)
}

/// Schlick's approximation of the Fresnel reflection coefficient.
pub open spec fn reflectance_spec(cos: int, ri: int) -> int {
    let r0a = fxd(fxsub(SCALE as int, ri), fxadd(SCALE as int, ri));
    let r0 = fxm(r0a, r0a);
    fxadd(r0, fxm(fxsub(SCALE as int, r0), pow5(fxsub(SCALE as int, cos))))
}

/// Cosine of the incidence angle, capped at one.
pub open spec fn dielectric_cos(unit_dir: V3, n: V3) -> int {
    let c0 = vdot(n, vneg(unit_dir));
    if c0 > SCALE {
        SCALE as int
    } else {
        c0
    }
}

/// Snell's law is infeasible: the index ratio times the sine of the
/// incidence angle exceeds one, forcing total internal reflection.
pub open spec fn cannot_refract(unit_dir: V3, n: V3, ri: int) -> bool {
    let cos = dielectric_cos(unit_dir, n);
    let sin = fxsqrt(fxsub(SCALE as int, fxm(cos, cos)));
    fxm(ri, sin) > SCALE
}

/// The outgoing direction a dielectric chooses, given the uniform draw `d`
/// that weighs the Fresnel term.
pub open spec fn dielectric_dir(incoming: V3, n: V3, front: bool, ref_idx: int, d: int) -> V3 {
    let ri = if front {
        fxd(SCALE as int, ref_idx)
    } else {
        ref_idx
    };
    let unit_dir = vunit(incoming);
    if cannot_refract(unit_dir, n, ri) || reflectance_spec(dielectric_cos(unit_dir, n), ri) > d {
        vreflect(unit_dir, n)
    } else {
        vrefract(unit_dir, n, ri)
    }
}

/// Everything the scattering rules promise of an outcome, whatever the
/// random draws were: the union over draws of the variant contracts. The
/// inert placeholder absorbs; a diffuse or refractive surface always
/// continues; a metal continues exactly when the fuzzed reflection leaves
/// the surface.
pub open spec fn scatter_post(
    m: Material,
    r_in: Ray,
    rec: HitRecord,
    res: Option<(Color, Ray)>,
) -> bool {
    match m {
        Material::Blank(_) => res is None,
        Material::Diffuse(l) => {
            &&& res is Some
            &&& (res matches Some(pair) ==> pair.0 == l.albedo && pair.1.origin == rec.p)
            &&& exists|u: V3|
                unit_sample(u) && (res matches Some(pair) && v3(pair.1.dir) == lambertian_dir(
                    v3(rec.normal),
                    u,
                ))
        },
        Material::Specular(mt) => {
            &&& (res matches Some(pair) ==> pair.0 == mt.albedo && pair.1.origin == rec.p)
            &&& exists|u: V3|
                unit_sample(u) && {
                    let d = metal_dir(v3(r_in.dir), v3(rec.normal), mt.fuzz as int, u);
                    if vdot(d, v3(rec.normal)) > 0 {
                        res matches Some(pair) && v3(pair.1.dir) == d
                    } else {
                        res is None
                    }
                }
        },
        Material::Refractive(dl) => {
            &&& res is Some
            &&& (res matches Some(pair) ==> v3(pair.0) == (SCALE as int, SCALE as int, SCALE as int)
                && pair.1.origin == rec.p)
            &&& exists|d: int|
                0 <= d < SCALE && (res matches Some(pair) && v3(pair.1.dir)
                    == #[trigger] dielectric_dir(
                    v3(r_in.dir),
                    v3(rec.normal),
                    rec.front_face,
                    dl.ref_idx as int,
                    d,
                ))
        },
    }
}

impl Lambertian {
    pub fn new(albedo: Color) -> (r: Lambertian)
        ensures
            r.albedo == albedo,
    {
        Lambertian { albedo }
    }

    /// Always scatters; the direction is the normal plus a unit sample, and
    /// it is never the zero vector when the record's normal is not.
    pub fn scatter(&self, _r_in: &Ray, rec: &HitRecord) -> (res: Option<(Color, Ray)>)
        requires
            vwf(v3(self.albedo)),
            rec_wf(*rec),
        ensures
            res is Some,
            res matches Some(pair) ==> {
                &&& pair.0 == self.albedo
                &&& pair.1.origin == rec.p
                &&& (!nz(v3(rec.normal)) ==> !nz(v3(pair.1.dir)))
            },
            exists|u: V3|
                unit_sample(u) && (res matches Some(pair) && v3(pair.1.dir) == lambertian_dir(
                    v3(rec.normal),
                    u,
                )),
    {
        let ruv = Vec3::random_unit_vector();
        let mut scatter_dir = rec.normal.plus(ruv);
        if scatter_dir.near_zero() {
            scatter_dir = rec.normal;
        }
        let scattered = Ray::new(rec.p, scatter_dir);
        let res = Some((self.albedo, scattered));
        proof {
            let u = v3(ruv);
            assert(unit_sample(u) && (res matches Some(pair) && v3(pair.1.dir) == lambertian_dir(
                v3(rec.normal),
                u,
            )));
        }
        res
    }
}

impl Metal {
    /// Fuzz is capped at one: roughness beyond that has no meaning here.
    pub fn new(albedo: Color, fuzz: i128) -> (r: Metal)
        ensures
            r.albedo == albedo,
            r.fuzz == (if sat(fuzz as int) > SCALE {
                SCALE as int
            } else {
                sat(fuzz as int)
            }),
            in_range(r.fuzz as int),
    {
        let f: i128 = crate::fx::sat_i(fuzz);
        let f: i128 = if f > SCALE {
            SCALE
        } else {
            f
        };
        Metal { albedo, fuzz: f }
    }

    /// The attenuation is exactly the albedo; the ray is absorbed exactly
    /// when the fuzzed reflection points into the surface.
    pub fn scatter(&self, r_in: &Ray, rec: &HitRecord) -> (res: Option<(Color, Ray)>)
        requires
            vwf(v3(self.albedo)),
            in_range(self.fuzz as int),
            rec_wf(*rec),
            vwf(v3(r_in.dir)),
        ensures
            res matches Some(pair) ==> pair.0 == self.albedo && pair.1.origin == rec.p,
            exists|u: V3|
                unit_sample(u) && {
                    let d = metal_dir(v3(r_in.dir), v3(rec.normal), self.fuzz as int, u);
                    if vdot(d, v3(rec.normal)) > 0 {
                        res matches Some(pair) && v3(pair.1.dir) == d
                    } else {
                        res is None
                    }
                },
    {
        let reflected = Vec3::reflect(&r_in.dir, &rec.normal);
        let ruv = Vec3::random_unit_vector();
        let fuzzed = Vec3::unit_vector(Vec3::unit_vector(reflected).plus(ruv.times(self.fuzz)));
        let scattered = Ray::new(rec.p, fuzzed);
        let continues: bool = scattered.dir.dot(rec.normal) > 0;
        let res = if continues {
            Some((self.albedo, scattered))
        } else {
            None
        };
        proof {
            let u = v3(ruv);
            assert(unit_sample(u) && {
                let d = metal_dir(v3(r_in.dir), v3(rec.normal), self.fuzz as int, u);
                if vdot(d, v3(rec.normal)) > 0 {
                    res matches Some(pair) && v3(pair.1.dir) == d
                } else {
                    res is None
                }
            });
        }
        res
    }
}

impl Dielectric {
    pub fn new(ref_idx: i128) -> (r: Dielectric)
        ensures
            r.ref_idx == sat(ref_idx as int),
            in_range(r.ref_idx as int),
    {
        Dielectric { ref_idx: crate::fx::sat_i(ref_idx) }
    }

    /// Schlick's reflection coefficient for a given cosine and index ratio.
    fn reflectance(cos: i128, ref_idx: i128) -> (r: i128)
        requires
            in_range(cos as int),
            in_range(ref_idx as int),
        ensures
            r == reflectance_spec(cos as int, ref_idx as int),
            in_range(r as int),
    {
        let r0a: i128 = crate::fx::fx_div(fx_sub(SCALE, ref_idx), crate::fx::fx_add(SCALE, ref_idx));
        let r0: i128 = crate::fx::fx_mul(r0a, r0a);
        let omc: i128 = fx_sub(SCALE, cos);
        let p5: i128 = crate::fx::fx_mul(
            crate::fx::fx_mul(crate::fx::fx_mul(crate::fx::fx_mul(omc, omc), omc), omc),
            omc,
        );
        crate::fx::fx_add(r0, crate::fx::fx_mul(fx_sub(SCALE, r0), p5))
    }

    /// Always scatters with no absorption: the attenuation is pure white,
    /// and the direction reflects or refracts according to total internal
    /// reflection and the Fresnel draw.
    pub fn scatter(&self, r_in: &Ray, rec: &HitRecord) -> (res: Option<(Color, Ray)>)
        requires
            in_range(self.ref_idx as int),
            rec_wf(*rec),
            vwf(v3(r_in.dir)),
        ensures
            res is Some,
            res matches Some(pair) ==> {
                &&& v3(pair.0) == (SCALE as int, SCALE as int, SCALE as int)
                &&& pair.1.origin == rec.p
            },
            exists|d: int|
                0 <= d < SCALE && (res matches Some(pair) && v3(pair.1.dir) == #[trigger] dielectric_dir(
                    v3(r_in.dir),
                    v3(rec.normal),
                    rec.front_face,
                    self.ref_idx as int,
                    d,
                )),
    {
        let attenuation = Vec3::new(SCALE, SCALE, SCALE);
        let ri: i128 = if rec.front_face {
            crate::fx::fx_div(SCALE, self.ref_idx)
        } else {
            self.ref_idx
        };
        let unit_dir = Vec3::unit_vector(r_in.dir);
        let c0: i128 = rec.normal.dot(unit_dir.negate());
        let cos_theta: i128 = if c0 > SCALE {
            SCALE
        } else {
            c0
        };
        let sin_theta: i128 = crate::fx::fx_sqrt(fx_sub(SCALE, crate::fx::fx_mul(cos_theta, cos_theta)));
        let cannot: bool = crate::fx::fx_mul(ri, sin_theta) > SCALE;
        let draw: i128 = crate::utils::random_double();
        let direction = if cannot || Self::reflectance(cos_theta, ri) > draw {
            Vec3::reflect(&unit_dir, &rec.normal)
        } else {
            Vec3::refract(&unit_dir, &rec.normal, ri)
        };
        let scattered = Ray::new(rec.p, direction);
        let res = Some((attenuation, scattered));
        proof {
            assert(vdot(v3(rec.normal), vneg(vunit(v3(r_in.dir)))) == c0);
            assert(0 <= draw < SCALE && (res matches Some(pair) && v3(pair.1.dir) == dielectric_dir(
                v3(r_in.dir),
                v3(rec.normal),
                rec.front_face,
                self.ref_idx as int,
                draw as int,
            )));
        }
        res
    }
}

impl Material {
    /// Dispatch to the variant's scattering rule; the inert placeholder
    /// absorbs the ray.
    pub fn scatter(&self, r_in: &Ray, rec: &HitRecord) -> (res: Option<(Color, Ray)>)
        requires
            mat_wf(*self),
            rec_wf(*rec),
            vwf(v3(r_in.dir)),
        ensures
            scatter_post(*self, *r_in, *rec, res),
            self is Blank ==> res is None,
            self matches Material::Diffuse(l) ==> res is Some && (res matches Some(pair)
                ==> pair.0 == l.albedo),
            self matches Material::Specular(m) ==> (res matches Some(pair) ==> pair.0 == m.albedo),
            self is Refractive ==> res is Some && (res matches Some(pair) ==> v3(pair.0) == (
                SCALE as int,
                SCALE as int,
                SCALE as int,
            )),
            res matches Some(pair) ==> vwf(v3(pair.0)) && pair.1.origin == rec.p && vwf(
                v3(pair.1.dir),
            ),
    {
        match self {
            Material::Blank(_) => None,
            Material::Diffuse(l) => l.scatter(r_in, rec),
            Material::Specular(m) => m.scatter(r_in, rec),
            Material::Refractive(d) => d.scatter(r_in, rec),
        }
    }
}

/// At perpendicular incidence with an index ratio at most one, Snell's law
/// is always feasible: a dielectric never takes the forced total-internal-
/// reflection branch, and whenever the Fresnel draw does not choose to
/// reflect, the ray refracts.
pub proof fn lemma_perpendicular_never_tir(incoming: V3, n: V3, ri: int, d: int)
    requires
        vdot(n, vneg(vunit(incoming))) >= SCALE,
        0 <= ri <= SCALE,
    ensures
        !cannot_refract(vunit(incoming), n, ri),
        reflectance_spec(dielectric_cos(vunit(incoming), n), ri) <= d ==> dielectric_dir(
            incoming,
            n,
            false,
            ri,
            d,
        ) == vrefract(vunit(incoming), n, ri),
{
    let unit_dir = vunit(incoming);
    let cos = dielectric_cos(unit_dir, n);
    assert(cos == SCALE);
    assert(65536int * 65536 == 4294967296int) by (nonlinear_arith);
    assert(4294967296int / 65536int == 65536int) by (nonlinear_arith);
    assert(crate::fx::tdiv(65536int * 65536int, SCALE as int) == 65536);
    assert(fxm(SCALE as int, SCALE as int) == SCALE);
    assert(fxsub(SCALE as int, fxm(cos, cos)) == 0);
    assert(fxsqrt(0) == 0);
    assert(fxm(ri, 0) == 0) by {
        assert(ri * 0 == 0) by (nonlinear_arith);
    }
    assert(!cannot_refract(unit_dir, n, ri));
}

} // verus!
