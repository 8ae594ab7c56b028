//! Hit records and the scene aggregate.
//!
//! The scene tests every sphere and keeps the closest valid hit by
//! narrowing the interval's upper bound to the best parameter seen so far.
//! `scene_best` is the spec-level account of that scan, and the closest-hit
//! lemmas show it reports the member with the smallest hit parameter —
//! narrowing never lets a farther hit overwrite a closer one.

use vstd::prelude::*;

use crate::fx::in_range;
use crate::interval::{spec_surrounds, Interval};
use crate::material::{Material, MaterialZST};
use crate::ray::{ray_wf, Ray};
use crate::sphere::{hit_t, is_hit_record, sphere_wf, Sphere};
use crate::vec3::{v3, vdot, vneg, vwf, Vec3};

verus! {

#[derive(Debug, Clone, Copy, PartialEq, Eq, Structural)]
pub struct HitRecord {
    pub p: Vec3,
    pub normal: Vec3,
    pub mat: Material,
    pub t: i128,
    pub front_face: bool,
}

pub open spec fn rec_wf(rec: HitRecord) -> bool {
    vwf(v3(rec.p)) && vwf(v3(rec.normal)) && in_range(rec.t as int)
}

impl Default for HitRecord {
    /// Zeroed record carrying the inert material.
    fn default() -> (r: HitRecord)
        ensures
            v3(r.p) == (0int, 0int, 0int),
            v3(r.normal) == (0int, 0int, 0int),
            r.mat == Material::Blank(MaterialZST),
            r.t == 0,
            r.front_face == false,
            rec_wf(r),
    {
        HitRecord {
            p: Vec3 { x: 0, y: 0, z: 0 },
            normal: Vec3 { x: 0, y: 0, z: 0 },
            mat: Material::Blank(MaterialZST),
            t: 0,
            front_face: false,
        }
    }
}

impl HitRecord {
    /// Record which side was struck and orient the normal against the ray:
    /// afterwards the stored normal never points along the ray direction.
    pub fn set_face_normal(&mut self, r: &Ray, outward_normal: &Vec3)
        requires
            ray_wf(*r),
            vwf(v3(*outward_normal)),
        ensures
            final(self).front_face == (vdot(v3(r.dir), v3(*outward_normal)) < 0),
            v3(final(self).normal) == (if vdot(v3(r.dir), v3(*outward_normal)) < 0 {
                v3(*outward_normal)
            } else {
                vneg(v3(*outward_normal))
            }),
            vdot(v3(r.dir), v3(final(self).normal)) <= 0,
            vwf(v3(final(self).normal)),
            final(self).p == old(self).p,
            final(self).t == old(self).t,
            final(self).mat == old(self).mat,
    {
        let d: i128 = r.dir.dot(*outward_normal);
        self.front_face = d < 0;
        self.normal = if self.front_face {
            *outward_normal
        } else {
            outward_normal.negate()
        };
        proof {
            crate::vec3::lemma_dot_neg(v3(r.dir), v3(*outward_normal));
        }
    }
}

/// The scan over the first `n` members: the index and parameter of the best
/// hit, each member tested against the interval narrowed to the best
/// parameter so far.
pub open spec fn scene_best(objs: Seq<Sphere>, r: Ray, tmin: int, tmax: int, n: int) -> Option<
    (int, int),
>
    decreases n,
{
    if n <= 0 {
        None
    } else {
        let prev = scene_best(objs, r, tmin, tmax, n - 1);
        let cur_max = match prev {
            Some(pv) => pv.1,
            None => tmax,
        };
        match hit_t(objs[n - 1], r, tmin, cur_max) {
            Some(t) => Some((n - 1, t)),
            None => prev,
        }
    }
}

pub struct HittableList {
    pub list: Vec<Sphere>,
}

pub open spec fn list_wf(objs: Seq<Sphere>) -> bool {
    forall|i: int| 0 <= i < objs.len() ==> sphere_wf(#[trigger] objs[i])
}

impl HittableList {
    pub fn new() -> (r: HittableList)
        ensures
            r.list@.len() == 0,
    {
        HittableList { list: Vec::new() }
    }

    pub fn add(&mut self, object: Sphere)
        ensures
            final(self).list@ == old(self).list@.push(object),
    {
        self.list.push(object);
    }

    /// The closest hit among all members within `interval`, found by the
    /// narrowing scan that `scene_best` describes.
    pub fn hit(&self, r: &Ray, interval: Interval) -> (res: Option<HitRecord>)
        requires
            list_wf(self.list@),
            ray_wf(*r),
        ensures
            match res {
                None => scene_best(
                    self.list@,
                    *r,
                    interval.min as int,
                    interval.max as int,
                    self.list@.len() as int,
                ) is None,
                Some(rec) => {
                    &&& rec_wf(rec)
                    &&& exists|i: int|
                        {
                            &&& 0 <= i < self.list@.len()
                            &&& scene_best(
                                self.list@,
                                *r,
                                interval.min as int,
                                interval.max as int,
                                self.list@.len() as int,
                            ) == Some((i, rec.t as int))
                            &&& is_hit_record(#[trigger] self.list@[i], *r, rec.t as int, rec)
                        }
                },
            },
    {
        let ghost tmin: int = interval.min as int;
        let ghost tmax: int = interval.max as int;
        let mut hit_anything: bool = false;
        let mut closest: i128 = interval.max;
        let mut rec = HitRecord::default();
        let mut idx: usize = 0;
        while idx < self.list.len()
            invariant
                idx <= self.list@.len(),
                list_wf(self.list@),
                ray_wf(*r),
                tmin == interval.min as int,
                tmax == interval.max as int,
                match scene_best(self.list@, *r, tmin, tmax, idx as int) {
                    None => !hit_anything && closest == interval.max,
                    Some(pv) => {
                        &&& hit_anything
                        &&& closest as int == pv.1
                        &&& 0 <= pv.0 < idx
                        &&& rec.t as int == pv.1
                        &&& is_hit_record(self.list@[pv.0], *r, pv.1, rec)
                        &&& rec_wf(rec)
                    },
                },
            decreases self.list@.len() - idx,
        {
            let obj = &self.list[idx];
            match obj.hit(r, Interval::new(interval.min, closest)) {
                Some(tr) => {
                    hit_anything = true;
                    closest = tr.t;
                    rec = tr;
                },
                None => {},
            }
            idx = idx + 1;
        }
        if hit_anything {
            proof {
                let pv = scene_best(self.list@, *r, tmin, tmax, self.list@.len() as int).unwrap();
                assert(0 <= pv.0 < self.list@.len() && scene_best(
                    self.list@,
                    *r,
                    tmin,
                    tmax,
                    self.list@.len() as int,
                ) == Some((pv.0, rec.t as int)) && is_hit_record(self.list@[pv.0], *r, rec.t as int, rec));
            }
            Some(rec)
        } else {
            None
        }
    }
}

/// A scene holding exactly one primitive reports exactly that primitive's
/// own hit, for any ray and interval.
pub proof fn lemma_single_primitive(objs: Seq<Sphere>, r: Ray, tmin: int, tmax: int)
    requires
        objs.len() == 1,
    ensures
        scene_best(objs, r, tmin, tmax, 1) == (match hit_t(objs[0], r, tmin, tmax) {
            Some(t) => Some((0int, t)),
            None => None,
        }),
{
    assert(scene_best(objs, r, tmin, tmax, 0) is None);
}

/// Narrowing only the upper bound keeps a hit exactly when its parameter
/// still lies below the new bound.
pub proof fn lemma_hit_t_narrow(s: Sphere, r: Ray, tmin: int, tmax: int, tmax2: int)
    requires
        tmax2 <= tmax,
    ensures
        hit_t(s, r, tmin, tmax2) == (match hit_t(s, r, tmin, tmax) {
            Some(t) => if t < tmax2 {
                Some(t)
            } else {
                None::<int>
            },
            None => None,
        }),
{
    crate::sphere::lemma_roots_ordered(s, r);
}

/// The scan reports the closest hit over the full query interval: the
/// member with the least hit parameter wins (the earliest such member on a
/// tie), and narrowing never lets a farther hit overwrite a closer one.
#[verifier::rlimit(100)]
pub proof fn lemma_scene_closest(objs: Seq<Sphere>, r: Ray, tmin: int, tmax: int, n: int)
    requires
        0 <= n <= objs.len(),
    ensures
        match scene_best(objs, r, tmin, tmax, n) {
            Some(pv) => {
                &&& 0 <= pv.0 < n
                &&& hit_t(objs[pv.0], r, tmin, tmax) == Some(pv.1)
                &&& forall|j: int|
                    0 <= j < n ==> match #[trigger] hit_t(objs[j], r, tmin, tmax) {
                        Some(tj) => tj >= pv.1,
                        None => true,
                    }
                &&& forall|j: int|
                    0 <= j < pv.0 ==> match #[trigger] hit_t(objs[j], r, tmin, tmax) {
                        Some(tj) => tj > pv.1,
                        None => true,
                    }
            },
            None => forall|j: int| 0 <= j < n ==> #[trigger] hit_t(objs[j], r, tmin, tmax) is None,
        },
    decreases n,
{
    if n > 0 {
        lemma_scene_closest(objs, r, tmin, tmax, n - 1);
        let prev = scene_best(objs, r, tmin, tmax, n - 1);
        match prev {
            Some(pv) => {
                lemma_hit_t_narrow(objs[n - 1], r, tmin, tmax, pv.1);
            },
            None => {},
        }
    }
}

} // verus!
