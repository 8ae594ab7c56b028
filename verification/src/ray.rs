//! Rays: an origin plus a direction, with the parametric evaluator.

use vstd::prelude::*;

use crate::fx::in_range;
use crate::vec3::{v3, vadd, vscale, vwf, Vec3, V3};

verus! {

#[derive(Debug, Clone, Copy, PartialEq, Eq, Structural)]
pub struct Ray {
    pub origin: Vec3,
    pub dir: Vec3,
}

/// The point `origin + t * dir`.
pub open spec fn ray_at(origin: V3, dir: V3, t: int) -> V3 {
    vadd(origin, vscale(dir, t))
}

pub open spec fn ray_wf(r: Ray) -> bool {
    vwf(v3(r.origin)) && vwf(v3(r.dir))
}

impl Ray {
    pub fn new(origin: Vec3, dir: Vec3) -> (r: Ray)
        ensures
            r.origin == origin,
            r.dir == dir,
    {
        Ray { origin, dir }
    }

    pub fn at(&self, t: i128) -> (p: Vec3)
        requires
            ray_wf(*self),
            in_range(t as int),
        ensures
            v3(p) == ray_at(v3(self.origin), v3(self.dir), t as int),
            vwf(v3(p)),
    {
        self.origin.plus(self.dir.times(t))
    }
}

} // verus!
