//! Closed scalar ranges used to bound hit distances and clamp channels.
//!
//! The default interval is the empty sentinel whose `min` sits at the
//! saturation bound and whose `max` sits at its negation, so it never
//! surrounds any value; the saturation bound itself plays the role of
//! infinity, and `surrounds` is deliberately strict so that boundary and
//! saturated values are rejected.

use vstd::prelude::*;

use crate::fx::FX_MAX;

verus! {

#[derive(Debug, Clone, Copy, PartialEq, Eq, Structural)]
pub struct Interval {
    pub min: i128,
    pub max: i128,
}

/// Strict containment: both endpoints excluded.
pub open spec fn spec_surrounds(min: int, max: int, x: int) -> bool {
    min < x && x < max
}

/// Clamp `x` to the closed range `[min, max]`.
pub open spec fn spec_clamp(min: int, max: int, x: int) -> int {
    if x < min {
        min
    } else if x > max {
        max
    } else {
        x
    }
}

impl Interval {
    pub fn new(min: i128, max: i128) -> (r: Interval)
        ensures
            r.min == min,
            r.max == max,
    {
        Interval { min, max }
    }

    pub fn surrounds(&self, x: i128) -> (r: bool)
        ensures
            r == spec_surrounds(self.min as int, self.max as int, x as int),
    {
        self.min < x && x < self.max
    }

    pub fn clamp(&self, x: i128) -> (r: i128)
        ensures
            r == spec_clamp(self.min as int, self.max as int, x as int),
    {
        if x < self.min {
            return self.min;
        }
        if x > self.max {
            return self.max;
        }
        x
    }
}

impl Default for Interval {
    /// The empty sentinel: surrounds nothing.
    fn default() -> (r: Interval)
        ensures
            r.min == FX_MAX,
            r.max == -FX_MAX,
    {
        Interval { min: FX_MAX, max: -FX_MAX }
    }
}

} // verus!
