//! Rays: an origin, a direction (not necessarily normalized) and a time
//! stamp for motion-blur-capable primitives.

use vstd::prelude::*;
use crate::math::{Fixed, MUL_MAX, iabs};
use crate::vec::{Vec3, spec_add, spec_scale, vec_ok};

verus! {

#[derive(Clone, Copy, PartialEq, Eq, Structural, Debug)]
pub struct Ray {
    pub origin: Vec3,
    pub direction: Vec3,
    pub time: Fixed,
}

/// Origin and direction within the scene coordinate bound.
pub open spec fn ray_ok(r: Ray) -> bool {
    vec_ok(r.origin) && vec_ok(r.direction)
}

/// The point reached after parameter `t`: `origin + t * direction`.
pub open spec fn spec_at(r: Ray, t: int) -> Vec3 {
    spec_add(r.origin, spec_scale(r.direction, t))
}

impl Ray {
    pub fn new(origin: Vec3, direction: Vec3, time: Fixed) -> (r: Ray)
        ensures
            r == (Ray { origin, direction, time }),
    {
        Ray { origin, direction, time }
    }

    /// Walk the ray: the point at parameter `t`.
    pub fn at(&self, t: Fixed) -> (p: Vec3)
        requires
            ray_ok(*self),
            iabs(t as int) <= MUL_MAX,
        ensures
            p == spec_at(*self, t as int),
    {
        let step: Vec3 = self.direction.scale(t);
        self.origin.add(&step)
    }
}

} // verus!
