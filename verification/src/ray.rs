//! Rays: an origin and a direction, with parametric evaluation.

use vstd::prelude::*;
use crate::vec3::{add_v, proper, scale_v, Vec3};

verus! {

/// A ray `origin + t * direction`; the direction need not be unit length.
#[derive(Clone, Copy, PartialEq, Eq, Structural, Debug)]
pub struct Ray {
    pub origin: Vec3,
    pub direction: Vec3,
}

/// The point a ray reaches at parameter `t`.
pub open spec fn at_v(r: Ray, t: int) -> Vec3 {
    add_v(r.origin, scale_v(r.direction, t))
}

impl Ray {
    pub fn new(origin: Vec3, direction: Vec3) -> (r: Ray)
        ensures
            r == (Ray { origin, direction }),
    {
        Ray { origin, direction }
    }

    /// The point reached at parameter `t`.
    pub fn at(&self, t: i64) -> (r: Vec3)
        ensures
            r == at_v(*self, t as int),
            proper(r),
    {
        self.origin.add(self.direction.scale(t))
    }
}

} // verus!
