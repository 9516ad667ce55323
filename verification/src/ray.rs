//! Rays: a parametric half-line through the scene.

use vstd::prelude::*;
use crate::vec3::{Vec3, v_add, v_scale};

verus! {

/// A ray, immutable once constructed.
#[derive(Clone, Copy, PartialEq, Eq, Structural, Debug)]
pub struct Ray {
    pub origin: Vec3,
    pub direction: Vec3,
}

/// The point reached after travelling `t` along the ray.
pub open spec fn ray_at(r: Ray, t: int) -> Vec3 {
    v_add(r.origin, v_scale(r.direction, t))
}

impl Ray {
    /// Builds a ray from an origin and a direction.
    pub fn new(origin: Vec3, direction: Vec3) -> (r: Ray)
        ensures
            r == (Ray { origin, direction }),
    {
        Ray { origin, direction }
    }

    /// Evaluates the ray at parameter `t`.
    pub fn at(&self, t: i64) -> (p: Vec3)
        ensures
            p == ray_at(*self, t as int),
    {
        self.origin.add_v(self.direction.scale(t))
    }
}

} // verus!
