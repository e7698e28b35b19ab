//! A ray of the form p(t) = A + t*B, where A is the ray origin, B is
//! the ray direction and t is some distance from the origin.

use crate::vector::{spec_add, spec_scale, Vector4};
use vstd::prelude::*;

verus! {

/// A parametrized line through space.
#[derive(Clone, Copy, PartialEq, Eq, Structural, Debug)]
pub struct Ray {
    pub origin: Vector4,
    pub direction: Vector4,
}

/// The point a ray reaches after travelling a given distance.
pub open spec fn spec_point_at(ray: Ray, distance: int) -> Vector4 {
    spec_add(ray.origin, spec_scale(ray.direction, distance))
}

impl Ray {
    /// Assemble a ray from its origin and direction.
    pub fn new(origin: Vector4, direction: Vector4) -> (r: Ray)
        ensures
            r == (Ray { origin, direction }),
    {
        Ray { origin, direction }
    }

    /// The point reached after travelling `distance` along the ray.
    pub fn point_at_distance(&self, distance: i64) -> (r: Vector4)
        ensures
            r == spec_point_at(*self, distance as int),
    {
        self.origin.add(self.direction.scale(distance))
    }

    /// The ray origin.
    pub fn origin(&self) -> (r: Vector4)
        ensures
            r == self.origin,
    {
        self.origin
    }

    /// The ray direction.
    pub fn direction(&self) -> (r: Vector4)
        ensures
            r == self.direction,
    {
        self.direction
    }
}

} // verus!
