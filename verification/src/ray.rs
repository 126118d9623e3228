//! Rays: half-lines given by an origin and a direction.

use vstd::prelude::*;
use crate::fixed::Fixed;
use crate::vec::{Point3, Vec3};

verus! {

/// The points `origin + t * direction`. The direction need not have length one.
#[derive(Clone, Copy, Debug)]
pub struct Ray {
    pub origin: Point3,
    pub direction: Vec3,
}

impl Ray {
    /// The point at parameter `t`.
    pub open spec fn spec_at(self, t: Fixed) -> Point3 {
        self.origin.spec_add(self.direction.spec_scale(t))
    }

    /// The ray from `origin` along `direction`.
    pub fn new(origin: Point3, direction: Vec3) -> (res: Ray)
        ensures
            res == (Ray { origin, direction }),
    {
        Ray { origin, direction }
    }

    /// Where the ray starts.
    pub fn origin(&self) -> (res: Point3)
        ensures
            res == self.origin,
    {
        self.origin
    }

    /// Where the ray points.
    pub fn direction(&self) -> (res: Vec3)
        ensures
            res == self.direction,
    {
        self.direction
    }

    /// The point at parameter `t`.
    pub fn at(&self, t: Fixed) -> (res: Point3)
        ensures
            res == self.spec_at(t),
    {
        self.origin.add(self.direction.scale(t))
    }
}

} // verus!
