//! Points in space.

use vstd::prelude::*;
use crate::scalar::{plus, sum};
use crate::vec3::Vec3;

verus! {

/// A location, in fixed-point coordinates.
#[derive(Debug, Clone, Copy, PartialEq, Eq, Structural)]
pub struct Point3 {
    pub x: i64,
    pub y: i64,
    pub z: i64,
}

impl Point3 {
    /// The origin of the coordinates.
    pub open spec fn origin() -> Point3 {
        Point3 { x: 0, y: 0, z: 0 }
    }

    /// The point reached from `self` by the displacement `v`.
    pub open spec fn moved(self, v: Vec3) -> Point3 {
        Point3 { x: sum(self.x, v.x), y: sum(self.y, v.y), z: sum(self.z, v.z) }
    }

    pub fn new(x: i64, y: i64, z: i64) -> (p: Point3)
        ensures
            p == (Point3 { x, y, z }),
    {
        Point3 { x, y, z }
    }

    /// Moves the point by the displacement `v`.
    pub fn apply_vec(&mut self, v: Vec3)
        ensures
            *final(self) == old(self).moved(v),
    {
        self.x = plus(self.x, v.x);
        self.y = plus(self.y, v.y);
        self.z = plus(self.z, v.z);
    }
}

impl Default for Point3 {
    fn default() -> (p: Point3)
        ensures
            p == Point3::origin(),
    {
        Point3 { x: 0, y: 0, z: 0 }
    }
}

} // verus!
