//! Plain world records: inclusive integer bounds and integer units.

use vstd::prelude::*;

use crate::vector::IVec3;

verus! {

/// Inclusive integer bounds in three dimensions.
#[derive(Clone, Copy, Debug, PartialEq, Eq)]
pub struct IBounds3 {
    pub min: IVec3,
    pub max: IVec3,
}

/// Whether `p` lies within `b`, borders included.
pub open spec fn bounds_contain(b: IBounds3, p: IVec3) -> bool {
    &&& b.min.x <= p.x <= b.max.x
    &&& b.min.y <= p.y <= b.max.y
    &&& b.min.z <= p.z <= b.max.z
}

impl IBounds3 {
    /// Creates bounds from their corners.
    pub fn new(min: IVec3, max: IVec3) -> (r: IBounds3)
        ensures
            r == (IBounds3 { min, max }),
    {
        IBounds3 { min, max }
    }

    /// Returns whether `point` lies within the bounds, borders included.
    pub fn inclusive_contains(&self, point: &IVec3) -> (r: bool)
        ensures
            r == bounds_contain(*self, *point),
    {
        let out_of_bounds = point.x < self.min.x || self.max.x < point.x || point.y < self.min.y
            || self.max.y < point.y || point.z < self.min.z || self.max.z < point.z;
        !out_of_bounds
    }
}

/// A unit at an integer position, drawn with the named resource.
#[derive(Clone, Debug)]
pub struct IUnit {
    pub pos: IVec3,
    pub resource_name: String,
}

impl IUnit {
    /// Creates a unit.
    pub fn new(pos: IVec3, resource_name: String) -> (r: IUnit)
        ensures
            r.pos == pos,
            r.resource_name@ == resource_name@,
    {
        IUnit { pos, resource_name }
    }
}

} // verus!
