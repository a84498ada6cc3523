use vstd::prelude::*;
use crate::shape::ConvexShape;
use crate::vec3::Vec3;

verus! {

/// The question put to the narrow phase: do these two shapes, each moved to its
/// offset, overlap?
#[derive(Clone, Copy, Debug, PartialEq, Eq)]
pub struct NarrowPhaseQuery {
    pub first_shape: ConvexShape,
    pub first_offset: Vec3,
    pub second_shape: ConvexShape,
    pub second_offset: Vec3,
}

/// How far two overlapping shapes reach into each other, and where they touch.
#[derive(Clone, Copy, Debug, PartialEq, Eq)]
pub struct PenetrationInfo {
    /// The shortest move of the first shape that ends the overlap, negated.
    pub penetration_vector: Vec3,
    pub contact_point: Vec3,
}

/// The narrow phase's answer to a query.
#[derive(Clone, Copy, Debug, PartialEq, Eq)]
pub enum NarrowPhaseOutcome {
    /// The shapes do not overlap.
    NoIntersection,
    /// The shapes overlap, but no penetration could be worked out.
    NoPenetration,
    /// The shapes overlap by this much.
    Penetration(PenetrationInfo),
}

} // verus!
