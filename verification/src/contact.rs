use vstd::prelude::*;
use crate::vec3::Vec3;

verus! {

/// Names a body in the store of whoever steps the simulation.
#[derive(Clone, Copy, Debug, PartialEq, Eq, Structural)]
pub struct BodyHandle {
    pub index: u32,
    pub generation: u32,
}

/// One touch between a body and a triangle of the level, or another body.
#[derive(Clone, Copy, Debug, PartialEq, Eq)]
pub struct Contact {
    /// The other body; `None` where the body touched static geometry.
    pub body: Option<BodyHandle>,
    /// Where the two touch, in world space.
    pub position: Vec3,
    /// Points away from the surface that was entered.
    pub normal: Vec3,
    /// Which triangle of the static geometry was touched; zero for a touch
    /// between two bodies.
    pub triangle_index: usize,
}

} // verus!
