use vstd::prelude::*;
use crate::vec3::Vec3;

verus! {

/// The convex solid that a body collides as.
#[derive(Clone, Copy, Debug, PartialEq, Eq)]
pub enum ConvexShape {
    /// No geometry: it touches nothing.
    Dummy,
    Sphere { radius: i64 },
    Box { half_extents: Vec3 },
    Capsule { begin: Vec3, end: Vec3, radius: i64 },
    Triangle { vertices: [Vec3; 3] },
}

/// Why a number names no kind of shape.
#[derive(Clone, Copy, Debug, PartialEq, Eq)]
pub enum ShapeError {
    UnknownKind { id: i32 },
}

impl ConvexShape {
    /// The number under which the kind of the shape is stored.
    pub open spec fn spec_id(&self) -> i32 {
        match self {
            ConvexShape::Dummy => 0,
            ConvexShape::Box { .. } => 1,
            ConvexShape::Sphere { .. } => 2,
            ConvexShape::Capsule { .. } => 3,
            ConvexShape::Triangle { .. } => 4,
        }
    }

    /// The shape of the kind stored under `id`, with all its measures zero; `None`
    /// where `id` names no kind.
    pub open spec fn spec_new(id: i32) -> Option<ConvexShape> {
        if id == 0 {
            Some(ConvexShape::Dummy)
        } else if id == 1 {
            Some(ConvexShape::Box { half_extents: Vec3::spec_zero() })
        } else if id == 2 {
            Some(ConvexShape::Sphere { radius: 0 })
        } else if id == 3 {
            Some(
                ConvexShape::Capsule {
                    begin: Vec3::spec_zero(),
                    end: Vec3::spec_zero(),
                    radius: 0,
                },
            )
        } else if id == 4 {
            Some(
                ConvexShape::Triangle {
                    vertices: [Vec3::spec_zero(), Vec3::spec_zero(), Vec3::spec_zero()],
                },
            )
        } else {
            None
        }
    }

    #[verifier::when_used_as_spec(spec_id)]
    pub fn id(&self) -> (r: i32)
        ensures
            r == self.spec_id(),
    {
        match self {
            ConvexShape::Dummy => 0,
            ConvexShape::Box { .. } => 1,
            ConvexShape::Sphere { .. } => 2,
            ConvexShape::Capsule { .. } => 3,
            ConvexShape::Triangle { .. } => 4,
        }
    }

    /// A shape of the kind that is stored under `id`, to be filled in by whoever
    /// reads the rest of it.
    pub fn new(id: i32) -> (r: Result<ConvexShape, ShapeError>)
        ensures
            match r {
                Ok(shape) => ConvexShape::spec_new(id) == Some(shape) && shape.spec_id() == id,
                Err(error) => {
                    &&& ConvexShape::spec_new(id) is None
                    &&& error == (ShapeError::UnknownKind { id })
                },
            },
    {
        if id == 0 {
            Ok(ConvexShape::Dummy)
        } else if id == 1 {
            Ok(ConvexShape::Box { half_extents: Vec3::zero() })
        } else if id == 2 {
            Ok(ConvexShape::Sphere { radius: 0 })
        } else if id == 3 {
            Ok(ConvexShape::Capsule { begin: Vec3::zero(), end: Vec3::zero(), radius: 0 })
        } else if id == 4 {
            Ok(ConvexShape::Triangle { vertices: [Vec3::zero(), Vec3::zero(), Vec3::zero()] })
        } else {
            Err(ShapeError::UnknownKind { id })
        }
    }
}

/// The kind of every shape is read back from the number it is stored under, and
/// no other number names a kind.
pub proof fn lemma_kind_round_trip(shape: ConvexShape, id: i32)
    ensures
        ConvexShape::spec_new(shape.spec_id()) is Some,
        ConvexShape::spec_new(shape.spec_id()).unwrap().spec_id() == shape.spec_id(),
        ConvexShape::spec_new(id) is Some <==> 0 <= id <= 4,
{
}

/// A triangle of the level's static geometry, in world space.
#[derive(Clone, Copy, Debug, PartialEq, Eq)]
pub struct StaticTriangle {
    pub points: [Vec3; 3],
}

} // verus!
