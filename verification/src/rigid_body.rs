use vstd::prelude::*;
use crate::contact::Contact;
use crate::fixed::{
    mul_fixed, sat_add, sat_sub, spec_mul_fixed, spec_sat_add, spec_sat_sub, ONE,
};
use crate::flags::CollisionFlags;
use crate::narrow_phase::{NarrowPhaseOutcome, NarrowPhaseQuery, PenetrationInfo};
use crate::shape::{ConvexShape, StaticTriangle};
use crate::vec3::{
    lemma_normalized_within_one, lemma_plus_stays_near, lemma_scale_at_least, lemma_scale_within,
    magnitude, sum_in_range, sum_of_squares, Vec3,
};

verus! {

/// The friction of a new body: a fifth.
pub const DEFAULT_FRICTION: i64 = 200_000;

/// The speed limit of a new body: three quarters of a unit per step.
pub const DEFAULT_SPEED_LIMIT: i64 = 750_000;

/// The downward pull on a new body: 9.81 units per second squared.
pub const DEFAULT_GRAVITY: i64 = 9_810_000;

/// One half, the share of a push that each of two bodies takes.
pub const HALF: i64 = 500_000;

/// A damping coefficient: a fixed-point number between zero and one. No value of
/// this type lies outside that range.
#[derive(Clone, Copy, Debug, PartialEq, Eq)]
pub struct Friction {
    value: i64,
}

impl View for Friction {
    type V = i64;

    closed spec fn view(&self) -> i64 {
        self.value
    }
}

impl Friction {
    #[verifier::type_invariant]
    spec fn in_range(self) -> bool {
        0 <= self.value <= ONE
    }

    /// The coefficient nearest to `value`: zero for a negative one, one for one
    /// above one.
    pub fn new(value: i64) -> (r: Friction)
        ensures
            r@ == spec_clamp_friction(value),
    {
        if value < 0 {
            Friction { value: 0 }
        } else if value > ONE {
            Friction { value: ONE }
        } else {
            Friction { value }
        }
    }

    pub fn get(&self) -> (r: i64)
        ensures
            r == self@,
            0 <= r <= ONE,
    {
        proof {
            use_type_invariant(self);
        }
        self.value
    }
}

/// A solid body that moves: where it is and was, what pulls on it, and what
/// it touched in the current step.
#[derive(Debug)]
pub struct RigidBody {
    pub position: Vec3,
    pub shape: ConvexShape,
    /// Where the body was one step ago. The body keeps no velocity: it is the way
    /// from here to `position`.
    pub last_position: Vec3,
    /// The acceleration gathered for the next step, which uses it up.
    pub acceleration: Vec3,
    /// The contacts of the current step, in the order they were found.
    pub contacts: Vec<Contact>,
    pub friction: Friction,
    pub gravity: Vec3,
    /// The longest way the body may go in one step.
    pub speed_limit: i64,
    /// The seconds the body has left; `None` for a body that stays.
    pub lifetime: Option<i64>,
    pub user_flags: u64,
    pub collision_group: u64,
    pub collision_mask: u64,
    pub collision_flags: CollisionFlags,
}

/// A body as a value: its fields, with the contacts as a sequence.
pub ghost struct BodyView {
    pub position: Vec3,
    pub shape: ConvexShape,
    pub last_position: Vec3,
    pub acceleration: Vec3,
    pub contacts: Seq<Contact>,
    pub friction: i64,
    pub gravity: Vec3,
    pub speed_limit: i64,
    pub lifetime: Option<i64>,
    pub user_flags: u64,
    pub collision_group: u64,
    pub collision_mask: u64,
    pub collision_flags: CollisionFlags,
}

impl View for RigidBody {
    type V = BodyView;

    open spec fn view(&self) -> BodyView {
        BodyView {
            position: self.position,
            shape: self.shape,
            last_position: self.last_position,
            acceleration: self.acceleration,
            contacts: self.contacts@,
            friction: self.friction@,
            gravity: self.gravity,
            speed_limit: self.speed_limit,
            lifetime: self.lifetime,
            user_flags: self.user_flags,
            collision_group: self.collision_group,
            collision_mask: self.collision_mask,
            collision_flags: self.collision_flags,
        }
    }
}

impl BodyView {
    /// The way the body went in the last step.
    pub open spec fn velocity(self) -> Vec3 {
        self.position.spec_minus(self.last_position)
    }

    /// The damping of the next step: the body's own friction while it touches
    /// something, that of the air otherwise.
    pub open spec fn damping(self, air_friction: i64) -> i64 {
        if self.contacts.len() > 0 {
            self.friction
        } else {
            air_friction
        }
    }

    /// The body after one step of damped Verlet integration.
    pub open spec fn stepped(self, sqr_delta_time: i64, air_friction: i64) -> BodyView {
        let friction = self.damping(air_friction);
        let position = Vec3 {
            x: spec_verlet_axis(
                friction,
                self.position.x,
                self.last_position.x,
                self.acceleration.x,
                sqr_delta_time,
            ),
            y: spec_verlet_axis(
                friction,
                self.position.y,
                self.last_position.y,
                self.acceleration.y,
                sqr_delta_time,
            ),
            z: spec_verlet_axis(
                friction,
                self.position.z,
                self.last_position.z,
                self.acceleration.z,
                sqr_delta_time,
            ),
        };
        BodyView {
            position,
            last_position: spec_limited_origin(self.position, position, self.speed_limit),
            acceleration: Vec3::spec_zero(),
            ..self
        }
    }

    /// The body after a triangle of the level was tested against it.
    pub open spec fn after_triangle(
        self,
        outcome: NarrowPhaseOutcome,
        triangle_index: usize,
    ) -> BodyView {
        match outcome {
            NarrowPhaseOutcome::Penetration(info) => BodyView {
                position: self.position.spec_minus(info.penetration_vector),
                contacts: self.contacts.push(
                    Contact {
                        body: None,
                        position: info.contact_point,
                        normal: spec_contact_normal(info.penetration_vector, Vec3::spec_zero()),
                        triangle_index,
                    },
                ),
                ..self
            },
            _ => self,
        }
    }

    /// The body after it was found to overlap another by `info`. `first` says
    /// whether it is the body that the penetration vector was measured from.
    pub open spec fn after_body(self, info: PenetrationInfo, first: bool) -> BodyView {
        let half_push = info.penetration_vector.spec_scale(HALF);
        BodyView {
            position: if self.collision_flags.disable_collision_response {
                self.position
            } else if first {
                self.position.spec_minus(half_push)
            } else {
                self.position.spec_plus(half_push)
            },
            contacts: self.contacts.push(
                Contact {
                    body: None,
                    position: info.contact_point,
                    normal: spec_contact_normal(info.penetration_vector, Vec3::spec_up()),
                    triangle_index: 0,
                },
            ),
            ..self
        }
    }
}

/// `friction` brought into the range from zero to one.
pub open spec fn spec_clamp_friction(friction: i64) -> i64 {
    if friction < 0 {
        0
    } else if friction > ONE {
        ONE
    } else {
        friction
    }
}

/// One coordinate after a step: `(2 - f) * p - (1 - f) * l + a * dt`, where `p` is
/// the coordinate now, `l` the one before, `a` the acceleration, `f` the friction
/// and `dt` the square of the time step.
pub open spec fn spec_verlet_axis(
    friction: i64,
    position: i64,
    last_position: i64,
    acceleration: i64,
    sqr_delta_time: i64,
) -> i64 {
    let k1 = spec_sat_sub((2 * ONE) as i64, friction);
    let k2 = spec_sat_sub(ONE, friction);
    spec_sat_add(
        spec_sat_sub(spec_mul_fixed(k1, position), spec_mul_fixed(k2, last_position)),
        spec_mul_fixed(acceleration, sqr_delta_time),
    )
}

/// Where a body that went from `origin` to `position` counts as having come from:
/// `origin` itself, unless that is farther away than `limit`; then the point at
/// distance `limit` from `position`, toward `origin`.
pub open spec fn spec_limited_origin(origin: Vec3, position: Vec3, limit: i64) -> Vec3 {
    if origin.spec_sqr_distance(position) > limit * limit {
        match origin.spec_minus(position).spec_normalized() {
            Some(direction) => position.spec_plus(direction.spec_scale(limit)),
            None => origin,
        }
    } else {
        origin
    }
}

/// The way from `position` back toward `origin`, of length `limit`: what the speed
/// limit leaves of a step that was longer.
pub open spec fn spec_way_back(origin: Vec3, position: Vec3, limit: i64) -> Vec3 {
    match origin.spec_minus(position).spec_normalized() {
        Some(direction) => direction.spec_scale(limit),
        None => Vec3::spec_zero(),
    }
}

/// The normal of a contact: opposite to the penetration, of length one; `fallback`
/// where the penetration has no direction.
pub open spec fn spec_contact_normal(penetration_vector: Vec3, fallback: Vec3) -> Vec3 {
    match penetration_vector.spec_negated().spec_normalized() {
        Some(normal) => normal,
        None => fallback,
    }
}

/// The point that a body counts as having come from is no farther from where it
/// is than the limit.
pub proof fn lemma_limited_origin_within(origin: Vec3, position: Vec3, limit: i64)
    ensures
        spec_limited_origin(origin, position, limit).spec_sqr_distance(position) <= limit
            * limit,
{
    if origin.spec_sqr_distance(position) > limit * limit {
        let velocity = origin.spec_minus(position);
        lemma_normalized_within_one(velocity);
        match velocity.spec_normalized() {
            Some(direction) => {
                lemma_scale_within(direction, limit);
                lemma_plus_stays_near(position, direction.spec_scale(limit));
            },
            None => {
                assert(origin == position);
                assert(limit * limit >= 0) by (nonlinear_arith);
            },
        }
    }
}

/// Where the speed limit applies and the coordinates stay in range, the point that
/// a body counts as having come from lies the way back from where it is, and that
/// way falls short of the limit by four millionths of it and one raw unit along each
/// axis at most.
pub proof fn lemma_limited_origin_near_limit(origin: Vec3, position: Vec3, limit: i64)
    requires
        origin.spec_sqr_distance(position) > limit * limit,
        sum_in_range(position, spec_way_back(origin, position, limit)),
    ensures
        ({
            let from = spec_limited_origin(origin, position, limit);
            let way = spec_way_back(origin, position, limit);
            &&& from.x - position.x == way.x
            &&& from.y - position.y == way.y
            &&& from.z - position.z == way.z
            &&& sum_of_squares(
                magnitude(way.x as int) + 1,
                magnitude(way.y as int) + 1,
                magnitude(way.z as int) + 1,
            ) * (ONE * ONE) >= (limit * limit) * ((ONE - 4) * (ONE - 4))
        }),
{
    let velocity = origin.spec_minus(position);
    assert(limit * limit >= 0) by (nonlinear_arith);
    if velocity == Vec3::spec_zero() {
        assert(origin == position);
        assert(origin.spec_sqr_distance(position) == 0) by (nonlinear_arith)
            requires
                origin == position,
        ;
    }
    lemma_normalized_within_one(velocity);
    let direction = velocity.spec_normalized().unwrap();
    lemma_scale_at_least(direction, limit);
    let (l2, low, len2) = (limit * limit, (ONE - 4) * (ONE - 4), direction.spec_sqr_len());
    assert(l2 * len2 >= l2 * low) by (nonlinear_arith)
        requires
            l2 >= 0,
            len2 >= low,
    ;
}

fn verlet_axis(
    friction: i64,
    position: i64,
    last_position: i64,
    acceleration: i64,
    sqr_delta_time: i64,
) -> (r: i64)
    ensures
        r == spec_verlet_axis(friction, position, last_position, acceleration, sqr_delta_time),
{
    let k1: i64 = sat_sub(2 * ONE, friction);
    let k2: i64 = sat_sub(ONE, friction);
    sat_add(
        sat_sub(mul_fixed(k1, position), mul_fixed(k2, last_position)),
        mul_fixed(acceleration, sqr_delta_time),
    )
}

fn limited_origin(origin: Vec3, position: Vec3, limit: i64) -> (r: Vec3)
    ensures
        r == spec_limited_origin(origin, position, limit),
        r.spec_sqr_distance(position) <= limit * limit,
{
    proof {
        lemma_limited_origin_within(origin, position, limit);
    }
    if origin.farther_than(&position, limit) {
        let velocity = origin.minus(&position);
        match velocity.normalized() {
            Some(direction) => position.plus(&direction.scale(limit)),
            None => origin,
        }
    } else {
        origin
    }
}

fn contact_normal(penetration_vector: Vec3, fallback: Vec3) -> (r: Vec3)
    ensures
        r == spec_contact_normal(penetration_vector, fallback),
{
    match penetration_vector.negated().normalized() {
        Some(normal) => normal,
        None => fallback,
    }
}

impl RigidBody {
    /// Friction lies between zero and one. This holds of every body, since it
    /// holds of every [`Friction`]; [`RigidBody::get_friction`] says so.
    pub open spec fn wf(&self) -> bool {
        0 <= self@.friction <= ONE
    }

    /// A new body of the given shape, at rest at the origin.
    pub open spec fn spec_new(shape: ConvexShape) -> BodyView {
        BodyView {
            position: Vec3::spec_zero(),
            shape,
            last_position: Vec3::spec_zero(),
            acceleration: Vec3::spec_zero(),
            contacts: Seq::empty(),
            friction: DEFAULT_FRICTION,
            gravity: Vec3 { x: 0, y: (-DEFAULT_GRAVITY) as i64, z: 0 },
            speed_limit: DEFAULT_SPEED_LIMIT,
            lifetime: None,
            user_flags: 0,
            collision_group: 1,
            collision_mask: u64::MAX,
            collision_flags: CollisionFlags::spec_none(),
        }
    }

    pub fn new(shape: ConvexShape) -> (r: RigidBody)
        ensures
            r@ == RigidBody::spec_new(shape),
            r.wf(),
    {
        RigidBody {
            position: Vec3::zero(),
            last_position: Vec3::zero(),
            acceleration: Vec3::zero(),
            friction: Friction::new(DEFAULT_FRICTION),
            gravity: Vec3::new(0, -DEFAULT_GRAVITY, 0),
            shape,
            contacts: Vec::new(),
            speed_limit: DEFAULT_SPEED_LIMIT,
            lifetime: None,
            user_flags: 0,
            collision_group: 1,
            collision_mask: u64::MAX,
            collision_flags: CollisionFlags::none(),
        }
    }

    /// Advances the body by one time step: damped Verlet integration, then the
    /// speed limit. `air_friction` damps a body that touches nothing.
    ///
    /// `sqr_delta_time` is the square of the time step in seconds, as a fixed-point
    /// number like every other: a count of millionths. A short step leaves few
    /// digits of it. The square of a 60th of a second is 278 millionths, that of a
    /// 240th is 17, which is two in a hundred off; below half a millionth it is
    /// zero, and the acceleration then moves nothing.
    pub fn verlet(&mut self, sqr_delta_time: i64, air_friction: i64)
        ensures
            final(self)@ == old(self)@.stepped(sqr_delta_time, air_friction),
            final(self)@.acceleration == Vec3::spec_zero(),
            final(self)@.contacts == old(self)@.contacts,
            final(self)@.last_position.spec_sqr_distance(final(self)@.position) <= old(
                self,
            )@.speed_limit * old(self)@.speed_limit,
            old(self).wf() ==> final(self).wf(),
    {
        let friction: i64 = if !self.contacts.is_empty() {
            self.friction.get()
        } else {
            air_friction
        };
        let last_position = self.position;
        self.position = Vec3 {
            x: verlet_axis(
                friction,
                self.position.x,
                self.last_position.x,
                self.acceleration.x,
                sqr_delta_time,
            ),
            y: verlet_axis(
                friction,
                self.position.y,
                self.last_position.y,
                self.acceleration.y,
                sqr_delta_time,
            ),
            z: verlet_axis(
                friction,
                self.position.z,
                self.last_position.z,
                self.acceleration.z,
                sqr_delta_time,
            ),
        };
        self.acceleration = Vec3::zero();
        self.last_position = limited_origin(last_position, self.position, self.speed_limit);
    }

    /// Takes in what the narrow phase found for this body and one triangle of the
    /// level: on an overlap the body is pushed out all the way, since the triangle
    /// does not move, and records the contact.
    pub fn solve_triangle_collision(&mut self, outcome: NarrowPhaseOutcome, triangle_index: usize)
        ensures
            final(self)@ == old(self)@.after_triangle(outcome, triangle_index),
            !(outcome is Penetration) ==> final(self)@ == old(self)@,
            old(self).wf() ==> final(self).wf(),
    {
        match outcome {
            NarrowPhaseOutcome::Penetration(info) => {
                self.position = self.position.minus(&info.penetration_vector);
                self.contacts.push(
                    Contact {
                        body: None,
                        position: info.contact_point,
                        normal: contact_normal(info.penetration_vector, Vec3::zero()),
                        triangle_index,
                    },
                );
            },
            _ => {},
        }
    }

    /// Takes in what the narrow phase found for this body and another: on an
    /// overlap each records the contact, and each that responds to collisions moves
    /// half the way out.
    pub fn solve_rigid_body_collision(&mut self, other: &mut RigidBody, outcome: NarrowPhaseOutcome)
        ensures
            match outcome {
                NarrowPhaseOutcome::Penetration(info) => {
                    &&& final(self)@ == old(self)@.after_body(info, true)
                    &&& final(other)@ == old(other)@.after_body(info, false)
                },
                _ => final(self)@ == old(self)@ && final(other)@ == old(other)@,
            },
            old(self).wf() ==> final(self).wf(),
            old(other).wf() ==> final(other).wf(),
    {
        match outcome {
            NarrowPhaseOutcome::Penetration(info) => {
                let half_push = info.penetration_vector.scale(HALF);
                if !self.collision_flags.contains(&CollisionFlags::response_disabled()) {
                    self.position = self.position.minus(&half_push);
                }
                self.contacts.push(
                    Contact {
                        body: None,
                        position: info.contact_point,
                        normal: contact_normal(info.penetration_vector, Vec3::up()),
                        triangle_index: 0,
                    },
                );
                if !other.collision_flags.contains(&CollisionFlags::response_disabled()) {
                    other.position = other.position.plus(&half_push);
                }
                other.contacts.push(
                    Contact {
                        body: None,
                        position: info.contact_point,
                        normal: contact_normal(info.penetration_vector, Vec3::up()),
                        triangle_index: 0,
                    },
                );
            },
            _ => {},
        }
    }
}

impl RigidBody {
    pub fn get_position(&self) -> (r: Vec3)
        ensures
            r == self@.position,
    {
        self.position
    }

    /// Puts the body at `p`, at rest: it counts as having been there before.
    pub fn set_position(&mut self, p: Vec3)
        ensures
            final(self)@ == (BodyView { position: p, last_position: p, ..old(self)@ }),
            final(self)@.velocity() == Vec3::spec_zero(),
    {
        self.position = p;
        self.last_position = p;
    }

    /// Moves the body by `v`. Where it was before stays, so the move adds to the
    /// body's velocity.
    pub fn move_by(&mut self, v: Vec3)
        ensures
            final(self)@ == (BodyView {
                position: old(self)@.position.spec_plus(v),
                ..old(self)@
            }),
    {
        self.position = self.position.plus(&v);
    }

    pub fn set_shape(&mut self, shape: ConvexShape)
        ensures
            final(self)@ == (BodyView { shape, ..old(self)@ }),
    {
        self.shape = shape;
    }

    pub fn get_shape(&self) -> (r: &ConvexShape)
        ensures
            *r == self@.shape,
    {
        &self.shape
    }

    pub fn get_shape_mut(&mut self) -> (r: &mut ConvexShape)
        ensures
            *r == old(self)@.shape,
            final(self)@ == (BodyView { shape: *final(r), ..old(self)@ }),
    {
        &mut self.shape
    }

    /// Sets the friction to `friction`, brought into the range from zero to one.
    pub fn set_friction(&mut self, friction: i64)
        ensures
            final(self)@ == (BodyView {
                friction: spec_clamp_friction(friction),
                ..old(self)@
            }),
            final(self).wf(),
    {
        self.friction = Friction::new(friction);
    }

    pub fn get_friction(&self) -> (r: i64)
        ensures
            r == self@.friction,
            self.wf(),
    {
        self.friction.get()
    }

    /// Makes the body's velocity along the first axis `x`, by moving where it was
    /// before along that axis.
    pub fn set_x_velocity(&mut self, x: i64)
        ensures
            final(self)@ == (BodyView {
                last_position: Vec3 {
                    x: spec_sat_sub(old(self)@.position.x, x),
                    ..old(self)@.last_position
                },
                ..old(self)@
            }),
    {
        self.last_position.x = sat_sub(self.position.x, x);
    }

    /// Makes the body's velocity along the second axis `y`.
    pub fn set_y_velocity(&mut self, y: i64)
        ensures
            final(self)@ == (BodyView {
                last_position: Vec3 {
                    y: spec_sat_sub(old(self)@.position.y, y),
                    ..old(self)@.last_position
                },
                ..old(self)@
            }),
    {
        self.last_position.y = sat_sub(self.position.y, y);
    }

    /// Makes the body's velocity along the third axis `z`.
    pub fn set_z_velocity(&mut self, z: i64)
        ensures
            final(self)@ == (BodyView {
                last_position: Vec3 {
                    z: spec_sat_sub(old(self)@.position.z, z),
                    ..old(self)@.last_position
                },
                ..old(self)@
            }),
    {
        self.last_position.z = sat_sub(self.position.z, z);
    }

    pub fn get_contacts(&self) -> (r: &[Contact])
        ensures
            r@ == self@.contacts,
    {
        self.contacts.as_slice()
    }

    pub fn set_gravity(&mut self, gravity: Vec3)
        ensures
            final(self)@ == (BodyView { gravity, ..old(self)@ }),
    {
        self.gravity = gravity;
    }

    pub fn get_gravity(&self) -> (r: Vec3)
        ensures
            r == self@.gravity,
    {
        self.gravity
    }

    /// Gives the body `time_seconds` to live. Nothing makes it stay for good again.
    pub fn set_lifetime(&mut self, time_seconds: i64)
        ensures
            final(self)@ == (BodyView { lifetime: Some(time_seconds), ..old(self)@ }),
    {
        self.lifetime = Some(time_seconds);
    }

    pub fn get_lifetime(&self) -> (r: Option<i64>)
        ensures
            r == self@.lifetime,
    {
        self.lifetime
    }

    /// The question for the narrow phase about this body and a triangle of the
    /// level. The triangle's points are in world space, so it stays at the origin.
    pub fn triangle_query(&self, triangle: &StaticTriangle) -> (r: NarrowPhaseQuery)
        ensures
            r == (NarrowPhaseQuery {
                first_shape: self@.shape,
                first_offset: self@.position,
                second_shape: ConvexShape::Triangle { vertices: triangle.points },
                second_offset: Vec3::spec_zero(),
            }),
    {
        NarrowPhaseQuery {
            first_shape: self.shape,
            first_offset: self.position,
            second_shape: ConvexShape::Triangle { vertices: triangle.points },
            second_offset: Vec3::zero(),
        }
    }

    /// The question for the narrow phase about this body and another.
    pub fn body_query(&self, other: &RigidBody) -> (r: NarrowPhaseQuery)
        ensures
            r == (NarrowPhaseQuery {
                first_shape: self@.shape,
                first_offset: self@.position,
                second_shape: other@.shape,
                second_offset: other@.position,
            }),
    {
        NarrowPhaseQuery {
            first_shape: self.shape,
            first_offset: self.position,
            second_shape: other.shape,
            second_offset: other.position,
        }
    }
}

impl Default for RigidBody {
    /// A body without geometry.
    fn default() -> (r: RigidBody)
        ensures
            r@ == RigidBody::spec_new(ConvexShape::Dummy),
    {
        RigidBody::new(ConvexShape::Dummy)
    }
}

impl Clone for RigidBody {
    /// A body in the same place and motion, which has touched nothing yet and
    /// responds to collisions.
    fn clone(&self) -> (r: RigidBody)
        ensures
            r@ == (BodyView {
                contacts: Seq::empty(),
                collision_flags: CollisionFlags::spec_none(),
                ..self@
            }),
    {
        RigidBody {
            position: self.position,
            last_position: self.last_position,
            acceleration: self.acceleration,
            contacts: Vec::new(),
            friction: self.friction,
            gravity: self.gravity,
            shape: self.shape,
            speed_limit: self.speed_limit,
            lifetime: self.lifetime,
            user_flags: self.user_flags,
            collision_group: self.collision_group,
            collision_mask: self.collision_mask,
            collision_flags: CollisionFlags::none(),
        }
    }
}

} // verus!
