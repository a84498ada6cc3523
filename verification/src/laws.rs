use vstd::prelude::*;
use crate::fixed::ONE;
use crate::narrow_phase::{NarrowPhaseOutcome, PenetrationInfo};
use crate::rigid_body::{
    lemma_limited_origin_near_limit, lemma_limited_origin_within, spec_clamp_friction,
    spec_way_back, BodyView, HALF,
};
use crate::vec3::{magnitude, sum_in_range, sum_of_squares, Vec3};

verus! {

/// Whether taking `v` from `p` stays within the range of the coordinates.
pub open spec fn difference_in_range(p: Vec3, v: Vec3) -> bool {
    &&& i64::MIN <= p.x - v.x <= i64::MAX
    &&& i64::MIN <= p.y - v.y <= i64::MAX
    &&& i64::MIN <= p.z - v.z <= i64::MAX
}

/// A friction below zero is stored as zero, one above one as one, and any other
/// as it is: what is stored always lies between zero and one.
pub proof fn lemma_friction_clamped(friction: i64)
    ensures
        0 <= spec_clamp_friction(friction) <= ONE,
        friction < 0 ==> spec_clamp_friction(friction) == 0,
        friction > ONE ==> spec_clamp_friction(friction) == ONE,
        0 <= friction <= ONE ==> spec_clamp_friction(friction) == friction,
{
}

/// A body that was put somewhere has no velocity.
pub proof fn lemma_teleport_stops(body: BodyView, p: Vec3)
    ensures
        (BodyView { position: p, last_position: p, ..body }).velocity() == Vec3::spec_zero(),
{
}

/// Within the range of the coordinates, a move by `v` changes the position by
/// exactly `v`, and leaves where the body was before as it is.
pub proof fn lemma_move_is_exact(body: BodyView, v: Vec3)
    requires
        sum_in_range(body.position, v),
    ensures
        ({
            let moved = BodyView { position: body.position.spec_plus(v), ..body };
            &&& moved.position.x - body.position.x == v.x
            &&& moved.position.y - body.position.y == v.y
            &&& moved.position.z - body.position.z == v.z
            &&& moved.last_position == body.last_position
        }),
{
}

/// A step uses the acceleration up, whatever it was, and keeps the contacts and
/// the friction.
pub proof fn lemma_step_uses_acceleration(body: BodyView, sqr_delta_time: i64, air_friction: i64)
    ensures
        body.stepped(sqr_delta_time, air_friction).acceleration == Vec3::spec_zero(),
        body.stepped(sqr_delta_time, air_friction).contacts == body.contacts,
        body.stepped(sqr_delta_time, air_friction).friction == body.friction,
{
}

/// After a step the body has come no farther than its speed limit, wherever it was
/// and whatever pulled on it.
pub proof fn lemma_step_within_speed_limit(body: BodyView, sqr_delta_time: i64, air_friction: i64)
    ensures
        ({
            let after = body.stepped(sqr_delta_time, air_friction);
            after.last_position.spec_sqr_distance(after.position) <= body.speed_limit
                * body.speed_limit
        }),
{
    let after = body.stepped(sqr_delta_time, air_friction);
    lemma_limited_origin_within(body.position, after.position, body.speed_limit);
}

/// A step that the speed limit cut short is almost as long as the limit: the way
/// back to where the body counts as having come from falls short of the limit by
/// four millionths of it and one raw unit along each axis at most. This holds where
/// the coordinates stay in range.
pub proof fn lemma_limited_step_near_limit(body: BodyView, sqr_delta_time: i64, air_friction: i64)
    requires
        ({
            let after = body.stepped(sqr_delta_time, air_friction);
            &&& body.position.spec_sqr_distance(after.position) > body.speed_limit
                * body.speed_limit
            &&& sum_in_range(
                after.position,
                spec_way_back(body.position, after.position, body.speed_limit),
            )
        }),
    ensures
        ({
            let after = body.stepped(sqr_delta_time, air_friction);
            let way = spec_way_back(body.position, after.position, body.speed_limit);
            &&& after.last_position.x - after.position.x == way.x
            &&& after.last_position.y - after.position.y == way.y
            &&& after.last_position.z - after.position.z == way.z
            &&& sum_of_squares(
                magnitude(way.x as int) + 1,
                magnitude(way.y as int) + 1,
                magnitude(way.z as int) + 1,
            ) * (ONE * ONE) >= (body.speed_limit * body.speed_limit) * ((ONE - 4) * (ONE - 4))
        }),
{
    let after = body.stepped(sqr_delta_time, air_friction);
    lemma_limited_origin_near_limit(body.position, after.position, body.speed_limit);
}

/// A step of a body that is at rest, touches nothing and meets no friction moves it
/// by the acceleration times the square of the time step, wherever the double of
/// each coordinate is still a coordinate.
pub proof fn lemma_free_fall(body: BodyView, sqr_delta_time: i64)
    requires
        body.contacts.len() == 0,
        body.position == body.last_position,
        i64::MIN <= 2 * body.position.x <= i64::MAX,
        i64::MIN <= 2 * body.position.y <= i64::MAX,
        i64::MIN <= 2 * body.position.z <= i64::MAX,
    ensures
        body.stepped(sqr_delta_time, 0).position == body.position.spec_plus(
            body.acceleration.spec_scale(sqr_delta_time),
        ),
{
    lemma_whole_factors(body.position.x);
    lemma_whole_factors(body.position.y);
    lemma_whole_factors(body.position.z);
}

/// Twice a coordinate and once a coordinate, as fixed-point products.
proof fn lemma_whole_factors(p: i64)
    requires
        i64::MIN <= 2 * p <= i64::MAX,
    ensures
        crate::fixed::spec_mul_fixed((2 * ONE) as i64, p) == 2 * p,
        crate::fixed::spec_mul_fixed(ONE, p) == p,
{
    assert((2 * ONE) * p == (2 * p) * ONE) by (nonlinear_arith);
    assert(((2 * p) * ONE) / (ONE as int) == 2 * p) by (nonlinear_arith);
    assert((-((2 * p) * ONE)) / (ONE as int) == -(2 * p)) by (nonlinear_arith);
    assert((p * ONE) / (ONE as int) == p) by (nonlinear_arith);
    assert((-(p * ONE)) / (ONE as int) == -p) by (nonlinear_arith);
    assert(ONE * p == p * ONE) by (nonlinear_arith);
}

/// Where the narrow phase found no penetration, a triangle leaves the body as it
/// was.
pub proof fn lemma_triangle_miss(body: BodyView, outcome: NarrowPhaseOutcome, triangle_index: usize)
    requires
        !(outcome is Penetration),
    ensures
        body.after_triangle(outcome, triangle_index) == body,
{
}

/// Where the narrow phase found a penetration, the body is moved back by the whole
/// penetration vector, exactly so where that stays in range, and records one
/// contact more, with the triangle's index.
pub proof fn lemma_triangle_hit(body: BodyView, info: PenetrationInfo, triangle_index: usize)
    ensures
        ({
            let after = body.after_triangle(NarrowPhaseOutcome::Penetration(info), triangle_index);
            &&& after.position == body.position.spec_minus(info.penetration_vector)
            &&& difference_in_range(body.position, info.penetration_vector) ==> {
                &&& body.position.x - after.position.x == info.penetration_vector.x
                &&& body.position.y - after.position.y == info.penetration_vector.y
                &&& body.position.z - after.position.z == info.penetration_vector.z
            }
            &&& after.last_position == body.last_position
            &&& after.contacts.len() == body.contacts.len() + 1
            &&& after.contacts.drop_last() == body.contacts
            &&& after.contacts.last().body is None
            &&& after.contacts.last().position == info.contact_point
            &&& after.contacts.last().triangle_index == triangle_index
        }),
{
    let after = body.after_triangle(NarrowPhaseOutcome::Penetration(info), triangle_index);
    assert(after.contacts.drop_last() =~= body.contacts);
}

/// Two bodies that overlap both record the contact. One whose response to
/// collisions is disabled stays where it is; one that responds moves by half the
/// penetration vector, the first against it, the second along it.
pub proof fn lemma_response_follows_flag(body: BodyView, info: PenetrationInfo, first: bool)
    ensures
        ({
            let after = body.after_body(info, first);
            let half_push = info.penetration_vector.spec_scale(HALF);
            &&& after.contacts.len() == body.contacts.len() + 1
            &&& after.contacts.drop_last() == body.contacts
            &&& after.contacts.last().position == info.contact_point
            &&& after.contacts.last().body is None
            &&& after.contacts.last().triangle_index == 0
            &&& after.last_position == body.last_position
            &&& body.collision_flags.disable_collision_response ==> after.position
                == body.position
            &&& !body.collision_flags.disable_collision_response && first ==> after.position
                == body.position.spec_minus(half_push)
            &&& !body.collision_flags.disable_collision_response && !first ==> after.position
                == body.position.spec_plus(half_push)
        }),
{
    let after = body.after_body(info, first);
    assert(after.contacts.drop_last() =~= body.contacts);
}

/// Two overlapping bodies that both respond move apart by half the penetration
/// vector each, where that stays in range: the first against it, the second along
/// it. The two halves make up the whole vector to within one raw unit along each
/// axis. Each body records one contact, and both record the very point that the
/// narrow phase gave: what holds of that point holds of both contacts.
pub proof fn lemma_bodies_part_evenly(first: BodyView, second: BodyView, info: PenetrationInfo)
    requires
        !first.collision_flags.disable_collision_response,
        !second.collision_flags.disable_collision_response,
        difference_in_range(first.position, info.penetration_vector.spec_scale(HALF)),
        sum_in_range(second.position, info.penetration_vector.spec_scale(HALF)),
    ensures
        ({
            let half = info.penetration_vector.spec_scale(HALF);
            let a = first.after_body(info, true);
            let b = second.after_body(info, false);
            &&& first.position.x - a.position.x == half.x
            &&& first.position.y - a.position.y == half.y
            &&& first.position.z - a.position.z == half.z
            &&& b.position.x - second.position.x == half.x
            &&& b.position.y - second.position.y == half.y
            &&& b.position.z - second.position.z == half.z
            &&& magnitude(info.penetration_vector.x - 2 * half.x) <= 1
            &&& magnitude(info.penetration_vector.y - 2 * half.y) <= 1
            &&& magnitude(info.penetration_vector.z - 2 * half.z) <= 1
            &&& a.contacts.len() == first.contacts.len() + 1
            &&& b.contacts.len() == second.contacts.len() + 1
            &&& a.contacts.last().position == info.contact_point
            &&& b.contacts.last().position == info.contact_point
            &&& a.contacts.last() == b.contacts.last()
        }),
{
}

/// No operation on a body shortens its list of contacts: a step keeps them, and a
/// collision adds at the end.
pub proof fn lemma_contacts_only_grow(
    body: BodyView,
    outcome: NarrowPhaseOutcome,
    info: PenetrationInfo,
    triangle_index: usize,
    first: bool,
)
    ensures
        body.contacts.is_prefix_of(body.after_triangle(outcome, triangle_index).contacts),
        body.contacts.is_prefix_of(body.after_body(info, first).contacts),
{
}

} // verus!
