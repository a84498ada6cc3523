use rigid_body::contact::Contact;
use rigid_body::fixed::ONE;
use rigid_body::flags::CollisionFlags;
use rigid_body::narrow_phase::{NarrowPhaseOutcome, NarrowPhaseQuery, PenetrationInfo};
use rigid_body::record::RecordError;
use rigid_body::rigid_body::{Friction, RigidBody};
use rigid_body::shape::{ConvexShape, StaticTriangle};
use rigid_body::vec3::Vec3;

fn sphere() -> ConvexShape {
    ConvexShape::Sphere { radius: ONE / 2 }
}

fn hit(penetration_vector: Vec3, contact_point: Vec3) -> NarrowPhaseOutcome {
    NarrowPhaseOutcome::Penetration(PenetrationInfo { penetration_vector, contact_point })
}

#[test]
fn a_new_body_rests_at_the_origin() {
    let body = RigidBody::new(sphere());
    assert_eq!(body.get_position(), Vec3::zero());
    assert_eq!(body.last_position, Vec3::zero());
    assert_eq!(body.acceleration, Vec3::zero());
    assert_eq!(body.get_friction(), 200_000);
    assert_eq!(body.get_gravity(), Vec3::new(0, -9_810_000, 0));
    assert_eq!(body.speed_limit, 750_000);
    assert_eq!(body.get_lifetime(), None);
    assert_eq!(body.user_flags, 0);
    assert_eq!(body.collision_group, 1);
    assert_eq!(body.collision_mask, u64::MAX);
    assert_eq!(body.collision_flags, CollisionFlags::none());
    assert_eq!(*body.get_shape(), sphere());
    assert!(body.get_contacts().is_empty());
}

#[test]
fn the_default_body_has_no_geometry() {
    let body = RigidBody::default();
    assert_eq!(*body.get_shape(), ConvexShape::Dummy);
    assert_eq!(body.get_friction(), 200_000);
    assert_eq!(body.get_position(), Vec3::zero());
}

#[test]
fn friction_is_clamped_on_write() {
    let mut body = RigidBody::new(sphere());
    body.set_friction(-1);
    assert_eq!(body.get_friction(), 0);
    body.set_friction(i64::MIN);
    assert_eq!(body.get_friction(), 0);
    body.set_friction(ONE + 1);
    assert_eq!(body.get_friction(), ONE);
    body.set_friction(i64::MAX);
    assert_eq!(body.get_friction(), ONE);
    body.set_friction(0);
    assert_eq!(body.get_friction(), 0);
    body.set_friction(ONE);
    assert_eq!(body.get_friction(), ONE);
    body.set_friction(350_000);
    assert_eq!(body.get_friction(), 350_000);
}

#[test]
fn no_friction_lies_outside_its_range() {
    assert_eq!(Friction::new(-1).get(), 0);
    assert_eq!(Friction::new(i64::MIN).get(), 0);
    assert_eq!(Friction::new(0).get(), 0);
    assert_eq!(Friction::new(350_000).get(), 350_000);
    assert_eq!(Friction::new(ONE).get(), ONE);
    assert_eq!(Friction::new(ONE + 1).get(), ONE);
    assert_eq!(Friction::new(i64::MAX).get(), ONE);
    let mut body = RigidBody::new(sphere());
    body.friction = Friction::new(7 * ONE);
    assert_eq!(body.get_friction(), ONE);
}

#[test]
fn set_position_stops_the_body() {
    let mut body = RigidBody::new(sphere());
    body.move_by(Vec3::new(5, 6, 7));
    let p = Vec3::new(3 * ONE, -2 * ONE, ONE);
    body.set_position(p);
    assert_eq!(body.get_position(), p);
    assert_eq!(body.last_position, p);
    assert_eq!(body.get_position().minus(&body.last_position), Vec3::zero());
}

#[test]
fn move_by_changes_the_position_only() {
    let mut body = RigidBody::new(sphere());
    body.set_position(Vec3::new(ONE, ONE, ONE));
    body.move_by(Vec3::new(250_000, -ONE, 3));
    assert_eq!(body.get_position(), Vec3::new(1_250_000, 0, 1_000_003));
    assert_eq!(body.last_position, Vec3::new(ONE, ONE, ONE));
}

#[test]
fn move_by_stops_at_the_end_of_the_range() {
    let mut body = RigidBody::new(sphere());
    body.set_position(Vec3::new(i64::MAX, 0, 0));
    body.move_by(Vec3::new(1, 1, 0));
    assert_eq!(body.get_position(), Vec3::new(i64::MAX, 1, 0));
}

#[test]
fn velocity_is_set_one_axis_at_a_time() {
    let mut body = RigidBody::new(sphere());
    body.set_position(Vec3::new(10, 20, 30));
    body.set_x_velocity(1);
    assert_eq!(body.last_position, Vec3::new(9, 20, 30));
    body.set_y_velocity(-2);
    assert_eq!(body.last_position, Vec3::new(9, 22, 30));
    body.set_z_velocity(30);
    assert_eq!(body.last_position, Vec3::new(9, 22, 0));
    assert_eq!(body.get_position(), Vec3::new(10, 20, 30));
}

#[test]
fn shape_gravity_and_lifetime_are_kept() {
    let mut body = RigidBody::default();
    body.set_shape(sphere());
    assert_eq!(*body.get_shape(), sphere());
    *body.get_shape_mut() = ConvexShape::Box { half_extents: Vec3::new(ONE, ONE, ONE) };
    assert_eq!(*body.get_shape(), ConvexShape::Box { half_extents: Vec3::new(ONE, ONE, ONE) });
    body.set_gravity(Vec3::new(0, 0, -ONE));
    assert_eq!(body.get_gravity(), Vec3::new(0, 0, -ONE));
    body.set_lifetime(5 * ONE);
    assert_eq!(body.get_lifetime(), Some(5 * ONE));
    body.set_lifetime(0);
    assert_eq!(body.get_lifetime(), Some(0));
}

#[test]
fn a_free_fall_follows_the_formula() {
    let mut body = RigidBody::new(sphere());
    body.set_position(Vec3::new(0, 10 * ONE, 0));
    body.acceleration = body.get_gravity();
    body.verlet(10_000, 0);
    assert_eq!(body.get_position(), Vec3::new(0, 10 * ONE - 98_100, 0));
    assert_eq!(body.last_position, Vec3::new(0, 10 * ONE, 0));
    assert_eq!(body.acceleration, Vec3::zero());
}

#[test]
fn a_step_without_friction_keeps_the_velocity() {
    let mut body = RigidBody::new(sphere());
    body.set_position(Vec3::new(ONE, 0, 0));
    body.set_x_velocity(100_000);
    body.verlet(10_000, 0);
    assert_eq!(body.get_position(), Vec3::new(1_100_000, 0, 0));
    assert_eq!(body.last_position, Vec3::new(ONE, 0, 0));
}

#[test]
fn a_step_with_full_friction_forgets_the_velocity() {
    let mut body = RigidBody::new(sphere());
    body.set_position(Vec3::new(ONE, 0, 0));
    body.set_x_velocity(100_000);
    body.verlet(10_000, ONE);
    assert_eq!(body.get_position(), Vec3::new(ONE, 0, 0));
    assert_eq!(body.last_position, Vec3::new(ONE, 0, 0));
}

#[test]
fn air_damps_a_body_that_touches_nothing() {
    let mut body = RigidBody::new(sphere());
    body.set_friction(ONE);
    body.set_position(Vec3::new(ONE, 0, 0));
    body.set_x_velocity(100_000);
    body.verlet(10_000, 500_000);
    // 1.5 * 1.0 - 0.5 * 0.9
    assert_eq!(body.get_position(), Vec3::new(1_050_000, 0, 0));
}

#[test]
fn a_body_that_touches_something_is_damped_by_its_own_friction() {
    let mut body = RigidBody::new(sphere());
    body.set_friction(ONE);
    body.set_position(Vec3::new(ONE, 0, 0));
    body.set_x_velocity(100_000);
    body.contacts.push(Contact {
        body: None,
        position: Vec3::zero(),
        normal: Vec3::up(),
        triangle_index: 0,
    });
    body.verlet(10_000, 500_000);
    assert_eq!(body.get_position(), Vec3::new(ONE, 0, 0));
    assert_eq!(body.get_contacts().len(), 1);
}

#[test]
fn a_step_uses_the_acceleration_up() {
    let mut body = RigidBody::new(sphere());
    body.acceleration = Vec3::new(i64::MAX, i64::MIN, 7);
    body.verlet(ONE, 0);
    assert_eq!(body.acceleration, Vec3::zero());
    body.acceleration = Vec3::new(1, 2, 3);
    body.verlet(0, ONE);
    assert_eq!(body.acceleration, Vec3::zero());
}

#[test]
fn a_step_is_held_to_the_speed_limit() {
    let mut body = RigidBody::new(sphere());
    body.acceleration = Vec3::new(0, -1000 * ONE, 0);
    body.verlet(ONE, 0);
    assert_eq!(body.get_position(), Vec3::new(0, -1000 * ONE, 0));
    assert_eq!(body.last_position, Vec3::new(0, -1000 * ONE + 750_000, 0));
    assert!(!body.last_position.farther_than(&body.get_position(), body.speed_limit));
}

#[test]
fn the_speed_limit_keeps_the_direction() {
    let mut body = RigidBody::new(sphere());
    body.speed_limit = 5 * ONE;
    body.set_position(Vec3::new(30 * ONE, 40 * ONE, 0));
    body.last_position = Vec3::zero();
    body.verlet(0, 0);
    assert_eq!(body.get_position(), Vec3::new(60 * ONE, 80 * ONE, 0));
    assert_eq!(body.last_position, Vec3::new(57 * ONE, 76 * ONE, 0));
}

#[test]
fn a_limited_step_is_almost_as_long_as_the_limit() {
    let mut body = RigidBody::new(sphere());
    body.speed_limit = 750_000;
    body.acceleration = Vec3::new(3 * ONE, -7 * ONE, 11 * ONE);
    body.verlet(ONE, 0);
    let way = body.last_position.minus(&body.get_position());
    let limit = (body.speed_limit as u128) * (body.speed_limit as u128);
    assert!(way.sqr_len() <= limit);
    let longer = Vec3::new(way.x.abs() + 1, way.y.abs() + 1, way.z.abs() + 1);
    assert!(
        longer.sqr_len() * 1_000_000_000_000 >= limit * (999_996 * 999_996),
        "{:?}",
        way
    );
    assert_eq!(way, Vec3::new(-168_172, 392_403, -616_633));
}

#[test]
fn the_speed_limit_holds_at_the_ends_of_the_range() {
    let mut body = RigidBody::new(sphere());
    body.speed_limit = i64::MAX;
    body.position = Vec3::new(i64::MIN, 0, 0);
    body.last_position = Vec3::new(i64::MAX, 0, 0);
    body.verlet(0, ONE);
    assert!(!body.last_position.farther_than(&body.get_position(), body.speed_limit));
    let mut slow = RigidBody::new(sphere());
    slow.speed_limit = 0;
    slow.acceleration = Vec3::new(ONE, ONE, ONE);
    slow.verlet(ONE, 0);
    assert_eq!(slow.last_position, slow.get_position());
}

#[test]
fn a_triangle_that_is_missed_changes_nothing() {
    let mut body = RigidBody::new(sphere());
    body.set_position(Vec3::new(ONE, 2 * ONE, 3 * ONE));
    body.set_x_velocity(5);
    body.solve_triangle_collision(NarrowPhaseOutcome::NoIntersection, 7);
    assert_eq!(body.get_position(), Vec3::new(ONE, 2 * ONE, 3 * ONE));
    assert_eq!(body.last_position, Vec3::new(ONE - 5, 2 * ONE, 3 * ONE));
    assert!(body.get_contacts().is_empty());
    body.solve_triangle_collision(NarrowPhaseOutcome::NoPenetration, 7);
    assert_eq!(body.get_position(), Vec3::new(ONE, 2 * ONE, 3 * ONE));
    assert!(body.get_contacts().is_empty());
}

#[test]
fn a_triangle_that_is_hit_pushes_the_body_out() {
    let mut body = RigidBody::new(sphere());
    body.set_position(Vec3::new(ONE, 400_000, 0));
    let d = Vec3::new(0, -100_000, 0);
    body.solve_triangle_collision(hit(d, Vec3::new(ONE, 0, 0)), 7);
    assert_eq!(body.get_position(), Vec3::new(ONE, 500_000, 0));
    assert_eq!(body.last_position, Vec3::new(ONE, 400_000, 0));
    assert_eq!(
        body.get_contacts().to_vec(),
        vec![Contact {
            body: None,
            position: Vec3::new(ONE, 0, 0),
            normal: Vec3::new(0, ONE, 0),
            triangle_index: 7,
        }]
    );
}

#[test]
fn a_triangle_contact_without_direction_has_the_zero_normal() {
    let mut body = RigidBody::new(sphere());
    body.solve_triangle_collision(hit(Vec3::zero(), Vec3::new(1, 2, 3)), 0);
    assert_eq!(body.get_position(), Vec3::zero());
    assert_eq!(body.get_contacts().len(), 1);
    assert_eq!(body.get_contacts()[0].normal, Vec3::zero());
    assert_eq!(body.get_contacts()[0].position, Vec3::new(1, 2, 3));
}

#[test]
fn the_normal_of_a_shallow_contact_has_length_one() {
    let mut body = RigidBody::new(sphere());
    body.solve_triangle_collision(hit(Vec3::new(-1, -1, 0), Vec3::zero()), 0);
    assert_eq!(body.get_contacts()[0].normal, Vec3::new(707_106, 707_106, 0));
    assert_eq!(body.get_position(), Vec3::new(1, 1, 0));
}

#[test]
fn a_triangle_index_is_kept_whatever_its_size() {
    let mut body = RigidBody::new(sphere());
    body.solve_triangle_collision(hit(Vec3::new(1, 0, 0), Vec3::zero()), u32::MAX as usize);
    assert_eq!(body.get_contacts()[0].triangle_index, u32::MAX as usize);
    body.solve_triangle_collision(hit(Vec3::new(1, 0, 0), Vec3::zero()), (1usize << 32) + 5);
    assert_eq!(body.get_contacts()[1].triangle_index, (1usize << 32) + 5);
    body.solve_triangle_collision(hit(Vec3::zero(), Vec3::new(1, 2, 3)), usize::MAX);
    assert_eq!(
        body.get_contacts()[2],
        Contact {
            body: None,
            position: Vec3::new(1, 2, 3),
            normal: Vec3::zero(),
            triangle_index: usize::MAX,
        }
    );
    assert_eq!(body.get_contacts().len(), 3);
}

#[test]
fn contacts_are_kept_in_the_order_found() {
    let mut body = RigidBody::new(sphere());
    body.solve_triangle_collision(hit(Vec3::new(1, 0, 0), Vec3::zero()), 1);
    body.solve_triangle_collision(NarrowPhaseOutcome::NoIntersection, 2);
    body.solve_triangle_collision(hit(Vec3::new(1, 0, 0), Vec3::zero()), 3);
    body.verlet(10_000, 0);
    let indices: Vec<usize> = body.get_contacts().iter().map(|c| c.triangle_index).collect();
    assert_eq!(indices, vec![1, 3]);
}

#[test]
fn two_overlapping_spheres_move_apart_by_half_each() {
    let mut a = RigidBody::new(sphere());
    let mut b = RigidBody::new(sphere());
    b.set_position(Vec3::new(500_000, 0, 0));
    let contact_point = Vec3::new(250_000, 0, 0);
    a.solve_rigid_body_collision(&mut b, hit(Vec3::new(500_000, 0, 0), contact_point));
    assert_eq!(a.get_position(), Vec3::new(-250_000, 0, 0));
    assert_eq!(b.get_position(), Vec3::new(750_000, 0, 0));
    assert_eq!(a.get_contacts().len(), 1);
    assert_eq!(b.get_contacts().len(), 1);
    let expected = Contact {
        body: None,
        position: contact_point,
        normal: Vec3::new(-ONE, 0, 0),
        triangle_index: 0,
    };
    assert_eq!(a.get_contacts()[0], expected);
    assert_eq!(b.get_contacts()[0], expected);
    let on_segment = a.get_contacts()[0].position;
    assert!(0 <= on_segment.x && on_segment.x <= 500_000);
    assert_eq!((on_segment.y, on_segment.z), (0, 0));
}

#[test]
fn a_body_without_response_records_the_contact_and_stays() {
    let mut a = RigidBody::new(sphere());
    let mut b = RigidBody::new(sphere());
    a.collision_flags = CollisionFlags::response_disabled();
    b.set_position(Vec3::new(500_000, 0, 0));
    a.solve_rigid_body_collision(&mut b, hit(Vec3::new(500_000, 0, 0), Vec3::new(250_000, 0, 0)));
    assert_eq!(a.get_position(), Vec3::zero());
    assert_eq!(b.get_position(), Vec3::new(750_000, 0, 0));
    assert_eq!(a.get_contacts().len(), 1);
    assert_eq!(b.get_contacts().len(), 1);

    let mut c = RigidBody::new(sphere());
    let mut d = RigidBody::new(sphere());
    d.collision_flags = CollisionFlags::response_disabled();
    d.set_position(Vec3::new(500_000, 0, 0));
    c.solve_rigid_body_collision(&mut d, hit(Vec3::new(500_000, 0, 0), Vec3::new(250_000, 0, 0)));
    assert_eq!(c.get_position(), Vec3::new(-250_000, 0, 0));
    assert_eq!(d.get_position(), Vec3::new(500_000, 0, 0));
    assert_eq!(c.get_contacts().len(), 1);
    assert_eq!(d.get_contacts().len(), 1);
}

#[test]
fn bodies_that_do_not_overlap_are_left_alone() {
    let mut a = RigidBody::new(sphere());
    let mut b = RigidBody::new(sphere());
    b.set_position(Vec3::new(5 * ONE, 0, 0));
    a.solve_rigid_body_collision(&mut b, NarrowPhaseOutcome::NoIntersection);
    a.solve_rigid_body_collision(&mut b, NarrowPhaseOutcome::NoPenetration);
    assert_eq!(a.get_position(), Vec3::zero());
    assert_eq!(b.get_position(), Vec3::new(5 * ONE, 0, 0));
    assert!(a.get_contacts().is_empty());
    assert!(b.get_contacts().is_empty());
}

#[test]
fn a_body_contact_without_direction_has_the_up_normal() {
    let mut a = RigidBody::new(sphere());
    let mut b = RigidBody::new(sphere());
    a.solve_rigid_body_collision(&mut b, hit(Vec3::zero(), Vec3::zero()));
    assert_eq!(a.get_contacts()[0].normal, Vec3::up());
    assert_eq!(b.get_contacts()[0].normal, Vec3::up());
    assert_eq!(a.get_position(), Vec3::zero());
    assert_eq!(b.get_position(), Vec3::zero());
}

#[test]
fn half_a_push_rounds_toward_zero() {
    let mut a = RigidBody::new(sphere());
    let mut b = RigidBody::new(sphere());
    a.solve_rigid_body_collision(&mut b, hit(Vec3::new(3, -3, 1), Vec3::zero()));
    assert_eq!(a.get_position(), Vec3::new(-1, 1, 0));
    assert_eq!(b.get_position(), Vec3::new(1, -1, 0));
}

#[test]
fn a_clone_starts_without_contacts_and_flags() {
    let mut body = RigidBody::new(sphere());
    body.set_position(Vec3::new(1, 2, 3));
    body.set_x_velocity(4);
    body.acceleration = Vec3::new(5, 6, 7);
    body.set_friction(900_000);
    body.set_gravity(Vec3::new(0, -1, 0));
    body.speed_limit = 11;
    body.set_lifetime(12);
    body.user_flags = 13;
    body.collision_group = 14;
    body.collision_mask = 15;
    body.collision_flags = CollisionFlags::response_disabled();
    body.solve_triangle_collision(hit(Vec3::new(1, 0, 0), Vec3::zero()), 1);
    let copy = body.clone();
    assert_eq!(copy.get_position(), body.get_position());
    assert_eq!(copy.last_position, body.last_position);
    assert_eq!(copy.acceleration, Vec3::new(5, 6, 7));
    assert_eq!(copy.get_friction(), 900_000);
    assert_eq!(copy.get_gravity(), Vec3::new(0, -1, 0));
    assert_eq!(*copy.get_shape(), sphere());
    assert_eq!(copy.speed_limit, 11);
    assert_eq!(copy.get_lifetime(), Some(12));
    assert_eq!(copy.user_flags, 13);
    assert_eq!(copy.collision_group, 14);
    assert_eq!(copy.collision_mask, 15);
    assert_eq!(copy.collision_flags, CollisionFlags::none());
    assert!(copy.get_contacts().is_empty());
    assert_eq!(body.get_contacts().len(), 1);
    assert_eq!(body.collision_flags, CollisionFlags::response_disabled());
}

#[test]
fn the_narrow_phase_is_asked_about_the_triangle_at_the_origin() {
    let mut body = RigidBody::new(sphere());
    body.set_position(Vec3::new(1, 2, 3));
    let points = [Vec3::new(0, 0, 0), Vec3::new(ONE, 0, 0), Vec3::new(0, 0, ONE)];
    let query = body.triangle_query(&StaticTriangle { points });
    assert_eq!(
        query,
        NarrowPhaseQuery {
            first_shape: sphere(),
            first_offset: Vec3::new(1, 2, 3),
            second_shape: ConvexShape::Triangle { vertices: points },
            second_offset: Vec3::zero(),
        }
    );
}

#[test]
fn the_narrow_phase_is_asked_about_both_bodies_in_place() {
    let mut a = RigidBody::new(sphere());
    let mut b = RigidBody::default();
    a.set_position(Vec3::new(1, 2, 3));
    b.set_position(Vec3::new(4, 5, 6));
    assert_eq!(
        a.body_query(&b),
        NarrowPhaseQuery {
            first_shape: sphere(),
            first_offset: Vec3::new(1, 2, 3),
            second_shape: ConvexShape::Dummy,
            second_offset: Vec3::new(4, 5, 6),
        }
    );
}

#[test]
fn a_body_is_stored_and_read_back() {
    let mut body = RigidBody::new(sphere());
    body.set_position(Vec3::new(1, 2, 3));
    body.set_x_velocity(4);
    body.acceleration = Vec3::new(5, 6, 7);
    body.set_friction(900_000);
    body.speed_limit = 11;
    body.user_flags = 13;
    body.collision_group = 14;
    body.collision_mask = 15;
    body.collision_flags = CollisionFlags::response_disabled();
    body.solve_triangle_collision(hit(Vec3::new(1, 0, 0), Vec3::new(9, 9, 9)), 1);
    body.set_lifetime(12);
    let record = body.to_record();
    assert_eq!(record.collision_flags, 1);
    assert_eq!(record.friction, 900_000);
    assert_eq!(record.lifetime, Some(12));
    assert_eq!(record.contacts, body.get_contacts().to_vec());
    let back = RigidBody::from_record(record).unwrap();
    assert_eq!(back.get_position(), body.get_position());
    assert_eq!(back.last_position, body.last_position);
    assert_eq!(back.acceleration, body.acceleration);
    assert_eq!(back.get_friction(), 900_000);
    assert_eq!(back.get_gravity(), body.get_gravity());
    assert_eq!(*back.get_shape(), sphere());
    assert_eq!(back.speed_limit, 11);
    assert_eq!(back.user_flags, 13);
    assert_eq!(back.collision_group, 14);
    assert_eq!(back.collision_mask, 15);
    assert_eq!(back.collision_flags, CollisionFlags::response_disabled());
    assert_eq!(back.get_contacts(), body.get_contacts());
    assert_eq!(back.get_lifetime(), Some(12));
}

#[test]
fn a_body_that_stays_is_read_back_as_one_that_stays() {
    let body = RigidBody::new(sphere());
    let record = body.to_record();
    assert_eq!(record.lifetime, None);
    assert_eq!(RigidBody::from_record(record).unwrap().get_lifetime(), None);
    let mut record = RigidBody::new(sphere()).to_record();
    record.lifetime = Some(-3);
    assert_eq!(RigidBody::from_record(record).unwrap().get_lifetime(), Some(-3));
}

#[test]
fn a_record_with_unknown_flags_is_refused() {
    let mut record = RigidBody::new(sphere()).to_record();
    record.collision_flags = 2;
    assert_eq!(
        RigidBody::from_record(record).err(),
        Some(RecordError::UnknownCollisionFlags { bits: 2 })
    );
    let mut record = RigidBody::new(sphere()).to_record();
    record.collision_flags = 0xff;
    assert_eq!(
        RigidBody::from_record(record).err(),
        Some(RecordError::UnknownCollisionFlags { bits: 0xff })
    );
}

#[test]
fn a_record_with_friction_out_of_range_is_clamped() {
    let mut record = RigidBody::new(sphere()).to_record();
    record.friction = 5 * ONE;
    assert_eq!(RigidBody::from_record(record).unwrap().get_friction(), ONE);
    let mut record = RigidBody::new(sphere()).to_record();
    record.friction = -5;
    assert_eq!(RigidBody::from_record(record).unwrap().get_friction(), 0);
}
