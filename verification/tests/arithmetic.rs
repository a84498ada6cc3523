use rigid_body::fixed::{ceil_sqrt, mul_fixed, sat_add, sat_neg, sat_sub, ONE};
use rigid_body::vec3::Vec3;

#[test]
fn sums_stop_at_the_ends_of_the_range() {
    assert_eq!(sat_add(2, 3), 5);
    assert_eq!(sat_add(i64::MAX, 1), i64::MAX);
    assert_eq!(sat_add(i64::MIN, -1), i64::MIN);
    assert_eq!(sat_sub(2, 3), -1);
    assert_eq!(sat_sub(i64::MIN, 1), i64::MIN);
    assert_eq!(sat_sub(i64::MAX, -1), i64::MAX);
    assert_eq!(sat_neg(5), -5);
    assert_eq!(sat_neg(i64::MIN), i64::MAX);
}

#[test]
fn products_round_toward_zero() {
    assert_eq!(mul_fixed(ONE, ONE), ONE);
    assert_eq!(mul_fixed(2 * ONE, 3 * ONE), 6 * ONE);
    assert_eq!(mul_fixed(500_000, 500_000), 250_000);
    assert_eq!(mul_fixed(-9_810_000, 10_000), -98_100);
    assert_eq!(mul_fixed(1, 1), 0);
    assert_eq!(mul_fixed(-1, 1), 0);
    assert_eq!(mul_fixed(-1_999_999, 1), -1);
    assert_eq!(mul_fixed(1_999_999, 1), 1);
    assert_eq!(mul_fixed(3, 500_000), 1);
    assert_eq!(mul_fixed(-3, 500_000), -1);
}

#[test]
fn products_stop_at_the_ends_of_the_range() {
    assert_eq!(mul_fixed(i64::MAX, 2 * ONE), i64::MAX);
    assert_eq!(mul_fixed(i64::MIN, 2 * ONE), i64::MIN);
    assert_eq!(mul_fixed(i64::MIN, -2 * ONE), i64::MAX);
    assert_eq!(mul_fixed(i64::MAX, ONE), i64::MAX);
    assert_eq!(mul_fixed(i64::MIN, ONE), i64::MIN);
}

#[test]
fn square_roots_round_up() {
    assert_eq!(ceil_sqrt(0), 0);
    assert_eq!(ceil_sqrt(1), 1);
    assert_eq!(ceil_sqrt(2), 2);
    assert_eq!(ceil_sqrt(4), 2);
    assert_eq!(ceil_sqrt(5), 3);
    assert_eq!(ceil_sqrt(9), 3);
    assert_eq!(ceil_sqrt(10), 4);
    assert_eq!(ceil_sqrt(25_000_000_000_000), 5_000_000);
    assert_eq!(ceil_sqrt(25_000_000_000_001), 5_000_001);
    assert_eq!(ceil_sqrt(u128::MAX), 1u128 << 64);
    assert_eq!(ceil_sqrt((u64::MAX as u128) * (u64::MAX as u128)), u64::MAX as u128);
}

#[test]
fn vectors_add_and_subtract_by_coordinate() {
    let a = Vec3::new(1, 2, 3);
    let b = Vec3::new(10, -20, 30);
    assert_eq!(a.plus(&b), Vec3::new(11, -18, 33));
    assert_eq!(a.minus(&b), Vec3::new(-9, 22, -27));
    assert_eq!(a.negated(), Vec3::new(-1, -2, -3));
    assert_eq!(Vec3::new(i64::MAX, 0, i64::MIN).plus(&Vec3::new(1, 0, -1)),
        Vec3::new(i64::MAX, 0, i64::MIN));
    assert_eq!(Vec3::zero(), Vec3::new(0, 0, 0));
    assert_eq!(Vec3::up(), Vec3::new(0, ONE, 0));
}

#[test]
fn scaling_multiplies_each_coordinate() {
    let v = Vec3::new(ONE, -2 * ONE, 3);
    assert_eq!(v.scale(500_000), Vec3::new(500_000, -ONE, 1));
    assert_eq!(v.scale(0), Vec3::zero());
    assert_eq!(v.scale(-ONE), Vec3::new(-ONE, 2 * ONE, -3));
}

#[test]
fn squared_length_is_exact() {
    assert_eq!(Vec3::new(3, 4, 12).sqr_len(), 169);
    assert_eq!(Vec3::zero().sqr_len(), 0);
    assert_eq!(Vec3::new(i64::MIN, i64::MIN, i64::MIN).sqr_len(), 3 * (1u128 << 126));
}

#[test]
fn a_direction_has_length_one_or_a_little_less() {
    assert_eq!(Vec3::new(3 * ONE, 4 * ONE, 0).normalized(), Some(Vec3::new(600_000, 800_000, 0)));
    assert_eq!(Vec3::new(0, -7, 0).normalized(), Some(Vec3::new(0, -ONE, 0)));
    assert_eq!(Vec3::new(-500_000, 0, 0).normalized(), Some(Vec3::new(-ONE, 0, 0)));
    assert_eq!(Vec3::new(1, 2, 3).normalized(), Some(Vec3::new(267_261, 534_522, 801_783)));
    assert_eq!(
        Vec3::new(i64::MAX, i64::MIN, 12345).normalized(),
        Some(Vec3::new(707_106, -707_106, 0))
    );
    assert_eq!(Vec3::new(1 << 32, 0, 1).normalized(), Some(Vec3::new(999_999, 0, 0)));
}

#[test]
fn the_shortest_vectors_have_a_direction_of_length_one_too() {
    assert_eq!(Vec3::new(1, 1, 0).normalized(), Some(Vec3::new(707_106, 707_106, 0)));
    assert_eq!(Vec3::new(-1, -1, 0).normalized(), Some(Vec3::new(-707_106, -707_106, 0)));
    assert_eq!(Vec3::new(0, 0, 1).normalized(), Some(Vec3::new(0, 0, ONE)));
}

#[test]
fn a_direction_is_within_four_millionths_of_length_one() {
    let most = (ONE as u128) * (ONE as u128);
    let least = ((ONE - 4) as u128) * ((ONE - 4) as u128);
    let coordinates = [
        i64::MIN,
        -(1 << 40),
        -ONE,
        -7,
        -1,
        0,
        1,
        2,
        3,
        12_345,
        ONE,
        (1 << 32) - 1,
        1 << 32,
        (1 << 32) + 1,
        i64::MAX,
    ];
    for x in coordinates {
        for y in coordinates {
            for z in coordinates {
                match Vec3::new(x, y, z).normalized() {
                    Some(direction) => {
                        assert!(direction.sqr_len() <= most);
                        assert!(direction.sqr_len() >= least);
                    }
                    None => assert_eq!((x, y, z), (0, 0, 0)),
                }
            }
        }
    }
}

#[test]
fn the_zero_vector_has_no_direction() {
    assert_eq!(Vec3::zero().normalized(), None);
}

#[test]
fn distance_is_compared_without_rounding() {
    let a = Vec3::new(0, 0, 0);
    let b = Vec3::new(3, 4, 0);
    assert!(!a.farther_than(&b, 5));
    assert!(a.farther_than(&b, 4));
    assert!(!a.farther_than(&b, -5));
    assert!(a.farther_than(&b, -4));
    assert!(!a.farther_than(&a, 0));
    let low = Vec3::new(i64::MIN, i64::MIN, i64::MIN);
    let high = Vec3::new(i64::MAX, i64::MAX, i64::MAX);
    assert!(low.farther_than(&high, i64::MAX));
    assert!(low.farther_than(&high, i64::MIN));
    assert!(Vec3::new(i64::MAX, 0, 0).farther_than(&Vec3::new(i64::MIN, 0, 0), i64::MAX));
    assert!(!Vec3::new(i64::MAX, 0, 0).farther_than(&Vec3::new(0, 0, 0), i64::MAX));
    assert!(Vec3::new(i64::MAX, 1, 0).farther_than(&Vec3::new(0, 0, 0), i64::MAX));
}
