use rigid_body::flags::{CollisionFlags, DISABLE_COLLISION_RESPONSE};

#[test]
fn flags_are_stored_as_bits() {
    assert_eq!(CollisionFlags::none().bits(), 0);
    assert_eq!(CollisionFlags::response_disabled().bits(), 1);
    assert_eq!(DISABLE_COLLISION_RESPONSE, 1);
}

#[test]
fn known_bits_are_read_back() {
    assert_eq!(CollisionFlags::from_bits(0), Some(CollisionFlags::none()));
    assert_eq!(CollisionFlags::from_bits(1), Some(CollisionFlags::response_disabled()));
}

#[test]
fn unknown_bits_are_refused() {
    assert_eq!(CollisionFlags::from_bits(2), None);
    assert_eq!(CollisionFlags::from_bits(3), None);
    assert_eq!(CollisionFlags::from_bits(0x80), None);
    assert_eq!(CollisionFlags::from_bits(0xff), None);
}

#[test]
fn every_pattern_that_is_read_is_written_back() {
    let mut bits: u8 = 0;
    loop {
        match CollisionFlags::from_bits(bits) {
            Some(flags) => assert_eq!(flags.bits(), bits),
            None => assert!(bits > 1),
        }
        if bits == u8::MAX {
            break;
        }
        bits += 1;
    }
}

#[test]
fn contains_compares_flag_by_flag() {
    let none = CollisionFlags::none();
    let disabled = CollisionFlags::response_disabled();
    assert!(none.contains(&none));
    assert!(disabled.contains(&none));
    assert!(disabled.contains(&disabled));
    assert!(!none.contains(&disabled));
}
