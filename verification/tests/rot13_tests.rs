use proper_crypto::rot13;
use proper_crypto::{transform_in_place, Rot13};

#[test]
fn encrypt_to_rot13_value() {
    let result = rot13::transform(b"Hello, World!");
    assert_eq!(b"Uryyb, Jbeyq!", &*result);
}

#[test]
fn decrypt_to_same_value() {
    assert_eq!(b"Hello, World!", &*rot13::transform(&rot13::transform(b"Hello, World!")));
}

#[test]
fn rot13_leaves_non_letters_unchanged() {
    for b in 0u8..=255 {
        let is_letter = (65..=90).contains(&b) || (97..=122).contains(&b);
        if !is_letter {
            assert_eq!(rot13::transform(&[b]), vec![b]);
        }
    }
}

#[test]
fn rot13_is_involutive_on_every_byte() {
    for b in 0u8..=255 {
        assert_eq!(rot13::transform(&rot13::transform(&[b])), vec![b]);
    }
}

#[test]
fn rot13_byte_rotates_within_case() {
    assert_eq!(rot13::rot13_byte(b'A', b'A'), b'N');
    assert_eq!(rot13::rot13_byte(b'N', b'A'), b'A');
    assert_eq!(rot13::rot13_byte(b'z', b'a'), b'm');
}

#[test]
fn rot13_in_place_matches_allocating_form() {
    let mut v = b"Hello, World!".to_vec();
    assert!(transform_in_place(&mut v, Rot13::new()).is_ok());
    assert_eq!(b"Uryyb, Jbeyq!", &*v);
    assert_eq!(rot13::transform(b"Hello, World!"), v);
}
