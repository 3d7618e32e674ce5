use proper_crypto::native::{decrypt, encrypt, EncryptionError};

#[test]
fn encrypt_without_error() {
    let result = encrypt(b"Hello, World!");
    if let Ok(d) = result {
        println!("{:?}", d);
    } else {
        panic!();
    }
}

#[test]
fn decrypt_to_correct_string() {
    let encrypted = encrypt(b"Hello, World!").unwrap();
    assert_eq!(b"Hello, World!", &*decrypt(&encrypted).unwrap());
}

#[test]
fn round_trip_preserves_every_buffer() {
    let cases: Vec<Vec<u8>> = vec![vec![], vec![0], (0u8..=255).collect()];
    for x in cases {
        let protected = encrypt(&x).unwrap();
        assert_eq!(decrypt(&protected).unwrap(), x);
    }
}

#[test]
fn encrypt_output_differs_from_input() {
    let protected = encrypt(b"Hello, World!").unwrap();
    assert_ne!(&*protected, b"Hello, World!");
}

#[test]
fn decrypt_rejects_short_input() {
    assert_eq!(decrypt(b""), Err(EncryptionError));
    assert_eq!(decrypt(&[1]), Err(EncryptionError));
}

#[test]
fn decrypt_rejects_untagged_input() {
    assert_eq!(decrypt(b"Hello, World!"), Err(EncryptionError));
}
