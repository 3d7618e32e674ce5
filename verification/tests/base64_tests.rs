use proper_crypto::base64::{from_base64, to_base64, Base64Error};

#[test]
fn convert_to_correct_base64() {
    let result = to_base64("Hello, World!".as_bytes()).unwrap();
    assert_eq!(b"SGVsbG8sIFdvcmxkIQ==", &*result);
}

#[test]
fn convert_to_correct_string() {
    let result = from_base64("SGVsbG8sIFdvcmxkIQ==".as_bytes()).unwrap();
    assert_eq!(b"Hello, World!", &*result);
}

#[test]
fn encode_of_empty_is_empty() {
    assert_eq!(to_base64(b"").unwrap(), Vec::<u8>::new());
    assert_eq!(from_base64(b"").unwrap(), Vec::<u8>::new());
}

#[test]
fn encode_pads_each_tail_length() {
    assert_eq!(&*to_base64(b"M").unwrap(), b"TQ==");
    assert_eq!(&*to_base64(b"Ma").unwrap(), b"TWE=");
    assert_eq!(&*to_base64(b"Man").unwrap(), b"TWFu");
    assert_eq!(&*to_base64(b"Mans").unwrap(), b"TWFucw==");
}

#[test]
fn round_trip_returns_original() {
    let cases: Vec<Vec<u8>> = vec![
        vec![],
        vec![0],
        vec![255],
        vec![0, 1, 2],
        vec![250, 251, 252, 253],
        b"any carnal pleasure.".to_vec(),
        (0u8..=255).collect(),
    ];
    for x in cases {
        let encoded = to_base64(&x).unwrap();
        assert_eq!(from_base64(&encoded).unwrap(), x);
    }
}

#[test]
fn decode_rejects_byte_outside_alphabet() {
    assert_eq!(from_base64(b"SG!sbG8s"), Err(Base64Error::Malformed));
    assert_eq!(from_base64(b"====" as &[u8]), Err(Base64Error::Malformed));
}

#[test]
fn decode_rejects_wrong_length() {
    assert_eq!(from_base64(b"SGk"), Err(Base64Error::Malformed));
    assert_eq!(from_base64(b"S"), Err(Base64Error::Malformed));
    assert_eq!(from_base64(b"SGVsbG8sX"), Err(Base64Error::Malformed));
}

#[test]
fn decode_rejects_misplaced_padding() {
    // padding before the last group
    assert_eq!(from_base64(b"TQ==TWFu"), Err(Base64Error::Malformed));
    // padding in the first two places of the last group
    assert_eq!(from_base64(b"T==u"), Err(Base64Error::Malformed));
    assert_eq!(from_base64(b"TW=u"), Err(Base64Error::Malformed));
}
