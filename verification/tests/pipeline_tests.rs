use proper_crypto::base64::{from_base64, to_base64, Base64Error, StageError};
use proper_crypto::native::{NativeDecrypt, NativeEncrypt};
use proper_crypto::rot13;
use proper_crypto::{
    transform, transform_in_place, transform_source, ComposeError, FromBase64, Rot13, ToBase64,
};

#[test]
fn transform_applies_stage_directly() {
    let result = transform("Uryyb, Jbeyq!".as_bytes(), Rot13::new());
    assert_eq!(Ok("Hello, World!".as_bytes()), result.as_ref().map(|b| &**b));
}

#[test]
fn transform_source_reads_then_transforms() {
    assert!(transform_source(b"Uryyb, Jbeyq!".to_vec(), Rot13::new()).is_ok());
    let from_slice: &[u8] = b"Uryyb, Jbeyq!";
    let result = transform_source(from_slice, Rot13::new()).unwrap();
    assert_eq!(b"Hello, World!", &*result);
}

#[test]
fn transform_source_reports_stage_failure() {
    let malformed: &[u8] = b"not base64!";
    let result = transform_source(malformed, FromBase64::new(Rot13::new()));
    assert_eq!(
        result,
        Err(ComposeError::Transform(StageError::Codec(Base64Error::Malformed)))
    );
}

#[test]
fn transform_in_place_rewrites_buffer() {
    let mut v = "Hello, World!".as_bytes().to_vec();
    assert!(transform_in_place(&mut v, Rot13::new()).is_ok());
    assert_eq!("Uryyb, Jbeyq!".as_bytes(), &*v);
}

#[test]
fn to_base64_wrapper_encodes_stage_output() {
    let input = b"Hello, World!";
    let wrapped = transform(input, ToBase64::new(Rot13::new())).unwrap();
    let by_hand = to_base64(&rot13::transform(input)).unwrap();
    assert_eq!(wrapped, by_hand);
}

#[test]
fn from_base64_wrapper_decodes_before_stage() {
    let text = to_base64(b"Hello, World!").unwrap();
    let wrapped = transform(&text, FromBase64::new(Rot13::new())).unwrap();
    let by_hand = rot13::transform(&from_base64(&text).unwrap());
    assert_eq!(wrapped, by_hand);
}

#[test]
fn from_base64_wrapper_reports_malformed_text() {
    let result = transform(b"@@@@", FromBase64::new(Rot13::new()));
    assert_eq!(result, Err(StageError::Codec(Base64Error::Malformed)));
}

#[test]
fn protected_base64_round_trip() {
    let secret = b"Hello, World!";
    let wire = transform(secret, ToBase64::new(NativeEncrypt::new())).unwrap();
    let back = transform(&wire, FromBase64::new(NativeDecrypt::new())).unwrap();
    assert_eq!(back, secret);
}
