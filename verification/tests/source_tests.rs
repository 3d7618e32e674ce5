use proper_crypto::source::line_payload;
use proper_crypto::{Source, SourceMut};

fn read_bytes_from<S>(mut s: S) -> Result<Vec<u8>, S::Error>
where
    S: Source<Data = [u8]>,
{
    Ok(s.read()?.to_vec())
}

#[test]
fn read_from_vec() {
    let v = vec![0_u8; 5];
    assert!(read_bytes_from(v).is_ok());
}

#[test]
fn vec_source_read_is_idempotent() {
    let mut v = b"fixed contents".to_vec();
    let first = v.read().unwrap().to_vec();
    let second = v.read().unwrap().to_vec();
    assert_eq!(first, second);
    assert_eq!(first, b"fixed contents");
}

#[test]
fn slice_source_reads_whole_buffer() {
    let mut s: &[u8] = b"abc";
    assert_eq!(s.read().unwrap(), b"abc" as &[u8]);
    assert_eq!(s.read().unwrap(), b"abc" as &[u8]);
}

#[test]
fn vec_source_read_mut_writes_back() {
    let mut v = b"abc".to_vec();
    let view = v.read_mut().unwrap();
    view[0] = b'z';
    assert_eq!(v, b"zbc");
}

#[test]
fn line_payload_strips_crlf() {
    assert_eq!(line_payload(b"hello\r\n"), b"hello");
    assert_eq!(line_payload(b"hello\n"), b"hello");
    assert_eq!(line_payload(b"hello\r"), b"hello");
}

#[test]
fn line_payload_keeps_unterminated_line() {
    assert_eq!(line_payload(b"hello"), b"hello");
    assert_eq!(line_payload(b""), b"");
}

#[test]
fn line_payload_keeps_interior_terminators() {
    assert_eq!(line_payload(b"a\rb\n"), b"a\rb");
    assert_eq!(line_payload(b"a\nb"), b"a\nb");
}

#[test]
fn line_payload_strips_only_one_sequence() {
    assert_eq!(line_payload(b"ab\n\n"), b"ab\n");
    assert_eq!(line_payload(b"ab\r\r"), b"ab\r");
    assert_eq!(line_payload(b"ab\n\r"), b"ab\n");
    assert_eq!(line_payload(b"\r\n"), b"");
    assert_eq!(line_payload(b"\n"), b"");
}
