use speicherstadt::framing::{extract_body, FramingError};

fn encode(j: &[u8], a: &[u8]) -> Vec<u8> {
    let mut out = Vec::new();
    out.extend_from_slice(&(j.len() as u32).to_le_bytes());
    out.extend_from_slice(j);
    out.extend_from_slice(&(a.len() as u32).to_le_bytes());
    out.extend_from_slice(a);
    out
}

#[test]
fn round_trip_gives_back_both_segments() {
    let body = encode(b"{\"name\":\"demo\"}", b"\x1f\x8b artifact");
    let (j, a) = extract_body(&body).unwrap();
    assert_eq!(j, b"{\"name\":\"demo\"}");
    assert_eq!(a, b"\x1f\x8b artifact");
}

#[test]
fn round_trip_with_empty_segments() {
    let body = encode(b"", b"");
    assert_eq!(body, vec![0, 0, 0, 0, 0, 0, 0, 0]);
    let (j, a) = extract_body(&body).unwrap();
    assert!(j.is_empty());
    assert!(a.is_empty());
}

#[test]
fn lengths_are_little_endian() {
    let mut body = vec![2, 0, 0, 0, b'h', b'i', 1, 0, 0, 0, b'x'];
    assert_eq!(extract_body(&body).unwrap(), (&b"hi"[..], &b"x"[..]));
    // A big-endian reading of the first prefix would be far too long.
    body[0] = 0;
    body[3] = 2;
    assert_eq!(extract_body(&body), Err(FramingError::UnexpectedEndOfInput));
}

#[test]
fn every_truncation_is_unexpected_end() {
    let body = encode(b"meta", b"artifact bytes");
    for k in 0..body.len() {
        assert_eq!(extract_body(&body[..k]), Err(FramingError::UnexpectedEndOfInput), "cut at {k}");
    }
}

#[test]
fn trailing_bytes_are_rejected() {
    let mut body = encode(b"meta", b"art");
    body.push(0);
    assert_eq!(extract_body(&body), Err(FramingError::TrailingData));
    body.extend_from_slice(b"more");
    assert_eq!(extract_body(&body), Err(FramingError::TrailingData));
}

#[test]
fn empty_body_is_unexpected_end() {
    assert_eq!(extract_body(&[]), Err(FramingError::UnexpectedEndOfInput));
}

#[test]
fn huge_declared_length_is_unexpected_end() {
    let body = vec![0xff, 0xff, 0xff, 0xff, 1, 2, 3];
    assert_eq!(extract_body(&body), Err(FramingError::UnexpectedEndOfInput));
}
