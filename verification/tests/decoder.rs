//! Tests for the top-level decoder: type-directed field decoding over
//! the nesting stack.

use veriform::builtins::Timestamp;
use veriform::decoder::Decoder;

#[test]
fn decoder_decode_uint64() {
    let input = [138, 10, 85];
    let (value, pos) = Decoder::new().decode_uint64(42, &input, 0).unwrap();
    assert_eq!(value, 42);
    assert_eq!(pos, input.len());
}

#[test]
fn decoder_decode_sint64() {
    let input = [206, 10, 167];
    let (value, pos) = Decoder::new().decode_sint64(43, &input, 0).unwrap();
    assert_eq!(value, -42);
    assert_eq!(pos, input.len());
}

#[test]
fn decoder_decode_bytes() {
    let input = [73, 11, 98, 121, 116, 101, 115];
    let mut decoder = Decoder::new();
    let (bytes, pos) = decoder.decode_bytes(2, &input, 0).unwrap();
    assert_eq!(bytes, &[98, 121, 116, 101, 115]);
    assert_eq!(pos, input.len());
}

#[test]
fn decoder_decode_string() {
    let input = [139, 7, 98, 97, 122];
    let mut decoder = Decoder::new();
    let (string, pos) = decoder.decode_string(4, &input, 0).unwrap();
    assert_eq!(string, "baz");
    assert_eq!(pos, input.len());
}

#[test]
fn decoder_decode_nested_message() {
    // A Timestamp { secs: 1, nanos: 2 } nested under tag 5: its body
    // holds secs=1 under tag 0 (critical) and nanos=2 under tag 1.
    let inner = [21, 3, 37, 5];
    let mut input = vec![173u8, (inner.len() << 1 | 1) as u8];
    input.extend_from_slice(&inner);

    let mut decoder = Decoder::new();
    let (ts, pos): (Timestamp, usize) = decoder.decode_message(5, &input, 0).unwrap();
    assert_eq!(ts, Timestamp::new(1, 2));
    assert_eq!(pos, input.len());
}

#[test]
fn nested_error_position_is_extended() {
    // A message field at tag 5 whose body is a whole timestamp plus one
    // trailing byte: the nested decoder rejects the trailing data, and
    // the error's position is extended by the body's offset (2) on pop.
    let inner = [21, 3, 37, 5, 0];
    let mut input = vec![173u8, (inner.len() << 1 | 1) as u8];
    input.extend_from_slice(&inner);

    let mut decoder = Decoder::new();
    let result: Result<(Timestamp, usize), veriform::error::Error> =
        decoder.decode_message(5, &input, 0);
    let error = result.err().unwrap();
    assert_eq!(error.kind(), veriform::error::Kind::TrailingData);
    assert_eq!(error.position(), Some(2));
}

#[test]
fn decoder_fill_digest_is_32_bytes() {
    let input = [138, 10, 85];
    let mut decoder = Decoder::new();
    let (value, _pos) = decoder.decode_uint64(42, &input, 0).unwrap();
    assert_eq!(value, 42);
    let digest = decoder.fill_digest().unwrap();
    assert_eq!(digest.len(), 32);
}
