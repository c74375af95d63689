//! Tests for the sequence decoder: homogeneous length-prefixed
//! element streams.

use veriform::decoder::sequence::Decoder;
use veriform::field::WireType;

#[test]
fn decode_uint64_sequence() {
    let input = [3, 5, 7];
    let mut decoder = Decoder::new(WireType::UInt64, input.len());

    let (v1, pos) = decoder.decode_uint64(&input, 0).unwrap();
    assert_eq!(1, v1);
    let (v2, pos) = decoder.decode_uint64(&input, pos).unwrap();
    assert_eq!(2, v2);
    let (v3, pos) = decoder.decode_uint64(&input, pos).unwrap();
    assert_eq!(3, v3);
    assert_eq!(pos, input.len());
    assert_eq!(decoder.remaining(), 0);
}

#[test]
fn decode_sint64_sequence() {
    let input = [3, 7, 11];
    let mut decoder = Decoder::new(WireType::SInt64, input.len());

    let mut pos = 0;
    for n in &[-1, -2, -3] {
        let (value, new_pos) = decoder.decode_sint64(&input, pos).unwrap();
        assert_eq!(*n, value);
        pos = new_pos;
    }
    assert_eq!(pos, input.len());
}

#[test]
fn decode_bytes_sequence() {
    let input = [7, 102, 111, 111, 7, 98, 97, 114, 7, 98, 97, 122];
    let mut decoder = Decoder::new(WireType::Bytes, input.len());

    let mut pos = 0;
    for b in &[b"foo", b"bar", b"baz"] {
        let (bytes, new_pos) = decoder.decode_bytes(&input, pos).unwrap();
        assert_eq!(&b[..], bytes);
        pos = new_pos;
    }
    assert_eq!(pos, input.len());
}

#[test]
fn decode_string_sequence() {
    let input = [7, 102, 111, 111, 7, 98, 97, 114, 7, 98, 97, 122];
    let mut decoder = Decoder::new(WireType::String, input.len());

    let mut pos = 0;
    for s in &["foo", "bar", "baz"] {
        let (string, new_pos) = decoder.decode_string(&input, pos).unwrap();
        assert_eq!(*s, string);
        pos = new_pos;
    }
    assert_eq!(pos, input.len());
}

#[test]
fn sequence_rejects_boolean_elements() {
    let input = [3];
    let mut decoder = Decoder::new(WireType::True, input.len());
    assert!(decoder.decode(&input, 0).is_err());
}

#[test]
fn sequence_rejects_mismatched_wire_type() {
    let input = [3];
    let mut decoder = Decoder::new(WireType::UInt64, input.len());
    let error = decoder
        .decode_bytes(&input, 0)
        .err()
        .unwrap();
    assert_eq!(
        error.kind(),
        veriform::error::Kind::UnexpectedWireType {
            actual: WireType::UInt64,
            wanted: WireType::Bytes
        }
    );
}
