//! Tests for the encoder: byte-exact output, length agreement, and a
//! round trip back through the decoder.

use veriform::decoder::message::Decoder;
use veriform::encoder::Encoder;
use veriform::error::Kind;
use veriform::field::{length, WireType};

const EXAMPLE_BYTES: &[u8] = b"foobar";
const EXAMPLE_STRING: &str = "baz";

#[test]
fn encode_then_decode() {
    let mut encoder = Encoder::new(vec![0u8; 1024]);

    encoder.uint64(1, false, 42).unwrap();
    encoder.sint64(2, false, -1).unwrap();
    encoder.bytes(3, false, EXAMPLE_BYTES).unwrap();
    encoder.string(4, false, EXAMPLE_STRING).unwrap();

    let message = encoder.finish();

    let mut decoder = Decoder::new();
    let (header, pos) = decoder.decode_header(&message, 0).unwrap();
    assert_eq!(header.tag, 1);
    assert_eq!(header.wire_type, WireType::UInt64);

    let (value, pos) = decoder.decode_uint64(&message, pos).unwrap();
    assert_eq!(value, 42);

    let (header, pos) = decoder.decode_header(&message, pos).unwrap();
    assert_eq!(header.tag, 2);
    assert_eq!(header.wire_type, WireType::SInt64);

    let (value, pos) = decoder.decode_sint64(&message, pos).unwrap();
    assert_eq!(value, -1);

    let (header, pos) = decoder.decode_header(&message, pos).unwrap();
    assert_eq!(header.tag, 3);
    assert_eq!(header.wire_type, WireType::Bytes);

    let (bytes, pos) = decoder.decode_bytes(&message, pos).unwrap();
    assert_eq!(bytes, EXAMPLE_BYTES);

    let (header, pos) = decoder.decode_header(&message, pos).unwrap();
    assert_eq!(header.tag, 4);
    assert_eq!(header.wire_type, WireType::String);

    let (string, pos) = decoder.decode_string(&message, pos).unwrap();
    assert_eq!(string, EXAMPLE_STRING);

    assert_eq!(pos, message.len());
}

#[test]
fn encode_scenarios_byte_exact() {
    let mut encoder = Encoder::new(vec![0u8; 16]);
    encoder.uint64(42, false, 42).unwrap();
    assert_eq!(encoder.finish(), vec![138, 10, 85]);

    let mut encoder = Encoder::new(vec![0u8; 16]);
    encoder.sint64(43, false, -42).unwrap();
    assert_eq!(encoder.finish(), vec![206, 10, 167]);

    let mut encoder = Encoder::new(vec![0u8; 16]);
    encoder.bytes(2, false, b"bytes").unwrap();
    assert_eq!(encoder.finish(), vec![73, 11, 98, 121, 116, 101, 115]);

    let mut encoder = Encoder::new(vec![0u8; 16]);
    encoder.string(4, false, "baz").unwrap();
    assert_eq!(encoder.finish(), vec![139, 7, 98, 97, 122]);
}

#[test]
fn encoded_output_length_matches_calculator() {
    let mut encoder = Encoder::new(vec![0u8; 64]);
    encoder.uint64(1, false, 42).unwrap();
    encoder.sint64(2, false, -42).unwrap();
    encoder.bytes(3, false, EXAMPLE_BYTES).unwrap();
    encoder.string(4, false, EXAMPLE_STRING).unwrap();
    let expected = length::uint64(1, 42)
        + length::sint64(2, -42)
        + length::bytes(3, EXAMPLE_BYTES)
        + length::string(4, EXAMPLE_STRING);
    assert_eq!(encoder.finish().len(), expected);
}

#[test]
fn encode_fails_with_length_when_buffer_too_small() {
    let mut encoder = Encoder::new(vec![0u8; 4]);
    let error = encoder.bytes(3, false, EXAMPLE_BYTES).err().unwrap();
    assert_eq!(error.kind(), Kind::Length);
}
