//! Tests for the message decoder: the streaming pull parser over one
//! message's fields.

use veriform::decoder::message::Decoder;
use veriform::error::Kind;
use veriform::field::WireType;

#[test]
fn decode_false() {
    let input = [130, 10];
    let mut decoder = Decoder::new();

    let (header, _pos) = decoder.decode_header(&input, 0).unwrap();
    assert_eq!(header.tag, 42);
    assert_eq!(header.wire_type, WireType::False);
}

#[test]
fn decode_true() {
    let input = [198, 10];
    let mut decoder = Decoder::new();

    let (header, _pos) = decoder.decode_header(&input, 0).unwrap();
    assert_eq!(header.tag, 43);
    assert_eq!(header.wire_type, WireType::True);
}

#[test]
fn decode_uint64() {
    let input = [138, 10, 85];
    let mut decoder = Decoder::new();

    let (header, pos) = decoder.decode_header(&input, 0).unwrap();
    assert_eq!(header.tag, 42);
    assert_eq!(header.wire_type, WireType::UInt64);

    let (value, pos) = decoder.decode_uint64(&input, pos).unwrap();
    assert_eq!(value, 42);
    assert_eq!(pos, input.len());
}

#[test]
fn decode_sint64() {
    let input = [206, 10, 167];
    let mut decoder = Decoder::new();

    let (header, pos) = decoder.decode_header(&input, 0).unwrap();
    assert_eq!(header.tag, 43);
    assert_eq!(header.wire_type, WireType::SInt64);

    let (value, pos) = decoder.decode_sint64(&input, pos).unwrap();
    assert_eq!(value, -42);
    assert_eq!(pos, input.len());
}

#[test]
fn decode_bytes() {
    let input = [73, 11, 98, 121, 116, 101, 115];
    let mut decoder = Decoder::new();

    let (header, pos) = decoder.decode_header(&input, 0).unwrap();
    assert_eq!(header.tag, 2);
    assert_eq!(header.wire_type, WireType::Bytes);

    let (bytes, pos) = decoder.decode_bytes(&input, pos).unwrap();
    assert_eq!(bytes, &[98, 121, 116, 101, 115]);
    assert_eq!(pos, input.len());
}

#[test]
fn decode_string() {
    let input = [139, 7, 98, 97, 122];
    let mut decoder = Decoder::new();

    let (header, pos) = decoder.decode_header(&input, 0).unwrap();
    assert_eq!(header.tag, 4);
    assert_eq!(header.wire_type, WireType::String);

    let (string, pos) = decoder.decode_string(&input, pos).unwrap();
    assert_eq!(string, "baz");
    assert_eq!(pos, input.len());
}

#[test]
fn decode_message() {
    let input = [45, 5, 69, 7];
    let mut decoder = Decoder::new();

    let (header, pos) = decoder.decode_header(&input, 0).unwrap();
    assert_eq!(header.tag, 1);
    assert_eq!(header.wire_type, WireType::Message);

    let (message, pos) = decoder.decode_message(&input, pos).unwrap();
    assert_eq!(message, &[69, 7]);
    assert_eq!(pos, input.len());
}

#[test]
fn decode_multiple() {
    let input = [138, 10, 85, 206, 10, 167];
    let mut decoder = Decoder::new();

    let (header, pos) = decoder.decode_header(&input, 0).unwrap();
    assert_eq!(header.tag, 42);
    assert_eq!(header.wire_type, WireType::UInt64);

    let (value, pos) = decoder.decode_uint64(&input, pos).unwrap();
    assert_eq!(value, 42);

    let (header, pos) = decoder.decode_header(&input, pos).unwrap();
    assert_eq!(header.tag, 43);
    assert_eq!(header.wire_type, WireType::SInt64);

    let (value, pos) = decoder.decode_sint64(&input, pos).unwrap();
    assert_eq!(value, -42);
    assert_eq!(pos, input.len());
}

#[test]
fn decode_partial_field_header() {
    let input = [138, 10, 85];
    let mut decoder = Decoder::new();

    let (event, _pos) = decoder.decode(&input[..1], 0).unwrap();
    assert_eq!(event, None);

    let (header, _pos) = decoder.decode_header(&input[1..], 0).unwrap();
    assert_eq!(header.tag, 42);
    assert_eq!(header.wire_type, WireType::UInt64);
}

#[test]
fn decode_out_of_order() {
    let input = [206, 10, 167, 138, 10, 85];
    let mut decoder = Decoder::new();

    let (header, pos) = decoder.decode_header(&input, 0).unwrap();
    assert_eq!(header.tag, 43);
    assert_eq!(header.wire_type, WireType::SInt64);

    let (value, pos) = decoder.decode_sint64(&input, pos).unwrap();
    assert_eq!(value, -42);

    let error = decoder.decode(&input, pos).err().unwrap();
    assert_eq!(error.kind(), Kind::Order { tag: 42 })
}

#[test]
fn decode_rejects_non_canonical_string() {
    // tag 4, wire type String, a two-byte body that is valid UTF-8 but not ASCII
    let input = [139, 5, 0xc3, 0xa9];
    let mut decoder = Decoder::new();
    let (_header, pos) = decoder.decode_header(&input, 0).unwrap();
    let error = decoder.decode_string(&input, pos).err().unwrap();
    assert_eq!(error.kind(), Kind::UnicodeNormalization);
}

#[test]
fn decode_rejects_malformed_utf8_string() {
    // tag 4, wire type String, a one-byte body that is not UTF-8
    let input = [139, 3, 0xff];
    let mut decoder = Decoder::new();
    let (_header, pos) = decoder.decode_header(&input, 0).unwrap();
    let error = decoder.decode_string(&input, pos).err().unwrap();
    assert_eq!(error.kind(), Kind::Utf8 { valid_up_to: 0 });
}

#[test]
fn decoder_is_poisoned_after_error() {
    let input = [206, 10, 167, 138, 10, 85];
    let mut decoder = Decoder::new();
    let (_header, pos) = decoder.decode_header(&input, 0).unwrap();
    let (_value, pos) = decoder.decode_sint64(&input, pos).unwrap();
    assert!(decoder.decode(&input, pos).is_err());
    let error = decoder.decode(&input, pos).err().unwrap();
    assert_eq!(error.kind(), Kind::Failed);
}

#[test]
fn truncated_field_never_decodes() {
    let full = [138, 10, 85];
    for cut in 0..full.len() {
        let mut decoder = Decoder::new();
        let input = &full[..cut];
        let result = match decoder.decode_header(input, 0) {
            Ok((_, pos)) => decoder.decode_uint64(input, pos).map(|_| ()),
            Err(e) => Err(e),
        };
        assert!(result.is_err());
    }
}
