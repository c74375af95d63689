//! Tests for the field length calculators and header packing.

use veriform::field::length;
use veriform::field::{Header, WireType};

#[test]
fn uint64_length() {
    assert_eq!(length::uint64(1, 42), 2);
}

#[test]
fn sint64_length() {
    assert_eq!(length::sint64(2, -42), 2);
}

#[test]
fn bytes_length() {
    assert_eq!(length::bytes(3, b"foobar"), 8)
}

#[test]
fn string_length() {
    assert_eq!(length::string(4, "baz"), 5);
}

#[test]
fn header_packing_roundtrip() {
    let header = Header::new(42, false, WireType::UInt64);
    assert_eq!(header.to_u64(), 42 << 4 | 2);
    assert_eq!(Header::from_u64(42 << 4 | 2), header);
    assert_eq!(header.encode().as_ref(), &[138, 10]);
    assert_eq!(header.encoded_len(), 2);

    let critical = Header::new(42, true, WireType::SInt64);
    assert_eq!(critical.to_u64(), 42 << 4 | 8 | 3);
    assert_eq!(Header::from_u64(critical.to_u64()), critical);
}

#[test]
fn wire_type_codes() {
    for code in 0..8u64 {
        let wt = WireType::from_unmasked(code);
        assert_eq!(wt.to_u64(), code);
        assert_eq!(wt.to_u8() as u64, code);
    }
    assert!(WireType::Bytes.is_dynamically_sized());
    assert!(WireType::Sequence.is_dynamically_sized());
    assert!(!WireType::UInt64.is_dynamically_sized());
    assert!(WireType::Message.is_length_delimited());
    assert!(!WireType::Sequence.is_length_delimited());
    assert!(WireType::Message.is_message());
    assert!(WireType::Sequence.is_sequence());
    assert!(WireType::String.is_ref_type());
}
