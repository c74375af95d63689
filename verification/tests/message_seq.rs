//! Tests for sequence fields end to end: encoding a sequence of
//! messages, decoding sequences of scalars and of messages.

use veriform::builtins::Timestamp;
use veriform::decoder::Decoder;
use veriform::derive_helpers::encode_message_seq;
use veriform::encoder::Encoder;

#[test]
fn decode_uint64_seq_field() {
    // tag 2, wire type Sequence, element type UInt64, body [1, 2, 3]
    let input = [79, 101, 3, 5, 7];
    let mut decoder = Decoder::new();
    let (values, pos) = decoder.decode_uint64_seq(2, &input, 0).unwrap();
    assert_eq!(values, vec![1, 2, 3]);
    assert_eq!(pos, input.len());
}

#[test]
fn decode_sint64_seq_field() {
    // tag 2, wire type Sequence, element type SInt64, body [-1, -2, -3]
    let input = [79, 103, 3, 7, 11];
    let mut decoder = Decoder::new();
    let (values, pos) = decoder.decode_sint64_seq(2, &input, 0).unwrap();
    assert_eq!(values, vec![-1, -2, -3]);
    assert_eq!(pos, input.len());
}

#[test]
fn message_seq_round_trip() {
    let messages = vec![Timestamp::new(1, 2), Timestamp::new(3, 4)];

    let mut encoder = Encoder::new(vec![0u8; 64]);
    encode_message_seq(&mut encoder, 7, false, &messages).unwrap();
    let wire = encoder.finish();

    let mut decoder = Decoder::new();
    let (decoded, pos): (Vec<Timestamp>, usize) =
        decoder.decode_message_seq(7, &wire, 0).unwrap();
    assert_eq!(decoded, messages);
    assert_eq!(pos, wire.len());
}

#[test]
fn message_seq_length_calculator_agrees() {
    let messages = vec![Timestamp::new(1, 2), Timestamp::new(3, 4)];

    let mut encoder = Encoder::new(vec![0u8; 64]);
    encode_message_seq(&mut encoder, 7, false, &messages).unwrap();
    let wire = encoder.finish();

    assert_eq!(wire.len(), veriform::field::length::message_seq(7, &messages));
}
