//! Tests for the built-in message types.

use veriform::builtins::Timestamp;
use veriform::decoder::Decoder;
use veriform::error::Kind;
use veriform::message::Message;

#[test]
fn timestamp_round_trip() {
    let ts = Timestamp::new(1_234_567_890, 999_999_999);
    let encoded = ts.encode().unwrap();
    assert_eq!(encoded.len(), ts.encoded_len());

    let mut decoder = Decoder::new();
    let decoded = Timestamp::decode(&mut decoder, &encoded).unwrap();
    assert_eq!(decoded, ts);
}

#[test]
fn timestamp_rejects_trailing_data() {
    let ts = Timestamp::new(1, 2);
    let mut encoded = ts.encode().unwrap();
    encoded.push(0);

    let mut decoder = Decoder::new();
    let error = Timestamp::decode(&mut decoder, &encoded).err().unwrap();
    assert_eq!(error.kind(), Kind::TrailingData);
}

#[test]
fn timestamp_rejects_nanos_out_of_range() {
    // secs=0 under tag 0 (critical), then tag 1 holding 2^32.
    let mut encoded = vec![21u8, 1];
    encoded.push(37);
    encoded.extend_from_slice(veriform::vint64::encode(1u64 << 32).as_ref());

    let mut decoder = Decoder::new();
    let error = Timestamp::decode(&mut decoder, &encoded).err().unwrap();
    assert_eq!(error.kind(), Kind::Length);
}
