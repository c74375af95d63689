//! Tests for the `vint64` codec: canonical encodings, decodings, and
//! the signed variants.

use veriform::vint64::{decode, decoded_len, encode, encoded_len, signed, zigzag, Error};

#[test]
fn encode_zero() {
    assert_eq!(encode(0).as_ref(), &[1]);
}

#[test]
fn encode_bit_pattern_examples() {
    assert_eq!(encode(0x0f0f).as_ref(), &[0x3e, 0x3c]);
    assert_eq!(encode(0x0f0f_f0f0).as_ref(), &[0x08, 0x0f, 0xff, 0xf0]);
    assert_eq!(
        encode(0x0f0f_f0f0_0f0f).as_ref(),
        &[0xc0, 0x87, 0x07, 0x78, 0xf8, 0x87, 0x07]
    );
    assert_eq!(
        encode(0x0f0f_f0f0_0f0f_f0f0).as_ref(),
        &[0x00, 0xf0, 0xf0, 0x0f, 0x0f, 0xf0, 0xf0, 0x0f, 0x0f]
    );
}

#[test]
fn encode_maxint() {
    assert_eq!(
        encode(u64::MAX).as_ref(),
        &[0x00, 0xff, 0xff, 0xff, 0xff, 0xff, 0xff, 0xff, 0xff]
    );
}

#[test]
fn encode_signed_values() {
    assert_eq!(
        signed::encode(0x0f0f_f0f0).as_ref(),
        &[0x10, 0x3c, 0xfc, 0xc3, 0x03]
    );
    assert_eq!(
        signed::encode(-0x0f0f_f0f0).as_ref(),
        &[0xf0, 0x3b, 0xfc, 0xc3, 0x03]
    );
}

#[test]
fn decode_zero() {
    let slice = [1];
    assert_eq!(decode(&slice).unwrap(), (0, 1));
}

#[test]
fn decode_bit_pattern_examples() {
    let slice = [0x3e, 0x3c];
    assert_eq!(decode(&slice).unwrap(), (0x0f0f, slice.len()));

    let slice = [0x08, 0x0f, 0xff, 0xf0];
    assert_eq!(decode(&slice).unwrap(), (0x0f0f_f0f0, slice.len()));

    let slice = [0xc0, 0x87, 0x07, 0x78, 0xf8, 0x87, 0x07];
    assert_eq!(decode(&slice).unwrap(), (0x0f0f_f0f0_0f0f, slice.len()));

    let slice = [0x00, 0xf0, 0xf0, 0x0f, 0x0f, 0xf0, 0xf0, 0x0f, 0x0f];
    assert_eq!(decode(&slice).unwrap(), (0x0f0f_f0f0_0f0f_f0f0, slice.len()));
}

#[test]
fn decode_maxint() {
    let slice = [0x00, 0xff, 0xff, 0xff, 0xff, 0xff, 0xff, 0xff, 0xff];
    let (value, consumed) = decode(&slice).unwrap();
    assert_eq!(value, u64::MAX);
    assert_eq!(consumed, slice.len());
}

#[test]
fn decode_with_trailing_data() {
    let slice = [0x3e, 0x3c, 0xde, 0xad, 0xbe, 0xef];
    let (value, consumed) = decode(&slice).unwrap();
    assert_eq!(value, 0x0f0f);
    assert_eq!(&slice[consumed..], &[0xde, 0xad, 0xbe, 0xef]);
}

#[test]
fn decode_truncated() {
    let slice = [0];
    assert!(decode(&slice).is_err());

    let slice = [0x08, 0x0f, 0xff];
    assert!(decode(&slice).is_err());
}

#[test]
fn decode_trailing_zeroes() {
    let slice = [0x08, 0x00, 0x00, 0x00];
    assert!(decode(&slice).is_err());
}

#[test]
fn decode_signed_values() {
    let slice = [0x10, 0x3c, 0xfc, 0xc3, 0x03];
    assert_eq!(signed::decode(&slice).unwrap().0, 0x0f0f_f0f0);

    let slice = [0xf0, 0x3b, 0xfc, 0xc3, 0x03];
    assert_eq!(signed::decode(&slice).unwrap().0, -0x0f0f_f0f0);
}

#[test]
fn roundtrip_problem() {
    let x = encode(1048576);
    let (y, _) = decode(x.as_ref()).unwrap();
    assert_eq!(y, 1048576);
}

#[test]
fn decoded_len_matches_encoded_len() {
    for &v in &[0u64, 1, 127, 128, 300, 0x3fff, 0x4000, u64::MAX / 2, u64::MAX] {
        let e = encode(v);
        assert_eq!(decoded_len(e.as_ref()[0]), encoded_len(v));
        assert_eq!(e.len(), encoded_len(v));
        assert_eq!(decode(e.as_ref()).unwrap(), (v, encoded_len(v)));
    }
}

#[test]
fn truncated_and_leading_zero_errors_are_distinct() {
    assert_eq!(decode(&[]).unwrap_err(), Error::Truncated);
    assert_eq!(decode(&[0x02]).unwrap_err(), Error::Truncated);
    assert_eq!(decode(&[0x02, 0x00]).unwrap_err(), Error::LeadingZeroes);
}

#[test]
fn zigzag_examples() {
    assert_eq!(zigzag::encode(0), 0);
    assert_eq!(zigzag::encode(-1), 1);
    assert_eq!(zigzag::encode(1), 2);
    assert_eq!(zigzag::encode(-2), 3);
    assert_eq!(zigzag::encode(i64::MIN), u64::MAX);
    assert_eq!(zigzag::encode(i64::MAX), u64::MAX - 1);
    for &n in &[0i64, -1, 1, 42, -42, i64::MIN, i64::MAX] {
        assert_eq!(zigzag::decode(zigzag::encode(n)), n);
    }
}
