//! Zigzag encoding for signed integers.
//!
//! Zigzag encoding interleaves the signed range into the unsigned one:
//! `0, -1, 1, -2, 2, ...` map to `0, 1, 2, 3, 4, ...`, so that values of
//! small magnitude take few bytes regardless of sign.

use vstd::prelude::*;

verus! {

/// The zigzag image of `value`: `2 value` for non-negative values,
/// `2 |value| - 1` for negative ones.
pub open spec fn zigzag_spec(value: i64) -> u64 {
    if value >= 0 {
        (2 * value) as u64
    } else {
        (2 * (-value) - 1) as u64
    }
}

/// The signed value a zigzag image stands for.
pub open spec fn zigzag_inverse_spec(encoded: u64) -> i64 {
    if encoded % 2 == 0 {
        (encoded / 2) as i64
    } else {
        (-((encoded / 2) as i64 + 1)) as i64
    }
}

/// Encode a signed 64-bit integer in zigzag encoding.
pub fn encode(value: i64) -> (r: u64)
    ensures
        r == zigzag_spec(value),
{
    if value >= 0 {
        (value as u64) * 2
    } else {
        let magnitude: i64 = -(value + 1);
        assert(0 <= magnitude <= i64::MAX);
        (magnitude as u64) * 2 + 1
    }
}

/// Decode a signed 64-bit integer from zigzag encoding.
pub fn decode(encoded: u64) -> (r: i64)
    ensures
        r == zigzag_inverse_spec(encoded),
{
    let half = encoded / 2;
    if encoded % 2 == 0 {
        half as i64
    } else {
        assert(half < 0x8000_0000_0000_0000);
        -(half as i64) - 1
    }
}

/// Zigzag decoding inverts zigzag encoding on every signed value, and
/// zigzag encoding inverts decoding on every unsigned value: the two
/// maps are mutually inverse bijections.
pub proof fn lemma_zigzag_roundtrip(value: i64, encoded: u64)
    ensures
        zigzag_inverse_spec(zigzag_spec(value)) == value,
        zigzag_spec(zigzag_inverse_spec(encoded)) == encoded,
{
}

/// Zigzag encoding orders values by magnitude: each non-negative `n`
/// maps to the even value `2 n`, and each negative `n` to the odd value
/// `2 |n| - 1`, so growing magnitudes map to growing images.
pub proof fn lemma_zigzag_magnitude(value: i64)
    ensures
        value >= 0 ==> zigzag_spec(value) == 2 * value,
        value < 0 ==> zigzag_spec(value) == 2 * (-value) - 1,
        zigzag_spec(value) < 2 * (if value >= 0 { value + 1 } else { -value }),
{
}

} // verus!
