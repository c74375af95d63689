//! Signed integers as `vint64`: zigzag encoding followed by the
//! unsigned codec.

use crate::vint64::zigzag;
use crate::vint64::zigzag::{zigzag_inverse_spec, zigzag_spec};
use crate::vint64::{encoded_len_spec, vint64_enc, VInt64};
use vstd::prelude::*;

verus! {

/// Encode a signed integer as a zigzag-encoded `vint64`.
pub fn encode(value: i64) -> (r: VInt64)
    ensures
        r@ == vint64_enc(zigzag_spec(value)),
{
    crate::vint64::encode(zigzag::encode(value))
}

/// Decode a zigzag-encoded `vint64` at the start of `input` as a signed
/// integer, returning it with the number of bytes it occupied.
pub fn decode(input: &[u8]) -> (r: Result<(i64, usize), crate::vint64::Error>)
    ensures
        match (r, crate::vint64::decode_model(input@)) {
            (Ok((value, n)), Ok((mv, mn))) => value == zigzag_inverse_spec(mv) && n == mn,
            (Err(e), Err(me)) => e == me,
            _ => false,
        },
{
    match crate::vint64::decode(input) {
        Ok((encoded, n)) => Ok((zigzag::decode(encoded), n)),
        Err(e) => Err(e),
    }
}

/// Get the length of a zigzag-encoded `vint64` for the given value in
/// bytes.
pub fn encoded_len(value: i64) -> (l: usize)
    ensures
        l == encoded_len_spec(zigzag_spec(value)),
        1 <= l <= 9,
{
    crate::vint64::encoded_len(zigzag::encode(value))
}

} // verus!
