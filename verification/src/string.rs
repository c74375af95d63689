//! String support: the canonical-form gate.
//!
//! The format admits strings only in a canonical form, so that equal
//! abstract values have equal wire encodings.  The conservative
//! canonical subset enforced here is the ASCII range; anything else is
//! rejected at decode time.

use crate::error::{Error, Kind};
use vstd::prelude::*;
use vstd::string::StringSliceAdditionalSpecFns;

verus! {

/// Relies on `core::str::from_utf8`: when the bytes are valid UTF-8 it
/// returns the string slice viewing exactly those bytes, and otherwise
/// an error whose `valid_up_to` does not exceed the input's length.
#[verifier::external_body]
pub fn str_from_utf8(v: &[u8]) -> (r: Result<&str, usize>)
    ensures
        match r {
            Ok(s) => vstd::utf8::valid_utf8(v@) && s.spec_bytes() == v@,
            Err(valid_up_to) => !vstd::utf8::valid_utf8(v@) && valid_up_to <= v@.len(),
        },
{
    match core::str::from_utf8(v) {
        Ok(s) => Ok(s),
        Err(e) => Err(e.valid_up_to()),
    }
}

/// Check that a string is canonical: return it unchanged when every
/// character is ASCII, and reject it with `UnicodeNormalization`
/// otherwise.
pub fn ensure_canonical<'a>(s: &'a str) -> (r: Result<&'a str, Error>)
    ensures
        match r {
            Ok(out) => vstd::string::is_ascii(s) && out == s,
            Err(e) => !vstd::string::is_ascii(s) && e == (Error {
                kind: Kind::UnicodeNormalization,
                position: None,
            }),
        },
{
    if s.is_ascii() {
        Ok(s)
    } else {
        Err(Kind::UnicodeNormalization.into_error())
    }
}

} // verus!
