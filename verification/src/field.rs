//! Fields (key/value pairs) in a message: wire types, headers, and
//! encoded-length calculators.

mod header;
pub mod length;
mod wire_type;

pub use self::header::{
    header_of_spec, header_pack_spec, lemma_header_len_critical, lemma_header_roundtrip, Header,
    MAX_TAG,
};
pub use self::wire_type::{wire_type_code, wire_type_from_code, WireType};

use vstd::prelude::*;

verus! {

/// Tag which identifies a field.
pub type Tag = u64;

} // verus!
