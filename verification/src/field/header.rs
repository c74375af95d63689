//! Field headers.

use crate::field::{wire_type_code, wire_type_from_code, Tag, WireType};
use crate::vint64::{encoded_len_spec, vint64_enc, VInt64};
use vstd::prelude::*;

verus! {

/// The largest tag a field header can carry: tags occupy the bits of
/// the packed header above the critical bit and the wire type code.
pub const MAX_TAG: u64 = 0x0fff_ffff_ffff_ffff;

/// A field header: the tag which identifies the field, the critical
/// bit, and the wire type of the field's value.
#[derive(Copy, Clone, Debug, PartialEq, Eq, Structural)]
pub struct Header {
    /// Tag which identifies the field.
    pub tag: Tag,

    /// Indicates a field containing critical information which must
    /// not be ignored if the field is unknown.
    pub critical: bool,

    /// Encoded value type for the field.
    pub wire_type: WireType,
}

/// The canonical packing of a header into a single `u64`:
/// `tag << 4 | critical << 3 | wire_type`.
pub open spec fn header_pack_spec(header: Header) -> u64
    recommends
        header.tag <= MAX_TAG,
{
    (header.tag << 4) | ((if header.critical {
        8u64
    } else {
        0u64
    }) | wire_type_code(header.wire_type))
}

/// The header a packed `u64` stands for.
pub open spec fn header_of_spec(encoded: u64) -> Header {
    Header {
        tag: encoded >> 4,
        critical: (encoded >> 3) & 1 == 1,
        wire_type: wire_type_from_code(encoded & 0b111),
    }
}

proof fn lemma_pack_bits(tag: u64, c: u64, w: u64)
    by (bit_vector)
    requires
        tag <= 0x0fff_ffff_ffff_ffff,
        c == 0 || c == 8,
        w < 8,
    ensures
        ((tag << 4) | (c | w)) >> 4 == tag,
        (((tag << 4) | (c | w)) >> 3) & 1 == (if c == 8 {
            1u64
        } else {
            0u64
        }),
        ((tag << 4) | (c | w)) & 0b111 == w,
{
}

proof fn lemma_unpack_bits(encoded: u64)
    by (bit_vector)
    ensures
        encoded >> 4 <= 0x0fff_ffff_ffff_ffff,
        (encoded >> 3) & 1 == 0 || (encoded >> 3) & 1 == 1,
        encoded & 0b111 < 8,
        ((encoded >> 4) << 4) | (((if (encoded >> 3) & 1 == 1 {
            8u64
        } else {
            0u64
        }) | (encoded & 0b111))) == encoded,
{
}

proof fn lemma_low_nibble_len(tag: u64, w: u64)
    by (bit_vector)
    requires
        tag <= 0x0fff_ffff_ffff_ffff,
        w < 8,
    ensures
        crate::vint64::encoded_len_spec((tag << 4) | (8u64 | w)) == crate::vint64::encoded_len_spec(
            (tag << 4) | (0u64 | w),
        ),
{
}

/// The critical bit never changes a header's encoded length: it sits
/// below the tag inside the packed header, and the low nibble cannot
/// carry the packed value across a `vint64` length boundary.
pub proof fn lemma_header_len_critical(header: Header)
    requires
        header.tag <= MAX_TAG,
    ensures
        encoded_len_spec(header_pack_spec(header)) == encoded_len_spec(
            header_pack_spec(
                Header { tag: header.tag, critical: false, wire_type: header.wire_type },
            ),
        ),
{
    let w = wire_type_code(header.wire_type);
    assert(w < 8);
    if header.critical {
        assert(header_pack_spec(header) == (header.tag << 4) | (8u64 | w));
        assert(header_pack_spec(
            Header { tag: header.tag, critical: false, wire_type: header.wire_type },
        ) == (header.tag << 4) | (0u64 | w));
        lemma_low_nibble_len(header.tag, w);
    }
}

/// Packing a header and unpacking the result gives the header back,
/// for every tag in range; unpacking and packing gives back every
/// packed value.
pub proof fn lemma_header_roundtrip(header: Header, encoded: u64)
    requires
        header.tag <= MAX_TAG,
    ensures
        header_of_spec(header_pack_spec(header)) == header,
        header_pack_spec(header_of_spec(encoded)) == encoded,
        header_of_spec(header_pack_spec(header)).tag <= MAX_TAG,
{
    let c: u64 = if header.critical {
        8
    } else {
        0
    };
    let w = wire_type_code(header.wire_type);
    assert(w < 8);
    lemma_pack_bits(header.tag, c, w);
    header.wire_type.lemma_code_roundtrip(w);
    lemma_unpack_bits(encoded);
    let h2 = header_of_spec(encoded);
    h2.wire_type.lemma_code_roundtrip(encoded & 0b111);
}

impl Header {
    /// Create a new header.
    pub fn new(tag: Tag, critical: bool, wire_type: WireType) -> (r: Self)
        ensures
            r == (Header { tag, critical, wire_type }),
    {
        Header { tag, critical, wire_type }
    }

    /// The canonical packing of this header into a single `u64`.
    pub fn to_u64(self) -> (r: u64)
        requires
            self.tag <= MAX_TAG,
        ensures
            r == header_pack_spec(self),
    {
        (self.tag << 4u64) | ((if self.critical {
            8u64
        } else {
            0u64
        }) | self.wire_type.to_u64())
    }

    /// The header a packed `u64` stands for: the tag above the low
    /// nibble, the critical bit, and the wire type in the low three
    /// bits.
    pub fn from_u64(encoded: u64) -> (r: Self)
        ensures
            r == header_of_spec(encoded),
            r.tag <= MAX_TAG,
    {
        proof {
            lemma_unpack_bits(encoded);
        }
        Header {
            tag: encoded >> 4u64,
            critical: (encoded >> 3u64) & 1 == 1,
            wire_type: WireType::from_unmasked(encoded),
        }
    }

    /// Encode this header value as a `vint64`.
    pub fn encode(self) -> (r: VInt64)
        requires
            self.tag <= MAX_TAG,
        ensures
            r@ == vint64_enc(header_pack_spec(self)),
    {
        crate::vint64::encode(self.to_u64())
    }

    /// Get the length of this header when encoded as a `vint64`.
    pub fn encoded_len(self) -> (r: usize)
        requires
            self.tag <= MAX_TAG,
        ensures
            r == encoded_len_spec(header_pack_spec(self)),
    {
        crate::vint64::encoded_len(self.to_u64())
    }
}

} // verus!
