//! Field length calculations for various types.
//!
//! Each function returns the exact number of bytes the corresponding
//! field occupies on the wire: the encoded header, then the value or
//! the length prefix and the body.  The critical bit never affects a
//! field's length, because it sits inside the header's packed `vint64`
//! below the tag.

use crate::field::{header_pack_spec, Header, Tag, WireType, MAX_TAG};
use crate::message::Message;
use crate::encoder::{message_seq_body_enc, sequence_header_value};
use crate::vint64::encoded_len_spec;
use crate::vint64::zigzag::zigzag_spec;
use vstd::prelude::*;
use vstd::string::StringSliceAdditionalSpecFns;

verus! {

/// Length in bytes of an encoded field header.
pub open spec fn header_len_spec(tag: Tag, wire_type: WireType) -> u64 {
    encoded_len_spec(header_pack_spec(Header { tag, critical: false, wire_type }))
}

/// Length in bytes of a dynamically sized field of body length
/// `length`: header, then length prefix, then body.
pub open spec fn dynamically_sized_len_spec(tag: Tag, wire_type: WireType, length: nat) -> nat {
    (header_len_spec(tag, wire_type) + encoded_len_spec(length as u64) + length) as nat
}

/// Compute length of a `uint64` field.
pub fn uint64(tag: Tag, value: u64) -> (r: usize)
    requires
        tag <= MAX_TAG,
    ensures
        r == header_len_spec(tag, WireType::UInt64) + encoded_len_spec(value),
{
    header(tag, WireType::UInt64) + crate::vint64::encoded_len(value)
}

/// Compute length of an `sint64` field.
pub fn sint64(tag: Tag, value: i64) -> (r: usize)
    requires
        tag <= MAX_TAG,
    ensures
        r == header_len_spec(tag, WireType::SInt64) + encoded_len_spec(zigzag_spec(value)),
{
    header(tag, WireType::SInt64) + crate::vint64::signed::encoded_len(value)
}

/// Compute length of a `bytes` field.
pub fn bytes(tag: Tag, data: &[u8]) -> (r: usize)
    requires
        tag <= MAX_TAG,
        data@.len() + 18 <= usize::MAX,
    ensures
        r == dynamically_sized_len_spec(tag, WireType::Bytes, data@.len()),
{
    dynamically_sized(tag, WireType::Bytes, data.len())
}

/// Compute length of a `string` field.
pub fn string(tag: Tag, text: &str) -> (r: usize)
    requires
        tag <= MAX_TAG,
        text.spec_bytes().len() + 18 <= usize::MAX,
    ensures
        r == dynamically_sized_len_spec(tag, WireType::String, text.spec_bytes().len()),
{
    dynamically_sized(tag, WireType::String, text.len())
}

/// Compute length of a `message` field, the tag and the length
/// delimiter included.
pub fn message<M: Message>(tag: Tag, msg: &M) -> (r: usize)
    requires
        tag <= MAX_TAG,
        msg.well_formed(),
        msg.wire().len() + 18 <= usize::MAX,
    ensures
        r == dynamically_sized_len_spec(tag, WireType::Message, msg.wire().len()),
{
    dynamically_sized(tag, WireType::Message, msg.encoded_len())
}

/// Length in bytes of a sequence-of-messages field: header, sequence
/// header, then the body.
pub open spec fn message_seq_len_spec<M: Message>(tag: Tag, messages: Seq<M>) -> nat {
    (header_len_spec(tag, WireType::Sequence) + encoded_len_spec(
        sequence_header_value(WireType::Message, message_seq_body_enc(messages).len()),
    ) + message_seq_body_enc(messages).len()) as nat
}

/// Compute length of a `sequence` of `message` values, the tag and the
/// sequence header included.
pub fn message_seq<M: Message>(tag: Tag, messages: &Vec<M>) -> (r: usize)
    requires
        tag <= MAX_TAG,
        forall|i: int| 0 <= i < messages@.len() ==> (#[trigger] messages@[i]).well_formed(),
        message_seq_body_enc(messages@).len() <= u64::MAX >> 4,
        message_seq_body_enc(messages@).len() + 18 <= usize::MAX,
    ensures
        r == message_seq_len_spec(tag, messages@),
{
    let body_len = crate::encoder::message_seq_body_len(messages);
    proof {
        assert((u64::MAX >> 4) < u64::MAX) by (bit_vector);
    }
    let sequence_header = ((body_len as u64) << 4u64) | WireType::Message.to_u64();
    header(tag, WireType::Sequence) + crate::vint64::encoded_len(sequence_header) + body_len
}

/// Compute length of a field header.
fn header(tag: Tag, wire_type: WireType) -> (r: usize)
    requires
        tag <= MAX_TAG,
    ensures
        r == header_len_spec(tag, wire_type),
        1 <= r <= 9,
{
    Header::new(tag, false, wire_type).encoded_len()
}

/// Compute length of a dynamically sized field.
fn dynamically_sized(tag: Tag, wire_type: WireType, length: usize) -> (r: usize)
    requires
        tag <= MAX_TAG,
        length + 18 <= usize::MAX,
    ensures
        r == dynamically_sized_len_spec(tag, wire_type, length as nat),
{
    header(tag, wire_type) + crate::vint64::encoded_len(length as u64) + length
}

} // verus!
