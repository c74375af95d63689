//! Helper functions for generated message decoders and encoders.

use crate::encoder::{
    header_enc, message_seq_body_enc, sequence_header_value, Encoder,
};
use crate::error::{Error, Kind};
use crate::field::{Tag, WireType, MAX_TAG};
use crate::message::Message;
use crate::vint64::vint64_enc;
use vstd::prelude::*;

verus! {

/// Make sure the whole input has been consumed: `pos` must have
/// reached the input's end, else the message carries trailing data.
pub fn check_input_consumed(input: &[u8], pos: usize) -> (r: Result<(), Error>)
    ensures
        match r {
            Ok(()) => pos == input@.len(),
            Err(e) => pos != input@.len() && e == (Error {
                kind: Kind::TrailingData,
                position: None,
            }),
        },
{
    if pos == input.len() {
        Ok(())
    } else {
        Err(Kind::TrailingData.into_error())
    }
}

/// Encode a sequence of messages as one field: compute the body
/// length, then hand the elements to the encoder.
pub fn encode_message_seq<M: Message>(
    encoder: &mut Encoder,
    tag: Tag,
    critical: bool,
    seq: &Vec<M>,
) -> (r: Result<(), Error>)
    requires
        old(encoder).wf(),
        tag <= MAX_TAG,
        forall|i: int| 0 <= i < seq@.len() ==> (#[trigger] seq@[i]).well_formed(),
        message_seq_body_enc(seq@).len() <= u64::MAX >> 4,
        message_seq_body_enc(seq@).len() <= usize::MAX,
    ensures
        final(encoder).wf(),
        final(encoder).capacity() == old(encoder).capacity(),
        ({
            let enc = header_enc(tag, critical, WireType::Sequence) + vint64_enc(
                sequence_header_value(WireType::Message, message_seq_body_enc(seq@).len()),
            ) + message_seq_body_enc(seq@);
            if old(encoder).written().len() + enc.len() <= old(encoder).capacity() {
                r == Ok::<(), Error>(()) && final(encoder).written() == old(encoder).written()
                    + enc
            } else {
                r == Err::<(), Error>(Error { kind: Kind::Length, position: None })
            }
        }),
{
    let body_len = crate::encoder::message_seq_body_len(seq);
    encoder.message_seq(tag, critical, body_len, seq)
}

/// The error for a tag no variant of an enum message recognizes.
pub fn unknown_tag(tag: Tag) -> (r: Error)
    ensures
        r == (Error {
            kind: Kind::FieldHeader { tag: Some(tag), wire_type: None },
            position: None,
        }),
{
    Kind::FieldHeader { tag: Some(tag), wire_type: None }.into_error()
}

} // verus!
