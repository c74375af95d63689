//! Messages: the elements errors speak of, and the interface every
//! message type offers the codec.

use crate::error::Error;
use vstd::prelude::*;

verus! {

/// The interface of a message type: how it decodes from its wire
/// form, and how it encodes back into it.
pub trait Message: Sized {
    /// Well-formed messages: those the codec can encode.
    spec fn well_formed(&self) -> bool;

    /// The canonical wire form of this message.
    spec fn wire(&self) -> Seq<u8>;

    /// Decode a message contained in the provided slice using the
    /// given decoder, which is handed over at the nesting depth the
    /// message sits at and must be handed back there.
    fn decode(decoder: &mut crate::decoder::Decoder, input: &[u8]) -> (r: Result<Self, Error>)
        requires
            old(decoder).wf(),
        ensures
            final(decoder).wf(),
            final(decoder).depth() == old(decoder).depth(),
            final(decoder).seq_model() == old(decoder).seq_model(),
            final(decoder).frames().take(old(decoder).depth() - 1) == old(decoder).frames().take(
                old(decoder).depth() - 1,
            ),
    ;

    /// Encode this message, returning its canonical wire form.
    fn encode(&self) -> (r: Result<Vec<u8>, Error>)
        requires
            self.well_formed(),
        ensures
            r matches Ok(v) && v@ == self.wire(),
    ;

    /// Get the length of this message's wire form.
    fn encoded_len(&self) -> (r: usize)
        requires
            self.well_formed(),
        ensures
            r == self.wire().len(),
    ;
}

/// Elements of a message, named in decoding errors.
#[derive(Copy, Clone, Debug, PartialEq, Eq, Structural)]
pub enum Element {
    /// Length delimiters for dynamically sized fields.
    LengthDelimiter,

    /// Headers of sequences.
    SequenceHeader,

    /// Tags identify the types of fields.
    Tag,

    /// Field values.
    Value,
}

} // verus!
