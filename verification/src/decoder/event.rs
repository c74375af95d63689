//! Events emitted by the decoder.

use crate::field::{Header, WireType};
use vstd::prelude::*;

verus! {

/// Events emitted by the decoder: one per step, in buffer order.
#[derive(Clone, Debug, PartialEq, Eq)]
pub enum Event<'a> {
    /// Consumed a field header with the given tag and wire type.
    FieldHeader(Header),

    /// Consumed a boolean value.
    Bool(bool),

    /// Consumed an unsigned 64-bit integer.
    UInt64(u64),

    /// Consumed a signed 64-bit integer.
    SInt64(i64),

    /// Consumed a length delimiter for the given wire type.
    LengthDelimiter {
        /// Wire type of the value this length delimits.
        wire_type: WireType,

        /// Length of the field body, the delimiter itself not counted.
        length: usize,
    },

    /// Consumed a chunk of a length-delimited value.
    ValueChunk {
        /// Wire type of the value being consumed.
        wire_type: WireType,

        /// Bytes in this chunk.
        bytes: &'a [u8],

        /// Bytes of the value still to come after this chunk.
        remaining: usize,
    },

    /// Consumed the header of a sequence of the given wire type.
    SequenceHeader {
        /// Wire type contained in this sequence.
        wire_type: WireType,

        /// Length of the sequence body in bytes.
        length: usize,
    },
}

/// The mathematical shape of an event: as `Event`, with the chunk
/// bytes as a byte string rather than a borrow of the input.
pub enum EventModel {
    /// Consumed a field header with the given tag and wire type.
    FieldHeader(Header),

    /// Consumed a boolean value.
    Bool(bool),

    /// Consumed an unsigned 64-bit integer.
    UInt64(u64),

    /// Consumed a signed 64-bit integer.
    SInt64(i64),

    /// Consumed a length delimiter for the given wire type.
    LengthDelimiter {
        /// Wire type of the value this length delimits.
        wire_type: WireType,

        /// Length of the field body, the delimiter itself not counted.
        length: usize,
    },

    /// Consumed a chunk of a length-delimited value.
    ValueChunk {
        /// Wire type of the value being consumed.
        wire_type: WireType,

        /// Bytes in this chunk.
        bytes: Seq<u8>,

        /// Bytes of the value still to come after this chunk.
        remaining: usize,
    },

    /// Consumed the header of a sequence of the given wire type.
    SequenceHeader {
        /// Wire type contained in this sequence.
        wire_type: WireType,

        /// Length of the sequence body in bytes.
        length: usize,
    },
}

/// The shape of an event.
pub open spec fn event_model<'a>(event: Event<'a>) -> EventModel {
    match event {
        Event::FieldHeader(header) => EventModel::FieldHeader(header),
        Event::Bool(value) => EventModel::Bool(value),
        Event::UInt64(value) => EventModel::UInt64(value),
        Event::SInt64(value) => EventModel::SInt64(value),
        Event::LengthDelimiter { wire_type, length } => EventModel::LengthDelimiter {
            wire_type,
            length,
        },
        Event::ValueChunk { wire_type, bytes, remaining } => EventModel::ValueChunk {
            wire_type,
            bytes: bytes@,
            remaining,
        },
        Event::SequenceHeader { wire_type, length } => EventModel::SequenceHeader {
            wire_type,
            length,
        },
    }
}

} // verus!
