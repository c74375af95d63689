//! Error types: a kind drawn from a closed set, with an optional byte
//! position within the enclosing message.

use crate::field::{Tag, WireType};
use crate::message::Element;
use vstd::prelude::*;

verus! {

/// An error: its kind and, when known, the position inside the message
/// where it occurred.
#[derive(Copy, Clone, Debug, PartialEq, Eq)]
pub struct Error {
    /// Kind of error.
    pub kind: Kind,

    /// Position inside of the message where the error occurred.
    pub position: Option<usize>,
}

impl Error {
    /// Get the kind of error that occurred.
    pub fn kind(self) -> (r: Kind)
        ensures
            r == self.kind,
    {
        self.kind
    }

    /// Get the position inside of the message where the error occurred,
    /// if available.
    pub fn position(self) -> (r: Option<usize>)
        ensures
            r == self.position,
    {
        self.position
    }

    /// Extend the position within a message, for errors surfacing out
    /// of nested messages: an absent position becomes `pos`, a present
    /// one grows by it, held at the top of the counter's range.
    pub fn extend_position(self, pos: usize) -> (r: Self)
        ensures
            r.kind == self.kind,
            r.position == Some(
                match self.position {
                    Some(old_pos) => if old_pos + pos <= usize::MAX {
                        (old_pos + pos) as usize
                    } else {
                        usize::MAX
                    },
                    None => pos,
                },
            ),
    {
        let new_position = match self.position {
            Some(old_pos) => if pos <= usize::MAX - old_pos {
                old_pos + pos
            } else {
                usize::MAX
            },
            None => pos,
        };
        Error { kind: self.kind, position: Some(new_position) }
    }
}

/// Kinds of errors.
#[derive(Copy, Clone, Debug, PartialEq, Eq)]
pub enum Kind {
    /// Error decoding a builtin type.
    Builtin,

    /// Decoding failed: the expected element of the message was not
    /// found where it should stand.
    Decode {
        /// Element of the message that failed to decode.
        element: Element,

        /// Wire type being decoded when decoding failed.
        wire_type: WireType,
    },

    /// Operation failed: the decoder encountered an error earlier and
    /// is permanently unusable.
    Failed,

    /// Invalid or unexpected field header.
    FieldHeader {
        /// Tag which identifies the expected field, if known.
        tag: Option<Tag>,

        /// Expected wire type for the field, if known.
        wire_type: Option<WireType>,
    },

    /// Hashing operation failed.
    Hashing,

    /// Invalid wire type.
    InvalidWireType,

    /// Bad length: an output buffer too small, or a builtin value out
    /// of range.
    Length,

    /// Maximum message nesting depth exceeded.
    NestingDepth,

    /// Field is out of order: its tag does not exceed the last one.
    Order {
        /// Tag of the out-of-order field.
        tag: Tag,
    },

    /// Unexpected trailing data after a complete message.
    TrailingData,

    /// Truncated message: a length-delimited body did not complete.
    Truncated {
        /// Number of bytes of remaining data expected in the message.
        remaining: usize,

        /// Wire type of the truncated data.
        wire_type: WireType,
    },

    /// Unexpected wire type.
    UnexpectedWireType {
        /// Actual wire type found in the message.
        actual: WireType,

        /// Wire type that was wanted.
        wanted: WireType,
    },

    /// The string is not in the canonical form the format admits.
    UnicodeNormalization,

    /// Malformed UTF-8 encountered.
    Utf8 {
        /// Byte offset up to which the input was valid UTF-8.
        valid_up_to: usize,
    },

    /// `vint64` encoding error.
    VInt64,
}

impl Kind {
    /// Make this kind an error without a position.
    pub fn into_error(self) -> (r: Error)
        ensures
            r == (Error { kind: self, position: None }),
    {
        Error { kind: self, position: None }
    }

    /// Make this kind an error at the given position.
    pub fn position(self, pos: usize) -> (r: Error)
        ensures
            r == (Error { kind: self, position: Some(pos) }),
    {
        Error { kind: self, position: Some(pos) }
    }
}

} // verus!
