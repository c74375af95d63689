//! Wire type identifiers.

use vstd::prelude::*;

verus! {

/// Wire type identifiers: the eight categories a field value can have
/// on the wire, carried in the low three bits of the field header.
#[derive(Copy, Clone, Debug, PartialEq, Eq, Structural)]
pub enum WireType {
    /// False (boolean): fully encoded by the wire type itself.
    False,

    /// True (boolean): fully encoded by the wire type itself.
    True,

    /// 64-bit unsigned integer.
    UInt64,

    /// 64-bit (zigzag) signed integer.
    SInt64,

    /// Binary data.
    Bytes,

    /// Unicode string.
    String,

    /// Nested message.
    Message,

    /// Sequence of values of one wire type.
    Sequence,
}

/// The three-bit code of a wire type.
pub open spec fn wire_type_code(wire_type: WireType) -> u64 {
    match wire_type {
        WireType::False => 0,
        WireType::True => 1,
        WireType::UInt64 => 2,
        WireType::SInt64 => 3,
        WireType::Bytes => 4,
        WireType::String => 5,
        WireType::Message => 6,
        WireType::Sequence => 7,
    }
}

/// The wire type a three-bit code stands for.
pub open spec fn wire_type_from_code(code: u64) -> WireType
    recommends
        code < 8,
{
    if code == 0 {
        WireType::False
    } else if code == 1 {
        WireType::True
    } else if code == 2 {
        WireType::UInt64
    } else if code == 3 {
        WireType::SInt64
    } else if code == 4 {
        WireType::Bytes
    } else if code == 5 {
        WireType::String
    } else if code == 6 {
        WireType::Message
    } else {
        WireType::Sequence
    }
}

impl WireType {
    /// Decode a wire type from the low three bits of an unmasked `u64`.
    /// Infallible: all eight three-bit values are valid wire types.
    pub fn from_unmasked(value: u64) -> (r: Self)
        ensures
            r == wire_type_from_code(value & 0b111),
    {
        assert(value & 0b111 < 8) by (bit_vector);
        let code = value & 0b111;
        if code == 0 {
            WireType::False
        } else if code == 1 {
            WireType::True
        } else if code == 2 {
            WireType::UInt64
        } else if code == 3 {
            WireType::SInt64
        } else if code == 4 {
            WireType::Bytes
        } else if code == 5 {
            WireType::String
        } else if code == 6 {
            WireType::Message
        } else {
            WireType::Sequence
        }
    }

    /// The three-bit code of this wire type.
    pub fn to_u64(self) -> (r: u64)
        ensures
            r == wire_type_code(self),
    {
        match self {
            WireType::False => 0,
            WireType::True => 1,
            WireType::UInt64 => 2,
            WireType::SInt64 => 3,
            WireType::Bytes => 4,
            WireType::String => 5,
            WireType::Message => 6,
            WireType::Sequence => 7,
        }
    }

    /// The three-bit code of this wire type, as a single byte.
    pub fn to_u8(self) -> (r: u8)
        ensures
            r == wire_type_code(self),
    {
        match self {
            WireType::False => 0,
            WireType::True => 1,
            WireType::UInt64 => 2,
            WireType::SInt64 => 3,
            WireType::Bytes => 4,
            WireType::String => 5,
            WireType::Message => 6,
            WireType::Sequence => 7,
        }
    }

    /// Is this a dynamically sized wire type, one whose value is
    /// preceded by a length delimiter?
    pub fn is_dynamically_sized(self) -> (r: bool)
        ensures
            r <==> (self == WireType::Bytes || self == WireType::String || self
                == WireType::Message || self == WireType::Sequence),
    {
        match self {
            WireType::Bytes | WireType::String | WireType::Message | WireType::Sequence => true,
            _ => false,
        }
    }

    /// Is this a length-delimited wire type whose body is taken as is:
    /// bytes, a string, or a nested message?
    pub fn is_length_delimited(self) -> (r: bool)
        ensures
            r <==> (self == WireType::Bytes || self == WireType::String || self
                == WireType::Message),
    {
        match self {
            WireType::Bytes | WireType::String | WireType::Message => true,
            _ => false,
        }
    }

    /// Is this the wire type of nested messages?
    pub fn is_message(self) -> (r: bool)
        ensures
            r <==> self == WireType::Message,
    {
        match self {
            WireType::Message => true,
            _ => false,
        }
    }

    /// Is this the wire type of sequences?
    pub fn is_sequence(self) -> (r: bool)
        ensures
            r <==> self == WireType::Sequence,
    {
        match self {
            WireType::Sequence => true,
            _ => false,
        }
    }

    /// Is this a wire type whose decoded value borrows the input
    /// buffer: bytes or a string?
    pub fn is_ref_type(self) -> (r: bool)
        ensures
            r <==> (self == WireType::Bytes || self == WireType::String),
    {
        match self {
            WireType::Bytes | WireType::String => true,
            _ => false,
        }
    }

    /// Round trip between wire types and their three-bit codes.
    pub proof fn lemma_code_roundtrip(self, code: u64)
        ensures
            wire_type_from_code(wire_type_code(self)) == self,
            code < 8 ==> wire_type_code(wire_type_from_code(code)) == code,
    {
    }
}

} // verus!
