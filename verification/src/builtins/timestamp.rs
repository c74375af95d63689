//! Timestamps, carried as whole seconds and nanoseconds.
//!
//! On the wire a timestamp is a message of two `uint64` fields: the
//! seconds under tag 0, marked critical, and the nanoseconds under
//! tag 1.

use crate::decoder::Decoder;
use crate::encoder::{uint64_field_enc, Encoder};
use crate::error::{Error, Kind};
use crate::message::Message;
use vstd::prelude::*;

verus! {

/// A timestamp: whole seconds, and nanoseconds within the second.
#[derive(Copy, Clone, Debug, PartialEq, Eq, Structural)]
pub struct Timestamp {
    /// Whole seconds.
    pub secs: u64,

    /// Nanoseconds within the second.
    pub nanos: u32,
}

impl Timestamp {
    /// Create a new timestamp.
    pub fn new(secs: u64, nanos: u32) -> (r: Self)
        ensures
            r == (Timestamp { secs, nanos }),
    {
        Timestamp { secs, nanos }
    }
}

impl Message for Timestamp {
    open spec fn well_formed(&self) -> bool {
        true
    }

    open spec fn wire(&self) -> Seq<u8> {
        uint64_field_enc(0, true, self.secs) + uint64_field_enc(1, false, self.nanos as u64)
    }

    fn decode(decoder: &mut Decoder, input: &[u8]) -> (r: Result<Self, Error>) {
        let (secs, p1) = match decoder.decode_uint64(0, input, 0) {
            Ok(x) => x,
            Err(e) => {
                return Err(e);
            },
        };
        let (nanos, p2) = match decoder.decode_uint64(1, input, p1) {
            Ok(x) => x,
            Err(e) => {
                return Err(e);
            },
        };
        if nanos > (u32::MAX as u64) {
            return Err(Kind::Length.into_error());
        }
        if p2 != input.len() {
            return Err(Kind::TrailingData.into_error());
        }
        Ok(Timestamp { secs, nanos: nanos as u32 })
    }

    fn encode(&self) -> (r: Result<Vec<u8>, Error>) {
        let len = self.encoded_len();
        let mut encoder = Encoder::new(vec![0u8; len]);
        match encoder.uint64(0, true, self.secs) {
            Ok(()) => {},
            Err(e) => {
                return Err(e);
            },
        }
        match encoder.uint64(1, false, self.nanos as u64) {
            Ok(()) => {},
            Err(e) => {
                return Err(e);
            },
        }
        Ok(encoder.finish())
    }

    fn encoded_len(&self) -> (r: usize) {
        proof {
            crate::vint64::lemma_encode_decode_roundtrip(
                crate::field::header_pack_spec(
                    crate::field::Header {
                        tag: 0,
                        critical: true,
                        wire_type: crate::field::WireType::UInt64,
                    },
                ),
                Seq::empty(),
            );
            crate::vint64::lemma_encode_decode_roundtrip(
                crate::field::header_pack_spec(
                    crate::field::Header {
                        tag: 0,
                        critical: false,
                        wire_type: crate::field::WireType::UInt64,
                    },
                ),
                Seq::empty(),
            );
            crate::vint64::lemma_encode_decode_roundtrip(
                crate::field::header_pack_spec(
                    crate::field::Header {
                        tag: 1,
                        critical: false,
                        wire_type: crate::field::WireType::UInt64,
                    },
                ),
                Seq::empty(),
            );
            crate::vint64::lemma_encode_decode_roundtrip(self.secs, Seq::empty());
            crate::vint64::lemma_encode_decode_roundtrip(self.nanos as u64, Seq::empty());
            crate::field::lemma_header_len_critical(
                crate::field::Header {
                    tag: 0,
                    critical: true,
                    wire_type: crate::field::WireType::UInt64,
                },
            );
        }
        crate::field::length::uint64(0, self.secs) + crate::field::length::uint64(
            1,
            self.nanos as u64,
        )
    }
}

} // verus!
