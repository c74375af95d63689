//! Verihash message hasher: an event-driven transcript of one
//! message's decoding.
//!
//! The hasher mirrors the message decoder's state machine.  Scalars
//! enter the transcript tagged; dynamically sized values contribute
//! their tag and length delimiter, then their body bytes as the chunks
//! arrive.  A nested message or sequence contributes its body not at
//! all: when its chunks have passed, the caller hands in the digest of
//! the nested scope, and only that digest enters the transcript.

use crate::decoder::{event_model, Event, EventModel};
use crate::error::{Error, Kind};
use crate::field::{Header, Tag, WireType};
use crate::verihash;
use crate::verihash::{
    boolean_hash_bytes, dynamically_sized_value_hash_bytes, fixed_size_value_hash_bytes,
    sha256_of, sint64_hash_bytes, tag_hash_bytes, uint64_hash_bytes,
};
use vstd::prelude::*;

verus! {

/// The hasher's state: where in one field's event stream it stands.
#[derive(Copy, Clone, Debug, PartialEq, Eq, Structural)]
pub enum State {
    /// Between fields, no data of a field in flight.
    Initial,

    /// A field header has been read and held back: scalars are hashed
    /// tagged, and the tag of a dynamically sized field enters the
    /// transcript with its length delimiter.
    Header(Header),

    /// Hashing the body of a bytes field.
    Bytes {
        /// Body bytes still to come.
        remaining: usize,
    },

    /// Hashing the body of a string field.
    String {
        /// Body bytes still to come.
        remaining: usize,
    },

    /// Passing over the body of a nested message, awaiting its digest.
    Message {
        /// Body bytes still to come.
        remaining: usize,
    },

    /// Passing over the body of a sequence, awaiting its digest.
    Sequence {
        /// Wire type of the sequence's elements.
        wire_type: WireType,

        /// Body bytes still to come.
        remaining: usize,
    },
}

/// What one event does to the hasher: the state it leads to and the
/// bytes it appends to the transcript, or nothing when the event is
/// not legal in the given state.
pub open spec fn transition_spec(state: State, event: EventModel) -> Option<(State, Seq<u8>)> {
    match event {
        EventModel::FieldHeader(header) => {
            if state == State::Initial {
                Some((State::Header(header), Seq::<u8>::empty()))
            } else {
                None
            }
        },
        EventModel::Bool(value) => match state {
            State::Header(header) => Some(
                (State::Initial, tag_hash_bytes(header.tag) + boolean_hash_bytes(value)),
            ),
            _ => None,
        },
        EventModel::UInt64(value) => match state {
            State::Header(header) => Some(
                (State::Initial, tag_hash_bytes(header.tag) + uint64_hash_bytes(value)),
            ),
            _ => None,
        },
        EventModel::SInt64(value) => match state {
            State::Header(header) => Some(
                (State::Initial, tag_hash_bytes(header.tag) + sint64_hash_bytes(value)),
            ),
            _ => None,
        },
        EventModel::LengthDelimiter { wire_type, length } => match state {
            State::Header(header) => {
                if wire_type == header.wire_type {
                    let appended = tag_hash_bytes(header.tag) + dynamically_sized_value_hash_bytes(
                        wire_type,
                        length as u64,
                    );
                    match wire_type {
                        WireType::Bytes => {
                            if length == 0 {
                                Some((State::Initial, appended))
                            } else {
                                Some((State::Bytes { remaining: length }, appended))
                            }
                        },
                        WireType::String => {
                            if length == 0 {
                                Some((State::Initial, appended))
                            } else {
                                Some((State::String { remaining: length }, appended))
                            }
                        },
                        WireType::Message => Some((State::Message { remaining: length }, appended)),
                        _ => None,
                    }
                } else {
                    None
                }
            },
            _ => None,
        },
        EventModel::SequenceHeader { wire_type, length } => match state {
            State::Header(header) => {
                if header.wire_type == WireType::Sequence {
                    Some((State::Sequence { wire_type, remaining: length }, Seq::<u8>::empty()))
                } else {
                    None
                }
            },
            _ => None,
        },
        EventModel::ValueChunk { wire_type, bytes, remaining } => match state {
            State::Bytes { remaining: had } => {
                if wire_type == WireType::Bytes && bytes.len() <= had && remaining == had - bytes.len() {
                    if remaining == 0 {
                        Some((State::Initial, bytes))
                    } else {
                        Some((State::Bytes { remaining }, bytes))
                    }
                } else {
                    None
                }
            },
            State::String { remaining: had } => {
                if wire_type == WireType::String && bytes.len() <= had && remaining == had - bytes.len() {
                    if remaining == 0 {
                        Some((State::Initial, bytes))
                    } else {
                        Some((State::String { remaining }, bytes))
                    }
                } else {
                    None
                }
            },
            State::Message { remaining: had } => {
                if wire_type == WireType::Message && bytes.len() <= had && remaining == had - bytes.len() {
                    Some((State::Message { remaining }, Seq::<u8>::empty()))
                } else {
                    None
                }
            },
            State::Sequence { wire_type: element_type, remaining: had } => {
                if wire_type == WireType::Sequence && bytes.len() <= had && remaining == had - bytes.len() {
                    Some((State::Sequence { wire_type: element_type, remaining }, Seq::<u8>::empty()))
                } else {
                    None
                }
            },
            _ => None,
        },
    }
}

/// What a nested message's digest does to the hasher: the tag and the
/// digest enter the transcript under the message wire type.
pub open spec fn message_digest_bytes(tag: Tag, digest: Seq<u8>) -> Seq<u8> {
    tag_hash_bytes(tag) + fixed_size_value_hash_bytes(WireType::Message, digest)
}

/// What a sequence's digest does to the hasher: the tag and the digest
/// enter the transcript under the sequence wire type.
pub open spec fn sequence_digest_bytes(tag: Tag, digest: Seq<u8>) -> Seq<u8> {
    tag_hash_bytes(tag) + fixed_size_value_hash_bytes(WireType::Sequence, digest)
}

impl State {
    /// Transition to a new state based on an incoming event, feeding
    /// the event's transcript contribution to `verihash`; error when
    /// the event is not legal here.
    pub fn transition<'a>(
        self,
        event: &Event<'a>,
        verihash: &mut verihash::Hasher,
    ) -> (r: Result<Self, Error>)
        ensures
            match transition_spec(self, event_model(*event)) {
                Some((new_state, appended)) => r == Ok::<State, Error>(new_state) && final(verihash).transcript() == old(verihash).transcript() + appended,
                None => r == Err::<State, Error>(
                    Error { kind: Kind::Hashing, position: None },
                ) && final(verihash).transcript() == old(verihash).transcript(),
            },
    {
        match event {
            Event::FieldHeader(header) => self.handle_field_header(header),
            Event::LengthDelimiter { wire_type, length } => self.handle_length_delimiter(
                *wire_type,
                *length,
                verihash,
            ),
            Event::Bool(_) | Event::UInt64(_) | Event::SInt64(_) => self.handle_fixed_sized_value(
                event,
                verihash,
            ),
            Event::ValueChunk { wire_type, bytes, remaining } => self.handle_value_chunk(
                *wire_type,
                *bytes,
                *remaining,
                verihash,
            ),
            Event::SequenceHeader { wire_type, length } => self.handle_sequence_header(
                *wire_type,
                *length,
            ),
        }
    }

    /// Handle an incoming field header.
    fn handle_field_header(self, header: &Header) -> (r: Result<Self, Error>)
        ensures
            match transition_spec(self, EventModel::FieldHeader(*header)) {
                Some((new_state, appended)) => r == Ok::<State, Error>(new_state) && appended
                    == Seq::<u8>::empty(),
                None => r == Err::<State, Error>(Error { kind: Kind::Hashing, position: None }),
            },
    {
        if self == State::Initial {
            Ok(State::Header(*header))
        } else {
            Err(Kind::Hashing.into_error())
        }
    }

    /// Handle a length delimiter event.
    fn handle_length_delimiter(
        self,
        wire_type: WireType,
        length: usize,
        verihash: &mut verihash::Hasher,
    ) -> (r: Result<Self, Error>)
        ensures
            match transition_spec(
                self,
                EventModel::LengthDelimiter { wire_type, length },
            ) {
                Some((new_state, appended)) => r == Ok::<State, Error>(new_state) && final(verihash).transcript() == old(verihash).transcript() + appended,
                None => r == Err::<State, Error>(
                    Error { kind: Kind::Hashing, position: None },
                ) && final(verihash).transcript() == old(verihash).transcript(),
            },
    {
        if let State::Header(header) = self {
            if wire_type != header.wire_type {
                return Err(Kind::Hashing.into_error());
            }
            let new_state = match wire_type {
                WireType::Bytes => {
                    if length == 0 {
                        State::Initial
                    } else {
                        State::Bytes { remaining: length }
                    }
                },
                WireType::String => {
                    if length == 0 {
                        State::Initial
                    } else {
                        State::String { remaining: length }
                    }
                },
                WireType::Message => State::Message { remaining: length },
                _ => {
                    return Err(Kind::Hashing.into_error());
                },
            };
            verihash.tag(header.tag);
            verihash.dynamically_sized_value(wire_type, length as u64);
            proof {
                assert(old(verihash).transcript() + tag_hash_bytes(header.tag)
                    + dynamically_sized_value_hash_bytes(wire_type, length as u64) =~= old(verihash).transcript() + (tag_hash_bytes(header.tag) + dynamically_sized_value_hash_bytes(
                    wire_type,
                    length as u64,
                )));
            }
            Ok(new_state)
        } else {
            Err(Kind::Hashing.into_error())
        }
    }

    /// Handle an incoming fixed-width value.
    fn handle_fixed_sized_value<'a>(
        self,
        value: &Event<'a>,
        verihash: &mut verihash::Hasher,
    ) -> (r: Result<Self, Error>)
        requires
            value matches Event::Bool(_) || value matches Event::UInt64(_) || value
                matches Event::SInt64(_),
        ensures
            match transition_spec(self, event_model(*value)) {
                Some((new_state, appended)) => r == Ok::<State, Error>(new_state) && final(verihash).transcript() == old(verihash).transcript() + appended,
                None => r == Err::<State, Error>(
                    Error { kind: Kind::Hashing, position: None },
                ) && final(verihash).transcript() == old(verihash).transcript(),
            },
    {
        if let State::Header(header) = self {
            match value {
                Event::Bool(v) => {
                    verihash.tagged_boolean(header.tag, *v);
                    proof {
                        assert(old(verihash).transcript() + tag_hash_bytes(header.tag)
                            + boolean_hash_bytes(*v) =~= old(verihash).transcript() + (
                        tag_hash_bytes(header.tag) + boolean_hash_bytes(*v)));
                    }
                },
                Event::UInt64(v) => {
                    verihash.tagged_uint64(header.tag, *v);
                    proof {
                        assert(old(verihash).transcript() + tag_hash_bytes(header.tag)
                            + uint64_hash_bytes(*v) =~= old(verihash).transcript() + (
                        tag_hash_bytes(header.tag) + uint64_hash_bytes(*v)));
                    }
                },
                Event::SInt64(v) => {
                    verihash.tagged_sint64(header.tag, *v);
                    proof {
                        assert(old(verihash).transcript() + tag_hash_bytes(header.tag)
                            + sint64_hash_bytes(*v) =~= old(verihash).transcript() + (
                        tag_hash_bytes(header.tag) + sint64_hash_bytes(*v)));
                    }
                },
                _ => {
                    proof {
                        assert(false);
                    }
                },
            }
            Ok(State::Initial)
        } else {
            Err(Kind::Hashing.into_error())
        }
    }

    /// Handle an incoming chunk of data in a value.
    fn handle_value_chunk(
        self,
        wire_type: WireType,
        bytes: &[u8],
        new_remaining: usize,
        verihash: &mut verihash::Hasher,
    ) -> (r: Result<Self, Error>)
        ensures
            match transition_spec(
                self,
                EventModel::ValueChunk { wire_type, bytes: bytes@, remaining: new_remaining },
            ) {
                Some((new_state, appended)) => r == Ok::<State, Error>(new_state) && final(verihash).transcript() == old(verihash).transcript() + appended,
                None => r == Err::<State, Error>(
                    Error { kind: Kind::Hashing, position: None },
                ) && final(verihash).transcript() == old(verihash).transcript(),
            },
    {
        let new_state = match self {
            State::Bytes { remaining } => {
                if wire_type != WireType::Bytes || bytes.len() > remaining || remaining
                    - bytes.len() != new_remaining {
                    return Err(Kind::Hashing.into_error());
                }
                if new_remaining == 0 {
                    State::Initial
                } else {
                    State::Bytes { remaining: new_remaining }
                }
            },
            State::String { remaining } => {
                if wire_type != WireType::String || bytes.len() > remaining || remaining
                    - bytes.len() != new_remaining {
                    return Err(Kind::Hashing.into_error());
                }
                if new_remaining == 0 {
                    State::Initial
                } else {
                    State::String { remaining: new_remaining }
                }
            },
            State::Message { remaining } => {
                if wire_type != WireType::Message || bytes.len() > remaining || remaining
                    - bytes.len() != new_remaining {
                    return Err(Kind::Hashing.into_error());
                }
                return Ok(State::Message { remaining: new_remaining });
            },
            State::Sequence { wire_type: element_type, remaining } => {
                if wire_type != WireType::Sequence || bytes.len() > remaining || remaining
                    - bytes.len() != new_remaining {
                    return Err(Kind::Hashing.into_error());
                }
                return Ok(State::Sequence { wire_type: element_type, remaining: new_remaining });
            },
            _ => {
                return Err(Kind::Hashing.into_error());
            },
        };
        verihash.update(bytes);
        Ok(new_state)
    }

    /// Handle an incoming sequence header.
    fn handle_sequence_header(self, wire_type: WireType, length: usize) -> (r: Result<Self, Error>)
        ensures
            match transition_spec(
                self,
                EventModel::SequenceHeader { wire_type, length },
            ) {
                Some((new_state, appended)) => r == Ok::<State, Error>(new_state) && appended
                    == Seq::<u8>::empty(),
                None => r == Err::<State, Error>(Error { kind: Kind::Hashing, position: None }),
            },
    {
        if let State::Header(header) = self {
            if header.wire_type != WireType::Sequence {
                return Err(Kind::Hashing.into_error());
            }
            Ok(State::Sequence { wire_type, remaining: length })
        } else {
            Err(Kind::Hashing.into_error())
        }
    }
}

/// Verihash message hasher: computes a transcript of how one message
/// is decoded, driven by its decoding events.
pub struct Hasher {
    /// Verihash transcript.
    verihash: verihash::Hasher,

    /// Current state, or `None` after an error.
    state: Option<State>,
}

impl Hasher {
    /// The transcript fed so far.
    pub closed spec fn transcript(&self) -> Seq<u8> {
        self.verihash.transcript()
    }

    /// The hasher's state, or `None` after an error.
    pub closed spec fn state_model(&self) -> Option<State> {
        self.state
    }

    /// Create a new message hasher over an empty transcript.
    pub fn new() -> (r: Self)
        ensures
            r.transcript() == Seq::<u8>::empty(),
            r.state_model() == Some(State::Initial),
    {
        Hasher { verihash: verihash::Hasher::new(), state: Some(State::Initial) }
    }

    /// Hash an incoming event, as `transition_spec` says; a hasher
    /// that has failed once fails forever.
    pub fn hash_event<'a>(&mut self, event: &Event<'a>) -> (r: Result<(), Error>)
        ensures
            match old(self).state_model() {
                None => r == Err::<(), Error>(Error { kind: Kind::Failed, position: None })
                    && final(self).state_model() is None && final(self).transcript() == old(self).transcript(),
                Some(state) => match transition_spec(state, event_model(*event)) {
                    Some((new_state, appended)) => r == Ok::<(), Error>(()) && final(self).state_model() == Some(new_state) && final(self).transcript() == old(self).transcript() + appended,
                    None => r == Err::<(), Error>(
                        Error { kind: Kind::Hashing, position: None },
                    ) && final(self).state_model() is None && final(self).transcript() == old(self).transcript(),
                },
            },
    {
        match self.state {
            Some(state) => match state.transition(event, &mut self.verihash) {
                Ok(new_state) => {
                    self.state = Some(new_state);
                    Ok(())
                },
                Err(e) => {
                    self.state = None;
                    Err(e)
                },
            },
            None => Err(Kind::Failed.into_error()),
        }
    }

    /// Hash the digest of a nested message within this message: legal
    /// exactly when the nested body has passed in full, and entering
    /// the transcript as `message_digest_bytes` says.
    pub fn hash_message_digest(&mut self, tag: Tag, digest: &[u8]) -> (r: Result<(), Error>)
        ensures
            match old(self).state_model() {
                Some(State::Message { remaining: 0 }) => r == Ok::<(), Error>(()) && final(self).state_model() == Some(State::Initial) && final(self).transcript() == old(self).transcript() + message_digest_bytes(tag, digest@),
                _ => r == Err::<(), Error>(Error { kind: Kind::Hashing, position: None }) && final(self).state_model() == old(self).state_model() && final(self).transcript() == old(self).transcript(),
            },
    {
        match self.state {
            Some(State::Message { remaining: 0 }) => {
                self.verihash.tag(tag);
                self.verihash.fixed_size_value(WireType::Message, digest);
                self.state = Some(State::Initial);
                proof {
                    assert(old(self).transcript() + tag_hash_bytes(tag)
                        + fixed_size_value_hash_bytes(WireType::Message, digest@) =~= old(self).transcript() + message_digest_bytes(tag, digest@));
                }
                Ok(())
            },
            _ => Err(Kind::Hashing.into_error()),
        }
    }

    /// Hash the digest of a sequence within this message: legal
    /// exactly when the sequence body has passed in full, and entering
    /// the transcript as `sequence_digest_bytes` says.
    pub fn hash_sequence_digest(&mut self, tag: Tag, digest: &[u8]) -> (r: Result<(), Error>)
        ensures
            match old(self).state_model() {
                Some(State::Sequence { wire_type: _, remaining: 0 }) => r == Ok::<(), Error>(())
                    && final(self).state_model() == Some(State::Initial) && final(self).transcript() == old(self).transcript() + sequence_digest_bytes(tag, digest@),
                _ => r == Err::<(), Error>(Error { kind: Kind::Hashing, position: None }) && final(self).state_model() == old(self).state_model() && final(self).transcript() == old(self).transcript(),
            },
    {
        match self.state {
            Some(State::Sequence { wire_type: _, remaining: 0 }) => {
                self.verihash.tag(tag);
                self.verihash.fixed_size_value(WireType::Sequence, digest);
                self.state = Some(State::Initial);
                proof {
                    assert(old(self).transcript() + tag_hash_bytes(tag)
                        + fixed_size_value_hash_bytes(WireType::Sequence, digest@) =~= old(self).transcript() + sequence_digest_bytes(tag, digest@));
                }
                Ok(())
            },
            _ => Err(Kind::Hashing.into_error()),
        }
    }

    /// Finish computing the digest: legal exactly between fields, and
    /// then the SHA-256 digest of the transcript.
    pub fn finish(self) -> (r: Result<Vec<u8>, Error>)
        ensures
            match r {
                Ok(digest) => self.state_model() == Some(State::Initial) && digest@ == sha256_of(
                    self.transcript(),
                ) && digest@.len() == 32,
                Err(e) => self.state_model() != Some(State::Initial) && e == (Error {
                    kind: Kind::Hashing,
                    position: None,
                }),
            },
    {
        match self.state {
            Some(State::Initial) => Ok(self.verihash.finalize()),
            _ => Err(Kind::Hashing.into_error()),
        }
    }
}

} // verus!
