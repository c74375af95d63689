//! Verihash sequence hasher: an event-driven transcript of one
//! sequence's decoding.
//!
//! The transcript opens with the element wire type as a one-byte
//! domain separator.  Elements carry no tags: scalars and length
//! delimiters enter the transcript untagged, bodies follow as their
//! chunks arrive, and a nested message contributes only its digest,
//! appended raw when its body has passed.

use crate::decoder::{event_model, Event, EventModel};
use crate::error::{Error, Kind};
use crate::field::{wire_type_code, WireType};
use crate::verihash;
use crate::verihash::{
    dynamically_sized_value_hash_bytes, sha256_of, sint64_hash_bytes, uint64_hash_bytes,
};
use vstd::prelude::*;

verus! {

/// The hasher's state: where in one element's event stream it stands.
#[derive(Copy, Clone, Debug, PartialEq, Eq, Structural)]
pub enum State {
    /// Between elements, no data of an element in flight.
    Initial,

    /// Hashing the body of a bytes element.
    Bytes {
        /// Body bytes still to come.
        remaining: usize,
    },

    /// Hashing the body of a string element.
    String {
        /// Body bytes still to come.
        remaining: usize,
    },

    /// Passing over the body of a nested message, awaiting its digest.
    Message {
        /// Body bytes still to come.
        remaining: usize,
    },
}

/// What one event does to the sequence hasher: the state it leads to
/// and the bytes it appends to the transcript, or nothing when the
/// event is not legal in the given state.
pub open spec fn transition_spec(state: State, event: EventModel) -> Option<(State, Seq<u8>)> {
    match event {
        EventModel::UInt64(value) => {
            if state == State::Initial {
                Some((State::Initial, uint64_hash_bytes(value)))
            } else {
                None
            }
        },
        EventModel::SInt64(value) => {
            if state == State::Initial {
                Some((State::Initial, sint64_hash_bytes(value)))
            } else {
                None
            }
        },
        EventModel::LengthDelimiter { wire_type, length } => {
            if state == State::Initial {
                let appended = dynamically_sized_value_hash_bytes(wire_type, length as u64);
                match wire_type {
                    WireType::Bytes => Some((State::Bytes { remaining: length }, appended)),
                    WireType::String => Some((State::String { remaining: length }, appended)),
                    WireType::Message => Some((State::Message { remaining: length }, appended)),
                    _ => None,
                }
            } else {
                None
            }
        },
        EventModel::ValueChunk { wire_type, bytes, remaining } => match state {
            State::Bytes { remaining: had } => {
                if wire_type == WireType::Bytes && bytes.len() <= had && remaining == had
                    - bytes.len() {
                    if remaining == 0 {
                        Some((State::Initial, bytes))
                    } else {
                        Some((State::Bytes { remaining }, bytes))
                    }
                } else {
                    None
                }
            },
            State::String { remaining: had } => {
                if wire_type == WireType::String && bytes.len() <= had && remaining == had
                    - bytes.len() {
                    if remaining == 0 {
                        Some((State::Initial, bytes))
                    } else {
                        Some((State::String { remaining }, bytes))
                    }
                } else {
                    None
                }
            },
            State::Message { remaining: had } => {
                if wire_type == WireType::Message && bytes.len() <= had && remaining == had
                    - bytes.len() {
                    Some((State::Message { remaining }, Seq::<u8>::empty()))
                } else {
                    None
                }
            },
            _ => None,
        },
        _ => None,
    }
}

impl State {
    /// Transition to a new state based on an incoming event, feeding
    /// the event's transcript contribution to `verihash`; error when
    /// the event is not legal here.
    pub fn transition<'a>(
        self,
        event: &Event<'a>,
        verihash: &mut verihash::Hasher,
    ) -> (r: Result<Self, Error>)
        ensures
            match transition_spec(self, event_model(*event)) {
                Some((new_state, appended)) => r == Ok::<State, Error>(new_state) && final(verihash).transcript() == old(verihash).transcript() + appended,
                None => r == Err::<State, Error>(
                    Error { kind: Kind::Hashing, position: None },
                ) && final(verihash).transcript() == old(verihash).transcript(),
            },
    {
        match event {
            Event::LengthDelimiter { wire_type, length } => self.handle_length_delimiter(
                *wire_type,
                *length,
                verihash,
            ),
            Event::UInt64(_) | Event::SInt64(_) => self.handle_fixed_sized_value(event, verihash),
            Event::ValueChunk { wire_type, bytes, remaining } => self.handle_value_chunk(
                *wire_type,
                *bytes,
                *remaining,
                verihash,
            ),
            _ => Err(Kind::Hashing.into_error()),
        }
    }

    /// Handle a length delimiter event.
    fn handle_length_delimiter(
        self,
        wire_type: WireType,
        length: usize,
        verihash: &mut verihash::Hasher,
    ) -> (r: Result<Self, Error>)
        ensures
            match transition_spec(
                self,
                EventModel::LengthDelimiter { wire_type, length },
            ) {
                Some((new_state, appended)) => r == Ok::<State, Error>(new_state) && final(verihash).transcript() == old(verihash).transcript() + appended,
                None => r == Err::<State, Error>(
                    Error { kind: Kind::Hashing, position: None },
                ) && final(verihash).transcript() == old(verihash).transcript(),
            },
    {
        if self != State::Initial {
            return Err(Kind::Hashing.into_error());
        }
        let new_state = match wire_type {
            WireType::Bytes => State::Bytes { remaining: length },
            WireType::String => State::String { remaining: length },
            WireType::Message => State::Message { remaining: length },
            _ => {
                return Err(Kind::Hashing.into_error());
            },
        };
        verihash.dynamically_sized_value(wire_type, length as u64);
        Ok(new_state)
    }

    /// Handle an incoming fixed-width value.
    fn handle_fixed_sized_value<'a>(
        self,
        value: &Event<'a>,
        verihash: &mut verihash::Hasher,
    ) -> (r: Result<Self, Error>)
        requires
            value matches Event::UInt64(_) || value matches Event::SInt64(_),
        ensures
            match transition_spec(self, event_model(*value)) {
                Some((new_state, appended)) => r == Ok::<State, Error>(new_state) && final(verihash).transcript() == old(verihash).transcript() + appended,
                None => r == Err::<State, Error>(
                    Error { kind: Kind::Hashing, position: None },
                ) && final(verihash).transcript() == old(verihash).transcript(),
            },
    {
        if self != State::Initial {
            return Err(Kind::Hashing.into_error());
        }
        match value {
            Event::UInt64(v) => verihash.uint64(*v),
            Event::SInt64(v) => verihash.sint64(*v),
            _ => {
                proof {
                    assert(false);
                }
            },
        }
        Ok(State::Initial)
    }

    /// Handle an incoming chunk of data in a value.
    fn handle_value_chunk(
        self,
        wire_type: WireType,
        bytes: &[u8],
        new_remaining: usize,
        verihash: &mut verihash::Hasher,
    ) -> (r: Result<Self, Error>)
        ensures
            match transition_spec(
                self,
                EventModel::ValueChunk { wire_type, bytes: bytes@, remaining: new_remaining },
            ) {
                Some((new_state, appended)) => r == Ok::<State, Error>(new_state) && final(verihash).transcript() == old(verihash).transcript() + appended,
                None => r == Err::<State, Error>(
                    Error { kind: Kind::Hashing, position: None },
                ) && final(verihash).transcript() == old(verihash).transcript(),
            },
    {
        let new_state = match self {
            State::Bytes { remaining } => {
                if wire_type != WireType::Bytes || bytes.len() > remaining || remaining
                    - bytes.len() != new_remaining {
                    return Err(Kind::Hashing.into_error());
                }
                if new_remaining == 0 {
                    State::Initial
                } else {
                    State::Bytes { remaining: new_remaining }
                }
            },
            State::String { remaining } => {
                if wire_type != WireType::String || bytes.len() > remaining || remaining
                    - bytes.len() != new_remaining {
                    return Err(Kind::Hashing.into_error());
                }
                if new_remaining == 0 {
                    State::Initial
                } else {
                    State::String { remaining: new_remaining }
                }
            },
            State::Message { remaining } => {
                if wire_type != WireType::Message || bytes.len() > remaining || remaining
                    - bytes.len() != new_remaining {
                    return Err(Kind::Hashing.into_error());
                }
                return Ok(State::Message { remaining: new_remaining });
            },
            _ => {
                return Err(Kind::Hashing.into_error());
            },
        };
        verihash.update(bytes);
        Ok(new_state)
    }
}

/// Verihash sequence hasher: computes a transcript of how one sequence
/// is decoded, driven by its decoding events.
pub struct Hasher {
    /// Verihash transcript.
    verihash: verihash::Hasher,

    /// Current state, or `None` after an error.
    state: Option<State>,
}

impl Hasher {
    /// The transcript fed so far.
    pub closed spec fn transcript(&self) -> Seq<u8> {
        self.verihash.transcript()
    }

    /// The hasher's state, or `None` after an error.
    pub closed spec fn state_model(&self) -> Option<State> {
        self.state
    }

    /// Create a new sequence hasher: its transcript opens with the
    /// element wire type as a one-byte domain separator.
    pub fn new(wire_type: WireType) -> (r: Self)
        ensures
            r.transcript() == seq![wire_type_code(wire_type) as u8],
            r.state_model() == Some(State::Initial),
    {
        let mut verihash = verihash::Hasher::new();
        let mut separator: Vec<u8> = Vec::new();
        separator.push(wire_type.to_u8());
        verihash.update(separator.as_slice());
        proof {
            assert(Seq::<u8>::empty() + separator@ =~= seq![wire_type_code(wire_type) as u8]);
        }
        Hasher { verihash, state: Some(State::Initial) }
    }

    /// Hash an incoming event, as `transition_spec` says; a hasher
    /// that has failed once fails forever.
    pub fn hash_event<'a>(&mut self, event: &Event<'a>) -> (r: Result<(), Error>)
        ensures
            match old(self).state_model() {
                None => r == Err::<(), Error>(Error { kind: Kind::Failed, position: None })
                    && final(self).state_model() is None && final(self).transcript() == old(self).transcript(),
                Some(state) => match transition_spec(state, event_model(*event)) {
                    Some((new_state, appended)) => r == Ok::<(), Error>(()) && final(self).state_model() == Some(new_state) && final(self).transcript() == old(self).transcript() + appended,
                    None => r == Err::<(), Error>(
                        Error { kind: Kind::Hashing, position: None },
                    ) && final(self).state_model() is None && final(self).transcript() == old(self).transcript(),
                },
            },
    {
        match self.state {
            Some(state) => match state.transition(event, &mut self.verihash) {
                Ok(new_state) => {
                    self.state = Some(new_state);
                    Ok(())
                },
                Err(e) => {
                    self.state = None;
                    Err(e)
                },
            },
            None => Err(Kind::Failed.into_error()),
        }
    }

    /// Hash the digest of a nested message within this sequence: legal
    /// exactly when the nested body has passed in full; the digest is
    /// appended to the transcript raw.
    pub fn hash_message_digest(&mut self, digest: &[u8]) -> (r: Result<(), Error>)
        ensures
            match old(self).state_model() {
                Some(State::Message { remaining: 0 }) => r == Ok::<(), Error>(()) && final(self).state_model() == Some(State::Initial) && final(self).transcript() == old(self).transcript() + digest@,
                _ => r == Err::<(), Error>(Error { kind: Kind::Hashing, position: None }) && final(self).state_model() == old(self).state_model() && final(self).transcript() == old(self).transcript(),
            },
    {
        match self.state {
            Some(State::Message { remaining: 0 }) => {
                self.verihash.update(digest);
                self.state = Some(State::Initial);
                Ok(())
            },
            _ => Err(Kind::Hashing.into_error()),
        }
    }

    /// Finish computing the digest: legal exactly between elements,
    /// and then the SHA-256 digest of the transcript.
    pub fn finish(self) -> (r: Result<Vec<u8>, Error>)
        ensures
            match r {
                Ok(digest) => self.state_model() == Some(State::Initial) && digest@ == sha256_of(
                    self.transcript(),
                ) && digest@.len() == 32,
                Err(e) => self.state_model() != Some(State::Initial) && e == (Error {
                    kind: Kind::Hashing,
                    position: None,
                }),
            },
    {
        match self.state {
            Some(State::Initial) => Ok(self.verihash.finalize()),
            _ => Err(Kind::Hashing.into_error()),
        }
    }
}

} // verus!
