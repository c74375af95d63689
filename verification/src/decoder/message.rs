//! Message decoder: a streaming zero-copy pull parser which emits
//! events based on incoming data.
//!
//! The decoder advances through one message, state by state: a field
//! header, then the field's `vint64` value or length prefix, then the
//! chunks of a length-delimited body.  Tags must grow strictly from
//! field to field.  Every event is fed to the message's Verihash
//! transcript hasher.  Any error permanently poisons the decoder.

use crate::decoder::message_hasher;
use crate::decoder::vint64::{incomplete_vint64, Decoder as Vint64Decoder};
use crate::decoder::{event_model, Event, EventModel};
use crate::error::{Error, Kind};
use crate::field::{header_of_spec, Header, Tag, WireType};
use crate::message::Element;
use crate::vint64::decode_model;
use crate::vint64::zigzag::zigzag_inverse_spec;
use vstd::prelude::*;
use vstd::string::StringSliceAdditionalSpecFns;

verus! {

broadcast use vstd::slice::group_slice_axioms;

/// The mathematical shape of a decoder state: the bytes a partial
/// `vint64` holds, or a body's wire type and remaining length.
pub enum StateModel {
    /// Reading the `vint64` header of a field.
    Header(Seq<u8>),

    /// Reading the `vint64` value or length prefix of a field of the
    /// given wire type.
    Value(WireType, Seq<u8>),

    /// Reading the body of a length-delimited field.
    Body(WireType, usize),
}

/// A well-formed state: partial `vint64`s are incomplete, and a body
/// in flight has bytes to come.
pub open spec fn state_model_wf(m: StateModel) -> bool {
    match m {
        StateModel::Header(buf) => incomplete_vint64(buf),
        StateModel::Value(_, buf) => incomplete_vint64(buf),
        StateModel::Body(_, remaining) => remaining > 0,
    }
}

/// The state that follows an emitted event.
pub open spec fn transition_model(em: EventModel) -> StateModel {
    match em {
        EventModel::FieldHeader(header) => StateModel::Value(header.wire_type, Seq::empty()),
        EventModel::Bool(_) => StateModel::Header(Seq::empty()),
        EventModel::UInt64(_) => StateModel::Header(Seq::empty()),
        EventModel::SInt64(_) => StateModel::Header(Seq::empty()),
        EventModel::LengthDelimiter { wire_type, length } => {
            if length > 0 {
                StateModel::Body(wire_type, length)
            } else {
                StateModel::Header(Seq::empty())
            }
        },
        EventModel::SequenceHeader { wire_type: _, length } => {
            if length > 0 {
                StateModel::Body(WireType::Sequence, length)
            } else {
                StateModel::Header(Seq::empty())
            }
        },
        EventModel::ValueChunk { wire_type, bytes: _, remaining } => {
            if remaining > 0 {
                StateModel::Body(wire_type, remaining)
            } else {
                StateModel::Header(Seq::empty())
            }
        },
    }
}

/// What one decoding step does: the state it leads to, the bytes it
/// consumes, the event it emits and the new last tag; or the error
/// that poisons the decoder.
pub enum StepModel {
    /// The step succeeds.
    Step {
        /// State after the step.
        state: StateModel,

        /// Bytes of the available input the step consumes.
        consumed: nat,

        /// Event the step emits, if any.
        event: Option<EventModel>,

        /// Last decoded tag after the step.
        last_tag: Option<Tag>,
    },
    /// The step fails with this kind of error.
    Fail(Kind),
}

/// One decoding step of the message state machine, from a state and
/// the last decoded tag, on the available input.
pub open spec fn step_spec(state: StateModel, last_tag: Option<Tag>, avail: Seq<u8>) -> StepModel {
    match state {
        StateModel::Header(buf) => {
            let combined = buf + avail;
            if incomplete_vint64(combined) {
                StepModel::Step {
                    state: StateModel::Header(combined),
                    consumed: avail.len(),
                    event: None,
                    last_tag,
                }
            } else {
                match decode_model(combined) {
                    Ok((value, l)) => {
                        let header = header_of_spec(value);
                        if last_tag matches Some(t) && header.tag <= t {
                            StepModel::Fail(Kind::Order { tag: header.tag })
                        } else {
                            let em = EventModel::FieldHeader(header);
                            StepModel::Step {
                                state: transition_model(em),
                                consumed: (l - buf.len()) as nat,
                                event: Some(em),
                                last_tag: Some(header.tag),
                            }
                        }
                    },
                    _ => StepModel::Fail(Kind::VInt64),
                }
            }
        },
        StateModel::Value(wire_type, buf) => {
            if wire_type == WireType::False {
                StepModel::Step {
                    state: transition_model(EventModel::Bool(false)),
                    consumed: 0,
                    event: Some(EventModel::Bool(false)),
                    last_tag,
                }
            } else if wire_type == WireType::True {
                StepModel::Step {
                    state: transition_model(EventModel::Bool(true)),
                    consumed: 0,
                    event: Some(EventModel::Bool(true)),
                    last_tag,
                }
            } else {
                let combined = buf + avail;
                if incomplete_vint64(combined) {
                    StepModel::Step {
                        state: StateModel::Value(wire_type, combined),
                        consumed: avail.len(),
                        event: None,
                        last_tag,
                    }
                } else {
                    match decode_model(combined) {
                        Ok((value, l)) => {
                            let consumed = (l - buf.len()) as nat;
                            if wire_type == WireType::UInt64 {
                                let em = EventModel::UInt64(value);
                                StepModel::Step {
                                    state: transition_model(em),
                                    consumed,
                                    event: Some(em),
                                    last_tag,
                                }
                            } else if wire_type == WireType::SInt64 {
                                let em = EventModel::SInt64(zigzag_inverse_spec(value));
                                StepModel::Step {
                                    state: transition_model(em),
                                    consumed,
                                    event: Some(em),
                                    last_tag,
                                }
                            } else if wire_type == WireType::Sequence {
                                if (value >> 4) > usize::MAX as u64 {
                                    StepModel::Fail(Kind::Length)
                                } else {
                                    let em = EventModel::SequenceHeader {
                                        wire_type: crate::field::wire_type_from_code(
                                            value & 0b111,
                                        ),
                                        length: (value >> 4) as usize,
                                    };
                                    StepModel::Step {
                                        state: transition_model(em),
                                        consumed,
                                        event: Some(em),
                                        last_tag,
                                    }
                                }
                            } else {
                                if value > usize::MAX as u64 {
                                    StepModel::Fail(Kind::Length)
                                } else {
                                    let em = EventModel::LengthDelimiter {
                                        wire_type,
                                        length: value as usize,
                                    };
                                    StepModel::Step {
                                        state: transition_model(em),
                                        consumed,
                                        event: Some(em),
                                        last_tag,
                                    }
                                }
                            }
                        },
                        _ => StepModel::Fail(Kind::VInt64),
                    }
                }
            }
        },
        StateModel::Body(wire_type, remaining) => {
            if avail.len() == 0 {
                StepModel::Step {
                    state: StateModel::Body(wire_type, remaining),
                    consumed: 0,
                    event: None,
                    last_tag,
                }
            } else {
                let chunk = if avail.len() < remaining {
                    avail.len()
                } else {
                    remaining as nat
                };
                let em = EventModel::ValueChunk {
                    wire_type,
                    bytes: avail.take(chunk as int),
                    remaining: (remaining - chunk) as usize,
                };
                StepModel::Step {
                    state: transition_model(em),
                    consumed: chunk,
                    event: Some(em),
                    last_tag,
                }
            }
        },
    }
}

/// Decoder for field headers.
pub struct HeaderDecoder {
    decoder: Vint64Decoder,
}

/// Decoder for field values: the `vint64` value itself or the length
/// prefix, keyed by the field's wire type.
pub struct ValueDecoder {
    decoder: Vint64Decoder,
    wire_type: WireType,
}

/// Decoder for the bodies of length-delimited field values.
pub struct BodyDecoder {
    wire_type: WireType,
    remaining: usize,
}

/// Decoder state: which part of a field is being read.
pub enum State {
    /// Reading the initial `vint64` header of a field.
    Header(HeaderDecoder),

    /// Reading the `vint64` value of a field, either the value itself
    /// or a length prefix.
    Value(ValueDecoder),

    /// Reading the body of a length-delimited field.
    Body(BodyDecoder),
}

impl State {
    /// The shape of this state.
    pub closed spec fn model(&self) -> StateModel {
        match self {
            State::Header(h) => StateModel::Header(h.decoder@),
            State::Value(v) => StateModel::Value(v.wire_type, v.decoder@),
            State::Body(b) => StateModel::Body(b.wire_type, b.remaining),
        }
    }

    /// The initial state: reading a field header, nothing buffered.
    pub fn initial() -> (r: Self)
        ensures
            r.model() == StateModel::Header(Seq::<u8>::empty()),
    {
        State::Header(HeaderDecoder { decoder: Vint64Decoder::new() })
    }

    /// Get the new state to transition to based on a given event.
    pub fn transition<'a>(event: &Event<'a>) -> (r: Self)
        ensures
            r.model() == transition_model(event_model(*event)),
    {
        match event {
            Event::FieldHeader(header) => State::Value(ValueDecoder::new(header.wire_type)),
            Event::Bool(_) | Event::UInt64(_) | Event::SInt64(_) => State::initial(),
            Event::LengthDelimiter { wire_type, length } => {
                if *length > 0 {
                    State::Body(BodyDecoder { wire_type: *wire_type, remaining: *length })
                } else {
                    State::initial()
                }
            },
            Event::SequenceHeader { wire_type: _, length } => {
                if *length > 0 {
                    State::Body(BodyDecoder { wire_type: WireType::Sequence, remaining: *length })
                } else {
                    State::initial()
                }
            },
            Event::ValueChunk { wire_type, bytes: _, remaining } => {
                if *remaining > 0 {
                    State::Body(BodyDecoder { wire_type: *wire_type, remaining: *remaining })
                } else {
                    State::initial()
                }
            },
        }
    }

    /// Process the available input, returning the new state, at most
    /// one event, and the position after the bytes consumed.
    pub fn decode<'a>(self, input: &'a [u8], pos: usize, last_tag: Option<Tag>) -> (r: Result<
        (Self, Option<Event<'a>>, usize),
        Error,
    >)
        requires
            state_model_wf(self.model()),
            pos <= input@.len(),
        ensures
            step_matches(
                r,
                step_spec(
                    self.model(),
                    last_tag,
                    input@.subrange(pos as int, input@.len() as int),
                ),
                pos as int,
            ),
    {
        match self {
            State::Header(header) => header.decode(input, pos, last_tag),
            State::Value(value) => value.decode(input, pos),
            State::Body(body) => body.decode(input, pos),
        }
    }
}

/// Does the outcome `r` of one decoding step match the step model
/// `m`, for a step that started at `pos`?
pub open spec fn step_matches<'a>(
    r: Result<(State, Option<Event<'a>>, usize), Error>,
    m: StepModel,
    pos: int,
) -> bool {
    match m {
        StepModel::Step { state: ms, consumed: mc, event: me, last_tag: _ } => match r {
            Ok((ns, ev, p)) => {
                &&& ns.model() == ms
                &&& state_model_wf(ns.model())
                &&& p == pos + mc
                &&& match (ev, me) {
                    (None, None) => true,
                    (Some(e), Some(em)) => event_model(e) == em,
                    _ => false,
                }
            },
            Err(_) => false,
        },
        StepModel::Fail(k) => r == Err::<(State, Option<Event<'a>>, usize), Error>(
            Error { kind: k, position: None },
        ),
    }
}

impl HeaderDecoder {
    /// Process the available input while reading a field header.
    fn decode<'a>(self, input: &'a [u8], pos: usize, last_tag: Option<Tag>) -> (r: Result<
        (State, Option<Event<'a>>, usize),
        Error,
    >)
        requires
            incomplete_vint64(self.decoder@),
            pos <= input@.len(),
        ensures
            step_matches(
                r,
                step_spec(
                    StateModel::Header(self.decoder@),
                    last_tag,
                    input@.subrange(pos as int, input@.len() as int),
                ),
                pos as int,
            ),
    {
        let HeaderDecoder { mut decoder } = self;
        match decoder.decode(input, pos) {
            Err(_) => Err(Kind::VInt64.into_error()),
            Ok((None, p)) => Ok((State::Header(HeaderDecoder { decoder }), None, p)),
            Ok((Some(value), p)) => {
                let header = Header::from_u64(value);
                if let Some(tag) = last_tag {
                    if header.tag <= tag {
                        return Err(Kind::Order { tag: header.tag }.into_error());
                    }
                }
                let event = Event::FieldHeader(header);
                let new_state = State::transition(&event);
                Ok((new_state, Some(event), p))
            },
        }
    }
}

impl ValueDecoder {
    /// The wire type this value decoder reads a value of.
    pub closed spec fn wire_type_spec(&self) -> WireType {
        self.wire_type
    }

    /// The bytes of the value's `vint64` buffered so far.
    pub closed spec fn buffered(&self) -> Seq<u8> {
        self.decoder@
    }

    /// Create a new value decoder for the given wire type.
    pub fn new(wire_type: WireType) -> (r: Self)
        ensures
            r.wire_type_spec() == wire_type,
            r.buffered() == Seq::<u8>::empty(),
    {
        ValueDecoder { decoder: Vint64Decoder::new(), wire_type }
    }

    /// Process the available input while reading a field value.
    fn decode<'a>(self, input: &'a [u8], pos: usize) -> (r: Result<
        (State, Option<Event<'a>>, usize),
        Error,
    >)
        requires
            incomplete_vint64(self.decoder@),
            pos <= input@.len(),
        ensures
            step_matches(
                r,
                step_spec(
                    StateModel::Value(self.wire_type, self.decoder@),
                    None,
                    input@.subrange(pos as int, input@.len() as int),
                ),
                pos as int,
            ),
    {
        let ValueDecoder { mut decoder, wire_type } = self;
        match wire_type {
            WireType::False => {
                let event = Event::Bool(false);
                Ok((State::transition(&event), Some(event), pos))
            },
            WireType::True => {
                let event = Event::Bool(true);
                Ok((State::transition(&event), Some(event), pos))
            },
            _ => {
                match decoder.decode(input, pos) {
                    Err(_) => Err(Kind::VInt64.into_error()),
                    Ok((None, p)) => Ok((State::Value(ValueDecoder { decoder, wire_type }), None, p)),
                    Ok((Some(value), p)) => {
                        let event = match wire_type {
                            WireType::UInt64 => Event::UInt64(value),
                            WireType::SInt64 => Event::SInt64(
                                crate::vint64::zigzag::decode(value),
                            ),
                            WireType::Sequence => {
                                if (value >> 4u64) > (usize::MAX as u64) {
                                    return Err(Kind::Length.into_error());
                                }
                                Event::SequenceHeader {
                                    wire_type: WireType::from_unmasked(value),
                                    length: (value >> 4u64) as usize,
                                }
                            },
                            _ => {
                                if value > (usize::MAX as u64) {
                                    return Err(Kind::Length.into_error());
                                }
                                Event::LengthDelimiter {
                                    wire_type,
                                    length: value as usize,
                                }
                            },
                        };
                        let new_state = State::transition(&event);
                        Ok((new_state, Some(event), p))
                    },
                }
            },
        }
    }
}

impl BodyDecoder {
    /// Process the available input while reading a field body.
    fn decode<'a>(self, input: &'a [u8], pos: usize) -> (r: Result<
        (State, Option<Event<'a>>, usize),
        Error,
    >)
        requires
            self.remaining > 0,
            pos <= input@.len(),
        ensures
            step_matches(
                r,
                step_spec(
                    StateModel::Body(self.wire_type, self.remaining),
                    None,
                    input@.subrange(pos as int, input@.len() as int),
                ),
                pos as int,
            ),
    {
        if pos == input.len() {
            return Ok((State::Body(self), None, pos));
        }
        let avail_len = input.len() - pos;
        let chunk = if avail_len < self.remaining {
            avail_len
        } else {
            self.remaining
        };
        let bytes = vstd::slice::slice_subrange(input, pos, pos + chunk);
        let remaining = self.remaining - chunk;
        let event = Event::ValueChunk { wire_type: self.wire_type, bytes, remaining };
        let new_state = State::transition(&event);
        proof {
            let avail = input@.subrange(pos as int, input@.len() as int);
            assert(bytes@ =~= avail.take(chunk as int));
        }
        Ok((new_state, Some(event), pos + chunk))
    }
}

/// The position counter after consuming `consumed` more bytes: the sum,
/// held at the top of the counter's range.
pub open spec fn pos_saturated(position: usize, consumed: nat) -> usize {
    if position + consumed <= usize::MAX {
        (position + consumed) as usize
    } else {
        usize::MAX
    }
}

/// Message decoder: a streaming zero-copy pull parser which emits
/// events based on incoming data, checks that tags grow strictly, and
/// keeps a Verihash transcript of what it decodes.
pub struct Decoder {
    /// Last field tag that was decoded, to ensure monotonicity.
    last_tag: Option<Tag>,

    /// Total bytes consumed of the message being decoded.
    position: usize,

    /// Current state of the decoder, or `None` after an error.
    state: Option<State>,

    /// Verihash message hasher, present until the digest is taken;
    /// `None` also serves to disable hashing.
    hasher: Option<message_hasher::Hasher>,

    /// Cached output digest.
    cached_digest: Option<Vec<u8>>,
}

impl Decoder {
    /// The shape of the decoder's state, or `None` after an error.
    pub closed spec fn state_model(&self) -> Option<StateModel> {
        match self.state {
            Some(s) => Some(s.model()),
            None => None,
        }
    }

    /// The last decoded field tag.
    pub closed spec fn last_tag_spec(&self) -> Option<Tag> {
        self.last_tag
    }

    /// The total bytes consumed so far.
    pub closed spec fn position_spec(&self) -> usize {
        self.position
    }

    /// The Verihash transcript fed so far; empty when hashing is off.
    pub closed spec fn transcript(&self) -> Seq<u8> {
        match self.hasher {
            Some(h) => h.transcript(),
            None => Seq::empty(),
        }
    }

    /// The transcript hasher: `None` when hashing is off or the digest
    /// has been taken, `Some(None)` after a hashing error, and
    /// `Some(Some(state))` while hashing runs.
    pub closed spec fn hasher_model(&self) -> Option<Option<message_hasher::State>> {
        match self.hasher {
            Some(h) => Some(h.state_model()),
            None => None,
        }
    }

    /// The cached digest, once one has been computed.
    pub closed spec fn cached(&self) -> Option<Seq<u8>> {
        match self.cached_digest {
            Some(d) => Some(d@),
            None => None,
        }
    }

    /// A well-formed decoder: its state, when it has one, is
    /// well-formed.
    pub open spec fn wf(&self) -> bool {
        match self.state_model() {
            Some(m) => state_model_wf(m),
            None => true,
        }
    }

    /// A decoder in its initial state: awaiting the first field
    /// header, nothing decoded, an empty transcript, hashing on.
    pub open spec fn is_initial(&self) -> bool {
        &&& self.state_model() == Some(StateModel::Header(Seq::<u8>::empty()))
        &&& self.last_tag_spec() is None
        &&& self.position_spec() == 0
        &&& self.transcript() == Seq::<u8>::empty()
        &&& self.hasher_model() == Some(Some(message_hasher::State::Initial))
        &&& self.cached() is None
    }

    /// Create a new decoder in an initial state: awaiting the first
    /// field header, nothing decoded, an empty transcript.
    pub fn new() -> (r: Self)
        ensures
            r.is_initial(),
            r.state_model() == Some(StateModel::Header(Seq::<u8>::empty())),
            r.last_tag_spec() is None,
            r.position_spec() == 0,
            r.transcript() == Seq::<u8>::empty(),
            r.hasher_model() == Some(Some(message_hasher::State::Initial)),
            r.cached() is None,
            r.wf(),
    {
        Decoder {
            last_tag: None,
            position: 0,
            state: Some(State::initial()),
            hasher: Some(message_hasher::Hasher::new()),
            cached_digest: None,
        }
    }

    /// Get the tag of the last decoded field header.
    pub fn last_tag(&self) -> (r: Option<Tag>)
        ensures
            r == self.last_tag_spec(),
    {
        self.last_tag
    }

    /// Get the current position, the number of bytes consumed of the
    /// message being decoded.
    pub fn position(&self) -> (r: usize)
        ensures
            r == self.position_spec(),
    {
        self.position
    }

    /// Process the available input from `pos` on: advance by one step
    /// of `step_spec`, feed any emitted event to the transcript
    /// hasher, and return the event with the new position.  A decoder
    /// that has failed once fails forever.
    pub fn decode<'a>(&mut self, input: &'a [u8], pos: usize) -> (r: Result<
        (Option<Event<'a>>, usize),
        Error,
    >)
        requires
            old(self).wf(),
            pos <= input@.len(),
        ensures
            final(self).wf(),
            final(self).cached() == old(self).cached(),
            ({
                let avail = input@.subrange(pos as int, input@.len() as int);
                match old(self).state_model() {
                    None => {
                        &&& r == Err::<(Option<Event<'a>>, usize), Error>(
                            Error { kind: Kind::Failed, position: None },
                        )
                        &&& final(self).state_model() is None
                        &&& final(self).last_tag_spec() == old(self).last_tag_spec()
                        &&& final(self).position_spec() == old(self).position_spec()
                        &&& final(self).transcript() == old(self).transcript()
                        &&& final(self).hasher_model() == old(self).hasher_model()
                    },
                    Some(sm) => match step_spec(sm, old(self).last_tag_spec(), avail) {
                        StepModel::Fail(k) => {
                            &&& r == Err::<(Option<Event<'a>>, usize), Error>(
                                Error { kind: k, position: None },
                            )
                            &&& final(self).state_model() is None
                            &&& final(self).last_tag_spec() == old(self).last_tag_spec()
                            &&& final(self).position_spec() == old(self).position_spec()
                            &&& final(self).transcript() == old(self).transcript()
                            &&& final(self).hasher_model() == old(self).hasher_model()
                        },
                        StepModel::Step { state: ms, consumed: mc, event: me, last_tag: mlt } => {
                            &&& final(self).last_tag_spec() == mlt
                            &&& final(self).position_spec() == pos_saturated(
                                old(self).position_spec(),
                                mc,
                            )
                            &&& match me {
                                None => {
                                    &&& match r {
                                        Ok((ev, p)) => ev is None && p == pos + mc,
                                        _ => false,
                                    }
                                    &&& final(self).state_model() == Some(ms)
                                    &&& final(self).transcript() == old(self).transcript()
                                    &&& final(self).hasher_model() == old(self).hasher_model()
                                },
                                Some(em) => match old(self).hasher_model() {
                                    None => {
                                        &&& match r {
                                            Ok((ev, p)) => (match ev {
                                                Some(e) => event_model(e) == em,
                                                None => false,
                                            }) && p == pos + mc,
                                            _ => false,
                                        }
                                        &&& final(self).state_model() == Some(ms)
                                        &&& final(self).hasher_model() is None
                                        &&& final(self).transcript() == old(self).transcript()
                                    },
                                    Some(None) => {
                                        &&& match r {
                                            Err(e) => e == (Error {
                                                kind: Kind::Failed,
                                                position: None,
                                            }),
                                            _ => false,
                                        }
                                        &&& final(self).state_model() is None
                                        &&& final(self).hasher_model() == Some(
                                            None::<message_hasher::State>,
                                        )
                                        &&& final(self).transcript() == old(self).transcript()
                                    },
                                    Some(Some(hs)) => match message_hasher::transition_spec(
                                        hs,
                                        em,
                                    ) {
                                        None => {
                                            &&& match r {
                                                Err(e) => e == (Error {
                                                    kind: Kind::Hashing,
                                                    position: None,
                                                }),
                                                _ => false,
                                            }
                                            &&& final(self).state_model() is None
                                            &&& final(self).hasher_model() == Some(
                                                None::<message_hasher::State>,
                                            )
                                            &&& final(self).transcript() == old(self).transcript()
                                        },
                                        Some((hs2, appended)) => {
                                            &&& match r {
                                                Ok((ev, p)) => (match ev {
                                                    Some(e) => event_model(e) == em,
                                                    None => false,
                                                }) && p == pos + mc,
                                                _ => false,
                                            }
                                            &&& final(self).state_model() == Some(ms)
                                            &&& final(self).hasher_model() == Some(Some(hs2))
                                            &&& final(self).transcript() == old(self).transcript()
                                                + appended
                                        },
                                    },
                                },
                            }
                        },
                    },
                }
            }),
    {
        let state = match self.state.take() {
            Some(s) => s,
            None => {
                return Err(Kind::Failed.into_error());
            },
        };
        match state.decode(input, pos, self.last_tag) {
            Err(e) => Err(e),
            Ok((new_state, event, p)) => {
                if let Some(Event::FieldHeader(header)) = &event {
                    self.last_tag = Some(header.tag);
                }
                self.state = Some(new_state);
                let consumed = p - pos;
                self.position = if consumed <= usize::MAX - self.position {
                    self.position + consumed
                } else {
                    usize::MAX
                };
                match &event {
                    Some(ev) => match &mut self.hasher {
                        Some(hasher) => match hasher.hash_event(ev) {
                            Ok(()) => Ok((event, p)),
                            Err(e) => {
                                self.state = None;
                                Err(e)
                            },
                        },
                        None => Ok((event, p)),
                    },
                    None => Ok((event, p)),
                }
            },
        }
    }
}

/// The decoder's bookkeeping after one or more steps: the state, the
/// last tag, the hasher, the transcript bytes appended, and the input
/// bytes consumed.
pub struct PostModel {
    /// State after the steps.
    pub state: Option<StateModel>,

    /// Last decoded tag after the steps.
    pub last_tag: Option<Tag>,

    /// Hasher after the steps.
    pub hasher: Option<Option<message_hasher::State>>,

    /// Transcript bytes the steps appended.
    pub appended: Seq<u8>,

    /// Input bytes the steps consumed.
    pub consumed: nat,
}

/// One full decode step over the decoder's model: the event it emits
/// and the bookkeeping after it, or the kind of error it fails with.
pub open spec fn event_step(
    state: Option<StateModel>,
    last_tag: Option<Tag>,
    hasher: Option<Option<message_hasher::State>>,
    avail: Seq<u8>,
) -> Result<(Option<EventModel>, PostModel), Kind> {
    match state {
        None => Err(Kind::Failed),
        Some(sm) => match step_spec(sm, last_tag, avail) {
            StepModel::Fail(k) => Err(k),
            StepModel::Step { state: ms, consumed, event, last_tag: lt2 } => match event {
                None => Ok(
                    (
                        None,
                        PostModel {
                            state: Some(ms),
                            last_tag: lt2,
                            hasher,
                            appended: Seq::empty(),
                            consumed,
                        },
                    ),
                ),
                Some(em) => match hasher {
                    None => Ok(
                        (
                            Some(em),
                            PostModel {
                                state: Some(ms),
                                last_tag: lt2,
                                hasher: None,
                                appended: Seq::empty(),
                                consumed,
                            },
                        ),
                    ),
                    Some(None) => Err(Kind::Failed),
                    Some(Some(hs)) => match message_hasher::transition_spec(hs, em) {
                        None => Err(Kind::Hashing),
                        Some((hs2, appended)) => Ok(
                            (
                                Some(em),
                                PostModel {
                                    state: Some(ms),
                                    last_tag: lt2,
                                    hasher: Some(Some(hs2)),
                                    appended,
                                    consumed,
                                },
                            ),
                        ),
                    },
                },
            },
        },
    }
}

/// Two runs of steps, one after the other.
pub open spec fn post_then(first: PostModel, second: PostModel) -> PostModel {
    PostModel {
        state: second.state,
        last_tag: second.last_tag,
        hasher: second.hasher,
        appended: first.appended + second.appended,
        consumed: first.consumed + second.consumed,
    }
}

/// The decoder `d` stands exactly where `post` says, having started
/// with position `position` and transcript `transcript`.
pub open spec fn decoder_matches(
    d: Decoder,
    position: usize,
    transcript: Seq<u8>,
    post: PostModel,
) -> bool {
    &&& d.state_model() == post.state
    &&& d.last_tag_spec() == post.last_tag
    &&& d.hasher_model() == post.hasher
    &&& d.transcript() == transcript + post.appended
    &&& d.position_spec() == pos_saturated(position, post.consumed)
}

/// A successful step never consumes more than the available input.
pub proof fn lemma_step_consumed_bounded(state: StateModel, last_tag: Option<Tag>, avail: Seq<u8>)
    requires
        state_model_wf(state),
    ensures
        match step_spec(state, last_tag, avail) {
            StepModel::Step { consumed, .. } => consumed <= avail.len(),
            StepModel::Fail(_) => true,
        },
{
    match state {
        StateModel::Header(buf) => {
            let combined = buf + avail;
            if buf.len() > 0 {
                assert(combined[0] == buf[0]);
            }
            if !incomplete_vint64(combined) {
                if let Ok((value, l)) = decode_model(combined) {
                    assert(l == crate::vint64::decoded_len_spec(combined[0]));
                    assert(combined.len() >= l);
                    assert(buf.len() < l);
                }
            }
        },
        StateModel::Value(wire_type, buf) => {
            let combined = buf + avail;
            if buf.len() > 0 {
                assert(combined[0] == buf[0]);
            }
            if wire_type != WireType::False && wire_type != WireType::True && !incomplete_vint64(
                combined,
            ) {
                if let Ok((value, l)) = decode_model(combined) {
                    assert(l == crate::vint64::decoded_len_spec(combined[0]));
                    assert(combined.len() >= l);
                    assert(buf.len() < l);
                }
            }
        },
        StateModel::Body(_, _) => {},
    }
}

/// Consuming in two goes saturates the position as consuming the sum
/// at once would.
pub proof fn lemma_pos_saturated_compose(position: usize, first: nat, second: nat)
    ensures
        pos_saturated(pos_saturated(position, first), second) == pos_saturated(
            position,
            first + second,
        ),
{
}

/// What `decode_header` yields: the field header the next step emits,
/// or an error; anything but a field header event is an unqualified
/// `FieldHeader` error.
pub open spec fn header_outcome(
    state: Option<StateModel>,
    last_tag: Option<Tag>,
    hasher: Option<Option<message_hasher::State>>,
    avail: Seq<u8>,
) -> Result<(Header, PostModel), Kind> {
    match event_step(state, last_tag, hasher, avail) {
        Err(k) => Err(k),
        Ok((Some(EventModel::FieldHeader(h)), post)) => Ok((h, post)),
        Ok(_) => Err(Kind::FieldHeader { tag: None, wire_type: None }),
    }
}

/// What `expect_header` yields: success exactly when the next field
/// header carries the wanted tag and wire type.
pub open spec fn expect_header_outcome(
    state: Option<StateModel>,
    last_tag: Option<Tag>,
    hasher: Option<Option<message_hasher::State>>,
    avail: Seq<u8>,
    tag: Tag,
    wire_type: WireType,
) -> Result<PostModel, Kind> {
    match header_outcome(state, last_tag, hasher, avail) {
        Err(k) => {
            if k matches Kind::FieldHeader { .. } {
                Err(Kind::FieldHeader { tag: Some(tag), wire_type: Some(wire_type) })
            } else {
                Err(k)
            }
        },
        Ok((h, post)) => {
            if h.tag != tag {
                Err(Kind::Decode { element: Element::Tag, wire_type })
            } else if h.wire_type != wire_type {
                Err(Kind::UnexpectedWireType { actual: h.wire_type, wanted: wire_type })
            } else {
                Ok(post)
            }
        },
    }
}

/// What `decode_uint64` yields: the value of the next `UInt64` event,
/// or an error.
pub open spec fn uint64_outcome(
    state: Option<StateModel>,
    last_tag: Option<Tag>,
    hasher: Option<Option<message_hasher::State>>,
    avail: Seq<u8>,
) -> Result<(u64, PostModel), Kind> {
    match event_step(state, last_tag, hasher, avail) {
        Err(k) => Err(k),
        Ok((Some(EventModel::UInt64(v)), post)) => Ok((v, post)),
        Ok(_) => Err(Kind::Decode { element: Element::Value, wire_type: WireType::UInt64 }),
    }
}

/// What `decode_sint64` yields: the value of the next `SInt64` event,
/// or an error.
pub open spec fn sint64_outcome(
    state: Option<StateModel>,
    last_tag: Option<Tag>,
    hasher: Option<Option<message_hasher::State>>,
    avail: Seq<u8>,
) -> Result<(i64, PostModel), Kind> {
    match event_step(state, last_tag, hasher, avail) {
        Err(k) => Err(k),
        Ok((Some(EventModel::SInt64(v)), post)) => Ok((v, post)),
        Ok(_) => Err(Kind::Decode { element: Element::Value, wire_type: WireType::SInt64 }),
    }
}

/// What decoding a length delimiter of the given wire type yields.
pub open spec fn length_delimiter_outcome(
    state: Option<StateModel>,
    last_tag: Option<Tag>,
    hasher: Option<Option<message_hasher::State>>,
    avail: Seq<u8>,
    expected: WireType,
) -> Result<(usize, PostModel), Kind> {
    match event_step(state, last_tag, hasher, avail) {
        Err(k) => Err(k),
        Ok((Some(EventModel::LengthDelimiter { wire_type, length }), post)) => {
            if wire_type == expected {
                Ok((length, post))
            } else {
                Err(Kind::Decode { element: Element::LengthDelimiter, wire_type: expected })
            }
        },
        Ok(_) => Err(Kind::Decode { element: Element::LengthDelimiter, wire_type: expected }),
    }
}

/// What decoding a whole dynamically sized value of the given wire
/// type yields: its length delimiter, then its body in one piece.
/// A body that does not complete within the available input is a
/// `Truncated` error.
pub open spec fn dynamic_outcome(
    state: Option<StateModel>,
    last_tag: Option<Tag>,
    hasher: Option<Option<message_hasher::State>>,
    avail: Seq<u8>,
    expected: WireType,
) -> Result<(Seq<u8>, PostModel), Kind> {
    match length_delimiter_outcome(state, last_tag, hasher, avail, expected) {
        Err(k) => Err(k),
        Ok((_length, post1)) => {
            let avail2 = avail.skip(post1.consumed as int);
            match event_step(post1.state, post1.last_tag, post1.hasher, avail2) {
                Err(k) => Err(k),
                Ok((Some(EventModel::ValueChunk { wire_type, bytes, remaining }), post2)) => {
                    if wire_type == expected {
                        if remaining == 0 {
                            Ok((bytes, post_then(post1, post2)))
                        } else {
                            Err(Kind::Truncated { remaining, wire_type: expected })
                        }
                    } else {
                        Err(Kind::Decode { element: Element::Value, wire_type: expected })
                    }
                },
                Ok(_) => Err(Kind::Decode { element: Element::Value, wire_type: expected }),
            }
        },
    }
}

/// What decoding a sequence field's header and body yields: the
/// sequence header must carry the expected element wire type, and the
/// body must complete within the available input.
pub open spec fn sequence_outcome(
    state: Option<StateModel>,
    last_tag: Option<Tag>,
    hasher: Option<Option<message_hasher::State>>,
    avail: Seq<u8>,
    expected: WireType,
) -> Result<(Seq<u8>, PostModel), Kind> {
    match event_step(state, last_tag, hasher, avail) {
        Err(k) => Err(k),
        Ok((Some(EventModel::SequenceHeader { wire_type, length: _ }), post1)) => {
            if wire_type == expected {
                let avail2 = avail.skip(post1.consumed as int);
                match event_step(post1.state, post1.last_tag, post1.hasher, avail2) {
                    Err(k) => Err(k),
                    Ok((Some(EventModel::ValueChunk { wire_type: _, bytes, remaining }), post2)) => {
                        if remaining == 0 {
                            Ok((bytes, post_then(post1, post2)))
                        } else {
                            Err(Kind::Truncated { remaining, wire_type: WireType::Sequence })
                        }
                    },
                    Ok(_) => Err(
                        Kind::Decode { element: Element::Value, wire_type: WireType::Sequence },
                    ),
                }
            } else {
                Err(Kind::Decode { element: Element::SequenceHeader, wire_type: expected })
            }
        },
        Ok(_) => Err(Kind::Decode { element: Element::SequenceHeader, wire_type: expected }),
    }
}

/// What decoding a whole `uint64` field yields: the expected header,
/// then the value.
pub open spec fn uint64_field_outcome(
    state: Option<StateModel>,
    last_tag: Option<Tag>,
    hasher: Option<Option<message_hasher::State>>,
    avail: Seq<u8>,
    tag: Tag,
) -> Result<(u64, PostModel), Kind> {
    match expect_header_outcome(state, last_tag, hasher, avail, tag, WireType::UInt64) {
        Err(k) => Err(k),
        Ok(post1) => match uint64_outcome(
            post1.state,
            post1.last_tag,
            post1.hasher,
            avail.skip(post1.consumed as int),
        ) {
            Err(k) => Err(k),
            Ok((v, post2)) => Ok((v, post_then(post1, post2))),
        },
    }
}

/// What decoding a whole `sint64` field yields: the expected header,
/// then the value.
pub open spec fn sint64_field_outcome(
    state: Option<StateModel>,
    last_tag: Option<Tag>,
    hasher: Option<Option<message_hasher::State>>,
    avail: Seq<u8>,
    tag: Tag,
) -> Result<(i64, PostModel), Kind> {
    match expect_header_outcome(state, last_tag, hasher, avail, tag, WireType::SInt64) {
        Err(k) => Err(k),
        Ok(post1) => match sint64_outcome(
            post1.state,
            post1.last_tag,
            post1.hasher,
            avail.skip(post1.consumed as int),
        ) {
            Err(k) => Err(k),
            Ok((v, post2)) => Ok((v, post_then(post1, post2))),
        },
    }
}

/// What decoding a whole dynamically sized field yields: the expected
/// header, then the length delimiter and body.
pub open spec fn dynamic_field_outcome(
    state: Option<StateModel>,
    last_tag: Option<Tag>,
    hasher: Option<Option<message_hasher::State>>,
    avail: Seq<u8>,
    tag: Tag,
    wire_type: WireType,
) -> Result<(Seq<u8>, PostModel), Kind> {
    match expect_header_outcome(state, last_tag, hasher, avail, tag, wire_type) {
        Err(k) => Err(k),
        Ok(post1) => match dynamic_outcome(
            post1.state,
            post1.last_tag,
            post1.hasher,
            avail.skip(post1.consumed as int),
            wire_type,
        ) {
            Err(k) => Err(k),
            Ok((bytes, post2)) => Ok((bytes, post_then(post1, post2))),
        },
    }
}

impl Decoder {
    /// Decode an expected field header, returning an error for
    /// anything else.
    pub fn decode_header<'a>(&mut self, input: &'a [u8], pos: usize) -> (r: Result<
        (Header, usize),
        Error,
    >)
        requires
            old(self).wf(),
            pos <= input@.len(),
        ensures
            final(self).wf(),
            final(self).cached() == old(self).cached(),
            ({
                let avail = input@.subrange(pos as int, input@.len() as int);
                match (
                    r,
                    header_outcome(
                        old(self).state_model(),
                        old(self).last_tag_spec(),
                        old(self).hasher_model(),
                        avail,
                    ),
                ) {
                    (Ok((h, p)), Ok((mh2, post))) => h == mh2 && p == pos + post.consumed && p
                        <= input@.len() && decoder_matches(
                        *final(self),
                        old(self).position_spec(),
                        old(self).transcript(),
                        post,
                    ),
                    (Err(e), Err(k)) => e == (Error { kind: k, position: None }),
                    _ => false,
                }
            }),
    {
        proof {
            if let Some(sm) = old(self).state_model() {
                lemma_step_consumed_bounded(
                    sm,
                    old(self).last_tag_spec(),
                    input@.subrange(pos as int, input@.len() as int),
                );
            }
        }
        match self.decode(input, pos) {
            Ok((Some(Event::FieldHeader(header)), p)) => Ok((header, p)),
            Ok(_) => Err(Kind::FieldHeader { tag: None, wire_type: None }.into_error()),
            Err(e) => Err(e),
        }
    }

    /// Decode an expected field header with the given tag and wire
    /// type, returning an error when the field is missing or differs.
    /// On an unqualified header error, the error is requalified with
    /// the wanted tag, wire type and the current position.
    pub fn expect_header<'a>(
        &mut self,
        input: &'a [u8],
        pos: usize,
        tag: Tag,
        wire_type: WireType,
    ) -> (r: Result<usize, Error>)
        requires
            old(self).wf(),
            pos <= input@.len(),
        ensures
            final(self).wf(),
            final(self).cached() == old(self).cached(),
            ({
                let avail = input@.subrange(pos as int, input@.len() as int);
                match (
                    r,
                    expect_header_outcome(
                        old(self).state_model(),
                        old(self).last_tag_spec(),
                        old(self).hasher_model(),
                        avail,
                        tag,
                        wire_type,
                    ),
                ) {
                    (Ok(p), Ok(post)) => p == pos + post.consumed && p <= input@.len()
                        && decoder_matches(
                        *final(self),
                        old(self).position_spec(),
                        old(self).transcript(),
                        post,
                    ),
                    (Err(e), Err(k)) => e.kind == k && (if k matches Kind::FieldHeader { .. } {
                        e.position == Some(final(self).position_spec())
                    } else {
                        e.position is None
                    }),
                    _ => false,
                }
            }),
    {
        match self.decode_header(input, pos) {
            Ok((header, p)) => {
                if header.tag != tag {
                    Err(Kind::Decode { element: Element::Tag, wire_type }.into_error())
                } else if !wire_type_eq(header.wire_type, wire_type) {
                    Err(
                        Kind::UnexpectedWireType {
                            actual: header.wire_type,
                            wanted: wire_type,
                        }.into_error(),
                    )
                } else {
                    Ok(p)
                }
            },
            Err(e) => match e.kind {
                Kind::FieldHeader { .. } => Err(
                    Kind::FieldHeader { tag: Some(tag), wire_type: Some(wire_type) }.position(
                        self.position,
                    ),
                ),
                _ => Err(e),
            },
        }
    }

    /// Decode an expected `uint64` value, returning an error for
    /// anything else.
    pub fn decode_uint64<'a>(&mut self, input: &'a [u8], pos: usize) -> (r: Result<
        (u64, usize),
        Error,
    >)
        requires
            old(self).wf(),
            pos <= input@.len(),
        ensures
            final(self).wf(),
            final(self).cached() == old(self).cached(),
            ({
                let avail = input@.subrange(pos as int, input@.len() as int);
                match (
                    r,
                    uint64_outcome(
                        old(self).state_model(),
                        old(self).last_tag_spec(),
                        old(self).hasher_model(),
                        avail,
                    ),
                ) {
                    (Ok((v, p)), Ok((mv, post))) => v == mv && p == pos + post.consumed && p
                        <= input@.len() && decoder_matches(
                        *final(self),
                        old(self).position_spec(),
                        old(self).transcript(),
                        post,
                    ),
                    (Err(e), Err(k)) => e == (Error { kind: k, position: None }),
                    _ => false,
                }
            }),
    {
        proof {
            if let Some(sm) = old(self).state_model() {
                lemma_step_consumed_bounded(
                    sm,
                    old(self).last_tag_spec(),
                    input@.subrange(pos as int, input@.len() as int),
                );
            }
        }
        match self.decode(input, pos) {
            Ok((Some(Event::UInt64(value)), p)) => Ok((value, p)),
            Ok(_) => Err(
                Kind::Decode { element: Element::Value, wire_type: WireType::UInt64 }.into_error(),
            ),
            Err(e) => Err(e),
        }
    }

    /// Decode an expected `sint64` value, returning an error for
    /// anything else.
    pub fn decode_sint64<'a>(&mut self, input: &'a [u8], pos: usize) -> (r: Result<
        (i64, usize),
        Error,
    >)
        requires
            old(self).wf(),
            pos <= input@.len(),
        ensures
            final(self).wf(),
            final(self).cached() == old(self).cached(),
            ({
                let avail = input@.subrange(pos as int, input@.len() as int);
                match (
                    r,
                    sint64_outcome(
                        old(self).state_model(),
                        old(self).last_tag_spec(),
                        old(self).hasher_model(),
                        avail,
                    ),
                ) {
                    (Ok((v, p)), Ok((mv, post))) => v == mv && p == pos + post.consumed && p
                        <= input@.len() && decoder_matches(
                        *final(self),
                        old(self).position_spec(),
                        old(self).transcript(),
                        post,
                    ),
                    (Err(e), Err(k)) => e == (Error { kind: k, position: None }),
                    _ => false,
                }
            }),
    {
        proof {
            if let Some(sm) = old(self).state_model() {
                lemma_step_consumed_bounded(
                    sm,
                    old(self).last_tag_spec(),
                    input@.subrange(pos as int, input@.len() as int),
                );
            }
        }
        match self.decode(input, pos) {
            Ok((Some(Event::SInt64(value)), p)) => Ok((value, p)),
            Ok(_) => Err(
                Kind::Decode { element: Element::Value, wire_type: WireType::SInt64 }.into_error(),
            ),
            Err(e) => Err(e),
        }
    }

    /// Decode a length delimiter, expecting the given wire type.
    fn decode_length_delimiter<'a>(
        &mut self,
        expected_type: WireType,
        input: &'a [u8],
        pos: usize,
    ) -> (r: Result<(usize, usize), Error>)
        requires
            old(self).wf(),
            pos <= input@.len(),
        ensures
            final(self).wf(),
            final(self).cached() == old(self).cached(),
            ({
                let avail = input@.subrange(pos as int, input@.len() as int);
                match (
                    r,
                    length_delimiter_outcome(
                        old(self).state_model(),
                        old(self).last_tag_spec(),
                        old(self).hasher_model(),
                        avail,
                        expected_type,
                    ),
                ) {
                    (Ok((length, p)), Ok((ml, post))) => length == ml && p == pos + post.consumed
                        && p <= input@.len() && decoder_matches(
                        *final(self),
                        old(self).position_spec(),
                        old(self).transcript(),
                        post,
                    ),
                    (Err(e), Err(k)) => e == (Error { kind: k, position: None }),
                    _ => false,
                }
            }),
    {
        proof {
            if let Some(sm) = old(self).state_model() {
                lemma_step_consumed_bounded(
                    sm,
                    old(self).last_tag_spec(),
                    input@.subrange(pos as int, input@.len() as int),
                );
            }
        }
        match self.decode(input, pos) {
            Ok((Some(Event::LengthDelimiter { wire_type, length }), p)) => {
                if wire_type_eq(wire_type, expected_type) {
                    Ok((length, p))
                } else {
                    Err(
                        Kind::Decode {
                            element: Element::LengthDelimiter,
                            wire_type: expected_type,
                        }.into_error(),
                    )
                }
            },
            Ok(_) => Err(
                Kind::Decode {
                    element: Element::LengthDelimiter,
                    wire_type: expected_type,
                }.into_error(),
            ),
            Err(e) => Err(e),
        }
    }

    /// Decode a whole dynamically sized value, expecting the given
    /// wire type: its length delimiter, then its body in one piece.
    pub fn decode_dynamically_sized_value<'a>(
        &mut self,
        expected_type: WireType,
        input: &'a [u8],
        pos: usize,
    ) -> (r: Result<(&'a [u8], usize), Error>)
        requires
            old(self).wf(),
            pos <= input@.len(),
        ensures
            final(self).wf(),
            final(self).cached() == old(self).cached(),
            ({
                let avail = input@.subrange(pos as int, input@.len() as int);
                match (
                    r,
                    dynamic_outcome(
                        old(self).state_model(),
                        old(self).last_tag_spec(),
                        old(self).hasher_model(),
                        avail,
                        expected_type,
                    ),
                ) {
                    (Ok((bytes, p)), Ok((mb, post))) => bytes@ == mb && p == pos + post.consumed
                        && p <= input@.len() && decoder_matches(
                        *final(self),
                        old(self).position_spec(),
                        old(self).transcript(),
                        post,
                    ),
                    (Err(e), Err(k)) => e == (Error { kind: k, position: None }),
                    _ => false,
                }
            }),
    {
        let ghost avail = input@.subrange(pos as int, input@.len() as int);
        let (_length, p1) = match self.decode_length_delimiter(expected_type, input, pos) {
            Ok(x) => x,
            Err(e) => {
                return Err(e);
            },
        };
        let ghost post1 = (match length_delimiter_outcome(
            old(self).state_model(),
            old(self).last_tag_spec(),
            old(self).hasher_model(),
            avail,
            expected_type,
        ) {
            Ok((_, p)) => p,
            Err(_) => arbitrary(),
        });
        let ghost avail2 = input@.subrange(p1 as int, input@.len() as int);
        proof {
            assert(avail2 =~= avail.skip(post1.consumed as int));
            if let Some(sm) = self.state_model() {
                lemma_step_consumed_bounded(sm, self.last_tag_spec(), avail2);
            }
            if let Ok((_, post2)) = event_step(post1.state, post1.last_tag, post1.hasher, avail2) {
                assert(old(self).transcript() + post1.appended + post2.appended =~= old(
                    self,
                ).transcript() + (post1.appended + post2.appended));
                lemma_pos_saturated_compose(
                    old(self).position_spec(),
                    post1.consumed,
                    post2.consumed,
                );
            }
        }
        match self.decode(input, p1) {
            Ok((Some(Event::ValueChunk { wire_type, bytes, remaining }), p2)) => {
                if wire_type_eq(wire_type, expected_type) {
                    if remaining == 0 {
                        Ok((bytes, p2))
                    } else {
                        Err(Kind::Truncated { remaining, wire_type }.into_error())
                    }
                } else {
                    Err(
                        Kind::Decode {
                            element: Element::Value,
                            wire_type: expected_type,
                        }.into_error(),
                    )
                }
            },
            Ok(_) => Err(
                Kind::Decode { element: Element::Value, wire_type: expected_type }.into_error(),
            ),
            Err(e) => Err(e),
        }
    }

    /// Decode an expected `bytes` field body, returning an error for
    /// anything else.
    pub fn decode_bytes<'a>(&mut self, input: &'a [u8], pos: usize) -> (r: Result<
        (&'a [u8], usize),
        Error,
    >)
        requires
            old(self).wf(),
            pos <= input@.len(),
        ensures
            final(self).wf(),
            final(self).cached() == old(self).cached(),
            ({
                let avail = input@.subrange(pos as int, input@.len() as int);
                match (
                    r,
                    dynamic_outcome(
                        old(self).state_model(),
                        old(self).last_tag_spec(),
                        old(self).hasher_model(),
                        avail,
                        WireType::Bytes,
                    ),
                ) {
                    (Ok((bytes, p)), Ok((mb, post))) => bytes@ == mb && p == pos + post.consumed
                        && p <= input@.len() && decoder_matches(
                        *final(self),
                        old(self).position_spec(),
                        old(self).transcript(),
                        post,
                    ),
                    (Err(e), Err(k)) => e == (Error { kind: k, position: None }),
                    _ => false,
                }
            }),
    {
        self.decode_dynamically_sized_value(WireType::Bytes, input, pos)
    }

    /// Decode an expected `message` field body, returning an error for
    /// anything else.
    pub fn decode_message<'a>(&mut self, input: &'a [u8], pos: usize) -> (r: Result<
        (&'a [u8], usize),
        Error,
    >)
        requires
            old(self).wf(),
            pos <= input@.len(),
        ensures
            final(self).wf(),
            final(self).cached() == old(self).cached(),
            ({
                let avail = input@.subrange(pos as int, input@.len() as int);
                match (
                    r,
                    dynamic_outcome(
                        old(self).state_model(),
                        old(self).last_tag_spec(),
                        old(self).hasher_model(),
                        avail,
                        WireType::Message,
                    ),
                ) {
                    (Ok((bytes, p)), Ok((mb, post))) => bytes@ == mb && p == pos + post.consumed
                        && p <= input@.len() && decoder_matches(
                        *final(self),
                        old(self).position_spec(),
                        old(self).transcript(),
                        post,
                    ),
                    (Err(e), Err(k)) => e == (Error { kind: k, position: None }),
                    _ => false,
                }
            }),
    {
        self.decode_dynamically_sized_value(WireType::Message, input, pos)
    }

    /// Decode an expected `string` field body: its bytes must be valid
    /// UTF-8 in the canonical (ASCII) subset.
    pub fn decode_string<'a>(&mut self, input: &'a [u8], pos: usize) -> (r: Result<
        (&'a str, usize),
        Error,
    >)
        requires
            old(self).wf(),
            pos <= input@.len(),
        ensures
            final(self).wf(),
            final(self).cached() == old(self).cached(),
            ({
                let avail = input@.subrange(pos as int, input@.len() as int);
                match (
                    r,
                    dynamic_outcome(
                        old(self).state_model(),
                        old(self).last_tag_spec(),
                        old(self).hasher_model(),
                        avail,
                        WireType::String,
                    ),
                ) {
                    (Ok((s, p)), Ok((mb, post))) => {
                        &&& s.spec_bytes() == mb
                        &&& vstd::string::is_ascii(s)
                        &&& vstd::utf8::valid_utf8(mb)
                        &&& p == pos + post.consumed
                        &&& p <= input@.len()
                        &&& decoder_matches(
                            *final(self),
                            old(self).position_spec(),
                            old(self).transcript(),
                            post,
                        )
                    },
                    (Err(e), Ok((mb, post))) => decoder_matches(
                        *final(self),
                        old(self).position_spec(),
                        old(self).transcript(),
                        post,
                    ) && match e.kind {
                        Kind::Utf8 { valid_up_to } => !vstd::utf8::valid_utf8(mb) && valid_up_to
                            <= mb.len() && e.position is None,
                        Kind::UnicodeNormalization => vstd::utf8::valid_utf8(mb)
                            && !vstd::utf8::is_ascii_chars(vstd::utf8::decode_utf8(mb))
                            && e.position is None,
                        _ => false,
                    },
                    (Err(e), Err(k)) => e == (Error { kind: k, position: None }),
                    _ => false,
                }
            }),
    {
        let (bytes, p) = match self.decode_dynamically_sized_value(WireType::String, input, pos) {
            Ok(x) => x,
            Err(e) => {
                return Err(e);
            },
        };
        match crate::string::str_from_utf8(bytes) {
            Ok(s) => {
                proof {
                    broadcast use vstd::utf8::encode_utf8_decode_utf8;
                    broadcast use vstd::string::is_ascii_spec_bytes;
                    broadcast use vstd::utf8::is_ascii_chars_encode_utf8;

                }
                match crate::string::ensure_canonical(s) {
                    Ok(out) => Ok((out, p)),
                    Err(e) => Err(e),
                }
            },
            Err(valid_up_to) => Err(Kind::Utf8 { valid_up_to }.into_error()),
        }
    }

    /// Decode an expected `sequence` field: its header must carry the
    /// expected element wire type, and its body must arrive in one
    /// piece.
    pub fn decode_sequence<'a>(
        &mut self,
        expected_type: WireType,
        input: &'a [u8],
        pos: usize,
    ) -> (r: Result<(&'a [u8], usize), Error>)
        requires
            old(self).wf(),
            pos <= input@.len(),
        ensures
            final(self).wf(),
            final(self).cached() == old(self).cached(),
            ({
                let avail = input@.subrange(pos as int, input@.len() as int);
                match (
                    r,
                    sequence_outcome(
                        old(self).state_model(),
                        old(self).last_tag_spec(),
                        old(self).hasher_model(),
                        avail,
                        expected_type,
                    ),
                ) {
                    (Ok((bytes, p)), Ok((mb, post))) => bytes@ == mb && p == pos + post.consumed
                        && p <= input@.len() && decoder_matches(
                        *final(self),
                        old(self).position_spec(),
                        old(self).transcript(),
                        post,
                    ),
                    (Err(e), Err(k)) => e == (Error { kind: k, position: None }),
                    _ => false,
                }
            }),
    {
        let ghost avail = input@.subrange(pos as int, input@.len() as int);
        proof {
            if let Some(sm) = old(self).state_model() {
                lemma_step_consumed_bounded(sm, old(self).last_tag_spec(), avail);
            }
        }
        let p1 = match self.decode(input, pos) {
            Ok((Some(Event::SequenceHeader { wire_type, length: _ }), p1)) => {
                if wire_type_eq(wire_type, expected_type) {
                    p1
                } else {
                    return Err(
                        Kind::Decode {
                            element: Element::SequenceHeader,
                            wire_type: expected_type,
                        }.into_error(),
                    );
                }
            },
            Ok(_) => {
                return Err(
                    Kind::Decode {
                        element: Element::SequenceHeader,
                        wire_type: expected_type,
                    }.into_error(),
                );
            },
            Err(e) => {
                return Err(e);
            },
        };
        let ghost post1 = (match event_step(
            old(self).state_model(),
            old(self).last_tag_spec(),
            old(self).hasher_model(),
            avail,
        ) {
            Ok((_, p)) => p,
            Err(_) => arbitrary(),
        });
        let ghost avail2 = input@.subrange(p1 as int, input@.len() as int);
        proof {
            assert(avail2 =~= avail.skip(post1.consumed as int));
            if let Some(sm) = self.state_model() {
                lemma_step_consumed_bounded(sm, self.last_tag_spec(), avail2);
            }
            if let Ok((_, post2)) = event_step(post1.state, post1.last_tag, post1.hasher, avail2) {
                assert(old(self).transcript() + post1.appended + post2.appended =~= old(
                    self,
                ).transcript() + (post1.appended + post2.appended));
                lemma_pos_saturated_compose(
                    old(self).position_spec(),
                    post1.consumed,
                    post2.consumed,
                );
            }
        }
        match self.decode(input, p1) {
            Ok((Some(Event::ValueChunk { wire_type: _, bytes, remaining }), p2)) => {
                if remaining == 0 {
                    Ok((bytes, p2))
                } else {
                    Err(
                        Kind::Truncated { remaining, wire_type: WireType::Sequence }.into_error(),
                    )
                }
            },
            Ok(_) => Err(
                Kind::Decode { element: Element::Value, wire_type: WireType::Sequence }.into_error(),
            ),
            Err(e) => Err(e),
        }
    }

    /// Hash a digest of a nested message within this message; a no-op
    /// when hashing is off.
    pub fn hash_message_digest(&mut self, tag: Tag, digest: &[u8]) -> (r: Result<(), Error>)
        ensures
            final(self).wf() == old(self).wf(),
            final(self).state_model() == old(self).state_model(),
            final(self).last_tag_spec() == old(self).last_tag_spec(),
            final(self).position_spec() == old(self).position_spec(),
            final(self).cached() == old(self).cached(),
            match old(self).hasher_model() {
                None => r == Ok::<(), Error>(()) && final(self).hasher_model() is None && final(self).transcript() == old(self).transcript(),
                Some(Some(message_hasher::State::Message { remaining: 0 })) => r == Ok::<
                    (),
                    Error,
                >(()) && final(self).hasher_model() == Some(
                    Some(message_hasher::State::Initial),
                ) && final(self).transcript() == old(self).transcript()
                    + message_hasher::message_digest_bytes(tag, digest@),
                Some(_) => r == Err::<(), Error>(Error { kind: Kind::Hashing, position: None })
                    && final(self).hasher_model() == old(self).hasher_model() && final(self).transcript() == old(self).transcript(),
            },
    {
        match &mut self.hasher {
            Some(hasher) => hasher.hash_message_digest(tag, digest),
            None => Ok(()),
        }
    }

    /// Hash a digest of a sequence within this message; a no-op when
    /// hashing is off.
    pub fn hash_sequence_digest(&mut self, tag: Tag, digest: &[u8]) -> (r: Result<(), Error>)
        ensures
            final(self).wf() == old(self).wf(),
            final(self).state_model() == old(self).state_model(),
            final(self).last_tag_spec() == old(self).last_tag_spec(),
            final(self).position_spec() == old(self).position_spec(),
            final(self).cached() == old(self).cached(),
            match old(self).hasher_model() {
                None => r == Ok::<(), Error>(()) && final(self).hasher_model() is None && final(self).transcript() == old(self).transcript(),
                Some(
                    Some(message_hasher::State::Sequence { wire_type: _, remaining: 0 }),
                ) => r == Ok::<(), Error>(()) && final(self).hasher_model() == Some(
                    Some(message_hasher::State::Initial),
                ) && final(self).transcript() == old(self).transcript()
                    + message_hasher::sequence_digest_bytes(tag, digest@),
                Some(_) => r == Err::<(), Error>(Error { kind: Kind::Hashing, position: None })
                    && final(self).hasher_model() == old(self).hasher_model() && final(self).transcript() == old(self).transcript(),
            },
    {
        match &mut self.hasher {
            Some(hasher) => hasher.hash_sequence_digest(tag, digest),
            None => Ok(()),
        }
    }

    /// Compute a Verihash digest of the message being decoded: legal
    /// only between fields, with the whole transcript hashed; the
    /// digest is cached, and computing it ends decoding.  `None` when
    /// hashing is off.
    pub fn compute_digest(&mut self) -> (r: Result<Option<Vec<u8>>, Error>)
        requires
            old(self).wf(),
        ensures
            final(self).wf(),
            final(self).last_tag_spec() == old(self).last_tag_spec(),
            final(self).position_spec() == old(self).position_spec(),
            match old(self).cached() {
                Some(d) => (match r {
                    Ok(Some(v)) => v@ == d,
                    _ => false,
                }) && final(self).state_model() == old(self).state_model() && final(self).hasher_model() == old(self).hasher_model() && final(self).transcript() == old(self).transcript() && final(self).cached() == old(self).cached(),
                None => match old(self).hasher_model() {
                    None => r == Ok::<Option<Vec<u8>>, Error>(None) && final(self).state_model()
                        == old(self).state_model() && final(self).hasher_model() is None && final(self).cached() is None,
                    Some(hm) => {
                        &&& final(self).state_model() is None
                        &&& final(self).hasher_model() is None
                        &&& match (old(self).state_model(), hm) {
                            (
                                Some(StateModel::Header(_)),
                                Some(message_hasher::State::Initial),
                            ) => (match r {
                                Ok(Some(v)) => v@ == crate::verihash::sha256_of(
                                    old(self).transcript(),
                                ) && v@.len() == 32,
                                _ => false,
                            }) && final(self).cached() == Some(
                                crate::verihash::sha256_of(old(self).transcript()),
                            ),
                            _ => r == Err::<Option<Vec<u8>>, Error>(
                                Error { kind: Kind::Hashing, position: None },
                            ) && final(self).cached() is None,
                        }
                    },
                },
            },
    {
        if let Some(cached) = &self.cached_digest {
            let copy = copy_bytes(cached);
            return Ok(Some(copy));
        }
        match self.hasher.take() {
            None => Ok(None),
            Some(hasher) => {
                let at_header = match &self.state {
                    Some(State::Header(_)) => true,
                    _ => false,
                };
                self.state = None;
                if at_header {
                    match hasher.finish() {
                        Ok(digest) => {
                            let copy = copy_bytes(&digest);
                            self.cached_digest = Some(copy);
                            Ok(Some(digest))
                        },
                        Err(e) => Err(e),
                    }
                } else {
                    Err(Kind::Hashing.into_error())
                }
            },
        }
    }
}

/// Compare two wire types.
fn wire_type_eq(a: WireType, b: WireType) -> (r: bool)
    ensures
        r <==> a == b,
{
    a == b
}

/// Copy a byte vector.
fn copy_bytes(bytes: &Vec<u8>) -> (r: Vec<u8>)
    ensures
        r@ == bytes@,
{
    let mut out: Vec<u8> = Vec::new();
    let mut i: usize = 0;
    while i < bytes.len()
        invariant
            i <= bytes@.len(),
            out@ =~= bytes@.take(i as int),
        decreases bytes@.len() - i,
    {
        out.push(bytes[i]);
        assert(out@ =~= bytes@.take(i + 1));
        i = i + 1;
    }
    proof {
        assert(out@ =~= bytes@);
    }
    out
}

} // verus!
