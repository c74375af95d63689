//! Sequence decoder: a pull parser for the length-prefixed,
//! homogeneous body of a sequence field.
//!
//! A sequence body holds values of one wire type, with no field
//! headers between them: scalars stand as bare `vint64`s, and
//! dynamically sized elements as a `vint64` length followed by that
//! many bytes.  The decoder tracks the bytes remaining in the whole
//! body and is drained when none remain.  Booleans are not permitted
//! as sequence elements.

use crate::decoder::sequence_hasher;
use crate::decoder::vint64::{incomplete_vint64, Decoder as Vint64Decoder};
use crate::decoder::{event_model, Event, EventModel};
use crate::error::{Error, Kind};
use crate::field::{wire_type_code, WireType};
use crate::message::Element;
use crate::vint64::decode_model;
use crate::vint64::zigzag::zigzag_inverse_spec;
use vstd::prelude::*;
use vstd::string::StringSliceAdditionalSpecFns;

verus! {

broadcast use vstd::slice::group_slice_axioms;

/// The mathematical shape of a sequence decoder state.
pub enum StateModel {
    /// Reading the `vint64` of an element: the value itself or a
    /// length prefix.
    Value(Seq<u8>),

    /// Reading the body of a dynamically sized element.
    Body(WireType, usize),
}

/// A well-formed state: a partial `vint64` is incomplete.
pub open spec fn state_model_wf(m: StateModel) -> bool {
    match m {
        StateModel::Value(buf) => incomplete_vint64(buf),
        StateModel::Body(_, _) => true,
    }
}

/// The state that follows an emitted event.
pub open spec fn transition_model(em: EventModel) -> StateModel {
    match em {
        EventModel::LengthDelimiter { wire_type, length } => StateModel::Body(wire_type, length),
        EventModel::SequenceHeader { wire_type, length } => StateModel::Body(wire_type, length),
        EventModel::ValueChunk { wire_type, bytes: _, remaining } => {
            if remaining > 0 {
                StateModel::Body(wire_type, remaining)
            } else {
                StateModel::Value(Seq::empty())
            }
        },
        _ => StateModel::Value(Seq::empty()),
    }
}

/// What one decoding step does: the state it leads to, the bytes it
/// consumes and the event it emits, or the error.
pub enum StepModel {
    /// The step succeeds.
    Step {
        /// State after the step.
        state: StateModel,

        /// Bytes of the available input the step consumes.
        consumed: nat,

        /// Event the step emits, if any.
        event: Option<EventModel>,
    },
    /// The step fails with this kind of error.
    Fail(Kind),
}

/// One decoding step of the sequence state machine for elements of
/// wire type `element_type`, on the available input.
pub open spec fn step_spec(element_type: WireType, state: StateModel, avail: Seq<u8>) -> StepModel {
    match state {
        StateModel::Value(buf) => {
            let combined = buf + avail;
            if incomplete_vint64(combined) {
                StepModel::Step {
                    state: StateModel::Value(combined),
                    consumed: avail.len(),
                    event: None,
                }
            } else {
                match decode_model(combined) {
                    Ok((value, l)) => {
                        let consumed = (l - buf.len()) as nat;
                        if element_type == WireType::UInt64 {
                            let em = EventModel::UInt64(value);
                            StepModel::Step {
                                state: transition_model(em),
                                consumed,
                                event: Some(em),
                            }
                        } else if element_type == WireType::SInt64 {
                            let em = EventModel::SInt64(zigzag_inverse_spec(value));
                            StepModel::Step {
                                state: transition_model(em),
                                consumed,
                                event: Some(em),
                            }
                        } else if element_type == WireType::Sequence {
                            if (value >> 4) > usize::MAX as u64 {
                                StepModel::Fail(Kind::Length)
                            } else {
                                let em = EventModel::SequenceHeader {
                                    wire_type: crate::field::wire_type_from_code(value & 0b111),
                                    length: (value >> 4) as usize,
                                };
                                StepModel::Step {
                                    state: transition_model(em),
                                    consumed,
                                    event: Some(em),
                                }
                            }
                        } else if element_type == WireType::False || element_type
                            == WireType::True {
                            StepModel::Fail(
                                Kind::Decode { element: Element::Value, wire_type: element_type },
                            )
                        } else {
                            if value > usize::MAX as u64 {
                                StepModel::Fail(Kind::Length)
                            } else {
                                let em = EventModel::LengthDelimiter {
                                    wire_type: element_type,
                                    length: value as usize,
                                };
                                StepModel::Step {
                                    state: transition_model(em),
                                    consumed,
                                    event: Some(em),
                                }
                            }
                        }
                    },
                    _ => StepModel::Fail(Kind::VInt64),
                }
            }
        },
        StateModel::Body(wire_type, remaining) => {
            if avail.len() == 0 {
                StepModel::Step {
                    state: StateModel::Body(wire_type, remaining),
                    consumed: 0,
                    event: None,
                }
            } else {
                let chunk = if avail.len() < remaining {
                    avail.len()
                } else {
                    remaining as nat
                };
                let em = EventModel::ValueChunk {
                    wire_type,
                    bytes: avail.take(chunk as int),
                    remaining: (remaining - chunk) as usize,
                };
                StepModel::Step { state: transition_model(em), consumed: chunk, event: Some(em) }
            }
        },
    }
}

/// A successful step never consumes more than the available input.
pub proof fn lemma_step_consumed_bounded(element_type: WireType, state: StateModel, avail: Seq<u8>)
    requires
        state_model_wf(state),
    ensures
        match step_spec(element_type, state, avail) {
            StepModel::Step { consumed, .. } => consumed <= avail.len(),
            StepModel::Fail(_) => true,
        },
{
    match state {
        StateModel::Value(buf) => {
            let combined = buf + avail;
            if buf.len() > 0 {
                assert(combined[0] == buf[0]);
            }
            if !incomplete_vint64(combined) {
                if let Ok((value, l)) = decode_model(combined) {
                    assert(l == crate::vint64::decoded_len_spec(combined[0]));
                    assert(combined.len() >= l);
                    assert(buf.len() < l);
                }
            }
        },
        StateModel::Body(_, _) => {},
    }
}


/// The decoder's bookkeeping after one or more steps.
pub struct PostModel {
    /// State after the steps.
    pub state: StateModel,

    /// Hasher after the steps.
    pub hasher: Option<Option<sequence_hasher::State>>,

    /// Transcript bytes the steps appended.
    pub appended: Seq<u8>,

    /// Input bytes the steps consumed.
    pub consumed: nat,
}

/// One full decode step over the sequence decoder's model: the event
/// it emits and the bookkeeping after it, or the kind of error.
pub open spec fn event_step(
    element_type: WireType,
    state: StateModel,
    hasher: Option<Option<sequence_hasher::State>>,
    avail: Seq<u8>,
) -> Result<(Option<EventModel>, PostModel), Kind> {
    match step_spec(element_type, state, avail) {
        StepModel::Fail(k) => Err(k),
        StepModel::Step { state: ms, consumed, event } => match event {
            None => Ok(
                (None, PostModel { state: ms, hasher, appended: Seq::empty(), consumed }),
            ),
            Some(em) => match hasher {
                None => Ok(
                    (
                        Some(em),
                        PostModel { state: ms, hasher: None, appended: Seq::empty(), consumed },
                    ),
                ),
                Some(None) => Err(Kind::Failed),
                Some(Some(hs)) => match sequence_hasher::transition_spec(hs, em) {
                    None => Err(Kind::Hashing),
                    Some((hs2, appended)) => Ok(
                        (
                            Some(em),
                            PostModel { state: ms, hasher: Some(Some(hs2)), appended, consumed },
                        ),
                    ),
                },
            },
        },
    }
}

/// Two runs of steps, one after the other.
pub open spec fn post_then(first: PostModel, second: PostModel) -> PostModel {
    PostModel {
        state: second.state,
        hasher: second.hasher,
        appended: first.appended + second.appended,
        consumed: first.consumed + second.consumed,
    }
}

/// The sequence decoder `d` stands exactly where `post` says, having
/// started with `remaining` body bytes and transcript `transcript`.
pub open spec fn seq_decoder_matches(
    d: Decoder,
    remaining: usize,
    transcript: Seq<u8>,
    post: PostModel,
) -> bool {
    &&& d.state_model() == post.state
    &&& d.hasher_model() == post.hasher
    &&& d.transcript() == transcript + post.appended
    &&& d.remaining_spec() == remaining - post.consumed
}

/// What decoding a `uint64` element yields.
pub open spec fn uint64_outcome(
    element_type: WireType,
    state: StateModel,
    hasher: Option<Option<sequence_hasher::State>>,
    avail: Seq<u8>,
) -> Result<(u64, PostModel), Kind> {
    match event_step(element_type, state, hasher, avail) {
        Err(k) => Err(k),
        Ok((Some(EventModel::UInt64(v)), post)) => Ok((v, post)),
        Ok(_) => Err(Kind::Decode { element: Element::Value, wire_type: WireType::UInt64 }),
    }
}

/// What decoding an `sint64` element yields.
pub open spec fn sint64_outcome(
    element_type: WireType,
    state: StateModel,
    hasher: Option<Option<sequence_hasher::State>>,
    avail: Seq<u8>,
) -> Result<(i64, PostModel), Kind> {
    match event_step(element_type, state, hasher, avail) {
        Err(k) => Err(k),
        Ok((Some(EventModel::SInt64(v)), post)) => Ok((v, post)),
        Ok(_) => Err(Kind::Decode { element: Element::Value, wire_type: WireType::SInt64 }),
    }
}

/// What decoding a whole dynamically sized element of the given wire
/// type yields: it must be the sequence's own element type, and its
/// body must complete within the available input.
pub open spec fn dynamic_outcome(
    element_type: WireType,
    state: StateModel,
    hasher: Option<Option<sequence_hasher::State>>,
    avail: Seq<u8>,
    expected: WireType,
) -> Result<(Seq<u8>, PostModel), Kind> {
    if expected != element_type {
        Err(Kind::UnexpectedWireType { actual: element_type, wanted: expected })
    } else {
        match event_step(element_type, state, hasher, avail) {
            Err(k) => Err(k),
            Ok((Some(EventModel::LengthDelimiter { wire_type: _, length: _ }), post1)) => {
                let avail2 = avail.skip(post1.consumed as int);
                match event_step(element_type, post1.state, post1.hasher, avail2) {
                    Err(k) => Err(k),
                    Ok(
                        (Some(EventModel::ValueChunk { wire_type: _, bytes, remaining }), post2),
                    ) => {
                        if remaining == 0 {
                            Ok((bytes, post_then(post1, post2)))
                        } else {
                            Err(Kind::Truncated { remaining, wire_type: element_type })
                        }
                    },
                    Ok(_) => Err(
                        Kind::Decode { element: Element::Value, wire_type: element_type },
                    ),
                }
            },
            Ok(_) => Err(
                Kind::Decode { element: Element::LengthDelimiter, wire_type: element_type },
            ),
        }
    }
}

/// Decoder state: which part of an element is being read.
enum State {
    /// Reading the `vint64` of an element.
    Value(Vint64Decoder),

    /// Reading the body of a dynamically sized element.
    Body {
        /// Wire type of the element's body.
        wire_type: WireType,

        /// Body bytes still to come.
        remaining: usize,
    },
}

impl State {
    /// The shape of this state.
    spec fn model(&self) -> StateModel {
        match self {
            State::Value(vd) => StateModel::Value(vd@),
            State::Body { wire_type, remaining } => StateModel::Body(*wire_type, *remaining),
        }
    }
}

/// Sequence decoder: decodes the body of one sequence field, tracking
/// the bytes remaining in the body and a Verihash transcript of its
/// elements.
pub struct Decoder {
    /// Wire type of the elements contained in this sequence.
    wire_type: WireType,

    /// Total length of the sequence body in bytes.
    length: usize,

    /// Bytes remaining in the sequence body.
    remaining: usize,

    /// Current decoding state.
    state: State,

    /// Verihash sequence hasher, present until the digest is taken;
    /// `None` also serves to disable hashing.
    hasher: Option<sequence_hasher::Hasher>,
}

impl Decoder {
    /// The wire type of the sequence's elements.
    pub closed spec fn element_type(&self) -> WireType {
        self.wire_type
    }

    /// The total length of the sequence body in bytes.
    pub closed spec fn length_spec(&self) -> usize {
        self.length
    }

    /// The bytes remaining in the sequence body.
    pub closed spec fn remaining_spec(&self) -> usize {
        self.remaining
    }

    /// The shape of the decoder's state.
    pub closed spec fn state_model(&self) -> StateModel {
        self.state.model()
    }

    /// The Verihash transcript fed so far; empty when hashing is off.
    pub closed spec fn transcript(&self) -> Seq<u8> {
        match self.hasher {
            Some(h) => h.transcript(),
            None => Seq::empty(),
        }
    }

    /// The transcript hasher: `None` when hashing is off or the digest
    /// has been taken, `Some(None)` after a hashing error, and
    /// `Some(Some(state))` while hashing runs.
    pub closed spec fn hasher_model(&self) -> Option<Option<sequence_hasher::State>> {
        match self.hasher {
            Some(h) => Some(h.state_model()),
            None => None,
        }
    }

    /// A well-formed decoder: its state is well-formed and no more
    /// bytes remain than the body holds.
    pub open spec fn wf(&self) -> bool {
        &&& state_model_wf(self.state_model())
        &&& self.remaining_spec() <= self.length_spec()
    }

    /// Create a new sequence decoder for a body of `length` bytes
    /// holding elements of the given wire type.
    pub fn new(wire_type: WireType, length: usize) -> (r: Self)
        ensures
            r.element_type() == wire_type,
            r.length_spec() == length,
            r.remaining_spec() == length,
            r.state_model() == StateModel::Value(Seq::<u8>::empty()),
            r.transcript() == seq![wire_type_code(wire_type) as u8],
            r.hasher_model() == Some(Some(sequence_hasher::State::Initial)),
            r.wf(),
    {
        Decoder {
            wire_type,
            length,
            remaining: length,
            state: State::Value(Vint64Decoder::new()),
            hasher: Some(sequence_hasher::Hasher::new(wire_type)),
        }
    }

    /// Get the current position: the number of body bytes consumed.
    pub fn position(&self) -> (r: usize)
        requires
            self.wf(),
        ensures
            r == self.length_spec() - self.remaining_spec(),
    {
        self.length - self.remaining
    }

    /// Get the number of bytes remaining in the sequence body.
    pub fn remaining(&self) -> (r: usize)
        ensures
            r == self.remaining_spec(),
    {
        self.remaining
    }

    /// Process the available input from `pos` on: advance by one step
    /// of `step_spec`, feed any emitted event to the transcript
    /// hasher, and return the event with the new position.
    pub fn decode<'a>(&mut self, input: &'a [u8], pos: usize) -> (r: Result<
        (Option<Event<'a>>, usize),
        Error,
    >)
        requires
            old(self).wf(),
            pos <= input@.len(),
            input@.len() - pos <= old(self).remaining_spec(),
        ensures
            final(self).wf(),
            final(self).element_type() == old(self).element_type(),
            final(self).length_spec() == old(self).length_spec(),
            ({
                let avail = input@.subrange(pos as int, input@.len() as int);
                match step_spec(old(self).element_type(), old(self).state_model(), avail) {
                    StepModel::Fail(k) => {
                        &&& r == Err::<(Option<Event<'a>>, usize), Error>(
                            Error { kind: k, position: None },
                        )
                        &&& final(self).remaining_spec() == old(self).remaining_spec()
                        &&& final(self).transcript() == old(self).transcript()
                        &&& final(self).hasher_model() == old(self).hasher_model()
                    },
                    StepModel::Step { state: ms, consumed: mc, event: me } => {
                        &&& final(self).remaining_spec() == old(self).remaining_spec() - mc
                        &&& match me {
                            None => {
                                &&& match r {
                                    Ok((ev, p)) => ev is None && p == pos + mc,
                                    _ => false,
                                }
                                &&& final(self).state_model() == ms
                                &&& final(self).transcript() == old(self).transcript()
                                &&& final(self).hasher_model() == old(self).hasher_model()
                            },
                            Some(em) => match old(self).hasher_model() {
                                None => {
                                    &&& match r {
                                        Ok((ev, p)) => (match ev {
                                            Some(e) => event_model(e) == em,
                                            None => false,
                                        }) && p == pos + mc,
                                        _ => false,
                                    }
                                    &&& final(self).state_model() == ms
                                    &&& final(self).hasher_model() is None
                                    &&& final(self).transcript() == old(self).transcript()
                                },
                                Some(None) => {
                                    &&& match r {
                                        Err(e) => e == (Error {
                                            kind: Kind::Failed,
                                            position: None,
                                        }),
                                        _ => false,
                                    }
                                    &&& final(self).state_model() == ms
                                    &&& final(self).hasher_model() == Some(
                                        None::<sequence_hasher::State>,
                                    )
                                    &&& final(self).transcript() == old(self).transcript()
                                },
                                Some(Some(hs)) => match sequence_hasher::transition_spec(hs, em) {
                                    None => {
                                        &&& match r {
                                            Err(e) => e == (Error {
                                                kind: Kind::Hashing,
                                                position: None,
                                            }),
                                            _ => false,
                                        }
                                        &&& final(self).state_model() == ms
                                        &&& final(self).hasher_model() == Some(
                                            None::<sequence_hasher::State>,
                                        )
                                        &&& final(self).transcript() == old(self).transcript()
                                    },
                                    Some((hs2, appended)) => {
                                        &&& match r {
                                            Ok((ev, p)) => (match ev {
                                                Some(e) => event_model(e) == em,
                                                None => false,
                                            }) && p == pos + mc,
                                            _ => false,
                                        }
                                        &&& final(self).state_model() == ms
                                        &&& final(self).hasher_model() == Some(Some(hs2))
                                        &&& final(self).transcript() == old(self).transcript()
                                            + appended
                                    },
                                },
                            },
                        }
                    },
                }
            }),
    {
        proof {
            lemma_step_consumed_bounded(
                self.wire_type,
                self.state.model(),
                input@.subrange(pos as int, input@.len() as int),
            );
        }
        let (event, p) = match &mut self.state {
            State::Value(vd) => {
                match vd.decode(input, pos) {
                    Err(_) => {
                        return Err(Kind::VInt64.into_error());
                    },
                    Ok((None, p)) => (None, p),
                    Ok((Some(value), p)) => {
                        let event = match self.wire_type {
                            WireType::UInt64 => Event::UInt64(value),
                            WireType::SInt64 => Event::SInt64(
                                crate::vint64::zigzag::decode(value),
                            ),
                            WireType::Sequence => {
                                if (value >> 4u64) > (usize::MAX as u64) {
                                    return Err(Kind::Length.into_error());
                                }
                                Event::SequenceHeader {
                                    wire_type: WireType::from_unmasked(value),
                                    length: (value >> 4u64) as usize,
                                }
                            },
                            WireType::False | WireType::True => {
                                return Err(
                                    Kind::Decode {
                                        element: Element::Value,
                                        wire_type: self.wire_type,
                                    }.into_error(),
                                );
                            },
                            _ => {
                                if value > (usize::MAX as u64) {
                                    return Err(Kind::Length.into_error());
                                }
                                Event::LengthDelimiter {
                                    wire_type: self.wire_type,
                                    length: value as usize,
                                }
                            },
                        };
                        (Some(event), p)
                    },
                }
            },
            State::Body { wire_type, remaining } => {
                let wt = *wire_type;
                let rem = *remaining;
                if pos == input.len() {
                    (None, pos)
                } else {
                    let avail_len = input.len() - pos;
                    let chunk = if avail_len < rem {
                        avail_len
                    } else {
                        rem
                    };
                    let bytes = vstd::slice::slice_subrange(input, pos, pos + chunk);
                    proof {
                        let avail = input@.subrange(pos as int, input@.len() as int);
                        assert(bytes@ =~= avail.take(chunk as int));
                    }
                    (
                        Some(
                            Event::ValueChunk { wire_type: wt, bytes, remaining: rem - chunk },
                        ),
                        pos + chunk,
                    )
                }
            },
        };
        let consumed = p - pos;
        self.remaining = self.remaining - consumed;
        match &event {
            Some(ev) => {
                self.state = Self::transition(ev);
                match &mut self.hasher {
                    Some(hasher) => match hasher.hash_event(ev) {
                        Ok(()) => Ok((event, p)),
                        Err(e) => Err(e),
                    },
                    None => Ok((event, p)),
                }
            },
            None => Ok((event, p)),
        }
    }

    /// Decode an expected `uint64` element, returning an error for
    /// anything else.
    pub fn decode_uint64<'a>(&mut self, input: &'a [u8], pos: usize) -> (r: Result<
        (u64, usize),
        Error,
    >)
        requires
            old(self).wf(),
            pos <= input@.len(),
            input@.len() - pos <= old(self).remaining_spec(),
        ensures
            final(self).wf(),
            final(self).element_type() == old(self).element_type(),
            final(self).length_spec() == old(self).length_spec(),
            ({
                let avail = input@.subrange(pos as int, input@.len() as int);
                match (
                    r,
                    uint64_outcome(
                        old(self).element_type(),
                        old(self).state_model(),
                        old(self).hasher_model(),
                        avail,
                    ),
                ) {
                    (Ok((v, p)), Ok((mv, post))) => v == mv && p == pos + post.consumed && p
                        <= input@.len() && seq_decoder_matches(
                        *final(self),
                        old(self).remaining_spec(),
                        old(self).transcript(),
                        post,
                    ),
                    (Err(e), Err(k)) => e == (Error { kind: k, position: None }),
                    _ => false,
                }
            }),
    {
        match self.decode(input, pos) {
            Ok((Some(Event::UInt64(value)), p)) => Ok((value, p)),
            Ok(_) => Err(
                Kind::Decode { element: Element::Value, wire_type: WireType::UInt64 }.into_error(),
            ),
            Err(e) => Err(e),
        }
    }

    /// Decode an expected `sint64` element, returning an error for
    /// anything else.
    pub fn decode_sint64<'a>(&mut self, input: &'a [u8], pos: usize) -> (r: Result<
        (i64, usize),
        Error,
    >)
        requires
            old(self).wf(),
            pos <= input@.len(),
            input@.len() - pos <= old(self).remaining_spec(),
        ensures
            final(self).wf(),
            final(self).element_type() == old(self).element_type(),
            final(self).length_spec() == old(self).length_spec(),
            ({
                let avail = input@.subrange(pos as int, input@.len() as int);
                match (
                    r,
                    sint64_outcome(
                        old(self).element_type(),
                        old(self).state_model(),
                        old(self).hasher_model(),
                        avail,
                    ),
                ) {
                    (Ok((v, p)), Ok((mv, post))) => v == mv && p == pos + post.consumed && p
                        <= input@.len() && seq_decoder_matches(
                        *final(self),
                        old(self).remaining_spec(),
                        old(self).transcript(),
                        post,
                    ),
                    (Err(e), Err(k)) => e == (Error { kind: k, position: None }),
                    _ => false,
                }
            }),
    {
        match self.decode(input, pos) {
            Ok((Some(Event::SInt64(value)), p)) => Ok((value, p)),
            Ok(_) => Err(
                Kind::Decode { element: Element::Value, wire_type: WireType::SInt64 }.into_error(),
            ),
            Err(e) => Err(e),
        }
    }

    /// Decode a whole dynamically sized element, expecting the given
    /// wire type: its length prefix, then its body in one piece.
    pub fn decode_dynamically_sized_value<'a>(
        &mut self,
        expected_type: WireType,
        input: &'a [u8],
        pos: usize,
    ) -> (r: Result<(&'a [u8], usize), Error>)
        requires
            old(self).wf(),
            pos <= input@.len(),
            input@.len() - pos <= old(self).remaining_spec(),
        ensures
            final(self).wf(),
            final(self).element_type() == old(self).element_type(),
            final(self).length_spec() == old(self).length_spec(),
            ({
                let avail = input@.subrange(pos as int, input@.len() as int);
                match (
                    r,
                    dynamic_outcome(
                        old(self).element_type(),
                        old(self).state_model(),
                        old(self).hasher_model(),
                        avail,
                        expected_type,
                    ),
                ) {
                    (Ok((bytes, p)), Ok((mb, post))) => bytes@ == mb && p == pos + post.consumed
                        && p <= input@.len() && seq_decoder_matches(
                        *final(self),
                        old(self).remaining_spec(),
                        old(self).transcript(),
                        post,
                    ),
                    (Err(e), Err(k)) => e.kind == k && (if k matches Kind::Decode {
                        element: Element::LengthDelimiter,
                        ..
                    } {
                        e.position == Some(
                            (final(self).length_spec() - final(self).remaining_spec()) as usize,
                        )
                    } else {
                        e.position is None
                    }),
                    _ => false,
                }
            }),
    {
        if expected_type != self.wire_type {
            return Err(
                Kind::UnexpectedWireType {
                    actual: self.wire_type,
                    wanted: expected_type,
                }.into_error(),
            );
        }
        let ghost avail = input@.subrange(pos as int, input@.len() as int);
        let ghost post1 = (match event_step(
            old(self).element_type(),
            old(self).state_model(),
            old(self).hasher_model(),
            avail,
        ) {
            Ok((_, p)) => p,
            Err(_) => arbitrary(),
        });
        let p1 = match self.decode(input, pos) {
            Ok((Some(Event::LengthDelimiter { wire_type: _, length: _ }), p1)) => p1,
            Ok(_) => {
                return Err(
                    Kind::Decode {
                        element: Element::LengthDelimiter,
                        wire_type: self.wire_type,
                    }.position(self.length - self.remaining),
                );
            },
            Err(e) => {
                return Err(e);
            },
        };
        let ghost avail2 = input@.subrange(p1 as int, input@.len() as int);
        proof {
            assert(avail2 =~= avail.skip(post1.consumed as int));
            if let Ok((_, post2)) = event_step(
                old(self).element_type(),
                post1.state,
                post1.hasher,
                avail2,
            ) {
                assert(old(self).transcript() + post1.appended + post2.appended =~= old(self).transcript() + (post1.appended + post2.appended));
            }
        }
        match self.decode(input, p1) {
            Ok((Some(Event::ValueChunk { wire_type: _, bytes, remaining }), p2)) => {
                if remaining == 0 {
                    Ok((bytes, p2))
                } else {
                    Err(
                        Kind::Truncated { remaining, wire_type: self.wire_type }.into_error(),
                    )
                }
            },
            Ok(_) => Err(
                Kind::Decode { element: Element::Value, wire_type: self.wire_type }.into_error(),
            ),
            Err(e) => Err(e),
        }
    }

    /// Decode an expected `bytes` element, returning an error for
    /// anything else.
    pub fn decode_bytes<'a>(&mut self, input: &'a [u8], pos: usize) -> (r: Result<
        (&'a [u8], usize),
        Error,
    >)
        requires
            old(self).wf(),
            pos <= input@.len(),
            input@.len() - pos <= old(self).remaining_spec(),
        ensures
            final(self).wf(),
            final(self).element_type() == old(self).element_type(),
            final(self).length_spec() == old(self).length_spec(),
            ({
                let avail = input@.subrange(pos as int, input@.len() as int);
                match (
                    r,
                    dynamic_outcome(
                        old(self).element_type(),
                        old(self).state_model(),
                        old(self).hasher_model(),
                        avail,
                        WireType::Bytes,
                    ),
                ) {
                    (Ok((bytes, p)), Ok((mb, post))) => bytes@ == mb && p == pos + post.consumed
                        && p <= input@.len() && seq_decoder_matches(
                        *final(self),
                        old(self).remaining_spec(),
                        old(self).transcript(),
                        post,
                    ),
                    (Err(e), Err(k)) => e.kind == k,
                    _ => false,
                }
            }),
    {
        self.decode_dynamically_sized_value(WireType::Bytes, input, pos)
    }

    /// Decode an expected `message` element, returning an error for
    /// anything else.
    pub fn decode_message<'a>(&mut self, input: &'a [u8], pos: usize) -> (r: Result<
        (&'a [u8], usize),
        Error,
    >)
        requires
            old(self).wf(),
            pos <= input@.len(),
            input@.len() - pos <= old(self).remaining_spec(),
        ensures
            final(self).wf(),
            final(self).element_type() == old(self).element_type(),
            final(self).length_spec() == old(self).length_spec(),
            ({
                let avail = input@.subrange(pos as int, input@.len() as int);
                match (
                    r,
                    dynamic_outcome(
                        old(self).element_type(),
                        old(self).state_model(),
                        old(self).hasher_model(),
                        avail,
                        WireType::Message,
                    ),
                ) {
                    (Ok((bytes, p)), Ok((mb, post))) => bytes@ == mb && p == pos + post.consumed
                        && p <= input@.len() && seq_decoder_matches(
                        *final(self),
                        old(self).remaining_spec(),
                        old(self).transcript(),
                        post,
                    ),
                    (Err(e), Err(k)) => e.kind == k,
                    _ => false,
                }
            }),
    {
        self.decode_dynamically_sized_value(WireType::Message, input, pos)
    }

    /// Decode an expected `string` element: its bytes must be valid
    /// UTF-8 in the canonical (ASCII) subset.
    pub fn decode_string<'a>(&mut self, input: &'a [u8], pos: usize) -> (r: Result<
        (&'a str, usize),
        Error,
    >)
        requires
            old(self).wf(),
            pos <= input@.len(),
            input@.len() - pos <= old(self).remaining_spec(),
        ensures
            final(self).wf(),
            final(self).element_type() == old(self).element_type(),
            final(self).length_spec() == old(self).length_spec(),
            ({
                let avail = input@.subrange(pos as int, input@.len() as int);
                match (
                    r,
                    dynamic_outcome(
                        old(self).element_type(),
                        old(self).state_model(),
                        old(self).hasher_model(),
                        avail,
                        WireType::String,
                    ),
                ) {
                    (Ok((s, p)), Ok((mb, post))) => {
                        &&& s.spec_bytes() == mb
                        &&& vstd::string::is_ascii(s)
                        &&& vstd::utf8::valid_utf8(mb)
                        &&& p == pos + post.consumed
                        &&& p <= input@.len()
                        &&& seq_decoder_matches(
                            *final(self),
                            old(self).remaining_spec(),
                            old(self).transcript(),
                            post,
                        )
                    },
                    (Err(e), Ok((mb, post))) => seq_decoder_matches(
                        *final(self),
                        old(self).remaining_spec(),
                        old(self).transcript(),
                        post,
                    ) && match e.kind {
                        Kind::Utf8 { valid_up_to } => !vstd::utf8::valid_utf8(mb) && valid_up_to
                            <= mb.len() && e.position is None,
                        Kind::UnicodeNormalization => vstd::utf8::valid_utf8(mb)
                            && !vstd::utf8::is_ascii_chars(vstd::utf8::decode_utf8(mb))
                            && e.position is None,
                        _ => false,
                    },
                    (Err(e), Err(k)) => e.kind == k,
                    _ => false,
                }
            }),
    {
        let (bytes, p) = match self.decode_dynamically_sized_value(WireType::String, input, pos) {
            Ok(x) => x,
            Err(e) => {
                return Err(e);
            },
        };
        match crate::string::str_from_utf8(bytes) {
            Ok(s) => {
                proof {
                    broadcast use vstd::utf8::encode_utf8_decode_utf8;
                    broadcast use vstd::string::is_ascii_spec_bytes;
                    broadcast use vstd::utf8::is_ascii_chars_encode_utf8;

                }
                match crate::string::ensure_canonical(s) {
                    Ok(out) => Ok((out, p)),
                    Err(e) => Err(e),
                }
            },
            Err(valid_up_to) => Err(Kind::Utf8 { valid_up_to }.into_error()),
        }
    }

    /// Hash a digest of a nested message within this sequence; a
    /// no-op when hashing is off.
    pub fn hash_message_digest(&mut self, digest: &[u8]) -> (r: Result<(), Error>)
        ensures
            final(self).wf() == old(self).wf(),
            final(self).state_model() == old(self).state_model(),
            final(self).element_type() == old(self).element_type(),
            final(self).length_spec() == old(self).length_spec(),
            final(self).remaining_spec() == old(self).remaining_spec(),
            match old(self).hasher_model() {
                None => r == Ok::<(), Error>(()) && final(self).hasher_model() is None && final(self).transcript() == old(self).transcript(),
                Some(Some(sequence_hasher::State::Message { remaining: 0 })) => r == Ok::<
                    (),
                    Error,
                >(()) && final(self).hasher_model() == Some(
                    Some(sequence_hasher::State::Initial),
                ) && final(self).transcript() == old(self).transcript() + digest@,
                Some(_) => r == Err::<(), Error>(Error { kind: Kind::Hashing, position: None })
                    && final(self).hasher_model() == old(self).hasher_model() && final(self).transcript() == old(self).transcript(),
            },
    {
        match &mut self.hasher {
            Some(hasher) => hasher.hash_message_digest(digest),
            None => Ok(()),
        }
    }

    /// Compute a Verihash digest of the sequence being decoded: the
    /// whole transcript hashed, legal only between elements.  `None`
    /// when hashing is off.
    pub fn compute_digest(self) -> (r: Result<Option<Vec<u8>>, Error>)
        ensures
            match self.hasher_model() {
                None => r == Ok::<Option<Vec<u8>>, Error>(None),
                Some(Some(sequence_hasher::State::Initial)) => match r {
                    Ok(Some(v)) => v@ == crate::verihash::sha256_of(self.transcript())
                        && v@.len() == 32,
                    _ => false,
                },
                Some(_) => r == Err::<Option<Vec<u8>>, Error>(
                    Error { kind: Kind::Hashing, position: None },
                ),
            },
    {
        match self.hasher {
            Some(hasher) => match hasher.finish() {
                Ok(digest) => Ok(Some(digest)),
                Err(e) => Err(e),
            },
            None => Ok(None),
        }
    }

    /// The state that follows an emitted event.
    fn transition<'a>(event: &Event<'a>) -> (r: State)
        ensures
            r.model() == transition_model(event_model(*event)),
    {
        match event {
            Event::LengthDelimiter { wire_type, length } => State::Body {
                wire_type: *wire_type,
                remaining: *length,
            },
            Event::SequenceHeader { wire_type, length } => State::Body {
                wire_type: *wire_type,
                remaining: *length,
            },
            Event::ValueChunk { wire_type, bytes: _, remaining } => {
                if *remaining > 0 {
                    State::Body { wire_type: *wire_type, remaining: *remaining }
                } else {
                    State::Value(Vint64Decoder::new())
                }
            },
            _ => State::Value(Vint64Decoder::new()),
        }
    }
}

} // verus!
