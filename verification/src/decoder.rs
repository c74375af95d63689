//! Streaming decoder: the nesting stack of per-message pull parsers,
//! with an optional sequence decoder, and the event and hasher
//! machinery they share.
//!
//! The decoder owns a bounded stack of message decoders, one per
//! nesting level, pushed on entry into a nested message and popped on
//! exit; popping folds the nested message's digest into the parent's
//! transcript.  At most one sequence is decoded at a time; nested
//! sequences are not supported.

mod event;
pub mod message;
pub mod message_hasher;
pub mod sequence;
pub mod sequence_hasher;
pub mod vint64;

pub use self::event::{event_model, Event, EventModel};

use crate::error::{Error, Kind};
use crate::field::{Tag, WireType};
use crate::message::Message;
use vstd::prelude::*;
use vstd::string::StringSliceAdditionalSpecFns;

verus! {

broadcast use vstd::slice::group_slice_axioms;

/// Maximum depth of nested messages: the size of the decoder stack.
pub const MAX_NESTING_DEPTH: usize = 16;

/// What decoding a scalar or borrowed field at the top level yields:
/// the expected header, then the expected value event, on the top
/// message decoder.
pub open spec fn top_uint64_outcome(d: message::Decoder, avail: Seq<u8>, tag: Tag) -> Result<
    (u64, message::PostModel),
    Kind,
> {
    message::uint64_field_outcome(
        d.state_model(),
        d.last_tag_spec(),
        d.hasher_model(),
        avail,
        tag,
    )
}

/// As `top_uint64_outcome`, for signed integers.
pub open spec fn top_sint64_outcome(d: message::Decoder, avail: Seq<u8>, tag: Tag) -> Result<
    (i64, message::PostModel),
    Kind,
> {
    message::sint64_field_outcome(
        d.state_model(),
        d.last_tag_spec(),
        d.hasher_model(),
        avail,
        tag,
    )
}

/// As `top_uint64_outcome`, for a whole dynamically sized field of
/// the given wire type.
pub open spec fn top_dynamic_outcome(
    d: message::Decoder,
    avail: Seq<u8>,
    tag: Tag,
    wire_type: WireType,
) -> Result<(Seq<u8>, message::PostModel), Kind> {
    message::dynamic_field_outcome(
        d.state_model(),
        d.last_tag_spec(),
        d.hasher_model(),
        avail,
        tag,
        wire_type,
    )
}

/// What decoding a whole sequence field at the top level yields: the
/// expected header, then the sequence header and body, on the top
/// message decoder.
pub open spec fn top_sequence_outcome(
    d: message::Decoder,
    avail: Seq<u8>,
    tag: Tag,
    element_type: WireType,
) -> Result<(Seq<u8>, message::PostModel), Kind> {
    match message::expect_header_outcome(
        d.state_model(),
        d.last_tag_spec(),
        d.hasher_model(),
        avail,
        tag,
        WireType::Sequence,
    ) {
        Err(k) => Err(k),
        Ok(post1) => match message::sequence_outcome(
            post1.state,
            post1.last_tag,
            post1.hasher,
            avail.skip(post1.consumed as int),
            element_type,
        ) {
            Err(k) => Err(k),
            Ok((bytes, post2)) => Ok((bytes, message::post_then(post1, post2))),
        },
    }
}

/// The `uint64` elements a sequence body holds: each a canonical
/// `vint64`, packed back to back; `None` when the body is not such a
/// packing.
pub open spec fn uint64_seq_values(body: Seq<u8>) -> Option<Seq<u64>>
    decreases body.len(),
{
    if body.len() == 0 {
        Some(Seq::empty())
    } else {
        match crate::vint64::decode_model(body) {
            Ok((value, l)) => {
                if 1 <= l <= body.len() {
                    match uint64_seq_values(body.skip(l as int)) {
                        Some(rest) => Some(seq![value] + rest),
                        None => None,
                    }
                } else {
                    None
                }
            },
            Err(_) => None,
        }
    }
}

/// The `sint64` elements a sequence body holds: each a canonical
/// zigzag-encoded `vint64`, packed back to back.
pub open spec fn sint64_seq_values(body: Seq<u8>) -> Option<Seq<i64>>
    decreases body.len(),
{
    if body.len() == 0 {
        Some(Seq::empty())
    } else {
        match crate::vint64::decode_model(body) {
            Ok((value, l)) => {
                if 1 <= l <= body.len() {
                    match sint64_seq_values(body.skip(l as int)) {
                        Some(rest) => Some(
                            seq![crate::vint64::zigzag::zigzag_inverse_spec(value)] + rest,
                        ),
                        None => None,
                    }
                } else {
                    None
                }
            },
            Err(_) => None,
        }
    }
}

/// The transcript a run of `uint64` sequence elements contributes:
/// each element's untagged hash bytes, in order.
pub open spec fn uint64_values_transcript(values: Seq<u64>) -> Seq<u8>
    decreases values.len(),
{
    if values.len() == 0 {
        Seq::empty()
    } else {
        crate::verihash::uint64_hash_bytes(values[0]) + uint64_values_transcript(values.skip(1))
    }
}

/// The transcript a run of `sint64` sequence elements contributes.
pub open spec fn sint64_values_transcript(values: Seq<i64>) -> Seq<u8>
    decreases values.len(),
{
    if values.len() == 0 {
        Seq::empty()
    } else {
        crate::verihash::sint64_hash_bytes(values[0]) + sint64_values_transcript(values.skip(1))
    }
}

proof fn lemma_uint64_values_transcript_snoc(values: Seq<u64>, value: u64)
    ensures
        uint64_values_transcript(values.push(value)) == uint64_values_transcript(values)
            + crate::verihash::uint64_hash_bytes(value),
    decreases values.len(),
{
    if values.len() == 0 {
        assert(values.push(value)[0] == value);
        assert(values.push(value).skip(1) =~= Seq::<u64>::empty());
        assert(uint64_values_transcript(values.push(value)) == crate::verihash::uint64_hash_bytes(
            value,
        ) + uint64_values_transcript(Seq::empty()));
        assert(crate::verihash::uint64_hash_bytes(value) + Seq::<u8>::empty()
            =~= crate::verihash::uint64_hash_bytes(value));
        assert(Seq::<u8>::empty() + crate::verihash::uint64_hash_bytes(value)
            =~= crate::verihash::uint64_hash_bytes(value));
    } else {
        assert(values.push(value)[0] == values[0]);
        assert(values.push(value).skip(1) =~= values.skip(1).push(value));
        lemma_uint64_values_transcript_snoc(values.skip(1), value);
        assert(crate::verihash::uint64_hash_bytes(values[0]) + (uint64_values_transcript(
            values.skip(1),
        ) + crate::verihash::uint64_hash_bytes(value)) =~= (crate::verihash::uint64_hash_bytes(
            values[0],
        ) + uint64_values_transcript(values.skip(1))) + crate::verihash::uint64_hash_bytes(value));
    }
}

proof fn lemma_sint64_values_transcript_snoc(values: Seq<i64>, value: i64)
    ensures
        sint64_values_transcript(values.push(value)) == sint64_values_transcript(values)
            + crate::verihash::sint64_hash_bytes(value),
    decreases values.len(),
{
    if values.len() == 0 {
        assert(values.push(value)[0] == value);
        assert(values.push(value).skip(1) =~= Seq::<i64>::empty());
        assert(sint64_values_transcript(values.push(value)) == crate::verihash::sint64_hash_bytes(
            value,
        ) + sint64_values_transcript(Seq::empty()));
        assert(crate::verihash::sint64_hash_bytes(value) + Seq::<u8>::empty()
            =~= crate::verihash::sint64_hash_bytes(value));
        assert(Seq::<u8>::empty() + crate::verihash::sint64_hash_bytes(value)
            =~= crate::verihash::sint64_hash_bytes(value));
    } else {
        assert(values.push(value)[0] == values[0]);
        assert(values.push(value).skip(1) =~= values.skip(1).push(value));
        lemma_sint64_values_transcript_snoc(values.skip(1), value);
        assert(crate::verihash::sint64_hash_bytes(values[0]) + (sint64_values_transcript(
            values.skip(1),
        ) + crate::verihash::sint64_hash_bytes(value)) =~= (crate::verihash::sint64_hash_bytes(
            values[0],
        ) + sint64_values_transcript(values.skip(1))) + crate::verihash::sint64_hash_bytes(value));
    }
}

/// Veriform decoder: the bounded stack of message decoders, and at
/// most one sequence decoder.
pub struct Decoder {
    /// Stack of message decoders, one per nesting level.
    stack: Vec<message::Decoder>,

    /// Sequence decoder, while a sequence is being decoded.
    seq_decoder: Option<sequence::Decoder>,
}

impl Decoder {
    /// The message decoder frames, innermost last.
    pub closed spec fn frames(&self) -> Seq<message::Decoder> {
        self.stack@
    }

    /// The nesting depth: the number of message decoder frames.
    pub open spec fn depth(&self) -> nat {
        self.frames().len()
    }

    /// The innermost message decoder.
    pub open spec fn top(&self) -> message::Decoder {
        self.frames().last()
    }

    /// The sequence decoder, while a sequence is being decoded.
    pub closed spec fn seq_model(&self) -> Option<sequence::Decoder> {
        self.seq_decoder
    }

    /// A well-formed decoder: at least one frame, no more than the
    /// depth bound, every frame well-formed, and the sequence decoder
    /// well-formed when present.
    pub open spec fn wf(&self) -> bool {
        &&& 1 <= self.depth() <= MAX_NESTING_DEPTH
        &&& forall|i: int| 0 <= i < self.depth() ==> (#[trigger] self.frames()[i]).wf()
        &&& match self.seq_model() {
            Some(s) => s.wf(),
            None => true,
        }
    }

    /// Initialize a decoder: one fresh message decoder frame, no
    /// sequence in flight.
    pub fn new() -> (r: Self)
        ensures
            r.wf(),
            r.depth() == 1,
            r.top().is_initial(),
            r.seq_model() is None,
    {
        let mut stack: Vec<message::Decoder> = Vec::new();
        stack.push(message::Decoder::new());
        Decoder { stack, seq_decoder: None }
    }

    /// Decode a `uint64` field with the given tag.
    pub fn decode_uint64<'a>(&mut self, tag: Tag, input: &'a [u8], pos: usize) -> (r: Result<
        (u64, usize),
        Error,
    >)
        requires
            old(self).wf(),
            pos <= input@.len(),
        ensures
            final(self).wf(),
            final(self).depth() == old(self).depth(),
            final(self).seq_model() == old(self).seq_model(),
            final(self).frames() == old(self).frames().update(
                old(self).depth() - 1,
                final(self).top(),
            ),
            ({
                let avail = input@.subrange(pos as int, input@.len() as int);
                match (r, top_uint64_outcome(old(self).top(), avail, tag)) {
                    (Ok((v, p)), Ok((mv, post))) => v == mv && p == pos + post.consumed && p
                        <= input@.len() && message::decoder_matches(
                        final(self).top(),
                        old(self).top().position_spec(),
                        old(self).top().transcript(),
                        post,
                    ),
                    (Err(e), Err(k)) => e.kind == k,
                    _ => false,
                }
            }),
    {
        let mut top = match self.stack.pop() {
            Some(t) => t,
            None => {
                return Err(Kind::Failed.into_error());
            },
        };
        let ghost avail = input@.subrange(pos as int, input@.len() as int);
        let ghost post1 = (match message::expect_header_outcome(
            top.state_model(),
            top.last_tag_spec(),
            top.hasher_model(),
            avail,
            tag,
            WireType::UInt64,
        ) {
            Ok(p) => p,
            Err(_) => arbitrary(),
        });
        let result = match top.expect_header(input, pos, tag, WireType::UInt64) {
            Ok(p1) => {
                proof {
                    assert(input@.subrange(p1 as int, input@.len() as int) =~= avail.skip(
                        post1.consumed as int,
                    ));
                }
                top.decode_uint64(input, p1)
            },
            Err(e) => Err(e),
        };
        self.stack.push(top);
        proof {
            assert(self.stack@ =~= old(self).frames().update(
                old(self).depth() - 1,
                self.stack@.last(),
            ));
        }
        result
    }

    /// Decode an `sint64` field with the given tag.
    pub fn decode_sint64<'a>(&mut self, tag: Tag, input: &'a [u8], pos: usize) -> (r: Result<
        (i64, usize),
        Error,
    >)
        requires
            old(self).wf(),
            pos <= input@.len(),
        ensures
            final(self).wf(),
            final(self).depth() == old(self).depth(),
            final(self).seq_model() == old(self).seq_model(),
            final(self).frames() == old(self).frames().update(
                old(self).depth() - 1,
                final(self).top(),
            ),
            ({
                let avail = input@.subrange(pos as int, input@.len() as int);
                match (r, top_sint64_outcome(old(self).top(), avail, tag)) {
                    (Ok((v, p)), Ok((mv, post))) => v == mv && p == pos + post.consumed && p
                        <= input@.len() && message::decoder_matches(
                        final(self).top(),
                        old(self).top().position_spec(),
                        old(self).top().transcript(),
                        post,
                    ),
                    (Err(e), Err(k)) => e.kind == k,
                    _ => false,
                }
            }),
    {
        let mut top = match self.stack.pop() {
            Some(t) => t,
            None => {
                return Err(Kind::Failed.into_error());
            },
        };
        let ghost avail = input@.subrange(pos as int, input@.len() as int);
        let ghost post1 = (match message::expect_header_outcome(
            top.state_model(),
            top.last_tag_spec(),
            top.hasher_model(),
            avail,
            tag,
            WireType::SInt64,
        ) {
            Ok(p) => p,
            Err(_) => arbitrary(),
        });
        let result = match top.expect_header(input, pos, tag, WireType::SInt64) {
            Ok(p1) => {
                proof {
                    assert(input@.subrange(p1 as int, input@.len() as int) =~= avail.skip(
                        post1.consumed as int,
                    ));
                }
                top.decode_sint64(input, p1)
            },
            Err(e) => Err(e),
        };
        self.stack.push(top);
        proof {
            assert(self.stack@ =~= old(self).frames().update(
                old(self).depth() - 1,
                self.stack@.last(),
            ));
        }
        result
    }

    /// Decode a `bytes` field with the given tag, returning a borrow
    /// of the input buffer.
    pub fn decode_bytes<'a>(&mut self, tag: Tag, input: &'a [u8], pos: usize) -> (r: Result<
        (&'a [u8], usize),
        Error,
    >)
        requires
            old(self).wf(),
            pos <= input@.len(),
        ensures
            final(self).wf(),
            final(self).depth() == old(self).depth(),
            final(self).seq_model() == old(self).seq_model(),
            final(self).frames() == old(self).frames().update(
                old(self).depth() - 1,
                final(self).top(),
            ),
            ({
                let avail = input@.subrange(pos as int, input@.len() as int);
                match (r, top_dynamic_outcome(old(self).top(), avail, tag, WireType::Bytes)) {
                    (Ok((bytes, p)), Ok((mb, post))) => bytes@ == mb && p == pos + post.consumed
                        && p <= input@.len() && message::decoder_matches(
                        final(self).top(),
                        old(self).top().position_spec(),
                        old(self).top().transcript(),
                        post,
                    ),
                    (Err(e), Err(k)) => e.kind == k,
                    _ => false,
                }
            }),
    {
        let mut top = match self.stack.pop() {
            Some(t) => t,
            None => {
                return Err(Kind::Failed.into_error());
            },
        };
        let ghost avail = input@.subrange(pos as int, input@.len() as int);
        let ghost post1 = (match message::expect_header_outcome(
            top.state_model(),
            top.last_tag_spec(),
            top.hasher_model(),
            avail,
            tag,
            WireType::Bytes,
        ) {
            Ok(p) => p,
            Err(_) => arbitrary(),
        });
        let result = match top.expect_header(input, pos, tag, WireType::Bytes) {
            Ok(p1) => {
                proof {
                    assert(input@.subrange(p1 as int, input@.len() as int) =~= avail.skip(
                        post1.consumed as int,
                    ));
                }
                top.decode_bytes(input, p1)
            },
            Err(e) => Err(e),
        };
        self.stack.push(top);
        proof {
            assert(self.stack@ =~= old(self).frames().update(
                old(self).depth() - 1,
                self.stack@.last(),
            ));
        }
        result
    }

    /// Decode a `string` field with the given tag, returning a borrow
    /// of the input buffer.
    pub fn decode_string<'a>(&mut self, tag: Tag, input: &'a [u8], pos: usize) -> (r: Result<
        (&'a str, usize),
        Error,
    >)
        requires
            old(self).wf(),
            pos <= input@.len(),
        ensures
            final(self).wf(),
            final(self).depth() == old(self).depth(),
            final(self).seq_model() == old(self).seq_model(),
            final(self).frames() == old(self).frames().update(
                old(self).depth() - 1,
                final(self).top(),
            ),
            ({
                let avail = input@.subrange(pos as int, input@.len() as int);
                match (r, top_dynamic_outcome(old(self).top(), avail, tag, WireType::String)) {
                    (Ok((s, p)), Ok((mb, post))) => s.spec_bytes() == mb && vstd::string::is_ascii(
                        s,
                    ) && vstd::utf8::valid_utf8(mb) && p == pos + post.consumed && p
                        <= input@.len() && message::decoder_matches(
                        final(self).top(),
                        old(self).top().position_spec(),
                        old(self).top().transcript(),
                        post,
                    ),
                    (Err(e), Ok((mb, post))) => message::decoder_matches(
                        final(self).top(),
                        old(self).top().position_spec(),
                        old(self).top().transcript(),
                        post,
                    ) && match e.kind {
                        Kind::Utf8 { valid_up_to } => !vstd::utf8::valid_utf8(mb) && valid_up_to
                            <= mb.len() && e.position is None,
                        Kind::UnicodeNormalization => vstd::utf8::valid_utf8(mb)
                            && !vstd::utf8::is_ascii_chars(vstd::utf8::decode_utf8(mb))
                            && e.position is None,
                        _ => false,
                    },
                    (Err(e), Err(k)) => e.kind == k,
                    _ => false,
                }
            }),
    {
        let mut top = match self.stack.pop() {
            Some(t) => t,
            None => {
                return Err(Kind::Failed.into_error());
            },
        };
        let ghost avail = input@.subrange(pos as int, input@.len() as int);
        let ghost post1 = (match message::expect_header_outcome(
            top.state_model(),
            top.last_tag_spec(),
            top.hasher_model(),
            avail,
            tag,
            WireType::String,
        ) {
            Ok(p) => p,
            Err(_) => arbitrary(),
        });
        let result = match top.expect_header(input, pos, tag, WireType::String) {
            Ok(p1) => {
                proof {
                    assert(input@.subrange(p1 as int, input@.len() as int) =~= avail.skip(
                        post1.consumed as int,
                    ));
                }
                top.decode_string(input, p1)
            },
            Err(e) => Err(e),
        };
        self.stack.push(top);
        proof {
            assert(self.stack@ =~= old(self).frames().update(
                old(self).depth() - 1,
                self.stack@.last(),
            ));
        }
        result
    }

    /// Decode a nested `message` field with the given tag: its body is
    /// handed to the message type's own decoder in a fresh frame, and
    /// on success the nested digest is folded into this message's
    /// transcript.  Entering the nested message at the depth bound
    /// fails with `NestingDepth`; an error of the nested decoder
    /// surfaces with its position extended by the body's offset.
    pub fn decode_message<M: Message>(&mut self, tag: Tag, input: &[u8], pos: usize) -> (r: Result<
        (M, usize),
        Error,
    >)
        requires
            old(self).wf(),
            pos <= input@.len(),
        ensures
            final(self).wf(),
            final(self).depth() == old(self).depth(),
            final(self).seq_model() == old(self).seq_model(),
            final(self).frames() == old(self).frames().update(
                old(self).depth() - 1,
                final(self).top(),
            ),
            final(self).top().cached() == old(self).top().cached(),
            ({
                let avail = input@.subrange(pos as int, input@.len() as int);
                match top_dynamic_outcome(old(self).top(), avail, tag, WireType::Message) {
                    Err(k) => match r {
                        Err(e) => e.kind == k,
                        Ok(_) => false,
                    },
                    Ok((mb, post)) => {
                        &&& (old(self).depth() == MAX_NESTING_DEPTH ==> r == Err::<
                            (M, usize),
                            Error,
                        >(Error { kind: Kind::NestingDepth, position: None })
                            && message::decoder_matches(
                            final(self).top(),
                            old(self).top().position_spec(),
                            old(self).top().transcript(),
                            post,
                        ))
                        &&& match r {
                            Ok((_, p)) => {
                                &&& old(self).depth() < MAX_NESTING_DEPTH
                                &&& p == pos + post.consumed
                                &&& p <= input@.len()
                                &&& final(self).top().state_model() == post.state
                                &&& final(self).top().last_tag_spec() == post.last_tag
                                &&& final(self).top().position_spec() == message::pos_saturated(
                                    old(self).top().position_spec(),
                                    post.consumed,
                                )
                                &&& ((post.hasher matches Some(
                                    Some(message_hasher::State::Message { remaining: 0 }),
                                ) && final(self).top().hasher_model() == Some(
                                    Some(message_hasher::State::Initial),
                                ) && exists|d: Seq<u8>|
                                    final(self).top().transcript() == old(self).top().transcript()
                                        + post.appended + message_hasher::message_digest_bytes(
                                        tag,
                                        d,
                                    )) || (final(self).top().hasher_model() == post.hasher
                                    && final(self).top().transcript() == old(self).top().transcript() + post.appended))
                            },
                            Err(_) => true,
                        }
                    },
                }
            }),
    {
        let mut top = match self.stack.pop() {
            Some(t) => t,
            None => {
                return Err(Kind::Failed.into_error());
            },
        };
        let ghost avail = input@.subrange(pos as int, input@.len() as int);
        let ghost post1 = (match message::expect_header_outcome(
            top.state_model(),
            top.last_tag_spec(),
            top.hasher_model(),
            avail,
            tag,
            WireType::Message,
        ) {
            Ok(q) => q,
            Err(_) => arbitrary(),
        });
        let result = match top.expect_header(input, pos, tag, WireType::Message) {
            Ok(p1) => {
                proof {
                    assert(input@.subrange(p1 as int, input@.len() as int) =~= avail.skip(
                        post1.consumed as int,
                    ));
                }
                top.decode_message(input, p1)
            },
            Err(e) => Err(e),
        };
        self.stack.push(top);
        proof {
            assert(self.stack@ =~= old(self).frames().update(
                old(self).depth() - 1,
                self.stack@.last(),
            ));
            if result is Ok {
                let post2 = (match message::dynamic_outcome(
                    post1.state,
                    post1.last_tag,
                    post1.hasher,
                    avail.skip(post1.consumed as int),
                    WireType::Message,
                ) {
                    Ok((_, q2)) => q2,
                    Err(_) => arbitrary(),
                });
                assert(old(self).top().transcript() + post1.appended + post2.appended =~= old(self).top().transcript() + (post1.appended + post2.appended));
                message::lemma_pos_saturated_compose(
                    old(self).top().position_spec(),
                    post1.consumed,
                    post2.consumed,
                );
            }
        }
        let ghost mid = *self;
        let (msg_bytes, p) = match result {
            Ok(x) => x,
            Err(e) => {
                return Err(e);
            },
        };
        if self.stack.len() >= MAX_NESTING_DEPTH {
            return Err(Kind::NestingDepth.into_error());
        }
        let body_offset = if msg_bytes.len() <= p {
            p - msg_bytes.len()
        } else {
            0
        };
        self.stack.push(message::Decoder::new());
        let ghost pushed = *self;
        let msg = match M::decode(self, msg_bytes) {
            Ok(m) => m,
            Err(e) => {
                proof {
                    assert(pushed.frames().take(pushed.depth() - 1) =~= mid.frames());
                    assert(self.frames().take(pushed.depth() - 1) =~= mid.frames());
                }
                self.stack.pop();
                proof {
                    assert(self.stack@ =~= mid.frames());
                }
                return Err(e.extend_position(body_offset));
            },
        };
        proof {
            assert(pushed.frames().take(pushed.depth() - 1) =~= mid.frames());
            assert(self.frames().take(pushed.depth() - 1) =~= mid.frames());
        }
        let mut child = match self.stack.pop() {
            Some(c) => c,
            None => {
                return Err(Kind::Failed.into_error());
            },
        };
        proof {
            assert(self.stack@ =~= mid.frames());
            assert(self.stack@.last() == mid.top());
        }
        let digest = match child.compute_digest() {
            Ok(d) => d,
            Err(e) => {
                return Err(e);
            },
        };
        if let Some(digest) = digest {
            let mut parent = match self.stack.pop() {
                Some(t) => t,
                None => {
                    return Err(Kind::Failed.into_error());
                },
            };
            let fold = parent.hash_message_digest(tag, digest.as_slice());
            self.stack.push(parent);
            proof {
                assert(self.stack@ =~= old(self).frames().update(
                    old(self).depth() - 1,
                    self.stack@.last(),
                ));
            }
            match fold {
                Ok(()) => {},
                Err(e) => {
                    return Err(e);
                },
            }
        }
        Ok((msg, p))
    }

    /// Decode a sequence field of `uint64` elements with the given
    /// tag, collecting every element.  Success is owed whenever the
    /// field parses and its body is a packing of canonical `vint64`s;
    /// the sequence's digest is then folded into the message's
    /// transcript under the field's tag.
    pub fn decode_uint64_seq<'a>(&mut self, tag: Tag, input: &'a [u8], pos: usize) -> (r: Result<
        (Vec<u64>, usize),
        Error,
    >)
        requires
            old(self).wf(),
            pos <= input@.len(),
        ensures
            final(self).wf(),
            final(self).depth() == old(self).depth(),
            match old(self).seq_model() {
                Some(_) => r == Err::<(Vec<u64>, usize), Error>(
                    Error { kind: Kind::NestingDepth, position: None },
                ) && final(self).frames() == old(self).frames() && final(self).seq_model() == old(self).seq_model(),
                None => {
                    &&& final(self).seq_model() is None
                    &&& final(self).frames() == old(self).frames().update(
                        old(self).depth() - 1,
                        final(self).top(),
                    )
                    &&& final(self).top().cached() == old(self).top().cached()
                    &&& ({
                        let avail = input@.subrange(pos as int, input@.len() as int);
                        match top_sequence_outcome(old(self).top(), avail, tag, WireType::UInt64) {
                            Err(k) => match r {
                                Err(e) => e.kind == k,
                                Ok(_) => false,
                            },
                            Ok((mb, post)) => match uint64_seq_values(mb) {
                                None => r is Err,
                                Some(vs) => {
                                    let digest_entry = message_hasher::sequence_digest_bytes(
                                        tag,
                                        crate::verihash::sha256_of(
                                            seq![
                                                crate::field::wire_type_code(WireType::UInt64) as u8
                                            ] + uint64_values_transcript(vs),
                                        ),
                                    );
                                    match post.hasher {
                                        None => (match r {
                                            Ok((values, p)) => values@ == vs && p == pos
                                                + post.consumed && p <= input@.len()
                                                && message::decoder_matches(
                                                final(self).top(),
                                                old(self).top().position_spec(),
                                                old(self).top().transcript(),
                                                post,
                                            ),
                                            Err(_) => false,
                                        }),
                                        Some(
                                            Some(
                                                message_hasher::State::Sequence {
                                                    wire_type: _,
                                                    remaining: 0,
                                                },
                                            ),
                                        ) => (match r {
                                            Ok((values, p)) => {
                                                &&& values@ == vs
                                                &&& p == pos + post.consumed
                                                &&& p <= input@.len()
                                                &&& final(self).top().state_model() == post.state
                                                &&& final(self).top().last_tag_spec()
                                                    == post.last_tag
                                                &&& final(self).top().position_spec()
                                                    == message::pos_saturated(
                                                    old(self).top().position_spec(),
                                                    post.consumed,
                                                )
                                                &&& final(self).top().hasher_model() == Some(
                                                    Some(message_hasher::State::Initial),
                                                )
                                                &&& final(self).top().transcript() == old(self).top().transcript() + post.appended + digest_entry
                                            },
                                            Err(_) => false,
                                        }),
                                        Some(_) => r == Err::<(Vec<u64>, usize), Error>(
                                            Error { kind: Kind::Hashing, position: None },
                                        ),
                                    }
                                },
                            },
                        }
                    })
                },
            },
    {
        if self.seq_decoder.is_some() {
            return Err(Kind::NestingDepth.into_error());
        }
        let mut top = match self.stack.pop() {
            Some(t) => t,
            None => {
                return Err(Kind::Failed.into_error());
            },
        };
        let ghost avail = input@.subrange(pos as int, input@.len() as int);
        let ghost post1 = (match message::expect_header_outcome(
            top.state_model(),
            top.last_tag_spec(),
            top.hasher_model(),
            avail,
            tag,
            WireType::Sequence,
        ) {
            Ok(p) => p,
            Err(_) => arbitrary(),
        });
        let result = match top.expect_header(input, pos, tag, WireType::Sequence) {
            Ok(p1) => {
                proof {
                    assert(input@.subrange(p1 as int, input@.len() as int) =~= avail.skip(
                        post1.consumed as int,
                    ));
                }
                top.decode_sequence(WireType::UInt64, input, p1)
            },
            Err(e) => Err(e),
        };
        self.stack.push(top);
        proof {
            assert(self.stack@ =~= old(self).frames().update(
                old(self).depth() - 1,
                self.stack@.last(),
            ));
            if result is Ok {
                let post2 = (match message::sequence_outcome(
                    post1.state,
                    post1.last_tag,
                    post1.hasher,
                    avail.skip(post1.consumed as int),
                    WireType::UInt64,
                ) {
                    Ok((_, p2)) => p2,
                    Err(_) => arbitrary(),
                });
                assert(old(self).top().transcript() + post1.appended + post2.appended =~= old(self).top().transcript() + (post1.appended + post2.appended));
                message::lemma_pos_saturated_compose(
                    old(self).top().position_spec(),
                    post1.consumed,
                    post2.consumed,
                );
            }
        }
        let ghost mid = *self;
        let (seq_bytes, p) = match result {
            Ok(x) => x,
            Err(e) => {
                return Err(e);
            },
        };
        let mut sd = sequence::Decoder::new(WireType::UInt64, seq_bytes.len());
        let mut values: Vec<u64> = Vec::new();
        let mut sp: usize = 0;
        proof {
            assert(seq_bytes@.skip(0) =~= seq_bytes@);
            if let Some(all) = uint64_seq_values(seq_bytes@) {
                assert(Seq::<u64>::empty() + all =~= all);
            }
            assert(values@ =~= Seq::<u64>::empty());
            assert(seq![crate::field::wire_type_code(WireType::UInt64) as u8]
                + uint64_values_transcript(values@) =~= seq![
                crate::field::wire_type_code(WireType::UInt64) as u8
            ]);
        }
        while sd.remaining() > 0
            invariant
                self.wf(),
                *self == mid,
                mid.wf(),
                mid.depth() == old(self).depth(),
                mid.seq_model() is None,
                mid.frames() == old(self).frames().update(old(self).depth() - 1, mid.top()),
                mid.top().cached() == old(self).top().cached(),
                old(self).seq_model() is None,
                pos <= input@.len(),
                match top_sequence_outcome(
                    old(self).top(),
                    input@.subrange(pos as int, input@.len() as int),
                    tag,
                    WireType::UInt64,
                ) {
                    Ok((mb, post)) => mb == seq_bytes@ && p == pos + post.consumed && p
                        <= input@.len() && message::decoder_matches(
                        mid.top(),
                        old(self).top().position_spec(),
                        old(self).top().transcript(),
                        post,
                    ),
                    Err(_) => false,
                },
                sd.wf(),
                sd.element_type() == WireType::UInt64,
                sd.length_spec() == seq_bytes@.len(),
                sp + sd.remaining_spec() == seq_bytes@.len(),
                sd.state_model() == sequence::StateModel::Value(Seq::<u8>::empty()),
                sd.hasher_model() == Some(Some(sequence_hasher::State::Initial)),
                sd.transcript() == seq![crate::field::wire_type_code(WireType::UInt64) as u8]
                    + uint64_values_transcript(values@),
                uint64_seq_values(seq_bytes@) == (match uint64_seq_values(
                    seq_bytes@.skip(sp as int),
                ) {
                    Some(rest) => Some(values@ + rest),
                    None => None::<Seq<u64>>,
                }),
            decreases sd.remaining_spec(),
        {
            let ghost before = seq_bytes@.skip(sp as int);
            let ghost transcript_before = sd.transcript();
            let (value, new_sp) = match sd.decode_uint64(seq_bytes, sp) {
                Ok(x) => x,
                Err(e) => {
                    proof {
                        if let Some(all) = uint64_seq_values(seq_bytes@) {
                            assert(uint64_seq_values(before) is Some);
                            assert(Seq::<u8>::empty() + before =~= before);
                            assert(crate::vint64::decode_model(before) is Ok);
                            assert(!crate::decoder::vint64::incomplete_vint64(
                                Seq::<u8>::empty() + before,
                            ));
                            if let Ok((v0, l0)) = crate::vint64::decode_model(before) {
                                assert(sequence_hasher::transition_spec(
                                    sequence_hasher::State::Initial,
                                    EventModel::UInt64(v0),
                                ) is Some);
                            }
                            assert(false);
                        }
                    }
                    return Err(e);
                },
            };
            proof {
                assert(new_sp > sp);
                assert(Seq::<u8>::empty() + before =~= before);
                assert(crate::vint64::decode_model(before) matches Ok(pair) && pair.0 == value
                    && pair.1 == new_sp - sp);
                assert(seq_bytes@.skip(new_sp as int) =~= before.skip(new_sp - sp));
                assert(uint64_seq_values(before) == (match uint64_seq_values(
                    before.skip(new_sp - sp),
                ) {
                    Some(rest) => Some(seq![value] + rest),
                    None => None::<Seq<u64>>,
                }));
                if let Some(rest2) = uint64_seq_values(seq_bytes@.skip(new_sp as int)) {
                    assert(values@ + (seq![value] + rest2) =~= (values@ + seq![value]) + rest2);
                    assert(values@.push(value) =~= values@ + seq![value]);
                }
                assert(sequence_hasher::transition_spec(
                    sequence_hasher::State::Initial,
                    EventModel::UInt64(value),
                ) == Some(
                    (
                        sequence_hasher::State::Initial,
                        crate::verihash::uint64_hash_bytes(value),
                    ),
                ));
                lemma_uint64_values_transcript_snoc(values@, value);
                assert(transcript_before + crate::verihash::uint64_hash_bytes(value) =~= seq![
                    crate::field::wire_type_code(WireType::UInt64) as u8
                ] + uint64_values_transcript(values@.push(value)));
            }
            values.push(value);
            sp = new_sp;
        }
        proof {
            assert(seq_bytes@.skip(sp as int) =~= Seq::<u8>::empty());
            assert(uint64_seq_values(Seq::empty()) == Some(Seq::<u64>::empty()));
            assert(values@ + Seq::<u64>::empty() =~= values@);
        }
        match self.fold_sequence_digest(tag, sd) {
            Ok(()) => {},
            Err(e) => {
                return Err(e);
            },
        }
        proof {
            assert(self.stack@ =~= old(self).frames().update(
                old(self).depth() - 1,
                self.stack@.last(),
            ));
        }
        Ok((values, p))
    }

    /// Decode a sequence field of `sint64` elements with the given
    /// tag, collecting every element.  Success is owed whenever the
    /// field parses and its body is a packing of canonical `vint64`s;
    /// the sequence's digest is then folded into the message's
    /// transcript under the field's tag.
    pub fn decode_sint64_seq<'a>(&mut self, tag: Tag, input: &'a [u8], pos: usize) -> (r: Result<
        (Vec<i64>, usize),
        Error,
    >)
        requires
            old(self).wf(),
            pos <= input@.len(),
        ensures
            final(self).wf(),
            final(self).depth() == old(self).depth(),
            match old(self).seq_model() {
                Some(_) => r == Err::<(Vec<i64>, usize), Error>(
                    Error { kind: Kind::NestingDepth, position: None },
                ) && final(self).frames() == old(self).frames() && final(self).seq_model() == old(self).seq_model(),
                None => {
                    &&& final(self).seq_model() is None
                    &&& final(self).frames() == old(self).frames().update(
                        old(self).depth() - 1,
                        final(self).top(),
                    )
                    &&& final(self).top().cached() == old(self).top().cached()
                    &&& ({
                        let avail = input@.subrange(pos as int, input@.len() as int);
                        match top_sequence_outcome(old(self).top(), avail, tag, WireType::SInt64) {
                            Err(k) => match r {
                                Err(e) => e.kind == k,
                                Ok(_) => false,
                            },
                            Ok((mb, post)) => match sint64_seq_values(mb) {
                                None => r is Err,
                                Some(vs) => {
                                    let digest_entry = message_hasher::sequence_digest_bytes(
                                        tag,
                                        crate::verihash::sha256_of(
                                            seq![
                                                crate::field::wire_type_code(WireType::SInt64) as u8
                                            ] + sint64_values_transcript(vs),
                                        ),
                                    );
                                    match post.hasher {
                                        None => (match r {
                                            Ok((values, p)) => values@ == vs && p == pos
                                                + post.consumed && p <= input@.len()
                                                && message::decoder_matches(
                                                final(self).top(),
                                                old(self).top().position_spec(),
                                                old(self).top().transcript(),
                                                post,
                                            ),
                                            Err(_) => false,
                                        }),
                                        Some(
                                            Some(
                                                message_hasher::State::Sequence {
                                                    wire_type: _,
                                                    remaining: 0,
                                                },
                                            ),
                                        ) => (match r {
                                            Ok((values, p)) => {
                                                &&& values@ == vs
                                                &&& p == pos + post.consumed
                                                &&& p <= input@.len()
                                                &&& final(self).top().state_model() == post.state
                                                &&& final(self).top().last_tag_spec()
                                                    == post.last_tag
                                                &&& final(self).top().position_spec()
                                                    == message::pos_saturated(
                                                    old(self).top().position_spec(),
                                                    post.consumed,
                                                )
                                                &&& final(self).top().hasher_model() == Some(
                                                    Some(message_hasher::State::Initial),
                                                )
                                                &&& final(self).top().transcript() == old(self).top().transcript() + post.appended + digest_entry
                                            },
                                            Err(_) => false,
                                        }),
                                        Some(_) => r == Err::<(Vec<i64>, usize), Error>(
                                            Error { kind: Kind::Hashing, position: None },
                                        ),
                                    }
                                },
                            },
                        }
                    })
                },
            },
    {
        if self.seq_decoder.is_some() {
            return Err(Kind::NestingDepth.into_error());
        }
        let mut top = match self.stack.pop() {
            Some(t) => t,
            None => {
                return Err(Kind::Failed.into_error());
            },
        };
        let ghost avail = input@.subrange(pos as int, input@.len() as int);
        let ghost post1 = (match message::expect_header_outcome(
            top.state_model(),
            top.last_tag_spec(),
            top.hasher_model(),
            avail,
            tag,
            WireType::Sequence,
        ) {
            Ok(p) => p,
            Err(_) => arbitrary(),
        });
        let result = match top.expect_header(input, pos, tag, WireType::Sequence) {
            Ok(p1) => {
                proof {
                    assert(input@.subrange(p1 as int, input@.len() as int) =~= avail.skip(
                        post1.consumed as int,
                    ));
                }
                top.decode_sequence(WireType::SInt64, input, p1)
            },
            Err(e) => Err(e),
        };
        self.stack.push(top);
        proof {
            assert(self.stack@ =~= old(self).frames().update(
                old(self).depth() - 1,
                self.stack@.last(),
            ));
            if result is Ok {
                let post2 = (match message::sequence_outcome(
                    post1.state,
                    post1.last_tag,
                    post1.hasher,
                    avail.skip(post1.consumed as int),
                    WireType::SInt64,
                ) {
                    Ok((_, p2)) => p2,
                    Err(_) => arbitrary(),
                });
                assert(old(self).top().transcript() + post1.appended + post2.appended =~= old(self).top().transcript() + (post1.appended + post2.appended));
                message::lemma_pos_saturated_compose(
                    old(self).top().position_spec(),
                    post1.consumed,
                    post2.consumed,
                );
            }
        }
        let ghost mid = *self;
        let (seq_bytes, p) = match result {
            Ok(x) => x,
            Err(e) => {
                return Err(e);
            },
        };
        let mut sd = sequence::Decoder::new(WireType::SInt64, seq_bytes.len());
        let mut values: Vec<i64> = Vec::new();
        let mut sp: usize = 0;
        proof {
            assert(seq_bytes@.skip(0) =~= seq_bytes@);
            if let Some(all) = sint64_seq_values(seq_bytes@) {
                assert(Seq::<i64>::empty() + all =~= all);
            }
            assert(values@ =~= Seq::<i64>::empty());
            assert(seq![crate::field::wire_type_code(WireType::SInt64) as u8]
                + sint64_values_transcript(values@) =~= seq![
                crate::field::wire_type_code(WireType::SInt64) as u8
            ]);
        }
        while sd.remaining() > 0
            invariant
                self.wf(),
                *self == mid,
                mid.wf(),
                mid.depth() == old(self).depth(),
                mid.seq_model() is None,
                mid.frames() == old(self).frames().update(old(self).depth() - 1, mid.top()),
                mid.top().cached() == old(self).top().cached(),
                old(self).seq_model() is None,
                pos <= input@.len(),
                match top_sequence_outcome(
                    old(self).top(),
                    input@.subrange(pos as int, input@.len() as int),
                    tag,
                    WireType::SInt64,
                ) {
                    Ok((mb, post)) => mb == seq_bytes@ && p == pos + post.consumed && p
                        <= input@.len() && message::decoder_matches(
                        mid.top(),
                        old(self).top().position_spec(),
                        old(self).top().transcript(),
                        post,
                    ),
                    Err(_) => false,
                },
                sd.wf(),
                sd.element_type() == WireType::SInt64,
                sd.length_spec() == seq_bytes@.len(),
                sp + sd.remaining_spec() == seq_bytes@.len(),
                sd.state_model() == sequence::StateModel::Value(Seq::<u8>::empty()),
                sd.hasher_model() == Some(Some(sequence_hasher::State::Initial)),
                sd.transcript() == seq![crate::field::wire_type_code(WireType::SInt64) as u8]
                    + sint64_values_transcript(values@),
                sint64_seq_values(seq_bytes@) == (match sint64_seq_values(
                    seq_bytes@.skip(sp as int),
                ) {
                    Some(rest) => Some(values@ + rest),
                    None => None::<Seq<i64>>,
                }),
            decreases sd.remaining_spec(),
        {
            let ghost before = seq_bytes@.skip(sp as int);
            let ghost transcript_before = sd.transcript();
            let (value, new_sp) = match sd.decode_sint64(seq_bytes, sp) {
                Ok(x) => x,
                Err(e) => {
                    proof {
                        if let Some(all) = sint64_seq_values(seq_bytes@) {
                            assert(sint64_seq_values(before) is Some);
                            assert(Seq::<u8>::empty() + before =~= before);
                            assert(crate::vint64::decode_model(before) is Ok);
                            assert(!crate::decoder::vint64::incomplete_vint64(
                                Seq::<u8>::empty() + before,
                            ));
                            if let Ok((v0, l0)) = crate::vint64::decode_model(before) {
                                assert(sequence_hasher::transition_spec(
                                    sequence_hasher::State::Initial,
                                    EventModel::SInt64(
                                        crate::vint64::zigzag::zigzag_inverse_spec(v0),
                                    ),
                                ) is Some);
                            }
                            assert(false);
                        }
                    }
                    return Err(e);
                },
            };
            proof {
                assert(new_sp > sp);
                assert(Seq::<u8>::empty() + before =~= before);
                assert(crate::vint64::decode_model(before) matches Ok(pair) && value
                    == crate::vint64::zigzag::zigzag_inverse_spec(pair.0) && pair.1 == new_sp
                    - sp);
                assert(seq_bytes@.skip(new_sp as int) =~= before.skip(new_sp - sp));
                assert(sint64_seq_values(before) == (match sint64_seq_values(
                    before.skip(new_sp - sp),
                ) {
                    Some(rest) => Some(seq![value] + rest),
                    None => None::<Seq<i64>>,
                }));
                if let Some(rest2) = sint64_seq_values(seq_bytes@.skip(new_sp as int)) {
                    assert(values@ + (seq![value] + rest2) =~= (values@ + seq![value]) + rest2);
                    assert(values@.push(value) =~= values@ + seq![value]);
                }
                assert(sequence_hasher::transition_spec(
                    sequence_hasher::State::Initial,
                    EventModel::SInt64(value),
                ) == Some(
                    (
                        sequence_hasher::State::Initial,
                        crate::verihash::sint64_hash_bytes(value),
                    ),
                ));
                lemma_sint64_values_transcript_snoc(values@, value);
                assert(transcript_before + crate::verihash::sint64_hash_bytes(value) =~= seq![
                    crate::field::wire_type_code(WireType::SInt64) as u8
                ] + sint64_values_transcript(values@.push(value)));
            }
            values.push(value);
            sp = new_sp;
        }
        proof {
            assert(seq_bytes@.skip(sp as int) =~= Seq::<u8>::empty());
            assert(sint64_seq_values(Seq::empty()) == Some(Seq::<i64>::empty()));
            assert(values@ + Seq::<i64>::empty() =~= values@);
        }
        match self.fold_sequence_digest(tag, sd) {
            Ok(()) => {},
            Err(e) => {
                return Err(e);
            },
        }
        proof {
            assert(self.stack@ =~= old(self).frames().update(
                old(self).depth() - 1,
                self.stack@.last(),
            ));
        }
        Ok((values, p))
    }

    /// Decode a sequence field of nested messages with the given tag,
    /// decoding every element through its message type.  While the
    /// sequence is in flight its decoder occupies the one sequence
    /// slot, so a nested sequence inside an element is rejected; an
    /// element decoder's error surfaces with its position extended by
    /// the element body's offset, and on success the sequence's digest
    /// is folded into the message's transcript under the field's tag.
    #[verifier::rlimit(100)]
    #[verifier::spinoff_prover]
    pub fn decode_message_seq<M: Message>(
        &mut self,
        tag: Tag,
        input: &[u8],
        pos: usize,
    ) -> (r: Result<(Vec<M>, usize), Error>)
        requires
            old(self).wf(),
            pos <= input@.len(),
        ensures
            final(self).wf(),
            final(self).depth() == old(self).depth(),
            match old(self).seq_model() {
                Some(_) => r == Err::<(Vec<M>, usize), Error>(
                    Error { kind: Kind::NestingDepth, position: None },
                ) && final(self).frames() == old(self).frames() && final(self).seq_model() == old(self).seq_model(),
                None => {
                    &&& final(self).seq_model() is None
                    &&& final(self).frames() == old(self).frames().update(
                        old(self).depth() - 1,
                        final(self).top(),
                    )
                    &&& final(self).top().cached() == old(self).top().cached()
                    &&& ({
                        let avail = input@.subrange(pos as int, input@.len() as int);
                        match top_sequence_outcome(old(self).top(), avail, tag, WireType::Message) {
                            Err(k) => match r {
                                Err(e) => e.kind == k,
                                Ok(_) => false,
                            },
                            Ok((mb, post)) => {
                                &&& (mb.len() > 0 && old(self).depth() == MAX_NESTING_DEPTH
                                    ==> r is Err)
                                &&& match r {
                                    Ok((_, p)) => {
                                        &&& p == pos + post.consumed
                                        &&& p <= input@.len()
                                        &&& final(self).top().state_model() == post.state
                                        &&& final(self).top().last_tag_spec() == post.last_tag
                                        &&& final(self).top().position_spec()
                                            == message::pos_saturated(
                                            old(self).top().position_spec(),
                                            post.consumed,
                                        )
                                        &&& ((post.hasher matches Some(
                                            Some(
                                                message_hasher::State::Sequence {
                                                    wire_type: _,
                                                    remaining: 0,
                                                },
                                            ),
                                        ) && final(self).top().hasher_model() == Some(
                                            Some(message_hasher::State::Initial),
                                        ) && exists|d: Seq<u8>|
                                            final(self).top().transcript() == old(self).top().transcript() + post.appended
                                                + message_hasher::sequence_digest_bytes(tag, d)) || (
                                        final(self).top().hasher_model() == post.hasher && final(self).top().transcript() == old(self).top().transcript()
                                            + post.appended))
                                    },
                                    Err(_) => true,
                                }
                            },
                        }
                    })
                },
            },
    {
        if self.seq_decoder.is_some() {
            return Err(Kind::NestingDepth.into_error());
        }
        let mut top = match self.stack.pop() {
            Some(t) => t,
            None => {
                return Err(Kind::Failed.into_error());
            },
        };
        let ghost avail = input@.subrange(pos as int, input@.len() as int);
        let ghost post1 = (match message::expect_header_outcome(
            top.state_model(),
            top.last_tag_spec(),
            top.hasher_model(),
            avail,
            tag,
            WireType::Sequence,
        ) {
            Ok(q) => q,
            Err(_) => arbitrary(),
        });
        let result = match top.expect_header(input, pos, tag, WireType::Sequence) {
            Ok(p1) => {
                proof {
                    assert(input@.subrange(p1 as int, input@.len() as int) =~= avail.skip(
                        post1.consumed as int,
                    ));
                }
                top.decode_sequence(WireType::Message, input, p1)
            },
            Err(e) => Err(e),
        };
        self.stack.push(top);
        proof {
            assert(self.stack@ =~= old(self).frames().update(
                old(self).depth() - 1,
                self.stack@.last(),
            ));
            if result is Ok {
                let post2 = (match message::sequence_outcome(
                    post1.state,
                    post1.last_tag,
                    post1.hasher,
                    avail.skip(post1.consumed as int),
                    WireType::Message,
                ) {
                    Ok((_, q2)) => q2,
                    Err(_) => arbitrary(),
                });
                assert(old(self).top().transcript() + post1.appended + post2.appended =~= old(self).top().transcript() + (post1.appended + post2.appended));
                message::lemma_pos_saturated_compose(
                    old(self).top().position_spec(),
                    post1.consumed,
                    post2.consumed,
                );
            }
        }
        let ghost mid = *self;
        let (seq_bytes, p) = match result {
            Ok(x) => x,
            Err(e) => {
                return Err(e);
            },
        };
        let seq_start = if seq_bytes.len() <= p {
            p - seq_bytes.len()
        } else {
            0
        };
        self.seq_decoder = Some(sequence::Decoder::new(WireType::Message, seq_bytes.len()));
        let mut messages: Vec<M> = Vec::new();
        let mut sp: usize = 0;
        let mut remaining = seq_bytes.len();
        while remaining > 0
            invariant
                self.wf(),
                self.depth() == old(self).depth(),
                self.frames() == mid.frames(),
                mid.wf(),
                mid.depth() == old(self).depth(),
                mid.seq_model() is None,
                mid.frames() == old(self).frames().update(old(self).depth() - 1, mid.top()),
                mid.top().cached() == old(self).top().cached(),
                old(self).seq_model() is None,
                sp > 0 ==> old(self).depth() < MAX_NESTING_DEPTH,
                pos <= input@.len(),
                match top_sequence_outcome(
                    old(self).top(),
                    input@.subrange(pos as int, input@.len() as int),
                    tag,
                    WireType::Message,
                ) {
                    Ok((mb, post)) => mb == seq_bytes@ && p == pos + post.consumed && p
                        <= input@.len() && message::decoder_matches(
                        mid.top(),
                        old(self).top().position_spec(),
                        old(self).top().transcript(),
                        post,
                    ),
                    Err(_) => false,
                },
                match self.seq_model() {
                    Some(sd) => {
                        &&& sd.element_type() == WireType::Message
                        &&& sd.length_spec() == seq_bytes@.len()
                        &&& sp + sd.remaining_spec() == seq_bytes@.len()
                        &&& remaining == sd.remaining_spec()
                        &&& sd.state_model() == sequence::StateModel::Value(Seq::<u8>::empty())
                    },
                    None => false,
                },
            decreases remaining,
        {
            let element = match &mut self.seq_decoder {
                Some(sd) => sd.decode_message(seq_bytes, sp),
                None => {
                    return Err(Kind::Failed.into_error());
                },
            };
            let (msg_bytes, new_sp) = match element {
                Ok(x) => x,
                Err(e) => {
                    self.seq_decoder = None;
                    return Err(e);
                },
            };
            proof {
                assert(new_sp > sp);
            }
            if self.stack.len() >= MAX_NESTING_DEPTH {
                self.seq_decoder = None;
                return Err(Kind::NestingDepth.into_error());
            }
            let element_offset = if msg_bytes.len() <= new_sp {
                new_sp - msg_bytes.len()
            } else {
                0
            };
            let body_offset = if element_offset <= usize::MAX - seq_start {
                seq_start + element_offset
            } else {
                usize::MAX
            };
            self.stack.push(message::Decoder::new());
            let ghost pushed = *self;
            let msg = match M::decode(self, msg_bytes) {
                Ok(m) => m,
                Err(e) => {
                    proof {
                        assert(pushed.frames().take(pushed.depth() - 1) =~= mid.frames());
                        assert(self.frames().take(pushed.depth() - 1) =~= mid.frames());
                    }
                    self.stack.pop();
                    proof {
                        assert(self.stack@ =~= mid.frames());
                    }
                    self.seq_decoder = None;
                    return Err(e.extend_position(body_offset));
                },
            };
            proof {
                assert(pushed.frames().take(pushed.depth() - 1) =~= mid.frames());
                assert(self.frames().take(pushed.depth() - 1) =~= mid.frames());
            }
            let mut child = match self.stack.pop() {
                Some(c) => c,
                None => {
                    return Err(Kind::Failed.into_error());
                },
            };
            proof {
                assert(self.stack@ =~= mid.frames());
            }
            let digest = match child.compute_digest() {
                Ok(d) => d,
                Err(e) => {
                    self.seq_decoder = None;
                    return Err(e);
                },
            };
            if let Some(digest) = digest {
                let fold = match &mut self.seq_decoder {
                    Some(sd) => sd.hash_message_digest(digest.as_slice()),
                    None => {
                        return Err(Kind::Failed.into_error());
                    },
                };
                match fold {
                    Ok(()) => {},
                    Err(e) => {
                        self.seq_decoder = None;
                        return Err(e);
                    },
                }
            }
            messages.push(msg);
            sp = new_sp;
            remaining = match &self.seq_decoder {
                Some(sd) => sd.remaining(),
                None => 0,
            };
        }
        let sd = match self.seq_decoder.take() {
            Some(sd) => sd,
            None => {
                return Err(Kind::Failed.into_error());
            },
        };
        match self.fold_sequence_digest(tag, sd) {
            Ok(()) => {},
            Err(e) => {
                return Err(e);
            },
        }
        proof {
            assert(self.stack@ =~= old(self).frames().update(
                old(self).depth() - 1,
                self.stack@.last(),
            ));
        }
        Ok((messages, p))
    }

    /// Compute the finished sequence decoder's digest and fold it into
    /// the enclosing message's transcript under the sequence's tag.
    /// Success is owed whenever the sequence hasher rests between
    /// elements (or either hasher is off); the digest entering the
    /// transcript is the SHA-256 of the sequence's own transcript.
    fn fold_sequence_digest(&mut self, tag: Tag, sd: sequence::Decoder) -> (r: Result<(), Error>)
        requires
            old(self).wf(),
        ensures
            final(self).wf(),
            final(self).depth() == old(self).depth(),
            final(self).seq_model() == old(self).seq_model(),
            final(self).frames() == old(self).frames().update(
                old(self).depth() - 1,
                final(self).top(),
            ),
            final(self).top().state_model() == old(self).top().state_model(),
            final(self).top().last_tag_spec() == old(self).top().last_tag_spec(),
            final(self).top().position_spec() == old(self).top().position_spec(),
            final(self).top().cached() == old(self).top().cached(),
            match sd.hasher_model() {
                None => r == Ok::<(), Error>(()) && final(self).top().hasher_model() == old(self).top().hasher_model() && final(self).top().transcript() == old(self).top().transcript(),
                Some(Some(sequence_hasher::State::Initial)) => match old(self).top().hasher_model() {
                    None => r == Ok::<(), Error>(()) && final(self).top().hasher_model() is None
                        && final(self).top().transcript() == old(self).top().transcript(),
                    Some(
                        Some(message_hasher::State::Sequence { wire_type: _, remaining: 0 }),
                    ) => r == Ok::<(), Error>(()) && final(self).top().hasher_model() == Some(
                        Some(message_hasher::State::Initial),
                    ) && final(self).top().transcript() == old(self).top().transcript()
                        + message_hasher::sequence_digest_bytes(
                        tag,
                        crate::verihash::sha256_of(sd.transcript()),
                    ),
                    Some(_) => r == Err::<(), Error>(
                        Error { kind: Kind::Hashing, position: None },
                    ) && final(self).top().hasher_model() == old(self).top().hasher_model()
                        && final(self).top().transcript() == old(self).top().transcript(),
                },
                Some(_) => r == Err::<(), Error>(Error { kind: Kind::Hashing, position: None })
                    && final(self).top().hasher_model() == old(self).top().hasher_model()
                    && final(self).top().transcript() == old(self).top().transcript(),
            },
    {
        let digest = match sd.compute_digest() {
            Ok(d) => d,
            Err(e) => {
                return Err(e);
            },
        };
        if let Some(digest) = digest {
            let mut top = match self.stack.pop() {
                Some(t) => t,
                None => {
                    return Err(Kind::Failed.into_error());
                },
            };
            let fold = top.hash_sequence_digest(tag, digest.as_slice());
            self.stack.push(top);
            proof {
                assert(self.stack@ =~= old(self).frames().update(
                    old(self).depth() - 1,
                    self.stack@.last(),
                ));
            }
            match fold {
                Ok(()) => {},
                Err(e) => {
                    return Err(e);
                },
            }
        } else {
            proof {
                assert(self.stack@ =~= old(self).frames().update(
                    old(self).depth() - 1,
                    self.stack@.last(),
                ));
            }
        }
        Ok(())
    }

    /// Fill in the digest of the message being decoded: the digest of
    /// the innermost frame.  Success is owed exactly when that frame
    /// has a cached digest, or stands between fields with its hasher
    /// still on and healthy; taking the digest ends the frame's
    /// decoding and caches the digest.
    pub fn fill_digest(&mut self) -> (r: Result<Vec<u8>, Error>)
        requires
            old(self).wf(),
        ensures
            final(self).wf(),
            final(self).depth() == old(self).depth(),
            final(self).seq_model() == old(self).seq_model(),
            final(self).frames() == old(self).frames().update(
                old(self).depth() - 1,
                final(self).top(),
            ),
            final(self).top().last_tag_spec() == old(self).top().last_tag_spec(),
            final(self).top().position_spec() == old(self).top().position_spec(),
            match old(self).top().cached() {
                Some(d) => {
                    &&& match r {
                        Ok(digest) => digest@ == d,
                        Err(_) => false,
                    }
                    &&& final(self).top().state_model() == old(self).top().state_model()
                    &&& final(self).top().hasher_model() == old(self).top().hasher_model()
                    &&& final(self).top().transcript() == old(self).top().transcript()
                    &&& final(self).top().cached() == old(self).top().cached()
                },
                None => match old(self).top().hasher_model() {
                    None => {
                        &&& r == Err::<Vec<u8>, Error>(
                            Error { kind: Kind::Hashing, position: None },
                        )
                        &&& final(self).top().state_model() == old(self).top().state_model()
                        &&& final(self).top().hasher_model() is None
                        &&& final(self).top().cached() is None
                    },
                    Some(hm) => {
                        &&& final(self).top().state_model() is None
                        &&& final(self).top().hasher_model() is None
                        &&& match (old(self).top().state_model(), hm) {
                            (
                                Some(message::StateModel::Header(_)),
                                Some(message_hasher::State::Initial),
                            ) => (match r {
                                Ok(digest) => digest@ == crate::verihash::sha256_of(
                                    old(self).top().transcript(),
                                ) && digest@.len() == 32,
                                Err(_) => false,
                            }) && final(self).top().cached() == Some(
                                crate::verihash::sha256_of(old(self).top().transcript()),
                            ),
                            _ => r == Err::<Vec<u8>, Error>(
                                Error { kind: Kind::Hashing, position: None },
                            ) && final(self).top().cached() is None,
                        }
                    },
                },
            },
    {
        let mut top = match self.stack.pop() {
            Some(t) => t,
            None => {
                return Err(Kind::Failed.into_error());
            },
        };
        let result = top.compute_digest();
        self.stack.push(top);
        proof {
            assert(self.stack@ =~= old(self).frames().update(
                old(self).depth() - 1,
                self.stack@.last(),
            ));
        }
        match result {
            Ok(Some(digest)) => Ok(digest),
            Ok(None) => Err(Kind::Hashing.into_error()),
            Err(e) => Err(e),
        }
    }
}

} // verus!
