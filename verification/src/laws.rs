//! The format's stated laws, proved for all inputs: round trips
//! between the encoder and the decoder, the agreement of the length
//! calculators with the encoder's output, tag-order enforcement, the
//! rejection of truncated fields, and the transcript properties of
//! the Verihash hashers.

use crate::decoder::message_hasher;
use crate::decoder::{message, top_uint64_outcome, EventModel};
use crate::encoder::{
    bytes_field_enc, sint64_field_enc, string_field_enc, uint64_field_enc,
};
use crate::error::Kind;
use crate::field::length::{dynamically_sized_len_spec, header_len_spec};
use crate::field::{
    header_pack_spec, lemma_header_len_critical, lemma_header_roundtrip, Header, Tag, WireType,
    MAX_TAG,
};
use crate::message::Message;
use crate::verihash::{tag_hash_bytes, uint64_hash_bytes};
use crate::vint64::zigzag::zigzag_spec;
use crate::vint64::{
    decode_model, decoded_len_spec, encoded_len_spec, lemma_encode_decode_roundtrip, vint64_enc,
};
use vstd::prelude::*;

verus! {

/// Encoded length: what the encoder writes for a field is exactly as
/// long as the length calculators say, whatever the critical bit.
pub proof fn lemma_field_lengths(
    tag: Tag,
    critical: bool,
    value: u64,
    signed_value: i64,
    data: Seq<u8>,
    text: Seq<u8>,
)
    requires
        tag <= MAX_TAG,
        data.len() <= usize::MAX,
        text.len() <= usize::MAX,
    ensures
        uint64_field_enc(tag, critical, value).len() == header_len_spec(tag, WireType::UInt64)
            + encoded_len_spec(value),
        sint64_field_enc(tag, critical, signed_value).len() == header_len_spec(
            tag,
            WireType::SInt64,
        ) + encoded_len_spec(zigzag_spec(signed_value)),
        bytes_field_enc(tag, critical, data).len() == dynamically_sized_len_spec(
            tag,
            WireType::Bytes,
            data.len(),
        ),
        string_field_enc(tag, critical, text).len() == dynamically_sized_len_spec(
            tag,
            WireType::String,
            text.len(),
        ),
{
    lemma_header_len_critical(Header { tag, critical, wire_type: WireType::UInt64 });
    lemma_header_len_critical(Header { tag, critical, wire_type: WireType::SInt64 });
    lemma_header_len_critical(Header { tag, critical, wire_type: WireType::Bytes });
    lemma_header_len_critical(Header { tag, critical, wire_type: WireType::String });
    lemma_encode_decode_roundtrip(
        header_pack_spec(Header { tag, critical, wire_type: WireType::UInt64 }),
        Seq::empty(),
    );
    lemma_encode_decode_roundtrip(
        header_pack_spec(Header { tag, critical: false, wire_type: WireType::UInt64 }),
        Seq::empty(),
    );
    lemma_encode_decode_roundtrip(
        header_pack_spec(Header { tag, critical, wire_type: WireType::SInt64 }),
        Seq::empty(),
    );
    lemma_encode_decode_roundtrip(
        header_pack_spec(Header { tag, critical: false, wire_type: WireType::SInt64 }),
        Seq::empty(),
    );
    lemma_encode_decode_roundtrip(
        header_pack_spec(Header { tag, critical, wire_type: WireType::Bytes }),
        Seq::empty(),
    );
    lemma_encode_decode_roundtrip(
        header_pack_spec(Header { tag, critical: false, wire_type: WireType::Bytes }),
        Seq::empty(),
    );
    lemma_encode_decode_roundtrip(
        header_pack_spec(Header { tag, critical, wire_type: WireType::String }),
        Seq::empty(),
    );
    lemma_encode_decode_roundtrip(
        header_pack_spec(Header { tag, critical: false, wire_type: WireType::String }),
        Seq::empty(),
    );
    lemma_encode_decode_roundtrip(value, Seq::empty());
    lemma_encode_decode_roundtrip(zigzag_spec(signed_value), Seq::empty());
    lemma_encode_decode_roundtrip(data.len() as u64, Seq::empty());
    lemma_encode_decode_roundtrip(text.len() as u64, Seq::empty());
}

/// Message round trip, field by field: a `uint64` field as the encoder
/// writes it, decoded from any position where a field may start and
/// with anything at all following it, yields back exactly the value
/// that was written, consumes exactly the field's bytes, leaves the
/// decoder between fields, and contributes exactly the field's tagged
/// value to the Verihash transcript.
pub proof fn lemma_uint64_field_roundtrip(
    last_tag: Option<Tag>,
    tag: Tag,
    critical: bool,
    value: u64,
    rest: Seq<u8>,
)
    requires
        tag <= MAX_TAG,
        match last_tag {
            Some(t) => t < tag,
            None => true,
        },
    ensures
        ({
            let enc = uint64_field_enc(tag, critical, value);
            match message::uint64_field_outcome(
                Some(message::StateModel::Header(Seq::<u8>::empty())),
                last_tag,
                Some(Some(message_hasher::State::Initial)),
                enc + rest,
                tag,
            ) {
                Ok((v, post)) => {
                    &&& v == value
                    &&& post.consumed == enc.len()
                    &&& post.state == Some(message::StateModel::Header(Seq::<u8>::empty()))
                    &&& post.last_tag == Some(tag)
                    &&& post.hasher == Some(Some(message_hasher::State::Initial))
                    &&& post.appended == tag_hash_bytes(tag) + uint64_hash_bytes(value)
                },
                Err(_) => false,
            }
        }),
{
    let header = Header { tag, critical, wire_type: WireType::UInt64 };
    let pack = header_pack_spec(header);
    let henc = vint64_enc(pack);
    let venc = vint64_enc(value);
    let enc = uint64_field_enc(tag, critical, value);
    let avail = enc + rest;
    assert(avail =~= henc + (venc + rest));
    lemma_encode_decode_roundtrip(pack, venc + rest);
    lemma_header_roundtrip(header, 0);
    let l1 = encoded_len_spec(pack);
    assert(decode_model(avail) == Ok::<(u64, u64), crate::vint64::Error>((pack, l1)));
    assert(avail[0] == henc[0]);
    assert(decoded_len_spec(avail[0]) == l1);
    assert(avail.len() >= l1);
    assert(!crate::decoder::vint64::incomplete_vint64(Seq::<u8>::empty() + avail)) by {
        assert(Seq::<u8>::empty() + avail =~= avail);
    }
    assert(Seq::<u8>::empty() + avail =~= avail);
    let avail2 = avail.skip(l1 as int);
    assert(avail2 =~= venc + rest);
    lemma_encode_decode_roundtrip(value, rest);
    let l2 = encoded_len_spec(value);
    assert(Seq::<u8>::empty() + avail2 =~= avail2);
    assert(decode_model(avail2) == Ok::<(u64, u64), crate::vint64::Error>((value, l2)));
    assert(decoded_len_spec(avail2[0]) == l2 && avail2.len() >= l2);
    assert(enc.len() == l1 + l2);
    assert(Seq::<u8>::empty() + (tag_hash_bytes(tag) + uint64_hash_bytes(value)) =~= tag_hash_bytes(
        tag,
    ) + uint64_hash_bytes(value));
}

/// Message round trip for `sint64` fields: as for `uint64` fields,
/// with the value passing through zigzag encoding on the way out and
/// zigzag decoding on the way back.
pub proof fn lemma_sint64_field_roundtrip(
    last_tag: Option<Tag>,
    tag: Tag,
    critical: bool,
    value: i64,
    rest: Seq<u8>,
)
    requires
        tag <= MAX_TAG,
        match last_tag {
            Some(t) => t < tag,
            None => true,
        },
    ensures
        ({
            let enc = sint64_field_enc(tag, critical, value);
            match message::sint64_field_outcome(
                Some(message::StateModel::Header(Seq::<u8>::empty())),
                last_tag,
                Some(Some(message_hasher::State::Initial)),
                enc + rest,
                tag,
            ) {
                Ok((v, post)) => {
                    &&& v == value
                    &&& post.consumed == enc.len()
                    &&& post.state == Some(message::StateModel::Header(Seq::<u8>::empty()))
                    &&& post.last_tag == Some(tag)
                    &&& post.hasher == Some(Some(message_hasher::State::Initial))
                    &&& post.appended == tag_hash_bytes(tag)
                        + crate::verihash::sint64_hash_bytes(value)
                },
                Err(_) => false,
            }
        }),
{
    let header = Header { tag, critical, wire_type: WireType::SInt64 };
    let pack = header_pack_spec(header);
    let henc = vint64_enc(pack);
    let zz = zigzag_spec(value);
    let venc = vint64_enc(zz);
    let enc = sint64_field_enc(tag, critical, value);
    let avail = enc + rest;
    assert(avail =~= henc + (venc + rest));
    lemma_encode_decode_roundtrip(pack, venc + rest);
    lemma_header_roundtrip(header, 0);
    let l1 = encoded_len_spec(pack);
    assert(decoded_len_spec(avail[0]) == l1 && avail.len() >= l1);
    assert(Seq::<u8>::empty() + avail =~= avail);
    let avail2 = avail.skip(l1 as int);
    assert(avail2 =~= venc + rest);
    lemma_encode_decode_roundtrip(zz, rest);
    let l2 = encoded_len_spec(zz);
    assert(Seq::<u8>::empty() + avail2 =~= avail2);
    assert(decoded_len_spec(avail2[0]) == l2 && avail2.len() >= l2);
    crate::vint64::zigzag::lemma_zigzag_roundtrip(value, zz);
    assert(enc.len() == l1 + l2);
    assert(Seq::<u8>::empty() + (tag_hash_bytes(tag) + crate::verihash::sint64_hash_bytes(value))
        =~= tag_hash_bytes(tag) + crate::verihash::sint64_hash_bytes(value));
}

/// Message round trip for `bytes` fields: a bytes field with a
/// non-empty body, as the encoder writes it and with anything at all
/// following it, decodes back to exactly its body, consumes exactly
/// the field's bytes, leaves the decoder between fields, and
/// contributes its tag, length delimiter and body to the transcript.
#[verifier::rlimit(100)]
#[verifier::spinoff_prover]
pub proof fn lemma_bytes_field_roundtrip(
    last_tag: Option<Tag>,
    tag: Tag,
    critical: bool,
    data: Seq<u8>,
    rest: Seq<u8>,
)
    requires
        tag <= MAX_TAG,
        0 < data.len() <= usize::MAX,
        match last_tag {
            Some(t) => t < tag,
            None => true,
        },
    ensures
        ({
            let enc = bytes_field_enc(tag, critical, data);
            match message::dynamic_field_outcome(
                Some(message::StateModel::Header(Seq::<u8>::empty())),
                last_tag,
                Some(Some(message_hasher::State::Initial)),
                enc + rest,
                tag,
                WireType::Bytes,
            ) {
                Ok((body, post)) => {
                    &&& body == data
                    &&& post.consumed == enc.len()
                    &&& post.state == Some(message::StateModel::Header(Seq::<u8>::empty()))
                    &&& post.last_tag == Some(tag)
                    &&& post.hasher == Some(Some(message_hasher::State::Initial))
                    &&& post.appended == tag_hash_bytes(tag)
                        + crate::verihash::dynamically_sized_value_hash_bytes(
                        WireType::Bytes,
                        data.len() as u64,
                    ) + data
                },
                Err(_) => false,
            }
        }),
{
    let header = Header { tag, critical, wire_type: WireType::Bytes };
    let pack = header_pack_spec(header);
    let henc = vint64_enc(pack);
    let lenc = vint64_enc(data.len() as u64);
    let enc = bytes_field_enc(tag, critical, data);
    let avail = enc + rest;
    assert(avail =~= henc + (lenc + (data + rest)));
    lemma_encode_decode_roundtrip(pack, lenc + (data + rest));
    lemma_header_roundtrip(header, 0);
    let l1 = encoded_len_spec(pack);
    assert(decoded_len_spec(avail[0]) == l1 && avail.len() >= l1);
    assert(Seq::<u8>::empty() + avail =~= avail);
    let avail2 = avail.skip(l1 as int);
    assert(avail2 =~= lenc + (data + rest));
    lemma_encode_decode_roundtrip(data.len() as u64, data + rest);
    let l2 = encoded_len_spec(data.len() as u64);
    assert(Seq::<u8>::empty() + avail2 =~= avail2);
    assert(decoded_len_spec(avail2[0]) == l2 && avail2.len() >= l2);
    let avail3 = avail2.skip(l2 as int);
    assert(avail3 =~= data + rest);
    assert(avail3.take(data.len() as int) =~= data);
    assert(enc.len() == l1 + l2 + data.len());
    assert(Seq::<u8>::empty() + (tag_hash_bytes(tag)
        + crate::verihash::dynamically_sized_value_hash_bytes(
        WireType::Bytes,
        data.len() as u64,
    )) + data =~= tag_hash_bytes(tag) + crate::verihash::dynamically_sized_value_hash_bytes(
        WireType::Bytes,
        data.len() as u64,
    ) + data);
}

/// Message round trip for a whole message: the canonical wire form of
/// any timestamp, decoded field by field from a fresh decoder, yields
/// back exactly the timestamp's fields and consumes the whole input.
pub proof fn lemma_timestamp_roundtrip(m: crate::builtins::Timestamp)
    ensures
        ({
            let avail = m.wire();
            match message::uint64_field_outcome(
                Some(message::StateModel::Header(Seq::<u8>::empty())),
                None,
                Some(Some(message_hasher::State::Initial)),
                avail,
                0,
            ) {
                Err(_) => false,
                Ok((secs, post1)) => {
                    &&& secs == m.secs
                    &&& match message::uint64_field_outcome(
                        post1.state,
                        post1.last_tag,
                        post1.hasher,
                        avail.skip(post1.consumed as int),
                        1,
                    ) {
                        Err(_) => false,
                        Ok((nanos, post2)) => nanos == m.nanos as u64 && post1.consumed
                            + post2.consumed == avail.len(),
                    }
                },
            }
        }),
{
    let f1 = uint64_field_enc(0, true, m.secs);
    let f2 = uint64_field_enc(1, false, m.nanos as u64);
    let avail = m.wire();
    assert(avail =~= f1 + f2);
    lemma_uint64_field_roundtrip(None, 0, true, m.secs, f2);
    assert(avail.skip(f1.len() as int) =~= f2 + Seq::<u8>::empty());
    lemma_uint64_field_roundtrip(Some(0), 1, false, m.nanos as u64, Seq::empty());
}

/// Monotonic tag enforcement: a field whose tag does not exceed the
/// last decoded tag is rejected with an `Order` error naming the
/// offending tag, whatever the field holds.
pub proof fn lemma_order_enforced(
    d: message::Decoder,
    header: Header,
    last: Tag,
    rest: Seq<u8>,
)
    requires
        header.tag <= MAX_TAG,
        header.tag <= last,
        d.state_model() == Some(message::StateModel::Header(Seq::<u8>::empty())),
        d.last_tag_spec() == Some(last),
    ensures
        message::header_outcome(
            d.state_model(),
            d.last_tag_spec(),
            d.hasher_model(),
            vint64_enc(header_pack_spec(header)) + rest,
        ) == Err::<(Header, message::PostModel), Kind>(Kind::Order { tag: header.tag }),
{
    let pack = header_pack_spec(header);
    let avail = vint64_enc(pack) + rest;
    lemma_encode_decode_roundtrip(pack, rest);
    lemma_header_roundtrip(header, 0);
    let l1 = encoded_len_spec(pack);
    assert(decoded_len_spec(avail[0]) == l1 && avail.len() >= l1);
    assert(Seq::<u8>::empty() + avail =~= avail);
}

/// Length consistency: a `uint64` field cut short at any point, handed
/// to the decoder as the whole input, never decodes silently; every
/// cut yields an error.
pub proof fn lemma_uint64_field_truncated(
    d: message::Decoder,
    tag: Tag,
    critical: bool,
    value: u64,
    cut: int,
)
    requires
        tag <= MAX_TAG,
        d.state_model() == Some(message::StateModel::Header(Seq::<u8>::empty())),
        d.hasher_model() == Some(Some(message_hasher::State::Initial)),
        match d.last_tag_spec() {
            Some(t) => t < tag,
            None => true,
        },
        0 <= cut < uint64_field_enc(tag, critical, value).len(),
    ensures
        top_uint64_outcome(d, uint64_field_enc(tag, critical, value).take(cut), tag) is Err,
{
    let header = Header { tag, critical, wire_type: WireType::UInt64 };
    let pack = header_pack_spec(header);
    let henc = vint64_enc(pack);
    let venc = vint64_enc(value);
    let enc = uint64_field_enc(tag, critical, value);
    lemma_encode_decode_roundtrip(pack, venc);
    lemma_encode_decode_roundtrip(value, Seq::empty());
    lemma_header_roundtrip(header, 0);
    let l1 = encoded_len_spec(pack);
    let l2 = encoded_len_spec(value);
    let avail = enc.take(cut);
    assert(Seq::<u8>::empty() + avail =~= avail);
    if cut < l1 {
        if cut > 0 {
            assert(avail[0] == henc[0]);
            assert(decoded_len_spec(avail[0]) == l1);
        }
        assert(crate::decoder::vint64::incomplete_vint64(avail));
    } else {
        assert(avail =~= henc + venc.take(cut - l1));
        lemma_encode_decode_roundtrip(pack, venc.take(cut - l1));
        assert(decoded_len_spec(avail[0]) == l1 && avail.len() >= l1);
        let avail2 = avail.skip(l1 as int);
        assert(avail2 =~= venc.take(cut - l1));
        assert(Seq::<u8>::empty() + avail2 =~= avail2);
        if cut - l1 > 0 {
            assert(avail2[0] == venc[0]);
            assert(decoded_len_spec(avail2[0]) == l2);
        }
        assert(crate::decoder::vint64::incomplete_vint64(avail2));
    }
}

/// Verihash determinism: the transcript a field body contributes does
/// not depend on where its chunks split.  Feeding a body whole, or in
/// a first chunk of any size followed by the remainder, appends the
/// same bytes and ends in the same hasher state.
pub proof fn lemma_chunking_independence(n: usize, body: Seq<u8>, k: int)
    requires
        body.len() == n,
        0 < k < n,
    ensures
        message_hasher::transition_spec(
            message_hasher::State::Bytes { remaining: n },
            EventModel::ValueChunk { wire_type: WireType::Bytes, bytes: body, remaining: 0 },
        ) == Some((message_hasher::State::Initial, body)),
        message_hasher::transition_spec(
            message_hasher::State::Bytes { remaining: n },
            EventModel::ValueChunk {
                wire_type: WireType::Bytes,
                bytes: body.take(k),
                remaining: (n - k) as usize,
            },
        ) == Some(
            (message_hasher::State::Bytes { remaining: (n - k) as usize }, body.take(k)),
        ),
        message_hasher::transition_spec(
            message_hasher::State::Bytes { remaining: (n - k) as usize },
            EventModel::ValueChunk {
                wire_type: WireType::Bytes,
                bytes: body.skip(k),
                remaining: 0,
            },
        ) == Some((message_hasher::State::Initial, body.skip(k))),
        body.take(k) + body.skip(k) == body,
{
    assert(body.take(k) + body.skip(k) =~= body);
}

/// Nested-digest equivalence: the body bytes of a nested message never
/// enter the parent's transcript; two children of the same length lead
/// the hasher through identical states, and a child reaches the parent
/// transcript only through `message_digest_bytes` of its digest.
pub proof fn lemma_nested_digest_equivalence(
    n: usize,
    first_body: Seq<u8>,
    second_body: Seq<u8>,
    remaining: usize,
    tag: Tag,
    digest: Seq<u8>,
)
    requires
        first_body.len() == second_body.len(),
    ensures
        message_hasher::transition_spec(
            message_hasher::State::Message { remaining: n },
            EventModel::ValueChunk {
                wire_type: WireType::Message,
                bytes: first_body,
                remaining,
            },
        ) == message_hasher::transition_spec(
            message_hasher::State::Message { remaining: n },
            EventModel::ValueChunk {
                wire_type: WireType::Message,
                bytes: second_body,
                remaining,
            },
        ),
        message_hasher::message_digest_bytes(tag, digest) == tag_hash_bytes(tag)
            + crate::verihash::fixed_size_value_hash_bytes(WireType::Message, digest),
{
}

} // verus!
