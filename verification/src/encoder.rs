//! Encoder: a buffer-backed serializer for messages.
//!
//! The encoder owns a fixed-size scratch buffer and a write cursor.
//! Each operation appends one whole field: the encoded header, then
//! the value or the length prefix and the body.  An operation that
//! does not fit fails with `Length`, leaving whatever it had already
//! written; the caller may retry with a larger buffer.

use crate::error::{Error, Kind};
use crate::field::{header_pack_spec, Header, Tag, WireType, MAX_TAG};
use crate::message::Message;
use crate::vint64::zigzag::zigzag_spec;
use crate::vint64::vint64_enc;
use vstd::prelude::*;
use vstd::string::StringSliceAdditionalSpecFns;

verus! {

broadcast use vstd::slice::group_slice_axioms;

/// The encoded header of a field.
pub open spec fn header_enc(tag: Tag, critical: bool, wire_type: WireType) -> Seq<u8> {
    vint64_enc(header_pack_spec(Header { tag, critical, wire_type }))
}

/// The wire form of a `uint64` field.
pub open spec fn uint64_field_enc(tag: Tag, critical: bool, value: u64) -> Seq<u8> {
    header_enc(tag, critical, WireType::UInt64) + vint64_enc(value)
}

/// The wire form of an `sint64` field.
pub open spec fn sint64_field_enc(tag: Tag, critical: bool, value: i64) -> Seq<u8> {
    header_enc(tag, critical, WireType::SInt64) + vint64_enc(zigzag_spec(value))
}

/// The wire form of a `bytes` field.
pub open spec fn bytes_field_enc(tag: Tag, critical: bool, data: Seq<u8>) -> Seq<u8> {
    header_enc(tag, critical, WireType::Bytes) + vint64_enc(data.len() as u64) + data
}

/// The wire form of a `string` field: its UTF-8 bytes as a `bytes`
/// body under the string wire type.
pub open spec fn string_field_enc(tag: Tag, critical: bool, text: Seq<u8>) -> Seq<u8> {
    header_enc(tag, critical, WireType::String) + vint64_enc(text.len() as u64) + text
}

/// The wire form of a nested `message` field with the given body.
pub open spec fn message_field_enc(tag: Tag, critical: bool, body: Seq<u8>) -> Seq<u8> {
    header_enc(tag, critical, WireType::Message) + vint64_enc(body.len() as u64) + body
}

/// The packed sequence header of a sequence whose body holds
/// `body_len` bytes of elements of the given wire type.
pub open spec fn sequence_header_value(element_type: WireType, body_len: nat) -> u64
    recommends
        body_len <= u64::MAX >> 4,
{
    ((body_len as u64) << 4) | crate::field::wire_type_code(element_type)
}

/// The wire form of a sequence body of messages: for each message in
/// turn, its length as a `vint64`, then its canonical wire form.
pub open spec fn message_seq_body_enc<M: Message>(messages: Seq<M>) -> Seq<u8>
    decreases messages.len(),
{
    if messages.len() == 0 {
        Seq::empty()
    } else {
        vint64_enc(messages[0].wire().len() as u64) + messages[0].wire() + message_seq_body_enc(
            messages.skip(1),
        )
    }
}

/// The wire form of a sequence body splits at any element boundary.
pub proof fn lemma_message_seq_body_split<M: Message>(messages: Seq<M>, i: int)
    requires
        0 <= i <= messages.len(),
    ensures
        message_seq_body_enc(messages) == message_seq_body_enc(messages.take(i))
            + message_seq_body_enc(messages.skip(i)),
    decreases i,
{
    if i == 0 {
        assert(messages.take(0) =~= Seq::<M>::empty());
        assert(messages.skip(0) =~= messages);
        assert(message_seq_body_enc(messages.take(0)) =~= Seq::<u8>::empty());
        assert(Seq::<u8>::empty() + message_seq_body_enc(messages) =~= message_seq_body_enc(
            messages,
        ));
    } else {
        let tail = messages.skip(1);
        lemma_message_seq_body_split(tail, i - 1);
        assert(messages.take(i)[0] == messages[0]);
        assert(messages.take(i).skip(1) =~= tail.take(i - 1));
        assert(messages.skip(i) =~= tail.skip(i - 1));
        let elem = vint64_enc(messages[0].wire().len() as u64) + messages[0].wire();
        assert(message_seq_body_enc(messages.take(i)) == elem + message_seq_body_enc(
            tail.take(i - 1),
        ));
        assert(elem + (message_seq_body_enc(tail.take(i - 1)) + message_seq_body_enc(
            tail.skip(i - 1),
        )) =~= (elem + message_seq_body_enc(tail.take(i - 1))) + message_seq_body_enc(
            tail.skip(i - 1),
        ));
    }
}

proof fn lemma_message_seq_body_singleton<M: Message>(s: Seq<M>)
    requires
        s.len() == 1,
    ensures
        message_seq_body_enc(s) == vint64_enc(s[0].wire().len() as u64) + s[0].wire(),
{
    assert(s.skip(1) =~= Seq::<M>::empty());
    assert(message_seq_body_enc(s.skip(1)) =~= Seq::<u8>::empty());
    assert(vint64_enc(s[0].wire().len() as u64) + s[0].wire() + Seq::<u8>::empty() =~= vint64_enc(
        s[0].wire().len() as u64,
    ) + s[0].wire());
}

/// Compute the length in bytes of a sequence body holding the given
/// messages: each element's length prefix and wire form, summed.
pub fn message_seq_body_len<M: Message>(messages: &Vec<M>) -> (r: usize)
    requires
        forall|i: int| 0 <= i < messages@.len() ==> (#[trigger] messages@[i]).well_formed(),
        message_seq_body_enc(messages@).len() <= usize::MAX,
    ensures
        r == message_seq_body_enc(messages@).len(),
{
    let ghost body = message_seq_body_enc(messages@);
    let mut sum: usize = 0;
    let mut i: usize = 0;
    proof {
        assert(messages@.take(0) =~= Seq::<M>::empty());
    }
    while i < messages.len()
        invariant
            i <= messages@.len(),
            forall|j: int| 0 <= j < messages@.len() ==> (#[trigger] messages@[j]).well_formed(),
            body == message_seq_body_enc(messages@),
            body.len() <= usize::MAX,
            sum == message_seq_body_enc(messages@.take(i as int)).len(),
        decreases messages@.len() - i,
    {
        proof {
            lemma_message_seq_body_split(messages@, i + 1);
            lemma_message_seq_body_split(messages@.take(i + 1), i as int);
            assert(messages@.take(i + 1).take(i as int) =~= messages@.take(i as int));
            assert(messages@.take(i + 1).skip(i as int) =~= seq![messages@[i as int]]);
            lemma_message_seq_body_singleton(seq![messages@[i as int]]);
            assert(seq![messages@[i as int]][0] == messages@[i as int]);
            crate::vint64::lemma_encode_decode_roundtrip(
                messages@[i as int].wire().len() as u64,
                Seq::empty(),
            );
        }
        let m = &messages[i];
        let encoded_len = m.encoded_len();
        let prefix_len = crate::vint64::encoded_len(encoded_len as u64);
        sum = sum + prefix_len;
        sum = sum + encoded_len;
        i = i + 1;
    }
    proof {
        assert(messages@.take(messages@.len() as int) =~= messages@);
    }
    sum
}

/// Encoder: writes fields into a fixed-size scratch buffer.
pub struct Encoder {
    /// Scratch buffer holding the message; its length is the capacity.
    buffer: Vec<u8>,

    /// Running total length of the message written so far.
    length: usize,
}

impl Encoder {
    /// The bytes written so far.
    pub closed spec fn written(&self) -> Seq<u8> {
        self.buffer@.take(self.length as int)
    }

    /// The capacity of the scratch buffer.
    pub closed spec fn capacity(&self) -> nat {
        self.buffer@.len()
    }

    /// The cursor never passes the capacity.
    pub closed spec fn wf(&self) -> bool {
        self.length <= self.buffer@.len()
    }

    /// Create a new encoder which writes into the given scratch
    /// buffer, whose length is the encoder's capacity.
    pub fn new(buffer: Vec<u8>) -> (r: Self)
        ensures
            r.written() == Seq::<u8>::empty(),
            r.capacity() == buffer@.len(),
            r.wf(),
    {
        let r = Encoder { buffer, length: 0 };
        proof {
            assert(r.written() =~= Seq::<u8>::empty());
        }
        r
    }

    /// Write a field containing an unsigned 64-bit integer.
    pub fn uint64(&mut self, tag: Tag, critical: bool, value: u64) -> (r: Result<(), Error>)
        requires
            old(self).wf(),
            tag <= MAX_TAG,
        ensures
            final(self).wf(),
            final(self).capacity() == old(self).capacity(),
            ({
                let enc = uint64_field_enc(tag, critical, value);
                if old(self).written().len() + enc.len() <= old(self).capacity() {
                    r == Ok::<(), Error>(()) && final(self).written() == old(self).written() + enc
                } else {
                    r == Err::<(), Error>(Error { kind: Kind::Length, position: None })
                }
            }),
    {
        let ghost w0 = self.written();
        self.write_header(tag, critical, WireType::UInt64)?;
        let encoded = crate::vint64::encode(value);
        let r = self.write(encoded.as_ref());
        proof {
            lemma_append_assoc(
                w0,
                header_enc(tag, critical, WireType::UInt64),
                vint64_enc(value),
            );
        }
        r
    }

    /// Write a field containing a signed 64-bit integer.
    pub fn sint64(&mut self, tag: Tag, critical: bool, value: i64) -> (r: Result<(), Error>)
        requires
            old(self).wf(),
            tag <= MAX_TAG,
        ensures
            final(self).wf(),
            final(self).capacity() == old(self).capacity(),
            ({
                let enc = sint64_field_enc(tag, critical, value);
                if old(self).written().len() + enc.len() <= old(self).capacity() {
                    r == Ok::<(), Error>(()) && final(self).written() == old(self).written() + enc
                } else {
                    r == Err::<(), Error>(Error { kind: Kind::Length, position: None })
                }
            }),
    {
        let ghost w0 = self.written();
        self.write_header(tag, critical, WireType::SInt64)?;
        let encoded = crate::vint64::signed::encode(value);
        let r = self.write(encoded.as_ref());
        proof {
            lemma_append_assoc(
                w0,
                header_enc(tag, critical, WireType::SInt64),
                vint64_enc(zigzag_spec(value)),
            );
        }
        r
    }

    /// Write a field containing bytes.
    pub fn bytes(&mut self, tag: Tag, critical: bool, data: &[u8]) -> (r: Result<(), Error>)
        requires
            old(self).wf(),
            tag <= MAX_TAG,
        ensures
            final(self).wf(),
            final(self).capacity() == old(self).capacity(),
            ({
                let enc = bytes_field_enc(tag, critical, data@);
                if old(self).written().len() + enc.len() <= old(self).capacity() {
                    r == Ok::<(), Error>(()) && final(self).written() == old(self).written() + enc
                } else {
                    r == Err::<(), Error>(Error { kind: Kind::Length, position: None })
                }
            }),
    {
        let ghost w0 = self.written();
        self.write_header(tag, critical, WireType::Bytes)?;
        let r = self.write_value(data);
        proof {
            lemma_append_assoc2(
                w0,
                header_enc(tag, critical, WireType::Bytes),
                vint64_enc(data@.len() as u64),
                data@,
            );
        }
        r
    }

    /// Write a field containing a string.
    pub fn string(&mut self, tag: Tag, critical: bool, text: &str) -> (r: Result<(), Error>)
        requires
            old(self).wf(),
            tag <= MAX_TAG,
        ensures
            final(self).wf(),
            final(self).capacity() == old(self).capacity(),
            ({
                let enc = string_field_enc(tag, critical, text.spec_bytes());
                if old(self).written().len() + enc.len() <= old(self).capacity() {
                    r == Ok::<(), Error>(()) && final(self).written() == old(self).written() + enc
                } else {
                    r == Err::<(), Error>(Error { kind: Kind::Length, position: None })
                }
            }),
    {
        let ghost w0 = self.written();
        self.write_header(tag, critical, WireType::String)?;
        let r = self.write_value(text.as_bytes());
        proof {
            lemma_append_assoc2(
                w0,
                header_enc(tag, critical, WireType::String),
                vint64_enc(text.spec_bytes().len() as u64),
                text.spec_bytes(),
            );
        }
        r
    }

    /// Write a nested message field: its header, its length, then its
    /// canonical wire form.
    pub fn message<M: Message>(&mut self, tag: Tag, critical: bool, message: &M) -> (r: Result<
        (),
        Error,
    >)
        requires
            old(self).wf(),
            tag <= MAX_TAG,
            message.well_formed(),
        ensures
            final(self).wf(),
            final(self).capacity() == old(self).capacity(),
            ({
                let enc = message_field_enc(tag, critical, message.wire());
                if old(self).written().len() + enc.len() <= old(self).capacity() {
                    r == Ok::<(), Error>(()) && final(self).written() == old(self).written() + enc
                } else {
                    r == Err::<(), Error>(Error { kind: Kind::Length, position: None })
                }
            }),
    {
        let ghost w0 = self.written();
        let body = match message.encode() {
            Ok(b) => b,
            Err(e) => {
                return Err(e);
            },
        };
        self.write_header(tag, critical, WireType::Message)?;
        let r = self.write_value(body.as_slice());
        proof {
            lemma_append_assoc2(
                w0,
                header_enc(tag, critical, WireType::Message),
                vint64_enc(message.wire().len() as u64),
                message.wire(),
            );
        }
        r
    }

    /// Write a sequence of messages nested inside of a field: the
    /// field header, the sequence header packing the body length with
    /// the message wire type, then each message behind its own length
    /// prefix.  `length` must be the body's length in bytes.
    pub fn message_seq<M: Message>(
        &mut self,
        tag: Tag,
        critical: bool,
        length: usize,
        messages: &Vec<M>,
    ) -> (r: Result<(), Error>)
        requires
            old(self).wf(),
            tag <= MAX_TAG,
            forall|i: int|
                0 <= i < messages@.len() ==> (#[trigger] messages@[i]).well_formed(),
            length == message_seq_body_enc(messages@).len(),
            length <= u64::MAX >> 4,
        ensures
            final(self).wf(),
            final(self).capacity() == old(self).capacity(),
            ({
                let enc = header_enc(tag, critical, WireType::Sequence) + vint64_enc(
                    sequence_header_value(WireType::Message, length as nat),
                ) + message_seq_body_enc(messages@);
                if old(self).written().len() + enc.len() <= old(self).capacity() {
                    r == Ok::<(), Error>(()) && final(self).written() == old(self).written() + enc
                } else {
                    r == Err::<(), Error>(Error { kind: Kind::Length, position: None })
                }
            }),
    {
        let ghost w0 = self.written();
        let ghost henc = header_enc(tag, critical, WireType::Sequence);
        let ghost shenc = vint64_enc(sequence_header_value(WireType::Message, length as nat));
        let ghost body = message_seq_body_enc(messages@);
        proof {
            lemma_append_assoc2(w0, henc, shenc, body);
            lemma_append_assoc(w0, henc, shenc);
        }
        self.write_header(tag, critical, WireType::Sequence)?;
        let sequence_header = ((length as u64) << 4u64) | WireType::Message.to_u64();
        let encoded = crate::vint64::encode(sequence_header);
        self.write(encoded.as_ref())?;
        let ghost w1 = self.written();
        let mut i: usize = 0;
        proof {
            assert(messages@.take(0) =~= Seq::<M>::empty());
            assert(w1 + message_seq_body_enc(messages@.take(0)) =~= w1);
        }
        while i < messages.len()
            invariant
                i <= messages@.len(),
                forall|j: int|
                    0 <= j < messages@.len() ==> (#[trigger] messages@[j]).well_formed(),
                self.wf(),
                self.capacity() == old(self).capacity(),
                self.written() == w1 + message_seq_body_enc(messages@.take(i as int)),
                w1 == w0 + henc + shenc,
                w0 == old(self).written(),
                henc == header_enc(tag, critical, WireType::Sequence),
                shenc == vint64_enc(sequence_header_value(WireType::Message, length as nat)),
                body == message_seq_body_enc(messages@),
            decreases messages@.len() - i,
        {
            let ghost w_here = self.written();
            let ghost elem = vint64_enc(messages@[i as int].wire().len() as u64)
                + messages@[i as int].wire();
            proof {
                lemma_message_seq_body_split(messages@, i as int);
                assert(messages@.skip(i as int)[0] == messages@[i as int]);
                assert(message_seq_body_enc(messages@.skip(i as int)) == elem
                    + message_seq_body_enc(messages@.skip(i as int).skip(1)));
                lemma_append_assoc(
                    w_here,
                    vint64_enc(messages@[i as int].wire().len() as u64),
                    messages@[i as int].wire(),
                );
                lemma_message_seq_body_split(messages@.take(i + 1), i as int);
                assert(messages@.take(i + 1).take(i as int) =~= messages@.take(i as int));
                assert(messages@.take(i + 1).skip(i as int) =~= seq![messages@[i as int]]);
                lemma_message_seq_body_singleton(seq![messages@[i as int]]);
                assert(seq![messages@[i as int]][0] == messages@[i as int]);
                lemma_append_assoc(
                    w1,
                    message_seq_body_enc(messages@.take(i as int)),
                    elem,
                );
                if w0.len() + (henc + shenc + body).len() <= old(self).capacity() {
                    assert(w_here.len() + elem.len() <= old(self).capacity());
                }
            }
            let m = &messages[i];
            let encoded_len = m.encoded_len();
            let body_bytes = match m.encode() {
                Ok(b) => b,
                Err(e) => {
                    return Err(e);
                },
            };
            let prefix = crate::vint64::encode(encoded_len as u64);
            match self.write(prefix.as_ref()) {
                Ok(()) => {},
                Err(e) => {
                    return Err(e);
                },
            }
            match self.write(body_bytes.as_slice()) {
                Ok(()) => {},
                Err(e) => {
                    return Err(e);
                },
            }
            i = i + 1;
        }
        proof {
            assert(messages@.take(messages@.len() as int) =~= messages@);
        }
        Ok(())
    }

    /// Finish constructing a message, returning the written prefix of
    /// the buffer.
    pub fn finish(self) -> (r: Vec<u8>)
        requires
            self.wf(),
        ensures
            r@ == self.written(),
    {
        let Encoder { mut buffer, length } = self;
        buffer.truncate(length);
        buffer
    }

    /// Write a field header to the underlying buffer.
    fn write_header(&mut self, tag: Tag, critical: bool, wire_type: WireType) -> (r: Result<
        (),
        Error,
    >)
        requires
            old(self).wf(),
            tag <= MAX_TAG,
        ensures
            final(self).wf(),
            final(self).capacity() == old(self).capacity(),
            ({
                let enc = header_enc(tag, critical, wire_type);
                if old(self).written().len() + enc.len() <= old(self).capacity() {
                    r == Ok::<(), Error>(()) && final(self).written() == old(self).written() + enc
                } else {
                    r == Err::<(), Error>(Error { kind: Kind::Length, position: None }) && final(self).written() == old(self).written()
                }
            }),
    {
        let encoded = Header::new(tag, critical, wire_type).encode();
        self.write(encoded.as_ref())
    }

    /// Write a dynamically sized value to the underlying buffer: its
    /// length as a `vint64`, then its bytes.
    fn write_value(&mut self, bytes: &[u8]) -> (r: Result<(), Error>)
        requires
            old(self).wf(),
        ensures
            final(self).wf(),
            final(self).capacity() == old(self).capacity(),
            ({
                let enc = vint64_enc(bytes@.len() as u64) + bytes@;
                if old(self).written().len() + enc.len() <= old(self).capacity() {
                    r == Ok::<(), Error>(()) && final(self).written() == old(self).written() + enc
                } else {
                    r == Err::<(), Error>(Error { kind: Kind::Length, position: None })
                }
            }),
    {
        let ghost w0 = self.written();
        let prefix = crate::vint64::encode(bytes.len() as u64);
        self.write(prefix.as_ref())?;
        let r = self.write(bytes);
        proof {
            lemma_append_assoc(w0, vint64_enc(bytes@.len() as u64), bytes@);
        }
        r
    }

    /// Write the given bytes to the underlying buffer; fails with
    /// `Length` when the buffer has insufficient space, writing
    /// nothing.
    fn write(&mut self, bytes: &[u8]) -> (r: Result<(), Error>)
        requires
            old(self).wf(),
        ensures
            final(self).wf(),
            final(self).capacity() == old(self).capacity(),
            if old(self).written().len() + bytes@.len() <= old(self).capacity() {
                r == Ok::<(), Error>(()) && final(self).written() == old(self).written() + bytes@
            } else {
                r == Err::<(), Error>(Error { kind: Kind::Length, position: None }) && final(self).written() == old(self).written()
            },
    {
        let cap = self.buffer.len();
        if bytes.len() > cap - self.length {
            return Err(Kind::Length.into_error());
        }
        let mut i: usize = 0;
        while i < bytes.len()
            invariant
                i <= bytes@.len(),
                self.buffer@.len() <= usize::MAX,
                self.length + bytes@.len() <= self.buffer@.len(),
                self.length == old(self).length,
                self.buffer@.len() == old(self).buffer@.len(),
                self.buffer@.take(self.length as int) == old(self).written(),
                self.buffer@.subrange(self.length as int, self.length + i) =~= bytes@.take(
                    i as int,
                ),
            decreases bytes@.len() - i,
        {
            let b = *vstd::slice::slice_index_get(bytes, i);
            self.buffer[self.length + i] = b;
            proof {
                assert(self.buffer@.take(self.length as int) =~= old(self).written());
                assert(self.buffer@.subrange(self.length as int, self.length + i + 1) =~= bytes@
                    .take(i + 1));
            }
            i = i + 1;
        }
        proof {
            assert(bytes@.take(bytes@.len() as int) =~= bytes@);
            assert(self.buffer@.take(self.length as int + bytes@.len()) =~= old(self).written()
                + bytes@);
        }
        self.length = self.length + bytes.len();
        Ok(())
    }
}

proof fn lemma_append_assoc(a: Seq<u8>, b: Seq<u8>, c: Seq<u8>)
    ensures
        (a + b) + c == a + (b + c),
{
    assert((a + b) + c =~= a + (b + c));
}

proof fn lemma_append_assoc2(a: Seq<u8>, b: Seq<u8>, c: Seq<u8>, d: Seq<u8>)
    ensures
        (a + b) + (c + d) == a + (b + c + d),
{
    assert((a + b) + (c + d) =~= a + (b + c + d));
}

} // verus!
