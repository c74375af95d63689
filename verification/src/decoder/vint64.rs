//! Incremental decoder for `vint64` values: buffers the bytes of one
//! `vint64` across successive input slices, decoding once the length
//! its first byte declares has arrived.

use crate::error::{Error, Kind};
use crate::vint64::{decode_model, decoded_len, decoded_len_spec, vint64_enc};
use vstd::prelude::*;

verus! {

broadcast use vstd::slice::group_slice_axioms;

/// Is `s` too short to hold the `vint64` its first byte declares?
/// The empty string counts as incomplete.
pub open spec fn incomplete_vint64(s: Seq<u8>) -> bool {
    s.len() == 0 || s.len() < decoded_len_spec(s[0])
}

/// Incremental decoder for `vint64` values.  Its view is the bytes
/// buffered so far, always a strict prefix of one encoded `vint64`.
pub struct Decoder {
    /// Bytes of the `vint64` read so far.
    buffer: Vec<u8>,
}

impl View for Decoder {
    type V = Seq<u8>;

    closed spec fn view(&self) -> Seq<u8> {
        self.buffer@
    }
}

impl Decoder {
    /// The buffer holds less than a whole `vint64`.
    pub open spec fn wf(&self) -> bool {
        incomplete_vint64(self@)
    }

    /// Create a new incremental decoder with an empty buffer.
    pub fn new() -> (r: Self)
        ensures
            r@ == Seq::<u8>::empty(),
            r.wf(),
    {
        Decoder { buffer: Vec::new() }
    }

    /// Feed the input from `pos` on into the buffer.  Returns the new
    /// position and either `None`, when the buffered `vint64` is still
    /// incomplete and the input has been exhausted, or the decoded
    /// value.  A complete non-canonical form fails with `VInt64`.
    pub fn decode(&mut self, input: &[u8], pos: usize) -> (r: Result<(Option<u64>, usize), Error>)
        requires
            old(self).wf(),
            pos <= input@.len(),
        ensures
            final(self).wf(),
            ({
                let combined = old(self)@ + input@.subrange(pos as int, input@.len() as int);
                match r {
                    Ok((None, p)) => p == input@.len() && final(self)@ == combined
                        && incomplete_vint64(combined),
                    Ok((Some(value), p)) => {
                        let l = decoded_len_spec(combined[0]);
                        &&& !incomplete_vint64(combined)
                        &&& decode_model(combined) == Ok::<(u64, u64), crate::vint64::Error>(
                            (value, l),
                        )
                        &&& combined.take(l as int) == vint64_enc(value)
                        &&& pos + l - old(self)@.len() == p
                        &&& p <= input@.len()
                        &&& final(self)@ == Seq::<u8>::empty()
                    },
                    Err(e) => {
                        &&& e == (Error { kind: Kind::VInt64, position: None })
                        &&& !incomplete_vint64(combined)
                        &&& decode_model(combined) == Err::<(u64, u64), _>(
                            crate::vint64::Error::LeadingZeroes,
                        )
                        &&& final(self)@ == Seq::<u8>::empty()
                    },
                }
            }),
    {
        let ghost combined = old(self)@ + input@.subrange(pos as int, input@.len() as int);
        let mut p = pos;
        if self.buffer.len() == 0 {
            if p == input.len() {
                proof {
                    assert(combined =~= input@.subrange(pos as int, input@.len() as int));
                }
                return Ok((None, p));
            }
            let b = *vstd::slice::slice_index_get(input, p);
            self.buffer.push(b);
            p = p + 1;
        }
        proof {
            assert(self.buffer@ =~= combined.take(self.buffer@.len() as int));
        }
        let length = decoded_len(self.buffer[0]);
        while self.buffer.len() < length && p < input.len()
            invariant
                pos <= p <= input@.len(),
                1 <= self.buffer@.len(),
                self.buffer@.len() <= length,
                length == decoded_len_spec(combined[0]),
                combined == old(self)@ + input@.subrange(pos as int, input@.len() as int),
                self.buffer@ =~= combined.take(self.buffer@.len() as int),
                self.buffer@.len() == old(self)@.len() + (p - pos),
            decreases input@.len() - p,
        {
            let b = *vstd::slice::slice_index_get(input, p);
            self.buffer.push(b);
            p = p + 1;
            proof {
                assert(self.buffer@ =~= combined.take(self.buffer@.len() as int));
            }
        }
        if self.buffer.len() < length {
            proof {
                assert(p == input@.len());
                assert(self.buffer@ =~= combined);
            }
            return Ok((None, p));
        }
        proof {
            assert(self.buffer@ =~= combined.take(length as int));
            assert(combined.take(length as int)[0] == combined[0]);
            assert(decode_model(self.buffer@) == decode_model(combined)) by {
                lemma_decode_model_prefix(combined, length as int);
            }
        }
        let result = crate::vint64::decode(self.buffer.as_slice());
        self.buffer.clear();
        match result {
            Ok((value, _n)) => Ok((Some(value), p)),
            Err(_) => Err(Kind::VInt64.into_error()),
        }
    }
}

/// Decoding looks only at the `vint64` itself: the model of a complete
/// prefix agrees with the model of the whole string.
proof fn lemma_decode_model_prefix(s: Seq<u8>, l: int)
    requires
        s.len() > 0,
        l == decoded_len_spec(s[0]),
        l <= s.len(),
    ensures
        decode_model(s.take(l)) == decode_model(s),
        s.take(l).len() > 0 && decoded_len_spec(s.take(l)[0]) == l,
{
    let t = s.take(l);
    assert(t[0] == s[0]);
    if l == 9 {
        assert(t.subrange(1, 9) =~= s.subrange(1, 9));
    } else {
        assert(t.take(l) =~= s.take(l));
    }
}

} // verus!
