//! Verihash core hashing primitives.
//!
//! Verihash hashes a canonical transcript of what was decoded, not the
//! raw wire bytes: tags, wire-type prefixes, scalar values in fixed
//! eight-byte little-endian form, the lengths of dynamically sized
//! values, and the digests (not the bodies) of nested scopes.  The
//! digest of a message is therefore a pure function of its canonical
//! form, and a nested message contributes to its parent only through
//! its own digest.
//!
//! The underlying hash is SHA-256, producing a 32-byte digest.

use crate::field::{wire_type_code, Tag, WireType};
use crate::vint64::le_bytes_of;
use sha2::{Digest, Sha256};
use vstd::prelude::*;

verus! {

/// Number of bytes in a digest.
pub const DIGEST_SIZE: usize = 32;

/// Verihash prefix used by tags (the wire type code of unsigned
/// integers).
pub const TAG_PREFIX: u8 = 2;

#[verifier::external_type_specification]
#[verifier::external_body]
pub struct ExSha256(sha2::Sha256);

/// The byte stream a hash state has been fed so far.
pub uninterp spec fn sha256_fed(state: Sha256) -> Seq<u8>;

/// The SHA-256 digest of a byte stream: 32 bytes, a function of the
/// stream alone.
pub uninterp spec fn sha256_of(input: Seq<u8>) -> Seq<u8>;

/// Relies on `sha2::Sha256` through `digest::Digest::new`: a fresh
/// hash state has been fed nothing.
#[verifier::external_body]
fn sha256_new() -> (h: Sha256)
    ensures
        sha256_fed(h) == Seq::<u8>::empty(),
{
    Sha256::new()
}

/// Relies on `sha2::Sha256` through `digest::Digest::update`: feeding
/// data appends it to the stream the digest is computed over, exactly
/// as if the whole stream had been fed at once.
#[verifier::external_body]
fn sha256_update(h: &mut Sha256, data: &[u8])
    ensures
        sha256_fed(*final(h)) == sha256_fed(*old(h)) + data@,
{
    h.update(data);
}

/// Relies on `sha2::Sha256` through `digest::Digest::finalize`: the
/// digest is 32 bytes and depends on the fed stream alone.
#[verifier::external_body]
fn sha256_finalize(h: Sha256) -> (r: Vec<u8>)
    ensures
        r@ == sha256_of(sha256_fed(h)),
        r@.len() == 32,
{
    h.finalize().to_vec()
}

/// Transcript contribution of a tag: the tag prefix byte, then the tag
/// in eight little-endian bytes.
pub open spec fn tag_hash_bytes(tag: Tag) -> Seq<u8> {
    seq![TAG_PREFIX] + le_bytes_of(tag, 8)
}

/// Transcript contribution of an untagged boolean: its wire type code,
/// then one byte holding 0 or 1.
pub open spec fn boolean_hash_bytes(value: bool) -> Seq<u8> {
    if value {
        seq![1u8, 1u8]
    } else {
        seq![0u8, 0u8]
    }
}

/// Transcript contribution of an untagged unsigned integer.
pub open spec fn uint64_hash_bytes(value: u64) -> Seq<u8> {
    seq![2u8] + le_bytes_of(value, 8)
}

/// Transcript contribution of an untagged signed integer: its two's
/// complement eight-byte little-endian form after the wire type code.
pub open spec fn sint64_hash_bytes(value: i64) -> Seq<u8> {
    seq![3u8] + le_bytes_of(value as u64, 8)
}

/// Transcript contribution of the length delimiter of a dynamically
/// sized value: the wire type code, then the length in eight
/// little-endian bytes.  The body is hashed separately.
pub open spec fn dynamically_sized_value_hash_bytes(wire_type: WireType, length: u64) -> Seq<u8> {
    seq![wire_type_code(wire_type) as u8] + le_bytes_of(length, 8)
}

/// Transcript contribution of a fixed-size value: the wire type code,
/// then the body itself.
pub open spec fn fixed_size_value_hash_bytes(wire_type: WireType, body: Seq<u8>) -> Seq<u8> {
    seq![wire_type_code(wire_type) as u8] + body
}

/// Write `value` as eight little-endian bytes.
fn u64_le_bytes(value: u64) -> (r: Vec<u8>)
    ensures
        r@ == le_bytes_of(value, 8),
{
    let mut bytes: Vec<u8> = Vec::new();
    let mut i: usize = 0;
    while i < 8
        invariant
            i <= 8,
            bytes@ =~= le_bytes_of(value, i as nat),
        decreases 8 - i,
    {
        bytes.push(((value >> ((8 * i) as u64)) & 0xff) as u8);
        assert(bytes@ =~= le_bytes_of(value, (i + 1) as nat));
        i = i + 1;
    }
    assert(bytes@ =~= le_bytes_of(value, 8));
    bytes
}

/// Verihash hasher: computes transcript digests of messages and of
/// sequences.
pub struct Hasher {
    state: Sha256,
}

impl Hasher {
    /// The transcript fed so far.
    pub closed spec fn transcript(&self) -> Seq<u8> {
        sha256_fed(self.state)
    }

    /// Create a new Verihash hasher over an empty transcript.
    pub fn new() -> (r: Self)
        ensures
            r.transcript() == Seq::<u8>::empty(),
    {
        Hasher { state: sha256_new() }
    }

    /// Hash a tagged boolean value.
    pub fn tagged_boolean(&mut self, tag: Tag, value: bool)
        ensures
            final(self).transcript() == old(self).transcript() + tag_hash_bytes(tag)
                + boolean_hash_bytes(value),
    {
        self.tag(tag);
        self.boolean(value);
    }

    /// Hash a boolean.
    pub fn boolean(&mut self, value: bool)
        ensures
            final(self).transcript() == old(self).transcript() + boolean_hash_bytes(value),
    {
        let mut body: Vec<u8> = Vec::new();
        if value {
            body.push(1u8);
        } else {
            body.push(0u8);
        }
        let ghost wire_type = if value {
            WireType::True
        } else {
            WireType::False
        };
        self.fixed_size_value(if value {
            WireType::True
        } else {
            WireType::False
        }, body.as_slice());
        proof {
            assert(fixed_size_value_hash_bytes(wire_type, body@) =~= boolean_hash_bytes(value));
        }
    }

    /// Hash a tagged unsigned 64-bit integer.
    pub fn tagged_uint64(&mut self, tag: Tag, value: u64)
        ensures
            final(self).transcript() == old(self).transcript() + tag_hash_bytes(tag)
                + uint64_hash_bytes(value),
    {
        self.tag(tag);
        self.uint64(value);
    }

    /// Hash an unsigned 64-bit integer.
    pub fn uint64(&mut self, value: u64)
        ensures
            final(self).transcript() == old(self).transcript() + uint64_hash_bytes(value),
    {
        let body = u64_le_bytes(value);
        self.fixed_size_value(WireType::UInt64, body.as_slice());
        proof {
            assert(fixed_size_value_hash_bytes(WireType::UInt64, body@) =~= uint64_hash_bytes(
                value,
            ));
        }
    }

    /// Hash a tagged signed 64-bit integer.
    pub fn tagged_sint64(&mut self, tag: Tag, value: i64)
        ensures
            final(self).transcript() == old(self).transcript() + tag_hash_bytes(tag)
                + sint64_hash_bytes(value),
    {
        self.tag(tag);
        self.sint64(value);
    }

    /// Hash a signed 64-bit integer.
    pub fn sint64(&mut self, value: i64)
        ensures
            final(self).transcript() == old(self).transcript() + sint64_hash_bytes(value),
    {
        let body = u64_le_bytes(value as u64);
        self.fixed_size_value(WireType::SInt64, body.as_slice());
        proof {
            assert(fixed_size_value_hash_bytes(WireType::SInt64, body@) =~= sint64_hash_bytes(
                value,
            ));
        }
    }

    /// Hash a numerical tag.
    pub fn tag(&mut self, tag: Tag)
        ensures
            final(self).transcript() == old(self).transcript() + tag_hash_bytes(tag),
    {
        let mut prefix: Vec<u8> = Vec::new();
        prefix.push(TAG_PREFIX);
        sha256_update(&mut self.state, prefix.as_slice());
        let tag_bytes = u64_le_bytes(tag);
        sha256_update(&mut self.state, tag_bytes.as_slice());
        proof {
            assert(old(self).transcript() + prefix@ + tag_bytes@ =~= old(self).transcript()
                + tag_hash_bytes(tag));
        }
    }

    /// Hash the length delimiter of a dynamically sized value.  The
    /// body that follows is hashed separately through `update`.
    pub fn dynamically_sized_value(&mut self, wire_type: WireType, length: u64)
        ensures
            final(self).transcript() == old(self).transcript()
                + dynamically_sized_value_hash_bytes(wire_type, length),
    {
        let mut prefix: Vec<u8> = Vec::new();
        prefix.push(wire_type.to_u8());
        sha256_update(&mut self.state, prefix.as_slice());
        let length_bytes = u64_le_bytes(length);
        sha256_update(&mut self.state, length_bytes.as_slice());
        proof {
            assert(old(self).transcript() + prefix@ + length_bytes@ =~= old(self).transcript()
                + dynamically_sized_value_hash_bytes(wire_type, length));
        }
    }

    /// Hash an untagged fixed-size value: its wire type code, then its
    /// body.
    pub fn fixed_size_value(&mut self, wire_type: WireType, body: &[u8])
        ensures
            final(self).transcript() == old(self).transcript() + fixed_size_value_hash_bytes(
                wire_type,
                body@,
            ),
    {
        let mut prefix: Vec<u8> = Vec::new();
        prefix.push(wire_type.to_u8());
        sha256_update(&mut self.state, prefix.as_slice());
        sha256_update(&mut self.state, body);
        proof {
            assert(old(self).transcript() + prefix@ + body@ =~= old(self).transcript()
                + fixed_size_value_hash_bytes(wire_type, body@));
        }
    }

    /// Feed raw bytes into the transcript.
    pub fn update(&mut self, data: &[u8])
        ensures
            final(self).transcript() == old(self).transcript() + data@,
    {
        sha256_update(&mut self.state, data);
    }

    /// Finish computing the digest: 32 bytes depending on the
    /// transcript alone.
    pub fn finalize(self) -> (r: Vec<u8>)
        ensures
            r@ == sha256_of(self.transcript()),
            r@.len() == 32,
    {
        sha256_finalize(self.state)
    }
}

} // verus!
