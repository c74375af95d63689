//! Tests for the Verihash hashers: the transcript digest against a
//! direct SHA-256 computation, and determinism across chunking and
//! equal wire forms.

use sha2::{Digest, Sha256};
use veriform::decoder::message::Decoder;
use veriform::encoder::Encoder;
use veriform::verihash::Hasher;

#[test]
fn raw_transcript_digest_matches_sha256() {
    let mut hasher = Hasher::new();
    hasher.update(b"hello world");
    let digest = hasher.finalize();
    let expected = Sha256::digest(b"hello world");
    assert_eq!(digest.as_slice(), expected.as_slice());
}

#[test]
fn tagged_uint64_transcript_matches_sha256() {
    let mut hasher = Hasher::new();
    hasher.tagged_uint64(42, 42);
    let digest = hasher.finalize();

    // The transcript of a tagged uint64: the tag prefix byte, the tag
    // in eight little-endian bytes, the wire type code, the value in
    // eight little-endian bytes.
    let mut transcript = Vec::new();
    transcript.push(2u8);
    transcript.extend_from_slice(&42u64.to_le_bytes());
    transcript.push(2u8);
    transcript.extend_from_slice(&42u64.to_le_bytes());
    let expected = Sha256::digest(&transcript);
    assert_eq!(digest.as_slice(), expected.as_slice());
}

#[test]
fn digest_is_deterministic_across_chunking() {
    let input = [73, 11, 98, 121, 116, 101, 115];

    // One decoder sees the whole input at once.
    let mut whole = Decoder::new();
    let (_, pos) = whole.decode_header(&input, 0).unwrap();
    let (_, _) = whole.decode_bytes(&input, pos).unwrap();
    let d1 = whole.compute_digest().unwrap().unwrap();

    // Another is fed the body byte by byte through raw events.
    let mut chunked = Decoder::new();
    let mut pos = 0;
    while pos < input.len() {
        let end = (pos + 1).min(input.len());
        let (_ev, new_pos) = chunked.decode(&input[..end], pos).unwrap();
        pos = new_pos;
    }
    let d2 = chunked.compute_digest().unwrap().unwrap();

    assert_eq!(d1, d2);
}

#[test]
fn equal_wire_forms_have_equal_digests() {
    let mut first = Encoder::new(vec![0u8; 64]);
    first.uint64(1, false, 7).unwrap();
    first.string(2, false, "hi").unwrap();
    let bytes_a = first.finish();

    let mut second = Encoder::new(vec![0u8; 16]);
    second.uint64(1, false, 7).unwrap();
    second.string(2, false, "hi").unwrap();
    let bytes_b = second.finish();

    assert_eq!(bytes_a, bytes_b);

    let digest_of = |bytes: &[u8]| {
        let mut decoder = Decoder::new();
        let (_, pos) = decoder.decode_header(bytes, 0).unwrap();
        let (_, pos) = decoder.decode_uint64(bytes, pos).unwrap();
        let (_, pos) = decoder.decode_header(bytes, pos).unwrap();
        let (_, _) = decoder.decode_string(bytes, pos).unwrap();
        decoder.compute_digest().unwrap().unwrap()
    };
    assert_eq!(digest_of(&bytes_a), digest_of(&bytes_b));
}
