//! `vint64`: variable-length encoding for 64-bit little-endian integers.
//!
//! A `u64` value encodes to 1 to 9 bytes.  The number of trailing zeroes
//! of the first byte signals the total length: a first byte with `k`
//! trailing zeroes (`k < 8`) begins a `k + 1` byte encoding holding the
//! value `v` packed little-endian as `(v << 1 | 1) << k`; a first byte of
//! `0x00` begins the 9-byte form, the value following as 8 little-endian
//! bytes.  Every value has exactly one canonical encoding: decoding
//! rejects any form whose value would have fit in fewer bytes.

pub mod signed;
pub mod zigzag;

use vstd::prelude::*;

verus! {

broadcast use vstd::slice::group_slice_axioms;

/// Maximum length of an encoded `vint64` in bytes.
pub const MAX_BYTES: usize = 9;

/// Decoding error.
#[derive(Copy, Clone, Debug, PartialEq, Eq, Structural)]
pub enum Error {
    /// Value contains unnecessary leading zeroes (a non-minimal form).
    LeadingZeroes,

    /// Value is truncated: the input ends before the length its first
    /// byte declares.
    Truncated,
}

/// 256 raised to the power `n`: the number of values of `n` bytes.
pub open spec fn pow256(n: nat) -> nat
    decreases n,
{
    if n == 0 {
        1
    } else {
        256 * pow256((n - 1) as nat)
    }
}

/// The value of a little-endian byte string.
pub open spec fn le_val(s: Seq<u8>) -> nat
    decreases s.len(),
{
    if s.len() == 0 {
        0
    } else {
        (s[0] + 256 * le_val(s.skip(1))) as nat
    }
}

/// The `n` low bytes of `x`, least significant first.
pub open spec fn le_bytes_of(x: u64, n: nat) -> Seq<u8> {
    Seq::new(n, |i: int| ((x >> ((8 * i) as u64)) & 0xff) as u8)
}

/// Length in bytes of the canonical encoding of `value`: the least `l`
/// with `l <= 8` such that `value < 2^(7 l)`, or 9 for the largest values.
pub open spec fn encoded_len_spec(value: u64) -> u64 {
    if value < (1u64 << 7) {
        1
    } else if value < (1u64 << 14) {
        2
    } else if value < (1u64 << 21) {
        3
    } else if value < (1u64 << 28) {
        4
    } else if value < (1u64 << 35) {
        5
    } else if value < (1u64 << 42) {
        6
    } else if value < (1u64 << 49) {
        7
    } else if value < (1u64 << 56) {
        8
    } else {
        9
    }
}

/// Total length (first byte included) that the first byte `byte` of an
/// encoding declares: one more than its number of trailing zeroes.
pub open spec fn decoded_len_spec(byte: u8) -> u64 {
    if byte & 0x01 != 0 {
        1
    } else if byte & 0x02 != 0 {
        2
    } else if byte & 0x04 != 0 {
        3
    } else if byte & 0x08 != 0 {
        4
    } else if byte & 0x10 != 0 {
        5
    } else if byte & 0x20 != 0 {
        6
    } else if byte & 0x40 != 0 {
        7
    } else if byte & 0x80 != 0 {
        8
    } else {
        9
    }
}

/// The canonical encoding of `value`.
pub open spec fn vint64_enc(value: u64) -> Seq<u8> {
    let l = encoded_len_spec(value);
    if l == 9 {
        seq![0u8] + le_bytes_of(value, 8)
    } else {
        le_bytes_of(((value << 1) | 1) << ((l - 1) as u64), l as nat)
    }
}

/// The value the first `decoded_len_spec(s[0])` bytes of `s` hold,
/// canonical or not.
pub open spec fn vint64_prefix_value(s: Seq<u8>) -> u64
    recommends
        s.len() > 0,
        decoded_len_spec(s[0]) <= s.len(),
{
    let l = decoded_len_spec(s[0]);
    if l == 9 {
        le_val(s.subrange(1, 9)) as u64
    } else {
        (le_val(s.take(l as int)) as u64) >> l
    }
}

/// What decoding the start of `s` yields: the value and the number of
/// bytes it occupies, or the error.
pub open spec fn decode_model(s: Seq<u8>) -> Result<(u64, u64), Error> {
    if s.len() == 0 {
        Err(Error::Truncated)
    } else {
        let l = decoded_len_spec(s[0]);
        if s.len() < l {
            Err(Error::Truncated)
        } else {
            let v = vint64_prefix_value(s);
            if encoded_len_spec(v) == l {
                Ok((v, l))
            } else {
                Err(Error::LeadingZeroes)
            }
        }
    }
}

/// A serialized `vint64`: up to nine bytes.
#[derive(Clone, Debug)]
pub struct VInt64 {
    bytes: Vec<u8>,
}

impl View for VInt64 {
    type V = Seq<u8>;

    closed spec fn view(&self) -> Seq<u8> {
        self.bytes@
    }
}

impl VInt64 {
    /// Borrow the encoded bytes.
    pub fn as_ref(&self) -> (r: &[u8])
        ensures
            r@ == self@,
    {
        self.bytes.as_slice()
    }

    /// Number of encoded bytes.
    pub fn len(&self) -> (n: usize)
        ensures
            n == self@.len(),
    {
        self.bytes.len()
    }
}

proof fn lemma_pow256_values()
    ensures
        pow256(0) == 1,
        pow256(1) == 0x100,
        pow256(2) == 0x10000,
        pow256(3) == 0x1000000,
        pow256(4) == 0x100000000,
        pow256(5) == 0x10000000000,
        pow256(6) == 0x1000000000000,
        pow256(7) == 0x100000000000000,
        pow256(8) == 0x10000000000000000,
        pow256(9) == 0x1000000000000000000,
{
    assert(pow256(0) == 1);
    assert(pow256(1) == 256 * pow256(0));
    assert(pow256(2) == 256 * pow256(1));
    assert(pow256(3) == 256 * pow256(2));
    assert(pow256(4) == 256 * pow256(3));
    assert(pow256(5) == 256 * pow256(4));
    assert(pow256(6) == 256 * pow256(5));
    assert(pow256(7) == 256 * pow256(6));
    assert(pow256(8) == 256 * pow256(7));
    assert(pow256(9) == 256 * pow256(8));
}

/// For shift amounts below 64 bits, shifting 1 left by `8 i` is the
/// same as raising 256 to the power `i`.
proof fn lemma_pow256_shift(i: u64)
    requires
        i < 8,
    ensures
        (1u64 << (8 * i)) == pow256(i as nat),
    decreases i,
{
    if i == 0 {
        assert(1u64 << (8 * 0u64) == 1) by (bit_vector);
    } else {
        lemma_pow256_shift((i - 1) as u64);
        let j = (i - 1) as u64;
        assert(j < 7 ==> (1u64 << ((8 * (j + 1)) as u64)) == 256 * (1u64 << ((8 * j) as u64))) by (bit_vector);
    }
}

/// Accumulating one more byte by an `or` of its shifted value adds
/// exactly that byte's weighted value.
proof fn lemma_or_step(acc: u64, b: u8, i: u64)
    by (bit_vector)
    requires
        i < 8,
        acc < (1u64 << ((8 * i) as u64)),
    ensures
        (acc | ((b as u64) << ((8 * i) as u64))) == acc + (b as u64) * (1u64 << ((8 * i) as u64)),
        i < 7 ==> (acc | ((b as u64) << ((8 * i) as u64))) < (1u64 << ((8 * (i + 1)) as u64)),
{
}

proof fn lemma_shr8(x: u64, b: u64)
    by (bit_vector)
    requires
        b <= 56,
    ensures
        (x >> 8u64) >> b == x >> ((8 + b) as u64),
{
}

/// Appending a byte to a little-endian string adds its value at the
/// next power of 256.
proof fn lemma_le_val_push(s: Seq<u8>, b: u8)
    ensures
        le_val(s.push(b)) == le_val(s) + b * pow256(s.len()),
    decreases s.len(),
{
    if s.len() == 0 {
        assert(s.push(b).skip(1) =~= Seq::<u8>::empty());
        assert(s.push(b)[0] == b);
        assert(le_val(s.push(b)) == b + 256 * le_val(s.push(b).skip(1)));
        assert(pow256(0) == 1);
    } else {
        assert(s.push(b).skip(1) =~= s.skip(1).push(b));
        assert(s.push(b)[0] == s[0]);
        assert(le_val(s.push(b)) == s[0] + 256 * le_val(s.skip(1).push(b)));
        lemma_le_val_push(s.skip(1), b);
        let p = pow256(s.skip(1).len());
        assert(256 * (le_val(s.skip(1)) + b * p) == 256 * le_val(s.skip(1)) + b * (256 * p))
            by (nonlinear_arith);
        assert(pow256(s.len()) == 256 * p);
    }
}

/// The value of an `n`-byte little-endian string is below `256^n`.
proof fn lemma_le_val_bound(s: Seq<u8>)
    ensures
        le_val(s) < pow256(s.len()),
    decreases s.len(),
{
    if s.len() == 0 {
    } else {
        lemma_le_val_bound(s.skip(1));
        let p = pow256(s.skip(1).len());
        assert(le_val(s.skip(1)) + 1 <= p);
        assert(256 * le_val(s.skip(1)) + 256 <= 256 * p) by (nonlinear_arith)
            requires
                le_val(s.skip(1)) + 1 <= p,
        ;
    }
}

/// Reading back the `n` low bytes of `x` recovers `x` when `x` fits in
/// `n` bytes.
proof fn lemma_le_val_of_bytes(x: u64, n: nat)
    requires
        n <= 8,
        x < pow256(n),
    ensures
        le_val(le_bytes_of(x, n)) == x,
    decreases n,
{
    if n == 0 {
        assert(le_bytes_of(x, 0) =~= Seq::<u8>::empty());
    } else {
        let s = le_bytes_of(x, n);
        assert(x >> ((8 * 0) as u64) == x) by (bit_vector);
        assert(s[0] == (x & 0xff) as u8);
        assert forall|j: int| 0 <= j < n - 1 implies s.skip(1)[j] == le_bytes_of(x >> 8, (n
            - 1) as nat)[j] by {
            lemma_shr8(x, (8 * j) as u64);
            assert((8 + (8 * j) as u64) as u64 == (8 * (j + 1)) as u64);
        }
        assert(s.skip(1) =~= le_bytes_of(x >> 8, (n - 1) as nat));
        assert(x >> 8 == x / 256) by (bit_vector);
        assert(pow256(n) == 256 * pow256((n - 1) as nat));
        assert(x / 256 < pow256((n - 1) as nat)) by (nonlinear_arith)
            requires
                x < 256 * pow256((n - 1) as nat),
        ;
        lemma_le_val_of_bytes(x >> 8, (n - 1) as nat);
        assert(x == (x & 0xff) + 256 * (x >> 8)) by (bit_vector);
    }
}

/// The bytes of the value of a short little-endian string are the
/// string itself.
proof fn lemma_le_bytes_of_val(s: Seq<u8>)
    requires
        s.len() <= 8,
    ensures
        le_bytes_of(le_val(s) as u64, s.len()) == s,
    decreases s.len(),
{
    lemma_pow256_values();
    if s.len() == 0 {
        assert(le_bytes_of(0, 0) =~= Seq::<u8>::empty());
    } else {
        let n = s.len();
        lemma_le_val_bound(s);
        lemma_le_val_bound(s.skip(1));
        if n < 8 {
            lemma_pow256_shift(n as u64);
        }
        assert(pow256(n) <= pow256(8)) by {
            lemma_pow256_increases(n, 8);
        }
        let y = le_val(s) as u64;
        let r = le_val(s.skip(1)) as u64;
        assert(pow256((n - 1) as nat) <= pow256(7)) by {
            lemma_pow256_increases((n - 1) as nat, 7);
        }
        assert(1u64 << 56 == 0x100000000000000) by (bit_vector);
        let a = s[0];
        assert(y == (a as u64) + 256 * r);
        assert(y & 0xff == a && y >> 8 == r && y >> ((8 * 0) as u64) == y) by (bit_vector)
            requires
                y == (a as u64) + 256 * r,
                r < (1u64 << 56),
        ;
        lemma_le_bytes_of_val(s.skip(1));
        assert forall|j: int| 1 <= j < n implies le_bytes_of(y, n)[j] == s[j] by {
            lemma_shr8(y, (8 * (j - 1)) as u64);
            assert((8 + (8 * (j - 1)) as u64) as u64 == (8 * j) as u64);
            assert(le_bytes_of(r, (n - 1) as nat)[j - 1] == s.skip(1)[j - 1]);
        }
        assert(le_bytes_of(y, n) =~= s);
    }
}

proof fn lemma_pow256_increases(a: nat, b: nat)
    requires
        a <= b,
    ensures
        pow256(a) <= pow256(b),
    decreases b,
{
    if a < b {
        lemma_pow256_increases(a, (b - 1) as nat);
        assert(pow256(b) == 256 * pow256((b - 1) as nat));
        assert(pow256((b - 1) as nat) <= 256 * pow256((b - 1) as nat)) by (nonlinear_arith)
            requires
                pow256((b - 1) as nat) >= 0,
        ;
    }
}

/// The packed form `(v << 1 | 1) << (l - 1)` of a value whose canonical
/// length is `l` has a first byte declaring length `l`, fits in `l`
/// bytes, and shifts back down to `v`.
proof fn lemma_enc_properties(v: u64, l: u64)
    by (bit_vector)
    requires
        1 <= l <= 8,
        encoded_len_spec(v) == l,
    ensures
        decoded_len_spec(((((v << 1) | 1) << ((l - 1) as u64)) & 0xff) as u8) == l,
        l <= 7 ==> (((v << 1) | 1) << ((l - 1) as u64)) < (1u64 << ((8 * l) as u64)),
        ((((v << 1) | 1) << ((l - 1) as u64)) >> l) == v,
{
}

/// An `l`-byte packed form whose first byte declares length `l` is
/// exactly the packing of the value it shifts down to.
proof fn lemma_dec_reconstruct(enc: u64, l: u64)
    by (bit_vector)
    requires
        1 <= l <= 8,
        decoded_len_spec((enc & 0xff) as u8) == l,
    ensures
        enc == (((enc >> l) << 1) | 1) << ((l - 1) as u64),
        l == 8 ==> (enc >> l) < (1u64 << 56),
        l <= 7 && enc < (1u64 << ((8 * l) as u64)) ==> (enc >> l) < (1u64 << ((7 * l) as u64)),
{
}

/// The minimality check of the decoder accepts exactly the values whose
/// canonical length is the length that was read.
proof fn lemma_canonical_check(r: u64, l: u64)
    by (bit_vector)
    requires
        1 <= l <= 8,
        r < (1u64 << ((7 * l) as u64)),
    ensures
        (l == 1 || r >= (1u64 << ((7 * (l - 1)) as u64))) <==> encoded_len_spec(r) == l,
{
}

proof fn lemma_nine_byte_canonical(r: u64)
    by (bit_vector)
    ensures
        (encoded_len_spec(r) == 9) <==> r >= (1u64 << 56),
{
}

proof fn lemma_nine_byte_prefix(b: u8)
    by (bit_vector)
    ensures
        decoded_len_spec(b) == 9 <==> b == 0,
{
}

/// Read `count` bytes starting at `start` as a little-endian value.
fn read_le(input: &[u8], start: usize, count: usize) -> (r: u64)
    requires
        start + count <= input.len(),
        count <= 8,
    ensures
        r == le_val(input@.subrange(start as int, (start + count) as int)),
        r < pow256(count as nat),
{
    let mut acc: u64 = 0;
    let mut i: usize = 0;
    proof {
        assert(input@.subrange(start as int, start as int) =~= Seq::<u8>::empty());
        lemma_pow256_shift(0);
    }
    while i < count
        invariant
            i <= count,
            count <= 8,
            start + count <= input.len(),
            acc == le_val(input@.subrange(start as int, (start + i) as int)),
            acc < pow256(i as nat),
            i < 8 ==> acc < (1u64 << ((8 * i) as u64)),
        decreases count - i,
    {
        let b = *vstd::slice::slice_index_get(input, start + i);
        let ghost prefix = input@.subrange(start as int, (start + i) as int);
        proof {
            lemma_or_step(acc, b, i as u64);
            lemma_pow256_shift(i as u64);
            lemma_le_val_push(prefix, b);
            assert(input@.subrange(start as int, (start + i + 1) as int) =~= prefix.push(b));
            if i + 1 < 8 {
                lemma_pow256_shift((i + 1) as u64);
            } else {
                lemma_pow256_values();
            }
        }
        acc = acc | ((b as u64) << ((8 * i) as u64));
        i = i + 1;
    }
    acc
}

/// Get the length of an encoded `vint64` for the given value in bytes.
pub fn encoded_len(value: u64) -> (l: usize)
    ensures
        l == encoded_len_spec(value),
        1 <= l <= 9,
{
    if value < (1u64 << 7) {
        1
    } else if value < (1u64 << 14) {
        2
    } else if value < (1u64 << 21) {
        3
    } else if value < (1u64 << 28) {
        4
    } else if value < (1u64 << 35) {
        5
    } else if value < (1u64 << 42) {
        6
    } else if value < (1u64 << 49) {
        7
    } else if value < (1u64 << 56) {
        8
    } else {
        9
    }
}

/// Get the total length of a `vint64` from its first byte, the first
/// byte itself included.
pub fn decoded_len(byte: u8) -> (l: usize)
    ensures
        l == decoded_len_spec(byte),
        1 <= l <= 9,
{
    if byte & 0x01 != 0 {
        1
    } else if byte & 0x02 != 0 {
        2
    } else if byte & 0x04 != 0 {
        3
    } else if byte & 0x08 != 0 {
        4
    } else if byte & 0x10 != 0 {
        5
    } else if byte & 0x20 != 0 {
        6
    } else if byte & 0x40 != 0 {
        7
    } else if byte & 0x80 != 0 {
        8
    } else {
        9
    }
}

/// Encode an unsigned 64-bit integer as a `vint64`.
pub fn encode(value: u64) -> (r: VInt64)
    ensures
        r@ == vint64_enc(value),
        r@.len() == encoded_len_spec(value),
{
    let length = encoded_len(value);
    let mut bytes: Vec<u8> = Vec::new();
    if length == 9 {
        bytes.push(0u8);
        let mut i: usize = 0;
        while i < 8
            invariant
                i <= 8,
                bytes@ =~= seq![0u8] + le_bytes_of(value, i as nat),
            decreases 8 - i,
        {
            bytes.push(((value >> ((8 * i) as u64)) & 0xff) as u8);
            assert(bytes@ =~= seq![0u8] + le_bytes_of(value, (i + 1) as nat));
            i = i + 1;
        }
        assert(bytes@ =~= vint64_enc(value));
    } else {
        let enc = ((value << 1) | 1) << ((length - 1) as u64);
        let mut i: usize = 0;
        while i < length
            invariant
                i <= length,
                length == encoded_len_spec(value),
                1 <= length <= 8,
                enc == (((value << 1) | 1) << ((length - 1) as u64)),
                bytes@ =~= le_bytes_of(enc, i as nat),
            decreases length - i,
        {
            bytes.push(((enc >> ((8 * i) as u64)) & 0xff) as u8);
            assert(bytes@ =~= le_bytes_of(enc, (i + 1) as nat));
            i = i + 1;
        }
        assert(bytes@ =~= vint64_enc(value));
    }
    VInt64 { bytes }
}

/// Decode a `vint64` at the start of `input`, returning the value and
/// the number of bytes it occupied.  The tail of `input` past the
/// encoding is left alone.  Fails with `Truncated` when the input ends
/// before the length its first byte declares, and with `LeadingZeroes`
/// when the value would have fit in fewer bytes.
pub fn decode(input: &[u8]) -> (r: Result<(u64, usize), Error>)
    ensures
        match (r, decode_model(input@)) {
            (Ok((v, n)), Ok((mv, mn))) => v == mv && n == mn && input@.take(n as int)
                == vint64_enc(v),
            (Err(e), Err(me)) => e == me,
            _ => false,
        },
{
    if input.len() == 0 {
        return Err(Error::Truncated);
    }
    let b0 = *vstd::slice::slice_index_get(input, 0);
    let length = decoded_len(b0);
    if input.len() < length {
        return Err(Error::Truncated);
    }
    proof {
        lemma_pow256_values();
    }
    if length == 9 {
        let value = read_le(input, 1, 8);
        proof {
            lemma_nine_byte_canonical(value);
            assert(input@.subrange(1, 9) =~= input@.subrange(1, 9));
        }
        if value >= (1u64 << 56) {
            proof {
                lemma_nine_byte_prefix(b0);
                lemma_le_bytes_of_val(input@.subrange(1, 9));
                assert(input@.take(9) =~= seq![0u8] + input@.subrange(1, 9));
                assert(input@.take(9) =~= vint64_enc(value));
            }
            Ok((value, 9))
        } else {
            Err(Error::LeadingZeroes)
        }
    } else {
        let enc = read_le(input, 0, length);
        let ghost l = length as u64;
        let ghost prefix = input@.subrange(0, length as int);
        proof {
            assert(prefix =~= input@.take(l as int));
            assert(prefix[0] == b0);
            assert(enc & 0xff == prefix[0]) by {
                lemma_le_bytes_of_val(prefix);
                assert(le_bytes_of(enc, length as nat)[0] == ((enc >> ((8 * 0) as u64)) & 0xff)
                    as u8);
                assert(enc >> ((8 * 0) as u64) == enc && enc & 0xff < 256) by (bit_vector);
            }
            lemma_dec_reconstruct(enc, l);
            if length < 8 {
                lemma_pow256_shift(l);
            }
            assert(l == 8 ==> (enc >> l) < (1u64 << 56));
            if length < 8 {
                assert((enc >> l) < (1u64 << ((7 * l) as u64)));
            } else {
                assert((enc >> l) < (1u64 << ((7 * 8) as u64))) by {
                    assert((1u64 << ((7 * 8u64) as u64)) == (1u64 << 56)) by (bit_vector);
                }
            }
            lemma_canonical_check(enc >> l, l);
        }
        let result = enc >> (length as u64);
        if length == 1 || result >= (1u64 << ((7 * ((length - 1) as u64)) as u64)) {
            proof {
                assert(encoded_len_spec(result) == l);
                lemma_le_bytes_of_val(prefix);
                assert(input@.take(length as int) =~= le_bytes_of(enc, length as nat));
                assert(input@.take(length as int) =~= vint64_enc(result));
            }
            Ok((result, length))
        } else {
            proof {
                assert(encoded_len_spec(result) != l);
            }
            Err(Error::LeadingZeroes)
        }
    }
}

/// Round trip: the canonical encoding of every value, with anything at
/// all after it, decodes back to that value, consuming exactly the
/// encoding; the encoding never exceeds nine bytes; and the length its
/// first byte declares is the encoded length of the value.
pub proof fn lemma_encode_decode_roundtrip(value: u64, rest: Seq<u8>)
    ensures
        vint64_enc(value).len() == encoded_len_spec(value),
        1 <= encoded_len_spec(value) <= 9,
        decode_model(vint64_enc(value) + rest) == Ok::<(u64, u64), Error>((
            value,
            encoded_len_spec(value),
        )),
        decoded_len_spec(vint64_enc(value)[0]) == encoded_len_spec(value),
{
    lemma_pow256_values();
    let l = encoded_len_spec(value);
    let s = vint64_enc(value) + rest;
    if l == 9 {
        assert(vint64_enc(value)[0] == 0);
        lemma_nine_byte_prefix(0);
        assert(s.subrange(1, 9) =~= le_bytes_of(value, 8));
        assert(value >= (1u64 << 56)) by {
            lemma_nine_byte_canonical(value);
        }
        lemma_le_val_of_bytes(value, 8);
        assert(decoded_len_spec(s[0]) == 9);
        assert(vint64_prefix_value(s) == value);
    } else {
        let enc = ((value << 1) | 1) << ((l - 1) as u64);
        lemma_enc_properties(value, l);
        assert(vint64_enc(value)[0] == ((enc >> ((8 * 0) as u64)) & 0xff) as u8);
        assert(enc >> ((8 * 0) as u64) == enc) by (bit_vector);
        assert(decoded_len_spec(s[0]) == l);
        assert(s.take(l as int) =~= le_bytes_of(enc, l as nat));
        if l < 8 {
            lemma_pow256_shift(l);
            assert(enc < pow256(l as nat));
        }
        lemma_le_val_of_bytes(enc, l as nat);
        assert(vint64_prefix_value(s) == enc >> l);
        assert(enc >> l == value);
    }
}

/// Canonicality: a complete non-minimal form, one whose value would
/// have fit in fewer bytes than its first byte declares, is classified
/// as a `LeadingZeroes` error, for every declared length from 2 to 9.
pub proof fn lemma_leading_zeroes_rejected(s: Seq<u8>)
    requires
        s.len() > 0,
        2 <= decoded_len_spec(s[0]),
        decoded_len_spec(s[0]) <= s.len(),
        encoded_len_spec(vint64_prefix_value(s)) < decoded_len_spec(s[0]),
    ensures
        decode_model(s) == Err::<(u64, u64), Error>(Error::LeadingZeroes),
{
}

} // verus!
