//! Digests: SHA-256 in hexadecimal, and the message authentication code made
//! of it.

use sha2::Digest;
use vstd::prelude::*;
use vstd::utf8::encode_utf8;
use crate::json::{compact_text, nests_within, reads_as, to_text, Json, JsonView};

verus! {

/// What SHA-256 makes of a message.
pub uninterp spec fn sha256_digest(message: Seq<u8>) -> Seq<u8>;

/// `sha2::Sha256::digest`: the digest depends on the message alone and has 32
/// bytes.
#[verifier::external_body]
fn sha256(message: &[u8]) -> (r: Vec<u8>)
    ensures
        r@ == sha256_digest(message@),
        r@.len() == 32,
{
    sha2::Sha256::digest(message).to_vec()
}

/// The hexadecimal digit of a number below sixteen, letters small.
pub open spec fn hex_digit(d: u8) -> char {
    if d < 10 {
        (48 + d) as u8 as char
    } else {
        (87 + d) as u8 as char
    }
}

/// Bytes in hexadecimal notation: two digits for each, the high one first.
pub open spec fn hex_text(bytes: Seq<u8>) -> Seq<char> {
    Seq::new(
        2 * bytes.len(),
        |i: int|
            if i % 2 == 0 {
                hex_digit(bytes[i / 2] / 16)
            } else {
                hex_digit(bytes[i / 2] % 16)
            },
    )
}

/// `hex::encode`: two digits of `0123456789abcdef` for each byte, the high one
/// first.
#[verifier::external_body]
pub(crate) fn hex_encode(bytes: &[u8]) -> (r: String)
    ensures
        r@ == hex_text(bytes@),
{
    hex::encode(bytes)
}

/// The SHA-256 of a text's UTF-8 bytes, in hexadecimal.
pub open spec fn sha256_hex(text: Seq<char>) -> Seq<char> {
    hex_text(sha256_digest(encode_utf8(text)))
}

/// The SHA-256 of a JSON value's one-line text, in hexadecimal. The members of
/// an object are printed in the order of their keys, so that two values with
/// the same members have the same digest.
pub open spec fn json_sha256(v: JsonView) -> Seq<char> {
    sha256_hex(compact_text(v))
}

/// The SHA-256 of a text's UTF-8 bytes, in hexadecimal.
pub fn sha256_hex_of(text: &str) -> (r: String)
    ensures
        r@ == sha256_hex(text@),
{
    hex_encode(sha256(text.as_bytes()).as_slice())
}

/// The SHA-256 of a JSON value's one-line text, in hexadecimal.
pub fn json_sha256_of(v: &Json) -> (r: String)
    ensures
        r@ == json_sha256(v@),
        nests_within(v@, 127) ==> reads_as(compact_text(v@), v@),
{
    sha256_hex_of(to_text(v).as_str())
}

/// Whether two texts differ and have the same SHA-256 all the same.
pub open spec fn collide(a: Seq<char>, b: Seq<char>) -> bool {
    a != b && sha256_hex(a) == sha256_hex(b)
}

/// Different values have different digests unless their texts collide, where each is read
/// back from its text.
pub proof fn lemma_json_digests(a: JsonView, b: JsonView)
    requires
        a != b,
        reads_as(compact_text(a), a),
        reads_as(compact_text(b), b),
    ensures
        json_sha256(a) != json_sha256(b) || collide(compact_text(a), compact_text(b)),
{
}

/// A text in hexadecimal notation of its UTF-8 bytes.
pub open spec fn text_hex(text: Seq<char>) -> Seq<char> {
    hex_text(encode_utf8(text))
}

/// A text in hexadecimal notation of its UTF-8 bytes.
pub fn text_hex_of(text: &str) -> (r: String)
    ensures
        r@ == text_hex(text@),
{
    hex_encode(text.as_bytes())
}

/// The key filled up with zeros to the block length of SHA-256, each byte
/// combined with `pad`.
pub open spec fn padded_key(key: Seq<u8>, pad: u8) -> Seq<u8> {
    Seq::new(
        64,
        |i: int|
            if i < key.len() {
                key[i] ^ pad
            } else {
                pad
            },
    )
}

/// The HMAC-SHA-256 of a message under a key of at most 64 bytes.
pub open spec fn hmac(key: Seq<u8>, message: Seq<u8>) -> Seq<u8> {
    sha256_digest(padded_key(key, 0x5c) + sha256_digest(padded_key(key, 0x36) + message))
}

fn pad_key(key: &[u8], pad: u8) -> (r: Vec<u8>)
    requires
        key@.len() <= 64,
    ensures
        r@ == padded_key(key@, pad),
{
    let mut out: Vec<u8> = Vec::new();
    for i in 0..64usize
        invariant
            key@.len() <= 64,
            out@ == padded_key(key@, pad).take(i as int),
    {
        let b: u8 = if i < key.len() {
            key[i] ^ pad
        } else {
            pad
        };
        out.push(b);
        proof {
            assert(padded_key(key@, pad).take(i + 1) == padded_key(key@, pad).take(
                i as int,
            ).push(b));
        }
    }
    proof {
        assert(padded_key(key@, pad).take(64) == padded_key(key@, pad));
    }
    out
}

fn append_bytes(v: &mut Vec<u8>, more: &[u8])
    ensures
        final(v)@ == old(v)@ + more@,
{
    let ghost before = v@;
    for i in 0..more.len()
        invariant
            v@ == before + more@.take(i as int),
    {
        v.push(more[i]);
        proof {
            assert(more@.take(i + 1) == more@.take(i as int).push(more@[i as int]));
        }
    }
    proof {
        assert(more@.take(more@.len() as int) == more@);
    }
}

/// The HMAC-SHA-256 of a message under a key of at most 64 bytes.
pub fn hmac_sha256(key: &[u8], message: &[u8]) -> (r: Vec<u8>)
    requires
        key@.len() <= 64,
    ensures
        r@ == hmac(key@, message@),
{
    let mut inner: Vec<u8> = pad_key(key, 0x36);
    append_bytes(&mut inner, message);
    let mut outer: Vec<u8> = pad_key(key, 0x5c);
    append_bytes(&mut outer, sha256(inner.as_slice()).as_slice());
    sha256(outer.as_slice())
}

proof fn lemma_hex_digit_injective(a: u8, b: u8)
    requires
        a < 16,
        b < 16,
        hex_digit(a) == hex_digit(b),
    ensures
        a == b,
{
    let x: u8 = hex_digit(a) as u8;
    let y: u8 = hex_digit(b) as u8;
    assert(x == y);
}

/// Different bytes have different hexadecimal notations.
pub proof fn lemma_hex_text_injective(a: Seq<u8>, b: Seq<u8>)
    requires
        hex_text(a) == hex_text(b),
    ensures
        a == b,
{
    assert(hex_text(a).len() == 2 * a.len());
    assert(hex_text(b).len() == 2 * b.len());
    assert forall|i: int| 0 <= i < a.len() implies a[i] == b[i] by {
        assert((2 * i) / 2 == i && (2 * i) % 2 == 0);
        assert((2 * i + 1) / 2 == i && (2 * i + 1) % 2 == 1);
        assert(hex_text(a)[2 * i] == hex_digit(a[i] / 16));
        assert(hex_text(b)[2 * i] == hex_digit(b[i] / 16));
        assert(hex_text(a)[2 * i + 1] == hex_digit(a[i] % 16));
        assert(hex_text(b)[2 * i + 1] == hex_digit(b[i] % 16));
        lemma_hex_digit_injective(a[i] / 16, b[i] / 16);
        lemma_hex_digit_injective(a[i] % 16, b[i] % 16);
    }
    assert(a =~= b);
}

/// Different texts have different hexadecimal notations.
pub proof fn lemma_text_hex_injective(a: Seq<char>, b: Seq<char>)
    requires
        text_hex(a) == text_hex(b),
    ensures
        a == b,
{
    lemma_hex_text_injective(encode_utf8(a), encode_utf8(b));
    vstd::utf8::encode_utf8_decode_utf8(a);
    vstd::utf8::encode_utf8_decode_utf8(b);
}

/// A hexadecimal notation holds no full stop.
pub proof fn lemma_hex_text_has_no_stop(bytes: Seq<u8>)
    ensures
        !hex_text(bytes).contains('.'),
{
    assert forall|i: int| 0 <= i < hex_text(bytes).len() implies hex_text(bytes)[i] != '.' by {
        let d: u8 = if i % 2 == 0 {
            bytes[i / 2] / 16
        } else {
            bytes[i / 2] % 16
        };
        assert(hex_text(bytes)[i] == hex_digit(d));
        assert(d < 16);
        assert(hex_digit(d) as u8 >= 48);
        assert('.' as u8 == 46);
    }
}

/// Every byte of a key counts: two keys of the same length that come to the same when they are
/// filled up are the same key.
pub proof fn law_every_byte_of_a_key_counts(a: Seq<u8>, b: Seq<u8>, pad: u8)
    requires
        a.len() == b.len(),
        a.len() <= 64,
        padded_key(a, pad) == padded_key(b, pad),
    ensures
        a == b,
{
    assert forall|i: int| 0 <= i < a.len() implies a[i] == b[i] by {
        let (x, y) = (a[i], b[i]);
        assert(padded_key(a, pad)[i] == x ^ pad);
        assert(padded_key(b, pad)[i] == y ^ pad);
        assert(x ^ pad == y ^ pad ==> x == y) by (bit_vector);
    }
    assert(a =~= b);
}

/// The two fillings of a key are different, in every place.
pub proof fn law_fillings_differ(key: Seq<u8>, i: int)
    requires
        0 <= i < 64,
    ensures
        padded_key(key, 0x5c).len() == 64,
        padded_key(key, 0x36)[i] != padded_key(key, 0x5c)[i],
{
    if i < key.len() {
        let x = key[i];
        assert(x ^ 0x36u8 != x ^ 0x5cu8) by (bit_vector);
    }
}

} // verus!
