//! Base64 text (RFC 4648) as the museum exchanges it.

use crate::text::{trim_end_of, trim_end_stops};
use base64::engine::general_purpose::{STANDARD, STANDARD_NO_PAD, URL_SAFE, URL_SAFE_NO_PAD};
use base64::Engine;
use vstd::arithmetic::div_mod::{lemma_div_denominator, lemma_fundamental_div_mod};
use vstd::prelude::*;

verus! {

/// The two alphabets: they differ in the last two symbols.
pub enum Alphabet {
    Standard,
    UrlSafe,
}

/// The symbol that stands for the six-bit number `v`.
pub open spec fn symbol(alphabet: Alphabet, v: int) -> char {
    if v < 26 {
        (v + 65) as char
    } else if v < 52 {
        (v + 71) as char
    } else if v < 62 {
        (v - 4) as char
    } else if v == 62 {
        if alphabet is Standard {
            '+'
        } else {
            '-'
        }
    } else {
        if alphabet is Standard {
            '/'
        } else {
            '_'
        }
    }
}

/// The byte at `i`, and zero past the end.
pub open spec fn byte_or_zero(bytes: Seq<u8>, i: int) -> int {
    if 0 <= i < bytes.len() {
        bytes[i] as int
    } else {
        0
    }
}

/// The 24 bits of the group of three bytes that starts at byte `3 * group`.
pub open spec fn group_bits(bytes: Seq<u8>, group: int) -> int {
    byte_or_zero(bytes, 3 * group) * 65536 + byte_or_zero(bytes, 3 * group + 1) * 256
        + byte_or_zero(bytes, 3 * group + 2)
}

/// The six-bit number at position `i` of the bit string `bytes`, which is
/// continued with zeros.
pub open spec fn sextet(bytes: Seq<u8>, i: int) -> int {
    let bits = group_bits(bytes, i / 4);
    if i % 4 == 0 {
        bits / 262144
    } else if i % 4 == 1 {
        (bits / 4096) % 64
    } else if i % 4 == 2 {
        (bits / 64) % 64
    } else {
        bits % 64
    }
}

/// How many six-bit numbers it takes to hold `n` bytes.
pub open spec fn sextet_count(n: nat) -> nat {
    (4 * n + 2) / 3
}

/// Base64 without padding.
pub open spec fn base64_bare(alphabet: Alphabet, bytes: Seq<u8>) -> Seq<char> {
    Seq::new(sextet_count(bytes.len()), |i: int| symbol(alphabet, sextet(bytes, i)))
}

/// Base64, padded with `=` to a multiple of four characters.
pub open spec fn base64_padded(alphabet: Alphabet, bytes: Seq<u8>) -> Seq<char> {
    let bare = base64_bare(alphabet, bytes);
    bare + Seq::new(((4 - bare.len() % 4) % 4) as nat, |i: int| '=')
}

/// The message of the error with which the base64 decoder refuses `text`.
pub uninterp spec fn base64_refusal(text: Seq<char>) -> Seq<char>;

/// `base64::engine::general_purpose::STANDARD.encode`: padded base64 in the
/// standard alphabet.
#[verifier::external_body]
pub(crate) fn encode_standard(bytes: &[u8]) -> (r: String)
    ensures
        r@ == base64_padded(Alphabet::Standard, bytes@),
{
    STANDARD.encode(bytes)
}

/// `base64::engine::general_purpose::URL_SAFE.encode`: padded base64 in the
/// URL-safe alphabet.
#[verifier::external_body]
pub(crate) fn encode_url_safe(bytes: &[u8]) -> (r: String)
    ensures
        r@ == base64_padded(Alphabet::UrlSafe, bytes@),
{
    URL_SAFE.encode(bytes)
}

/// `base64::engine::general_purpose::URL_SAFE_NO_PAD.encode`: base64 in the
/// URL-safe alphabet, without padding.
#[verifier::external_body]
pub(crate) fn encode_url_safe_bare(bytes: &[u8]) -> (r: String)
    ensures
        r@ == base64_bare(Alphabet::UrlSafe, bytes@),
{
    URL_SAFE_NO_PAD.encode(bytes)
}

/// `base64::engine::general_purpose::STANDARD_NO_PAD.decode`: accepts exactly
/// the unpadded encodings in the standard alphabet (no padding, no stray
/// trailing bits) and gives back the bytes; otherwise the text of its error.
#[verifier::external_body]
pub(crate) fn decode_standard_bare(text: &str) -> (r: Result<Vec<u8>, String>)
    ensures
        match r {
            Ok(bytes) => text@ == base64_bare(Alphabet::Standard, bytes@),
            Err(message) => {
                &&& message@ == base64_refusal(text@)
                &&& forall|bytes: Seq<u8>| text@ != #[trigger] base64_bare(Alphabet::Standard, bytes)
            },
        },
{
    STANDARD_NO_PAD.decode(text).map_err(|e| e.to_string())
}

/// Past the symbols that an encoding has, the six-bit numbers are zero.
proof fn sextet_past_end(bytes: Seq<u8>, i: int)
    requires
        sextet_count(bytes.len()) <= i,
    ensures
        sextet(bytes, i) == 0,
{
    let n = bytes.len() as int;
    let group = i / 4;
    assert(3 * group + 3 > n);
}

proof fn symbol_injective(alphabet: Alphabet, v: int, w: int)
    requires
        0 <= v < 64,
        0 <= w < 64,
        symbol(alphabet, v) == symbol(alphabet, w),
    ensures
        v == w,
{
}

proof fn sextet_bounds(bytes: Seq<u8>, i: int)
    requires
        0 <= i,
    ensures
        0 <= sextet(bytes, i) < 64,
{
    let group = i / 4;
    assert(0 <= byte_or_zero(bytes, 3 * group) < 256);
    assert(0 <= byte_or_zero(bytes, 3 * group + 1) < 256);
    assert(0 <= byte_or_zero(bytes, 3 * group + 2) < 256);
}

/// A group of 24 bits is made of its four six-bit numbers.
proof fn bits_of_sextets(bytes: Seq<u8>, group: int)
    requires
        0 <= group,
    ensures
        group_bits(bytes, group) == sextet(bytes, 4 * group) * 262144 + sextet(bytes, 4 * group + 1)
            * 4096 + sextet(bytes, 4 * group + 2) * 64 + sextet(bytes, 4 * group + 3),
{
    let bits = group_bits(bytes, group);
    assert((4 * group) / 4 == group && (4 * group) % 4 == 0);
    assert((4 * group + 1) / 4 == group && (4 * group + 1) % 4 == 1);
    assert((4 * group + 2) / 4 == group && (4 * group + 2) % 4 == 2);
    assert((4 * group + 3) / 4 == group && (4 * group + 3) % 4 == 3);
    lemma_div_denominator(bits, 64, 64);
    lemma_div_denominator(bits, 4096, 64);
    lemma_fundamental_div_mod(bits, 64);
    lemma_fundamental_div_mod(bits / 64, 64);
    lemma_fundamental_div_mod(bits / 4096, 64);
}

/// A group of 24 bits holds its three bytes.
proof fn bytes_of_bits(bytes: Seq<u8>, group: int)
    ensures
        byte_or_zero(bytes, 3 * group) == group_bits(bytes, group) / 65536,
        byte_or_zero(bytes, 3 * group + 1) == (group_bits(bytes, group) / 256) % 256,
        byte_or_zero(bytes, 3 * group + 2) == group_bits(bytes, group) % 256,
{
}

/// Two byte strings with the same unpadded base64 text are the same.
pub proof fn base64_bare_injective(alphabet: Alphabet, a: Seq<u8>, b: Seq<u8>)
    requires
        base64_bare(alphabet, a) == base64_bare(alphabet, b),
    ensures
        a == b,
{
    let x = base64_bare(alphabet, a);
    let y = base64_bare(alphabet, b);
    assert(x.len() == sextet_count(a.len()));
    assert(y.len() == sextet_count(b.len()));
    assert(a.len() == b.len());
    assert forall|i: int| 0 <= i implies sextet(a, i) == sextet(b, i) by {
        sextet_bounds(a, i);
        sextet_bounds(b, i);
        if i < x.len() {
            assert(x[i] == symbol(alphabet, sextet(a, i)));
            assert(y[i] == symbol(alphabet, sextet(b, i)));
            symbol_injective(alphabet, sextet(a, i), sextet(b, i));
        } else {
            sextet_past_end(a, i);
            sextet_past_end(b, i);
        }
    }
    assert forall|j: int| 0 <= j < a.len() implies a[j] == b[j] by {
        let group = j / 3;
        bits_of_sextets(a, group);
        bits_of_sextets(b, group);
        assert(sextet(a, 4 * group) == sextet(b, 4 * group));
        assert(sextet(a, 4 * group + 1) == sextet(b, 4 * group + 1));
        assert(sextet(a, 4 * group + 2) == sextet(b, 4 * group + 2));
        assert(sextet(a, 4 * group + 3) == sextet(b, 4 * group + 3));
        bytes_of_bits(a, group);
        bytes_of_bits(b, group);
        assert(j == 3 * group || j == 3 * group + 1 || j == 3 * group + 2);
        assert(byte_or_zero(a, j) == byte_or_zero(b, j));
    }
    assert(a =~= b);
}

/// Dropping the trailing `=` of a padded text leaves the unpadded text.
pub proof fn trim_padding(alphabet: Alphabet, bytes: Seq<u8>)
    ensures
        trim_end_of(base64_padded(alphabet, bytes), '=') == base64_bare(alphabet, bytes),
        trim_end_of(base64_bare(alphabet, bytes), '=') == base64_bare(alphabet, bytes),
{
    let bare = base64_bare(alphabet, bytes);
    let padded = base64_padded(alphabet, bytes);
    if bare.len() > 0 {
        let i = bare.len() - 1;
        sextet_bounds(bytes, i);
        assert(bare[i] != '=');
    }
    trim_end_stops(padded, '=', bare.len() as int);
    assert(padded.take(bare.len() as int) =~= bare);
    trim_end_stops(bare, '=', bare.len() as int);
    assert(bare.take(bare.len() as int) =~= bare);
}

} // verus!
