//! Facts about the model that the laws are proved from.

use vstd::prelude::*;
use super::alphabet::{Alphabet, PAD};
use super::model::{
    body_len, byte_at, decoded, encoded, encoded_len, fault, has_foreign, has_inner_pad, octet,
    octet_count, sextet, spare_bits, symbol_count, value_at, Dialect,
};
use super::Error;

verus! {

/// A text that ends in pad symbols from index `m` on, and in none before, has a
/// body of `m` bytes.
pub proof fn lemma_body_len(text: Seq<u8>, m: int)
    requires
        0 <= m <= text.len(),
        forall|k: int| m <= k < text.len() ==> text[k] == PAD,
        m == 0 || text[m - 1] != PAD,
    ensures
        body_len(text) == m,
    decreases text.len() - m,
{
    if m < text.len() {
        lemma_body_len(text.drop_last(), m);
    }
}

/// What stands after the body of a text is pad symbols only, and the body does
/// not end in one.
pub proof fn lemma_body_len_bounds(text: Seq<u8>)
    ensures
        body_len(text) <= text.len(),
        forall|k: int| body_len(text) <= k < text.len() ==> text[k] == PAD,
        body_len(text) == 0 || text[body_len(text) - 1] != PAD,
    decreases text.len(),
{
    if text.len() > 0 && text.last() == PAD {
        let front = text.drop_last();
        lemma_body_len_bounds(front);
        assert forall|k: int| body_len(text) <= k < text.len() implies text[k] == PAD by {
            if k < front.len() {
                assert(front[k] == text[k]);
            }
        }
        if body_len(text) > 0 {
            assert(front[body_len(text) - 1] == text[body_len(text) - 1]);
        }
    }
}

/// Every group of six bits is a 6-bit value.
pub proof fn lemma_sextet_range(bytes: Seq<u8>, k: int)
    ensures
        0 <= sextet(bytes, k) < 64,
{
}

/// The 6-bit value at any index is in range.
pub proof fn lemma_value_at_range(a: Alphabet, text: Seq<u8>, k: int)
    ensures
        0 <= value_at(a, text, k) < 64,
{
    if 0 <= k < text.len() && a.contains(text[k]) {
        a.lemma_symbol_of_value(text[k]);
    }
}

/// Four 6-bit values packed into three bytes are found again in the bytes.
pub proof fn lemma_unpack(v0: int, v1: int, v2: int, v3: int)
    requires
        0 <= v0 < 64,
        0 <= v1 < 64,
        0 <= v2 < 64,
        0 <= v3 < 64,
    ensures
        ({
            let c0 = v0 * 4 + v1 / 16;
            let c1 = (v1 % 16) * 16 + v2 / 4;
            let c2 = (v2 % 4) * 64 + v3;
            &&& 0 <= c0 < 256
            &&& 0 <= c1 < 256
            &&& 0 <= c2 < 256
            &&& c0 / 4 == v0
            &&& (c0 % 4) * 16 + c1 / 16 == v1
            &&& (c1 % 16) * 4 + c2 / 64 == v2
            &&& c2 % 64 == v3
            &&& (v1 % 16 == 0 ==> (c0 % 4) * 16 == v1)
            &&& (v2 % 4 == 0 ==> (c1 % 16) * 4 == v2)
        }),
{
}

/// The shape of an encoding: symbols of the alphabet first, each with the value
/// of its six bits, then pad symbols only.
pub proof fn lemma_encoded_shape(d: Dialect, bytes: Seq<u8>)
    ensures
        encoded(d, bytes).len() == encoded_len(d, bytes.len()),
        body_len(encoded(d, bytes)) == symbol_count(bytes.len()),
        forall|k: int|
            0 <= k < symbol_count(bytes.len()) ==> value_at(d.alphabet, encoded(d, bytes), k)
                == sextet(bytes, k) && d.alphabet.contains(#[trigger] encoded(d, bytes)[k]),
        forall|k: int|
            symbol_count(bytes.len()) <= k < encoded(d, bytes).len() ==> #[trigger] encoded(
                d,
                bytes,
            )[k] == PAD,
{
    let text = encoded(d, bytes);
    let sc = symbol_count(bytes.len()) as int;
    assert forall|k: int| 0 <= k < sc implies value_at(d.alphabet, text, k) == sextet(bytes, k)
        && d.alphabet.contains(#[trigger] text[k]) && text[k] != PAD by {
        lemma_sextet_range(bytes, k);
        d.alphabet.lemma_value_of_symbol(sextet(bytes, k));
    }
    lemma_body_len(text, sc);
}

/// In the bytes that an accepted text stands for, the `k`-th group of six bits
/// is the value of the text's `k`-th symbol.
pub proof fn lemma_sextet_of_decoded(d: Dialect, text: Seq<u8>, bytes: Seq<u8>, k: int)
    requires
        decoded(d, text) == Ok::<Seq<u8>, Error>(bytes),
        0 <= k < body_len(text),
    ensures
        sextet(bytes, k) == value_at(d.alphabet, text, k),
{
    let a = d.alphabet;
    let m = body_len(text) as int;
    let n = bytes.len() as int;
    let g = k / 4;
    let v0 = value_at(a, text, 4 * g);
    let v1 = value_at(a, text, 4 * g + 1);
    let v2 = value_at(a, text, 4 * g + 2);
    let v3 = value_at(a, text, 4 * g + 3);
    lemma_body_len_bounds(text);
    lemma_value_at_range(a, text, 4 * g);
    lemma_value_at_range(a, text, 4 * g + 1);
    lemma_value_at_range(a, text, 4 * g + 2);
    lemma_value_at_range(a, text, 4 * g + 3);
    lemma_unpack(v0, v1, v2, v3);
    assert(fault(d, text) is None);
    assert(n == octet_count(m as nat));
    lemma_octet_count(m as nat);
    assert(3 * g < n);
    assert(bytes[3 * g] == octet(a, text, 3 * g));
    assert(bytes[3 * g] == v0 * 4 + v1 / 16);
    if 3 * g + 1 < n {
        assert(bytes[3 * g + 1] == octet(a, text, 3 * g + 1));
        assert(bytes[3 * g + 1] == (v1 % 16) * 16 + v2 / 4);
    } else {
        assert(m == 4 * g + 2);
        assert(spare_bits(a, text, m as nat) == v1 % 16);
    }
    if 3 * g + 2 < n {
        assert(bytes[3 * g + 2] == octet(a, text, 3 * g + 2));
        assert(bytes[3 * g + 2] == (v2 % 4) * 64 + v3);
    } else if 3 * g + 1 < n {
        assert(m == 4 * g + 3);
        assert(spare_bits(a, text, m as nat) == v2 % 4);
    }
}

/// Three bytes cut into four 6-bit values are found again in the values.
pub proof fn lemma_pack(b0: int, b1: int, b2: int)
    requires
        0 <= b0 < 256,
        0 <= b1 < 256,
        0 <= b2 < 256,
    ensures
        ({
            let v0 = b0 / 4;
            let v1 = (b0 % 4) * 16 + b1 / 16;
            let v2 = (b1 % 16) * 4 + b2 / 64;
            let v3 = b2 % 64;
            &&& v0 * 4 + v1 / 16 == b0
            &&& (v1 % 16) * 16 + v2 / 4 == b1
            &&& (v2 % 4) * 64 + v3 == b2
            &&& (b1 == 0 ==> v1 % 16 == 0)
            &&& (b2 == 0 ==> v2 % 4 == 0)
        }),
{
}

/// How many symbols stand for `n` bytes, by the bytes of the last group.
pub proof fn lemma_symbol_count(n: nat)
    ensures
        n % 3 == 0 ==> symbol_count(n) == 4 * (n / 3),
        n % 3 == 1 ==> symbol_count(n) == 4 * (n / 3) + 2,
        n % 3 == 2 ==> symbol_count(n) == 4 * (n / 3) + 3,
        octet_count(symbol_count(n)) == n,
{
}

/// How many bytes `m` symbols hold, by the symbols of the last group.
pub proof fn lemma_octet_count(m: nat)
    requires
        m % 4 != 1,
    ensures
        m % 4 == 0 ==> octet_count(m) == 3 * (m / 4),
        m % 4 == 2 ==> octet_count(m) == 3 * (m / 4) + 1,
        m % 4 == 3 ==> octet_count(m) == 3 * (m / 4) + 2,
        symbol_count(octet_count(m)) == m,
{
}

/// The symbols of an encoding spell the bytes that were encoded.
pub proof fn lemma_octet_of_encoded(d: Dialect, bytes: Seq<u8>, j: int)
    requires
        0 <= j < bytes.len(),
    ensures
        octet(d.alphabet, encoded(d, bytes), j) == bytes[j],
{
    let a = d.alphabet;
    let text = encoded(d, bytes);
    let n = bytes.len() as int;
    let sc = symbol_count(bytes.len()) as int;
    let g = j / 3;
    lemma_encoded_shape(d, bytes);
    lemma_symbol_count(bytes.len());
    lemma_pack(byte_at(bytes, 3 * g), byte_at(bytes, 3 * g + 1), byte_at(bytes, 3 * g + 2));
    assert(4 * g + 1 < sc);
    assert(value_at(a, text, 4 * g) == sextet(bytes, 4 * g));
    assert(value_at(a, text, 4 * g + 1) == sextet(bytes, 4 * g + 1));
    if j % 3 >= 1 {
        assert(4 * g + 2 < sc);
        assert(value_at(a, text, 4 * g + 2) == sextet(bytes, 4 * g + 2));
    }
    if j % 3 == 2 {
        assert(4 * g + 3 < sc);
        assert(value_at(a, text, 4 * g + 3) == sextet(bytes, 4 * g + 3));
    }
}

/// An encoding has no fault.
pub proof fn lemma_encoded_faultless(d: Dialect, bytes: Seq<u8>)
    ensures
        fault(d, encoded(d, bytes)) is None,
{
    let a = d.alphabet;
    let text = encoded(d, bytes);
    let n = bytes.len() as int;
    let sc = symbol_count(bytes.len()) as int;
    lemma_encoded_shape(d, bytes);
    lemma_symbol_count(bytes.len());
    assert(!has_foreign(a, text));
    assert(!has_inner_pad(text));
    if sc % 4 != 0 {
        let g = (sc - 1) / 4;
        assert(value_at(a, text, sc - 1) == sextet(bytes, sc - 1));
        lemma_pack(byte_at(bytes, 3 * g), byte_at(bytes, 3 * g + 1), byte_at(bytes, 3 * g + 2));
    }
    assert(spare_bits(a, text, sc as nat) == 0);
}

} // verus!
