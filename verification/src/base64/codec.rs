//! The two transformations, on byte slices.

use vstd::prelude::*;
use super::alphabet::{Alphabet, PAD};
use super::model::{
    body_len, decoded, encoded, fault, foreign, has_foreign, has_inner_pad, octet, sextet,
    value_at, Dialect,
};
use super::Error;

verus! {

/// Encodes `input` in the dialect `d`. Every input has an encoding.
pub fn encode_bytes(d: Dialect, input: &[u8]) -> (out: Vec<u8>)
    ensures
        out@ == encoded(d, input@),
        d.padded ==> out@.len() == (input@.len() + 2) / 3 * 4,
        !d.padded ==> out@.len() == (input@.len() * 8 + 5) / 6,
{
    let a = d.alphabet;
    let n = input.len();
    let mut out: Vec<u8> = Vec::new();
    let mut i: usize = 0;
    while n - i >= 3
        invariant
            n == input@.len(),
            i <= n,
            i % 3 == 0,
            out@.len() == 4 * (i / 3),
            forall|k: int| 0 <= k < out@.len() ==> out@[k] == a.symbol(sextet(input@, k)),
        decreases n - i,
    {
        let b0 = input[i];
        let b1 = input[i + 1];
        let b2 = input[i + 2];
        out.push(a.encode_symbol(b0 / 4));
        out.push(a.encode_symbol((b0 % 4) * 16 + b1 / 16));
        out.push(a.encode_symbol((b1 % 16) * 4 + b2 / 64));
        out.push(a.encode_symbol(b2 % 64));
        i += 3;
    }
    if n - i == 1 {
        let b0 = input[i];
        out.push(a.encode_symbol(b0 / 4));
        out.push(a.encode_symbol((b0 % 4) * 16));
        if d.padded {
            out.push(PAD);
            out.push(PAD);
        }
    } else if n - i == 2 {
        let b0 = input[i];
        let b1 = input[i + 1];
        out.push(a.encode_symbol(b0 / 4));
        out.push(a.encode_symbol((b0 % 4) * 16 + b1 / 16));
        out.push(a.encode_symbol((b1 % 16) * 4));
        if d.padded {
            out.push(PAD);
        }
    }
    assert(out@ =~= encoded(d, input@));
    out
}

/// The length of `input` without the pad symbols at its end.
fn strip_padding(input: &[u8]) -> (m: usize)
    ensures
        m == body_len(input@),
        m <= input@.len(),
{
    let mut m: usize = input.len();
    assert(input@.subrange(0, m as int) =~= input@);
    while m > 0 && input[m - 1] == PAD
        invariant
            m <= input@.len(),
            body_len(input@) == body_len(input@.subrange(0, m as int)),
        decreases m,
    {
        proof {
            let s = input@.subrange(0, m as int);
            assert(s.drop_last() =~= input@.subrange(0, m - 1));
        }
        m -= 1;
    }
    m
}

/// The 6-bit value of the symbol at index `k`.
fn symbol_value(a: Alphabet, input: &[u8], k: usize) -> (v: u8)
    requires
        k < input@.len(),
        a.contains(input@[k as int]),
    ensures
        v == value_at(a, input@, k as int),
        v < 64,
{
    proof {
        a.lemma_symbol_of_value(input@[k as int]);
    }
    a.decode_symbol(input[k]).unwrap()
}

/// Decodes `input` in the dialect `d`, or says why it is no encoding.
///
/// The text is read from left to right. A byte that is neither a symbol nor the
/// pad symbol is a fault where it stands; padding and length are judged at the
/// end of the text. A last symbol that carries non-zero bits beyond the last
/// whole byte is rejected with `InvalidSymbol`, so that each byte sequence has
/// one text only.
pub fn decode_bytes(d: Dialect, input: &[u8]) -> (res: Result<Vec<u8>, Error>)
    ensures
        match res {
            Ok(bytes) => decoded(d, input@) == Ok::<Seq<u8>, Error>(bytes@),
            Err(e) => decoded(d, input@) == Err::<Seq<u8>, Error>(e),
        },
{
    let a = d.alphabet;
    let n = input.len();
    let m = strip_padding(input);
    let mut inner_pad = false;
    let mut i: usize = 0;
    while i < n
        invariant
            a == d.alphabet,
            n == input@.len(),
            m == body_len(input@),
            m <= n,
            i <= n,
            forall|k: int| 0 <= k < i ==> !foreign(a, #[trigger] input@[k]),
            inner_pad <==> exists|k: int| 0 <= k < i && k < m && #[trigger] input@[k] == PAD,
        decreases n - i,
    {
        let c = input[i];
        if c == PAD {
            if i < m {
                inner_pad = true;
            }
        } else if a.decode_symbol(c).is_none() {
            assert(foreign(a, input@[i as int]));
            assert(has_foreign(a, input@));
            return Err(Error::InvalidSymbol);
        }
        i += 1;
    }
    assert(!has_foreign(a, input@));
    if inner_pad {
        return Err(Error::InvalidPadding);
    }
    assert(!has_inner_pad(input@));
    if !d.padded && m < n {
        return Err(Error::InvalidPadding);
    }
    if m % 4 == 1 {
        return Err(Error::InvalidLength);
    }
    if d.padded && n - m != (4 - m % 4) % 4 {
        return Err(Error::InvalidPadding);
    }
    assert(forall|k: int| 0 <= k < m ==> a.contains(#[trigger] input@[k]));
    let mut out: Vec<u8> = Vec::new();
    let mut j: usize = 0;
    while m - j >= 4
        invariant
            m <= input@.len(),
            j <= m,
            j % 4 == 0,
            forall|k: int| 0 <= k < m ==> a.contains(#[trigger] input@[k]),
            out@.len() == 3 * (j / 4),
            forall|k: int| 0 <= k < out@.len() ==> out@[k] == octet(a, input@, k),
        decreases m - j,
    {
        let v0 = symbol_value(a, input, j);
        let v1 = symbol_value(a, input, j + 1);
        let v2 = symbol_value(a, input, j + 2);
        let v3 = symbol_value(a, input, j + 3);
        out.push(v0 * 4 + v1 / 16);
        out.push((v1 % 16) * 16 + v2 / 4);
        out.push((v2 % 4) * 64 + v3);
        j += 4;
    }
    if m - j == 2 {
        let v0 = symbol_value(a, input, j);
        let v1 = symbol_value(a, input, j + 1);
        if v1 % 16 != 0 {
            return Err(Error::InvalidSymbol);
        }
        out.push(v0 * 4 + v1 / 16);
    } else if m - j == 3 {
        let v0 = symbol_value(a, input, j);
        let v1 = symbol_value(a, input, j + 1);
        let v2 = symbol_value(a, input, j + 2);
        if v2 % 4 != 0 {
            return Err(Error::InvalidSymbol);
        }
        out.push(v0 * 4 + v1 / 16);
        out.push((v1 % 16) * 16 + v2 / 4);
    }
    assert(fault(d, input@) is None);
    assert(out@ =~= decoded(d, input@)->Ok_0);
    Ok(out)
}

} // verus!
