//! What encoding and decoding mean, over sequences of bytes.

use vstd::prelude::*;
use super::alphabet::{Alphabet, PAD};
use super::Error;

verus! {

/// One base64 dialect: an alphabet and whether the text is padded.
#[derive(Clone, Copy, Debug, PartialEq, Eq, Structural)]
pub struct Dialect {
    pub alphabet: Alphabet,
    pub padded: bool,
}

/// The byte at index `i`, or zero past the end.
pub open spec fn byte_at(bytes: Seq<u8>, i: int) -> int {
    if 0 <= i < bytes.len() {
        bytes[i] as int
    } else {
        0
    }
}

/// The `k`-th group of six bits in the bit string of `bytes`, most significant
/// bit first, with zero bits after the last byte.
pub open spec fn sextet(bytes: Seq<u8>, k: int) -> int {
    let g = k / 4;
    let b0 = byte_at(bytes, 3 * g);
    let b1 = byte_at(bytes, 3 * g + 1);
    let b2 = byte_at(bytes, 3 * g + 2);
    if k % 4 == 0 {
        b0 / 4
    } else if k % 4 == 1 {
        (b0 % 4) * 16 + b1 / 16
    } else if k % 4 == 2 {
        (b1 % 16) * 4 + b2 / 64
    } else {
        b2 % 64
    }
}

/// How many symbols carry the bits of `n` bytes: `8 * n / 6`, rounded up.
pub open spec fn symbol_count(n: nat) -> nat {
    ((8 * n + 5) / 6) as nat
}

/// How many pad symbols fill the last group of four after `m` symbols.
pub open spec fn pad_count(m: nat) -> nat {
    ((4 - m % 4) % 4) as nat
}

/// The length of the text for `n` bytes.
pub open spec fn encoded_len(d: Dialect, n: nat) -> nat {
    if d.padded {
        symbol_count(n) + pad_count(symbol_count(n))
    } else {
        symbol_count(n)
    }
}

/// The text that stands for `bytes` in the dialect `d`.
pub open spec fn encoded(d: Dialect, bytes: Seq<u8>) -> Seq<u8> {
    Seq::new(
        encoded_len(d, bytes.len()),
        |k: int|
            if k < symbol_count(bytes.len()) {
                d.alphabet.symbol(sextet(bytes, k))
            } else {
                PAD
            },
    )
}

/// The length of `text` without the pad symbols at its end.
pub open spec fn body_len(text: Seq<u8>) -> nat
    decreases text.len(),
{
    if text.len() > 0 && text.last() == PAD {
        body_len(text.drop_last())
    } else {
        text.len()
    }
}

/// The 6-bit value of the symbol at index `k`, or zero where there is none.
pub open spec fn value_at(a: Alphabet, text: Seq<u8>, k: int) -> int {
    if 0 <= k < text.len() && a.contains(text[k]) {
        a.value(text[k])->Some_0
    } else {
        0
    }
}

/// The `j`-th byte in the bit string that the symbols of `text` spell.
pub open spec fn octet(a: Alphabet, text: Seq<u8>, j: int) -> u8 {
    let g = j / 3;
    let v0 = value_at(a, text, 4 * g);
    let v1 = value_at(a, text, 4 * g + 1);
    let v2 = value_at(a, text, 4 * g + 2);
    let v3 = value_at(a, text, 4 * g + 3);
    if j % 3 == 0 {
        (v0 * 4 + v1 / 16) as u8
    } else if j % 3 == 1 {
        ((v1 % 16) * 16 + v2 / 4) as u8
    } else {
        ((v2 % 4) * 64 + v3) as u8
    }
}

/// How many whole bytes `m` symbols hold: `6 * m / 8`, rounded down.
pub open spec fn octet_count(m: nat) -> nat {
    (6 * m / 8) as nat
}

/// The bits of the last of `m` symbols that belong to no whole byte.
pub open spec fn spare_bits(a: Alphabet, text: Seq<u8>, m: nat) -> int {
    if m % 4 == 2 {
        value_at(a, text, m - 1) % 16
    } else if m % 4 == 3 {
        value_at(a, text, m - 1) % 4
    } else {
        0
    }
}

/// Whether `c` is neither a symbol of the alphabet nor the pad symbol.
pub open spec fn foreign(a: Alphabet, c: u8) -> bool {
    !a.contains(c) && c != PAD
}

/// Whether some byte of `text` is foreign to the alphabet.
pub open spec fn has_foreign(a: Alphabet, text: Seq<u8>) -> bool {
    exists|i: int| 0 <= i < text.len() && foreign(a, #[trigger] text[i])
}

/// Whether a pad symbol stands before the last symbol of the body.
pub open spec fn has_inner_pad(text: Seq<u8>) -> bool {
    exists|i: int| 0 <= i < body_len(text) && #[trigger] text[i] == PAD
}

/// The fault for which `text` is rejected, if it has one.
///
/// Symbols are judged first, over the whole text; then the padding; then the
/// length; and last the spare bits of the final symbol, which must be zero.
pub open spec fn fault(d: Dialect, text: Seq<u8>) -> Option<Error> {
    let m = body_len(text);
    if has_foreign(d.alphabet, text) {
        Some(Error::InvalidSymbol)
    } else if has_inner_pad(text) {
        Some(Error::InvalidPadding)
    } else if !d.padded && m < text.len() {
        Some(Error::InvalidPadding)
    } else if m % 4 == 1 {
        Some(Error::InvalidLength)
    } else if d.padded && text.len() - m != pad_count(m) {
        Some(Error::InvalidPadding)
    } else if spare_bits(d.alphabet, text, m) != 0 {
        Some(Error::InvalidSymbol)
    } else {
        None
    }
}

/// The bytes that `text` stands for in the dialect `d`, or why it stands for none.
pub open spec fn decoded(d: Dialect, text: Seq<u8>) -> Result<Seq<u8>, Error> {
    match fault(d, text) {
        Some(e) => Err(e),
        None => Ok(Seq::new(octet_count(body_len(text)), |j: int| octet(d.alphabet, text, j))),
    }
}

} // verus!
