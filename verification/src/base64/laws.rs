//! What holds of encoding and decoding for every input.

use vstd::prelude::*;
use super::alphabet::{Alphabet, MINUS, PAD, PLUS, SLASH, UNDERSCORE};
use super::lemmas::{
    lemma_body_len_bounds, lemma_encoded_faultless, lemma_encoded_shape, lemma_octet_count,
    lemma_octet_of_encoded, lemma_sextet_of_decoded, lemma_sextet_range, lemma_symbol_count,
};
use super::model::{
    body_len, decoded, encoded, fault, foreign, has_foreign, octet_count, sextet, symbol_count,
    Dialect,
};
use super::Error;

verus! {

/// `!`, a byte of neither alphabet.
pub const EXCLAMATION_MARK: u8 = 33;

/// Decoding the encoding of a byte sequence gives the byte sequence back, in
/// every dialect.
pub proof fn law_round_trip(d: Dialect, bytes: Seq<u8>)
    ensures
        decoded(d, encoded(d, bytes)) == Ok::<Seq<u8>, Error>(bytes),
{
    let text = encoded(d, bytes);
    lemma_encoded_faultless(d, bytes);
    lemma_encoded_shape(d, bytes);
    lemma_symbol_count(bytes.len());
    let back = decoded(d, text)->Ok_0;
    assert(back.len() == bytes.len());
    assert forall|j: int| 0 <= j < bytes.len() implies back[j] == bytes[j] by {
        lemma_octet_of_encoded(d, bytes, j);
    }
    assert(back =~= bytes);
}

/// Only encodings are decoded: a text that decodes to `bytes` is the encoding
/// of `bytes`.
pub proof fn law_decoded_is_encoding(d: Dialect, text: Seq<u8>, bytes: Seq<u8>)
    requires
        decoded(d, text) == Ok::<Seq<u8>, Error>(bytes),
    ensures
        encoded(d, bytes) == text,
{
    let a = d.alphabet;
    let m = body_len(text) as int;
    let n = bytes.len() as int;
    lemma_body_len_bounds(text);
    assert(fault(d, text) is None);
    assert(n == octet_count(m as nat));
    lemma_octet_count(m as nat);
    let again = encoded(d, bytes);
    assert(again.len() == text.len());
    assert forall|k: int| 0 <= k < text.len() implies again[k] == text[k] by {
        if k < m {
            assert(!foreign(a, text[k]));
            assert(text[k] != PAD);
            a.lemma_symbol_of_value(text[k]);
            lemma_sextet_of_decoded(d, text, bytes, k);
        }
    }
    assert(again =~= text);
}

/// A text is accepted exactly when it is the encoding of some byte sequence.
pub proof fn law_accepts_encodings_only(d: Dialect, text: Seq<u8>)
    ensures
        decoded(d, text) is Ok <==> exists|bytes: Seq<u8>| #[trigger] encoded(d, bytes) == text,
{
    if decoded(d, text) is Ok {
        law_decoded_is_encoding(d, text, decoded(d, text)->Ok_0);
    }
    if exists|bytes: Seq<u8>| #[trigger] encoded(d, bytes) == text {
        let bytes = choose|bytes: Seq<u8>| #[trigger] encoded(d, bytes) == text;
        law_round_trip(d, bytes);
    }
}

/// A padded text has four symbols for every three bytes, the last group
/// filled up; a text without padding has one symbol for every six bits, the
/// last one filled up.
pub proof fn law_encoded_length(d: Dialect, bytes: Seq<u8>)
    ensures
        d.padded ==> encoded(d, bytes).len() == (bytes.len() + 2) / 3 * 4,
        !d.padded ==> encoded(d, bytes).len() == (bytes.len() * 8 + 5) / 6,
{
}

/// An encoding is text: each of its bytes is a printable ASCII character.
pub proof fn law_encoded_printable(d: Dialect, bytes: Seq<u8>, k: int)
    requires
        0 <= k < encoded(d, bytes).len(),
    ensures
        32 < encoded(d, bytes)[k] < 127,
{
    if k < symbol_count(bytes.len()) {
        lemma_sextet_range(bytes, k);
        d.alphabet.lemma_value_of_symbol(sextet(bytes, k));
    }
}

/// The empty byte sequence and the empty text stand for each other.
pub proof fn law_empty(d: Dialect)
    ensures
        encoded(d, Seq::<u8>::empty()) == Seq::<u8>::empty(),
        decoded(d, Seq::<u8>::empty()) == Ok::<Seq<u8>, Error>(Seq::<u8>::empty()),
{
    assert(encoded(d, Seq::<u8>::empty()) =~= Seq::<u8>::empty());
    law_round_trip(d, Seq::<u8>::empty());
}

/// Where the bits say 62 or 63, the two alphabets part: `+` and `/` in the
/// standard one, `-` and `_` in the URL-safe one.
pub proof fn law_alphabet_divergence(d: Dialect, bytes: Seq<u8>, k: int)
    requires
        0 <= k < symbol_count(bytes.len()),
    ensures
        sextet(bytes, k) == 62 ==> encoded(d, bytes)[k] == match d.alphabet {
            Alphabet::Standard => PLUS,
            Alphabet::UrlSafe => MINUS,
        },
        sextet(bytes, k) == 63 ==> encoded(d, bytes)[k] == match d.alphabet {
            Alphabet::Standard => SLASH,
            Alphabet::UrlSafe => UNDERSCORE,
        },
{
}

/// A text with a byte that is neither a symbol nor the pad symbol is rejected
/// for that, whatever else is wrong with it.
pub proof fn law_foreign_byte_rejected(d: Dialect, text: Seq<u8>, i: int)
    requires
        0 <= i < text.len(),
        foreign(d.alphabet, text[i]),
    ensures
        decoded(d, text) == Err::<Seq<u8>, Error>(Error::InvalidSymbol),
{
}

/// A text that holds `!` is rejected for an invalid symbol in every dialect.
pub proof fn law_exclamation_mark_rejected(d: Dialect, text: Seq<u8>, i: int)
    requires
        0 <= i < text.len(),
        text[i] == EXCLAMATION_MARK,
    ensures
        decoded(d, text) == Err::<Seq<u8>, Error>(Error::InvalidSymbol),
{
    law_foreign_byte_rejected(d, text, i);
}

/// Without padding, a text that ends in the pad symbol and holds no foreign
/// byte is rejected for its padding.
pub proof fn law_unpadded_rejects_pad(d: Dialect, text: Seq<u8>)
    requires
        !d.padded,
        text.len() > 0,
        text.last() == PAD,
        !has_foreign(d.alphabet, text),
    ensures
        decoded(d, text) == Err::<Seq<u8>, Error>(Error::InvalidPadding),
{
    lemma_body_len_bounds(text.drop_last());
}

} // verus!
