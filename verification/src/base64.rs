//! The base64 engine: four variants over two alphabets, with or without padding.

use vstd::prelude::*;
use std::marker::PhantomData;
use crate::Encoding;
use self::alphabet::Alphabet;
use self::codec::{decode_bytes, encode_bytes};
use self::model::{decoded, encoded, Dialect};

pub mod alphabet;
pub mod codec;
pub mod laws;
pub mod lemmas;
pub mod model;

verus! {

/// Why a text is not the encoding of any byte sequence.
#[derive(Clone, Copy, Debug, PartialEq, Eq, Structural)]
pub enum Error {
    /// A byte that is neither a symbol of the alphabet nor the pad symbol, or a
    /// last symbol that carries bits in the positions that must be zero.
    InvalidSymbol,
    /// Pad symbols where none may stand, or not as many as the variant asks for.
    InvalidPadding,
    /// A number of symbols that no byte count produces.
    InvalidLength,
}

/// A marker type that names one dialect.
pub trait Variant {
    /// The dialect that the marker stands for.
    spec fn dialect() -> Dialect;

    /// The dialect, as a value.
    fn select() -> (d: Dialect)
        ensures
            d == Self::dialect(),
    ;
}

/// Standard alphabet, padded.
pub struct Standard;

/// Standard alphabet, no padding.
pub struct StandardNopad;

/// URL-safe alphabet, padded.
pub struct UrlSafe;

/// URL-safe alphabet, no padding.
pub struct UrlSafeNopad;

impl Variant for Standard {
    open spec fn dialect() -> Dialect {
        Dialect { alphabet: Alphabet::Standard, padded: true }
    }

    fn select() -> Dialect {
        Dialect { alphabet: Alphabet::Standard, padded: true }
    }
}

impl Variant for StandardNopad {
    open spec fn dialect() -> Dialect {
        Dialect { alphabet: Alphabet::Standard, padded: false }
    }

    fn select() -> Dialect {
        Dialect { alphabet: Alphabet::Standard, padded: false }
    }
}

impl Variant for UrlSafe {
    open spec fn dialect() -> Dialect {
        Dialect { alphabet: Alphabet::UrlSafe, padded: true }
    }

    fn select() -> Dialect {
        Dialect { alphabet: Alphabet::UrlSafe, padded: true }
    }
}

impl Variant for UrlSafeNopad {
    open spec fn dialect() -> Dialect {
        Dialect { alphabet: Alphabet::UrlSafe, padded: false }
    }

    fn select() -> Dialect {
        Dialect { alphabet: Alphabet::UrlSafe, padded: false }
    }
}

/// The base64 engine for the variant `V`. It holds no data.
pub struct B64<V: Variant> {
    variant: PhantomData<V>,
}

impl<V: Variant> B64<V> {
    pub fn new() -> (engine: Self) {
        B64 { variant: PhantomData }
    }
}

impl<V: Variant> Encoding for B64<V> {
    type Success = Vec<u8>;

    type Error = Error;

    /// Encoding never fails, and gives the text of the variant's dialect.
    open spec fn encodes(&self, input: Seq<u8>, res: Result<Vec<u8>, Error>) -> bool {
        res matches Ok(text) && text@ == encoded(V::dialect(), input)
    }

    /// Decoding gives the bytes that the text stands for, or the text's fault.
    open spec fn decodes(&self, input: Seq<u8>, res: Result<Vec<u8>, Error>) -> bool {
        match res {
            Ok(bytes) => decoded(V::dialect(), input) == Ok::<Seq<u8>, Error>(bytes@),
            Err(e) => decoded(V::dialect(), input) == Err::<Seq<u8>, Error>(e),
        }
    }

    fn encode(&self, input: &[u8]) -> (res: Result<Vec<u8>, Error>) {
        Ok(encode_bytes(V::select(), input))
    }

    fn decode(&self, input: &[u8]) -> (res: Result<Vec<u8>, Error>) {
        decode_bytes(V::select(), input)
    }
}

} // verus!
