//! The two 64-symbol alphabets and the pad symbol.

use vstd::prelude::*;

verus! {

/// The pad symbol, `=`.
pub const PAD: u8 = 61;

/// `+`, the standard alphabet's symbol for 62.
pub const PLUS: u8 = 43;

/// `/`, the standard alphabet's symbol for 63.
pub const SLASH: u8 = 47;

/// `-`, the URL-safe alphabet's symbol for 62.
pub const MINUS: u8 = 45;

/// `_`, the URL-safe alphabet's symbol for 63.
pub const UNDERSCORE: u8 = 95;

/// An ordered set of 64 distinct printable symbols, one for each 6-bit value.
#[derive(Clone, Copy, Debug, PartialEq, Eq, Structural)]
pub enum Alphabet {
    /// `A`-`Z`, `a`-`z`, `0`-`9`, `+`, `/`.
    Standard,
    /// `A`-`Z`, `a`-`z`, `0`-`9`, `-`, `_`.
    UrlSafe,
}

impl Alphabet {
    /// The symbol at index 62: `+` or `-`.
    pub open spec fn symbol_62(self) -> u8 {
        match self {
            Alphabet::Standard => PLUS,
            Alphabet::UrlSafe => MINUS,
        }
    }

    /// The symbol at index 63: `/` or `_`.
    pub open spec fn symbol_63(self) -> u8 {
        match self {
            Alphabet::Standard => SLASH,
            Alphabet::UrlSafe => UNDERSCORE,
        }
    }

    /// The symbol that stands for the 6-bit value `v`.
    pub open spec fn symbol(self, v: int) -> u8
        recommends
            0 <= v < 64,
    {
        if v < 26 {
            (65 + v) as u8
        } else if v < 52 {
            (97 + (v - 26)) as u8
        } else if v < 62 {
            (48 + (v - 52)) as u8
        } else if v == 62 {
            self.symbol_62()
        } else {
            self.symbol_63()
        }
    }

    /// The 6-bit value that the byte `c` stands for, if `c` is a symbol of the alphabet.
    pub open spec fn value(self, c: u8) -> Option<int> {
        if 65 <= c <= 90 {
            Some(c - 65)
        } else if 97 <= c <= 122 {
            Some(c - 97 + 26)
        } else if 48 <= c <= 57 {
            Some(c - 48 + 52)
        } else if c == self.symbol_62() {
            Some(62)
        } else if c == self.symbol_63() {
            Some(63)
        } else {
            None
        }
    }

    /// Whether the byte `c` is one of the 64 symbols.
    pub open spec fn contains(self, c: u8) -> bool {
        self.value(c) is Some
    }

    /// Looks up the symbol for a 6-bit value.
    pub fn encode_symbol(self, v: u8) -> (c: u8)
        requires
            v < 64,
        ensures
            c == self.symbol(v as int),
    {
        if v < 26 {
            65 + v
        } else if v < 52 {
            97 + (v - 26)
        } else if v < 62 {
            48 + (v - 52)
        } else if v == 62 {
            match self {
                Alphabet::Standard => PLUS,
                Alphabet::UrlSafe => MINUS,
            }
        } else {
            match self {
                Alphabet::Standard => SLASH,
                Alphabet::UrlSafe => UNDERSCORE,
            }
        }
    }

    /// Looks up the 6-bit value of a byte; `None` for a byte outside the alphabet.
    pub fn decode_symbol(self, c: u8) -> (r: Option<u8>)
        ensures
            match r {
                Some(v) => self.value(c) == Some(v as int),
                None => self.value(c) is None,
            },
    {
        let c62: u8 = match self {
            Alphabet::Standard => PLUS,
            Alphabet::UrlSafe => MINUS,
        };
        let c63: u8 = match self {
            Alphabet::Standard => SLASH,
            Alphabet::UrlSafe => UNDERSCORE,
        };
        if 65 <= c && c <= 90 {
            Some(c - 65)
        } else if 97 <= c && c <= 122 {
            Some(c - 97 + 26)
        } else if 48 <= c && c <= 57 {
            Some(c - 48 + 52)
        } else if c == c62 {
            Some(62)
        } else if c == c63 {
            Some(63)
        } else {
            None
        }
    }

    /// Every 6-bit value is found again from its symbol, and a symbol is never the pad.
    pub proof fn lemma_value_of_symbol(self, v: int)
        requires
            0 <= v < 64,
        ensures
            self.value(self.symbol(v)) == Some(v),
            self.symbol(v) != PAD,
            32 < self.symbol(v) < 127,
    {
    }

    /// A byte with a value is the symbol of that value, and the value has 6 bits.
    pub proof fn lemma_symbol_of_value(self, c: u8)
        requires
            self.contains(c),
        ensures
            0 <= self.value(c)->Some_0 < 64,
            self.symbol(self.value(c)->Some_0) == c,
            c != PAD,
    {
    }
}

} // verus!
