//! Binary-to-text transcoding: a codec contract and the base64 family built on it.

use vstd::prelude::*;

pub mod base64;

verus! {

/// A codec that turns bytes into text and text back into bytes.
///
/// An implementation fixes the two result types and says, through `encodes`
/// and `decodes`, which result each operation gives on which input.
pub trait Encoding {
    type Success;

    type Error;

    /// Whether `res` is the result of encoding `input`.
    spec fn encodes(&self, input: Seq<u8>, res: Result<Self::Success, Self::Error>) -> bool;

    /// Whether `res` is the result of decoding `input`.
    spec fn decodes(&self, input: Seq<u8>, res: Result<Self::Success, Self::Error>) -> bool;

    fn encode(&self, input: &[u8]) -> (res: Result<Self::Success, Self::Error>)
        ensures
            self.encodes(input@, res),
    ;

    fn decode(&self, input: &[u8]) -> (res: Result<Self::Success, Self::Error>)
        ensures
            self.decodes(input@, res),
    ;
}

/// Encodes `input` with the engine `enc`: the engine's own `encode`, unchanged.
pub fn encode<T>(enc: &T, input: &[u8]) -> (res: Result<T::Success, T::Error>) where T: Encoding
    ensures
        enc.encodes(input@, res),
{
    enc.encode(input)
}

/// Decodes `input` with the engine `dec`: the engine's own `decode`, unchanged.
pub fn decode<T>(dec: &T, input: &[u8]) -> (res: Result<T::Success, T::Error>) where T: Encoding
    ensures
        dec.decodes(input@, res),
{
    dec.decode(input)
}

} // verus!
