//! Hashing and display-encoding primitives that the host's utility interface
//! offers; they are deterministic functions of their input bytes.

use vstd::prelude::*;

use blake2::Digest;

verus! {

/// The 32-byte BLAKE2b digest of a byte sequence.
pub uninterp spec fn blake2b_of(b: Seq<u8>) -> Seq<u8>;

/// The base58 rendering (Bitcoin alphabet) of a byte sequence.
pub uninterp spec fn base58_of(b: Seq<u8>) -> Seq<char>;

/// Relies on `blake2::Blake2b256` through `Digest::digest`: a 32-byte digest
/// that depends on the input bytes alone.
#[verifier::external_body]
pub fn blake2b_digest(data: &[u8]) -> (r: Vec<u8>)
    ensures
        r@ == blake2b_of(data@),
        r@.len() == 32,
{
    let d = blake2::Blake2b256::digest(data);
    d.to_vec()
}

/// Relies on `bs58::encode` with its default (Bitcoin) alphabet: the encoding
/// depends on the input bytes alone.
#[verifier::external_body]
pub fn base58_string(data: &[u8]) -> (r: String)
    ensures
        r@ == base58_of(data@),
{
    bs58::encode(data).into_string()
}

/// Relies on `bs58::decode` with its default (Bitcoin) alphabet: base58 is a
/// positional encoding under which every byte string has exactly one
/// rendering, so decoding, where it succeeds, returns the byte string that
/// renders back to the input; it fails on characters outside the alphabet.
#[verifier::external_body]
pub fn base58_bytes(s: &str) -> (r: Option<Vec<u8>>)
    ensures
        r matches Some(b) ==> base58_of(b@) == s@,
{
    match bs58::decode(s).into_vec() {
        Ok(b) => Some(b),
        Err(_) => None,
    }
}

} // verus!
