//! Content-derived message identifiers.
//!
//! The dispatcher attaches a digest of the admitted program to each message.
//! The identifier serves observability and correlation only; no decision in
//! this crate reads it.

use vstd::prelude::*;

verus! {

/// The 32-byte digest that the blake2b-256 function assigns to a byte string;
/// a function of the bytes alone.
pub uninterp spec fn blake2_256_of(data: Seq<u8>) -> Seq<u8>;

/// Relies on `sp_io::hashing::blake2_256`: the 32-byte blake2b digest of the
/// input, depending on the input bytes alone.
#[verifier::external_body]
pub(crate) fn blake2_256(data: &Vec<u8>) -> (r: [u8; 32])
    ensures
        r@ == blake2_256_of(data@),
{
    sp_io::hashing::blake2_256(data.as_slice())
}

} // verus!
