use vstd::prelude::*;

verus! {

/// The SHA-256 digest of a byte string.
pub uninterp spec fn sha256_of(data: Seq<u8>) -> Seq<u8>;

/// Number of bytes in a SHA-256 digest.
pub const DIGEST_BYTES: usize = 32;

/// Relies on `sha2::Sha256::digest` (the `Digest` trait of the `digest` crate):
/// the digest depends on the bytes alone and its output type holds 32 bytes.
#[verifier::external_body]
pub(crate) fn sha256_digest(data: &Vec<u8>) -> (r: Vec<u8>)
    ensures
        r@ == sha256_of(data@),
        r@.len() == DIGEST_BYTES,
{
    <sha2::Sha256 as sha2::Digest>::digest(data.as_slice()).to_vec()
}

} // verus!
