use vstd::prelude::*;
use sha2::{Digest, Sha256};

verus! {

/// The SHA-256 digest of a byte sequence, as computed by the `sha2` crate.
pub uninterp spec fn sha256_digest(data: Seq<u8>) -> Seq<u8>;

/// Calls `sha2::Sha256::digest`.
/// Trusted: the 32 bytes returned are the SHA-256 digest of `data`, which depends on
/// `data` alone.
#[verifier::external_body]
pub(crate) fn sha256(data: &[u8]) -> (res: [u8; 32])
    ensures
        res@ == sha256_digest(data@),
{
    Sha256::digest(data).into()
}

/// SHA-256 applied twice.
pub open spec fn double_sha256_spec(data: Seq<u8>) -> Seq<u8> {
    sha256_digest(sha256_digest(data))
}

/// SHA-256 of the SHA-256 digest of `data`.
pub fn double_sha256(data: &[u8]) -> (res: [u8; 32])
    ensures
        res@ == double_sha256_spec(data@),
{
    let first = sha256(data);
    sha256(first.as_slice())
}

} // verus!
