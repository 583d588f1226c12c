//! SHA-256, which this library does not compute itself.

use bitcoin::hashes::sha256;
use vstd::prelude::*;

verus! {

/// The SHA-256 digest of a byte string.
///
/// It stands for what `bitcoin::hashes::sha256::Hash::hash` returns on these
/// bytes. Nothing is stated of its value: the library only relies on its
/// being a function of the bytes.
pub uninterp spec fn sha256_of(data: Seq<u8>) -> Seq<u8>;

/// Two different byte strings with the same digest.
pub open spec fn sha256_collision(a: Seq<u8>, b: Seq<u8>) -> bool {
    a != b && sha256_of(a) == sha256_of(b)
}

/// Hashes `data` with `bitcoin::hashes::sha256::Hash::hash` and hands out the
/// 32 bytes of the digest. Trusted: that the digest is SHA-256 of exactly
/// these bytes.
#[verifier::external_body]
pub(crate) fn sha256_digest(data: &Vec<u8>) -> (digest: [u8; 32])
    ensures
        digest@ == sha256_of(data@),
{
    let digest = <sha256::Hash as bitcoin::hashes::Hash>::hash(data.as_slice());
    <sha256::Hash as bitcoin::hashes::Hash>::into_inner(digest)
}

} // verus!
