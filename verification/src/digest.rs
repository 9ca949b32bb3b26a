//! SHA-256 over data that arrives in pieces.

use sha2::{Digest, Sha256};
use vstd::prelude::*;

verus! {

/// The hasher of the `sha2` crate.
#[verifier::external_type_specification]
#[verifier::external_body]
pub struct ExSha256(Sha256);

/// The bytes that a hasher has taken in since it was made.
pub uninterp spec fn hashed_bytes(hasher: Sha256) -> Seq<u8>;

/// The SHA-256 digest of `bytes`.
pub uninterp spec fn sha256_of(bytes: Seq<u8>) -> Seq<u8>;

/// How many bytes one hasher digests at most: it counts their bits in 64
/// bits.
pub const MAX_HASHED: u64 = 0x1FFF_FFFF_FFFF_FFFF;

/// `Sha256::new`: a hasher that has taken in nothing.
#[verifier::external_body]
pub(crate) fn new_hasher() -> (r: Sha256)
    ensures
        hashed_bytes(r) == Seq::<u8>::empty(),
{
    Sha256::new()
}

/// `Digest::update`: the hasher takes in `data` after all that it has taken
/// in before.
#[verifier::external_body]
pub(crate) fn update_hasher(hasher: &mut Sha256, data: &[u8])
    requires
        hashed_bytes(*old(hasher)).len() + data@.len() <= MAX_HASHED,
    ensures
        hashed_bytes(*final(hasher)) == hashed_bytes(*old(hasher)) + data@,
{
    hasher.update(data);
}

/// `Digest::finalize`: the digest of all that the hasher has taken in,
/// however it was cut into pieces. It depends on those bytes alone.
#[verifier::external_body]
pub(crate) fn finish_hasher(hasher: Sha256) -> (r: [u8; 32])
    requires
        hashed_bytes(hasher).len() <= MAX_HASHED,
    ensures
        r@ == sha256_of(hashed_bytes(hasher)),
{
    hasher.finalize().into()
}

} // verus!
