//! The 64-bit digest behind fingerprints.

use std::hash::Hasher;
use twox_hash::XxHash64;
use vstd::prelude::*;

verus! {

/// The XXH64 digest of `input` under `seed`.
///
/// The digest is a function of the seed and the bytes alone: the same bytes
/// give the same digest in every process and on every machine.
pub uninterp spec fn xxh64_digest(seed: u64, input: Seq<u8>) -> u64;

/// Computes [`xxh64_digest`] with `twox_hash::XxHash64`: a hasher made by
/// `with_seed` is fed `input` in one `write`, and `finish` gives the digest.
///
/// Trusted: that these calls compute one fixed function of `seed` and the
/// bytes of `input`, with no other state involved.
#[verifier::external_body]
pub(crate) fn xxh64(seed: u64, input: &[u8]) -> (digest: u64)
    ensures
        digest == xxh64_digest(seed, input@),
{
    let mut hasher = XxHash64::with_seed(seed);
    hasher.write(input);
    hasher.finish()
}

} // verus!
