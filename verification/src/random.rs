//! The crate's only source of randomness: thin wrappers over the `rand`
//! crate. Nothing is assumed of a draw beyond its range; callers state what
//! holds of every outcome.

use rand::RngExt;
use vstd::prelude::*;

verus! {

/// Relies on `rand::rng` and `rand::RngExt::random_range`: a draw from
/// `lo..hi`, which panics only when the range is empty.
#[verifier::external_body]
pub(crate) fn random_range_i32(lo: i32, hi: i32) -> (r: i32)
    requires
        lo < hi,
    ensures
        lo <= r < hi,
{
    rand::rng().random_range(lo..hi)
}

/// Relies on `rand::rng` and `rand::RngExt::random_range`: a draw from
/// `0..n`, which panics only when the range is empty.
#[verifier::external_body]
pub(crate) fn random_index(n: usize) -> (r: usize)
    requires
        0 < n,
    ensures
        r < n,
{
    rand::rng().random_range(0..n)
}

} // verus!
