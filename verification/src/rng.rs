//! The one place the simulation meets a source of randomness.

use vstd::prelude::*;

use rand::RngExt;

verus! {

/// Relies on `rand::rng` and `RngExt::random_range`: a sample drawn from
/// the inclusive range `lo..=hi` lies within that range. The call panics
/// only on an empty range, which the precondition rules out.
#[verifier::external_body]
pub(crate) fn sample_range(lo: i64, hi: i64) -> (r: i64)
    requires
        lo <= hi,
    ensures
        lo <= r <= hi,
{
    rand::rng().random_range(lo..=hi)
}

} // verus!
