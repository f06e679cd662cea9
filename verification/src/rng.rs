//! Randomness, taken on trust from the rand crate.

use vstd::prelude::*;

verus! {

/// Relies on rand's `RngExt::random_range` over `0..n`: a value drawn
/// from that range.  The call panics on an empty range, so `n` must be
/// positive; nothing more is promised of which value comes back.
#[verifier::external_body]
pub(crate) fn random_below(n: usize) -> (r: usize)
    requires
        1 <= n,
    ensures
        r < n,
{
    rand::RngExt::random_range(&mut rand::rng(), 0..n)
}

} // verus!
