//! The random numbers of the game.
use vstd::prelude::*;

verus! {

/// `rand::random_range(lo..hi)`: a number drawn from the thread-local generator, at
/// least `lo` and below `hi` (it panics on an empty range). Which number comes back is
/// left open.
#[verifier::external_body]
pub(crate) fn random_in(lo: u32, hi: u32) -> (r: u32)
    requires
        lo < hi,
    ensures
        lo <= r < hi,
{
    rand::random_range(lo..hi)
}

} // verus!
