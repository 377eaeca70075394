//! Chance.

use rand::Rng;
use vstd::prelude::*;

verus! {

/// `rand::Rng::gen_range` on `rand::thread_rng()`: some number from `low` up
/// to, but not including, `high`. Which one is up to chance.
#[verifier::external_body]
pub(crate) fn pick(low: usize, high: usize) -> (n: usize)
    requires
        low < high,
    ensures
        low <= n < high,
{
    rand::thread_rng().gen_range(low..high)
}

} // verus!
