//! The source of randomness.

use rand::Rng;
use vstd::prelude::*;

verus! {

/// Draws a number below `bound` from the thread-local generator of the `rand`
/// crate: `rand::thread_rng()` followed by `Rng::gen_range(0..bound)`.
///
/// `gen_range` refuses an empty range, so `bound` must be positive. The number it
/// returns lies in the half-open range it was given. Which number comes back is
/// left open: two draws with the same bound need not agree.
#[verifier::external_body]
pub(crate) fn draw_below(bound: u32) -> (drawn: u32)
    requires
        bound > 0,
    ensures
        drawn < bound,
{
    rand::thread_rng().gen_range(0..bound)
}

} // verus!
