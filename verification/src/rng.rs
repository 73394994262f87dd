//! The one source of randomness: a uniform draw for the idle-walk
//! direction.

use vstd::prelude::*;
use rand::Rng;
use crate::settings::DRAW_BOUND;

verus! {

/// Relies on rand's `thread_rng` and `Rng::gen_range`: a draw over the
/// non-empty range `0..DRAW_BOUND` is uniform and strictly below its
/// upper bound.
#[verifier::external_body]
pub(crate) fn random_draw() -> (r: u64)
    ensures
        r < DRAW_BOUND,
{
    rand::thread_rng().gen_range(0..DRAW_BOUND)
}

} // verus!
