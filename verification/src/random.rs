//! The engine's single source of randomness, used when (re)populating the
//! world.

use vstd::prelude::*;
use rand::Rng;

verus! {

/// Relies on rand's `Rng::gen_range` on the thread-local generator: it
/// returns a value drawn from the half-open range `[lo, hi)` and panics
/// only when the range is empty.
#[verifier::external_body]
pub(crate) fn random_range_i64(lo: i64, hi: i64) -> (r: i64)
    requires
        lo < hi,
    ensures
        lo <= r < hi,
{
    rand::thread_rng().gen_range(lo..hi)
}

} // verus!
