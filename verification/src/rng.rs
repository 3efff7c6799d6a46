//! The single source of randomness: initial velocities of newly created
//! bodies are drawn uniformly from a bounded range.

use vstd::prelude::*;
use rand::Rng;

verus! {

/// Relies on `rand::Rng::gen_range` over an inclusive `i64` range: it returns
/// a value inside the given range, and panics only on an empty range, which
/// the precondition excludes.  Nothing more is assumed of the draw; callers
/// state what holds of every outcome.
#[verifier::external_body]
pub(crate) fn random_in_range(lo: i64, hi: i64) -> (r: i64)
    requires
        lo <= hi,
    ensures
        lo <= r <= hi,
{
    rand::thread_rng().gen_range(lo..=hi)
}

} // verus!
