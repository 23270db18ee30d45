//! The session's randomness. The generator itself and the draw come from
//! the `rand` crate; everything the simulation concludes from a draw rests
//! only on the bounds stated here.

use rand::Rng;
use vstd::prelude::*;

verus! {

#[verifier::external_type_specification]
#[verifier::external_body]
pub struct ExThreadRng(rand::rngs::ThreadRng);

/// Relies on rand::thread_rng: a handle to the thread-local generator.
#[verifier::external_body]
pub(crate) fn fresh_rng() -> rand::rngs::ThreadRng {
    rand::thread_rng()
}

/// Relies on rand::Rng::gen_range on the half-open range `lo..hi`: the
/// result lies in `[lo, hi)`, and the call panics only on an empty range,
/// which the precondition rules out.
#[verifier::external_body]
pub(crate) fn rand_in_range(rng: &mut rand::rngs::ThreadRng, lo: i64, hi: i64) -> (r: i64)
    requires
        lo < hi,
    ensures
        lo <= r < hi,
{
    rng.gen_range(lo..hi)
}

} // verus!
