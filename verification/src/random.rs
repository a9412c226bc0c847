//! The random source that seeds a universe: the thread-local generator of the
//! `rand` crate. What stands here is believed, not proved.

use rand::rngs::ThreadRng;
use rand::Rng;
use vstd::prelude::*;

verus! {

/// `rand::rngs::ThreadRng`, the handle to the generator of the current
/// thread. Its state is not modelled.
#[verifier::external_type_specification]
#[verifier::external_body]
pub struct ExThreadRng(ThreadRng);

/// `rand::thread_rng` hands out the handle to the thread's generator, which
/// the operating system seeds on first use. Nothing is claimed of the handle.
/// Where the system cannot seed the generator, the call panics.
pub assume_specification[ rand::thread_rng ]() -> ThreadRng
;

/// `rand::Rng::gen_range` on `u32`: one draw from the half-open range from
/// `low` to `high`. The contract claims only that the draw lies in the range;
/// which value comes is left open, and two calls may differ. The outside
/// function panics unless `low < high`.
#[verifier::external_body]
pub(crate) fn gen_range(rng: &mut ThreadRng, low: u32, high: u32) -> (roll: u32)
    requires
        low < high,
    ensures
        low <= roll < high,
{
    rng.gen_range(low, high)
}

} // verus!
