//! The random source: the calling thread's generator of the `rand` crate.

use rand::rngs::ThreadRng;
use rand::Rng;
use vstd::prelude::*;

verus! {

/// `rand::rngs::ThreadRng`, a handle to the generator of the calling thread.
#[verifier::external_type_specification]
#[verifier::external_body]
pub struct ExThreadRng(ThreadRng);

/// `rand::thread_rng`: hands out the calling thread's generator, which the
/// operating system seeds on first use. Nothing is claimed of the handle.
pub assume_specification[ rand::thread_rng ]() -> (rng: ThreadRng)
;

/// `rand::Rng::gen_range` on the half-open range `low..high` of `u64`.
///
/// Trusted: the value drawn lies in the range. The call panics on an empty
/// range, which `requires` leaves out. Which value comes is left open.
#[verifier::external_body]
pub(crate) fn gen_range(rng: &mut ThreadRng, low: u64, high: u64) -> (x: u64)
    requires
        low < high,
    ensures
        low <= x < high,
{
    rng.gen_range(low..high)
}

} // verus!
