//! The source of randomness: the thread-local generator of the `rand` crate.

use vstd::prelude::*;
use rand::rngs::ThreadRng;
use rand::Rng;

verus! {

/// The handle of `rand`'s thread-local generator. Nothing is known of its state.
#[verifier::external_type_specification]
#[verifier::external_body]
pub struct ExThreadRng(ThreadRng);

/// `rand::thread_rng` hands out the generator of the current thread, which
/// is seeded from the system when the thread first asks for it. Nothing is
/// claimed of the generator.
pub assume_specification[ rand::thread_rng ]() -> (rng: ThreadRng);

/// `Rng::gen_range` on a half-open range of `i64`: for a range that is not
/// empty, the number drawn is at least `low` and below `high`. Which number
/// it is depends on the generator, so no more is claimed.
#[verifier::external_body]
pub(crate) fn gen_range(rng: &mut ThreadRng, low: i64, high: i64) -> (res: i64)
    requires
        low < high,
    ensures
        low <= res < high,
{
    rng.gen_range(low..high)
}

} // verus!
