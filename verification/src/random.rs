//! The source of randomness from which particles get their positions.

use vstd::prelude::*;

verus! {

/// The generator of the calling thread, `rand::rngs::ThreadRng`. Nothing is
/// known of what it holds.
#[verifier::external_type_specification]
#[verifier::external_body]
pub struct ExThreadRng(rand::rngs::ThreadRng);

/// Calls `rand::thread_rng`, which hands out the generator of the calling
/// thread. Nothing is claimed of it. On a machine whose operating system
/// cannot seed the generator the call panics.
#[verifier::external_body]
pub(crate) fn thread_generator() -> (rng: rand::rngs::ThreadRng) {
    rand::thread_rng()
}

/// Calls `rand::Rng::gen_range` on the half-open range from `low` to `high`,
/// which must not be empty. The result lies in the range; which of its values
/// comes is not said. The generator reseeds itself from the operating system
/// from time to time; on a machine where that fails the call panics.
#[verifier::external_body]
pub(crate) fn random_between(rng: &mut rand::rngs::ThreadRng, low: i32, high: i32) -> (r: i32)
    requires
        low < high,
    ensures
        low <= r < high,
{
    rand::Rng::gen_range(rng, low..high)
}

} // verus!
