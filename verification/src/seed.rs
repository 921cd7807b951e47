//! The source of randomness from which a fresh board is seeded.
use rand::rngs::ThreadRng;
use rand::Rng;
use vstd::prelude::*;

verus! {

/// `rand::rngs::ThreadRng`, the handle to the generator that `rand` keeps
/// for each thread.  Nothing is known of what it holds.
#[verifier::external_type_specification]
#[verifier::external_body]
pub struct ExThreadRng(ThreadRng);

/// `rand::thread_rng` hands out the calling thread's generator, which the
/// operating system seeds.  Nothing is claimed of the handle.
pub assume_specification[ rand::thread_rng ]() -> (rng: ThreadRng)
;

/// Draws one boolean with `rand::Rng::gen`.  The outcome is a matter of
/// chance, so nothing is claimed of it.
#[verifier::external_body]
pub(crate) fn random_bool(rng: &mut ThreadRng) -> (bit: bool) {
    rng.gen::<bool>()
}

} // verus!
