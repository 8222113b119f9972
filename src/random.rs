use vstd::prelude::*;

use rand::rngs::ThreadRng;
use rand::Rng;

verus! {

/// The thread-local generator of `rand`, carried through as an opaque value.
#[verifier::external_type_specification]
#[verifier::external_body]
pub struct ExThreadRng(ThreadRng);

/// Relies on rand::thread_rng: hands out a handle to the thread's lazily
/// seeded generator. Nothing is promised of its state.
pub assume_specification[ rand::thread_rng ]() -> ThreadRng;

/// Relies on rand::Rng::gen::<u8> on a ThreadRng: one byte drawn uniformly.
/// Any byte may come back.
#[verifier::external_body]
pub(crate) fn random_byte(rng: &mut ThreadRng) -> u8 {
    rng.gen::<u8>()
}

} // verus!
