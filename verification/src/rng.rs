//! Sources of randomness.

use rand::rngs::ThreadRng;
use vstd::prelude::*;

verus! {

/// `rand::rngs::ThreadRng`, of which the verifier sees nothing.
#[verifier::external_type_specification]
#[verifier::external_body]
pub struct ExThreadRng(ThreadRng);

/// `rand::thread_rng` hands out the generator of the current thread. It is
/// seeded by the operating system, so nothing is claimed about it.
pub assume_specification[ rand::thread_rng ]() -> (rng: ThreadRng);

/// `rand::Rng::gen::<u128>` on the thread's generator draws the next 128
/// bits. Every value can come out, so the contract is silent.
#[verifier::external_body]
fn thread_rng_u128(rng: &mut ThreadRng) -> (r: u128) {
    rand::Rng::gen::<u128>(rng)
}

/// Something that random numbers can be drawn from.
pub trait RandomSource {
    /// Draws the next 128 bits.
    fn next_u128(&mut self) -> u128;
}

impl RandomSource for ThreadRng {
    fn next_u128(&mut self) -> u128 {
        thread_rng_u128(self)
    }
}

} // verus!
