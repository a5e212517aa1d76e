use vstd::prelude::*;
use rand::Rng;

verus! {

/// The thread-local generator of the rand crate, declared so its handle can
/// pass through verified signatures; its inner state stays opaque.
#[verifier::external_type_specification]
#[verifier::external_body]
pub struct ExThreadRng(rand::rngs::ThreadRng);

/// Relies on rand::thread_rng: a handle to the thread-local generator.
#[verifier::external_body]
pub fn fresh_rng() -> rand::rngs::ThreadRng {
    rand::thread_rng()
}

/// Relies on rand::Rng::gen_range over `0..bound`: a draw uniform in
/// `[0, bound)`, which panics only on an empty range. Nothing more is
/// assumed of the value: every caller must hold for every outcome.
#[verifier::external_body]
pub fn draw_uniform(rng: &mut rand::rngs::ThreadRng, bound: u128) -> (r: u128)
    requires
        bound > 0,
    ensures
        r < bound,
{
    rng.gen_range(0..bound)
}

} // verus!
