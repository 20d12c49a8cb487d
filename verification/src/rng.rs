//! Randomness: a seedable generator from the `rand` crate behind trusted
//! wrappers, and verified reductions of its words to fixed-point ranges.
//!
//! Every stochastic routine in the library takes an explicit `&mut`
//! generator, so each render task can own an independently seeded one and
//! a fixed seed reproduces a render bit for bit.
use vstd::prelude::*;
use crate::fx::FX_ONE;
use crate::fx::Fx;

verus! {

#[verifier::external_type_specification]
#[verifier::external_body]
pub struct ExStdRng(rand::rngs::StdRng);

/// Relies on rand's `SeedableRng::seed_from_u64` for `StdRng`: builds a
/// generator whose word stream is a function of the seed alone.
#[verifier::external_body]
pub fn rng_from_seed(seed: u64) -> rand::rngs::StdRng {
    <rand::rngs::StdRng as rand::SeedableRng>::seed_from_u64(seed)
}

/// Relies on rand's `RngCore::next_u64` for `StdRng`: the stream's next
/// word; nothing is promised of its value.
#[verifier::external_body]
pub fn rng_next(rng: &mut rand::rngs::StdRng) -> u64 {
    rand::RngCore::next_u64(rng)
}

/// A uniformly random scalar in `[0, 1)`, one raw step at a time.
pub fn rand_unit01(rng: &mut rand::rngs::StdRng) -> (r: Fx)
    ensures
        0 <= r.i() < FX_ONE,
        r.wf(),
{
    let w = rng_next(rng);
    Fx { v: (w % 65536) as i64 }
}

/// A random scalar in `[-1, 1]`, close to uniform (the reduction of a
/// 64-bit word modulo 131073 carries a negligible bias).
pub fn rand_symmetric(rng: &mut rand::rngs::StdRng) -> (r: Fx)
    ensures
        -FX_ONE <= r.i() <= FX_ONE,
        r.wf(),
{
    let w = rng_next(rng);
    let m: i64 = (w % 131073) as i64;
    Fx { v: m - 65536 }
}

} // verus!
