use vstd::prelude::*;

verus! {

#[verifier::external_type_specification]
#[verifier::external_body]
pub struct ExChaCha8Rng(rand_chacha::ChaCha8Rng);

/// Relies on rand_core's `SeedableRng::seed_from_u64`, which expands the
/// seed into a fixed cipher state: the stream such a generator yields is
/// a function of the seed and of the draws made, on every machine.
#[verifier::external_body]
pub(crate) fn chacha8_from_seed(seed: u64) -> rand_chacha::ChaCha8Rng {
    <rand_chacha::ChaCha8Rng as rand::SeedableRng>::seed_from_u64(seed)
}

/// Relies on rand's `Uniform` distribution over `[0, bound)`: every
/// sampled value lies below the bound. `Uniform::new` panics on an empty
/// range, so the bound must be positive.
#[verifier::external_body]
pub(crate) fn sample_index(rng: &mut rand_chacha::ChaCha8Rng, bound: usize) -> (r: usize)
    requires
        bound >= 1,
    ensures
        r < bound,
{
    rand::Rng::sample(rng, rand::distributions::Uniform::new(0usize, bound))
}

} // verus!
