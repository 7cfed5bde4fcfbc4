//! Random streams: the standard generator of `rand`, and the draws that the
//! forest makes from it.
use vstd::prelude::*;

use rand::distributions::Uniform;
use rand::rngs::StdRng;
use rand::Rng;
use rand::SeedableRng;

verus! {

/// Length in bytes of the seed that reseeds one learner's own stream.
pub const SEED_LEN: usize = 32;

/// Exclusive upper bound of each seed byte: bytes are drawn from `[0, 255)`.
pub const SEED_BYTE_BOUND: u8 = 255;

#[verifier::external_type_specification]
#[verifier::external_body]
pub struct ExStdRng(StdRng);

/// The stream that `StdRng::seed_from_u64(seed)` starts.
pub uninterp spec fn stream_of_seed(seed: u64) -> StdRng;

/// Relies on `rand_core::SeedableRng::seed_from_u64` for `StdRng`: a stream
/// that depends on `seed` alone.
#[verifier::external_body]
pub(crate) fn std_rng(seed: u64) -> (r: StdRng)
    ensures
        r == stream_of_seed(seed),
{
    StdRng::seed_from_u64(seed)
}

/// The stream that `StdRng::from_seed` builds from the 32 bytes `seed`.
pub uninterp spec fn stream_from_seed(seed: Seq<u8>) -> StdRng;

/// Relies on `rand_core::SeedableRng::from_seed` for `StdRng`: a stream built
/// from the 32 bytes of `seed`, and from them alone.
#[verifier::external_body]
pub(crate) fn rng_from_seed(seed: &Vec<u8>) -> (r: StdRng)
    requires
        seed@.len() == SEED_LEN,
    ensures
        r == stream_from_seed(seed@),
{
    let mut bytes = [0u8; 32];
    bytes.copy_from_slice(seed.as_slice());
    StdRng::from_seed(bytes)
}

/// Relies on `Clone` for `StdRng`: a copy of the stream in its current state.
#[verifier::external_body]
pub(crate) fn copy_rng(rng: &StdRng) -> (r: StdRng)
    ensures
        r == *rng,
{
    rng.clone()
}

/// Relies on `rand::Rng::sample` with `Uniform::new(0, bound)` over `usize`:
/// the half-open range `[0, bound)`, which panics only when `bound` is zero.
#[verifier::external_body]
pub(crate) fn draw_below(rng: &mut StdRng, bound: usize) -> (r: usize)
    requires
        bound > 0,
    ensures
        r < bound,
{
    rng.sample(Uniform::new(0usize, bound))
}

/// Relies on `rand::Rng::sample` with `Uniform::new(0, u8::MAX)` over `u8`:
/// the half-open range `[0, 255)`.
#[verifier::external_body]
pub(crate) fn draw_seed_byte(rng: &mut StdRng) -> (r: u8)
    ensures
        r < SEED_BYTE_BOUND,
{
    rng.sample(Uniform::new(0u8, u8::MAX))
}

/// A seed that a learner can be reseeded with: `SEED_LEN` bytes, each in
/// `[0, 255)`.
pub open spec fn is_learner_seed(seed: Seq<u8>) -> bool {
    &&& seed.len() == SEED_LEN
    &&& forall|i: int| 0 <= i < seed.len() ==> seed[i] < SEED_BYTE_BOUND
}

/// Draws a fresh seed for one learner: `SEED_LEN` bytes, each in `[0, 255)`.
pub fn draw_seed(rng: &mut StdRng) -> (seed: Vec<u8>)
    ensures
        is_learner_seed(seed@),
{
    let mut seed: Vec<u8> = Vec::with_capacity(SEED_LEN);
    let mut i: usize = 0;
    while i < SEED_LEN
        invariant
            i <= SEED_LEN,
            seed@.len() == i,
            forall|j: int| 0 <= j < seed@.len() ==> seed@[j] < SEED_BYTE_BOUND,
        decreases SEED_LEN - i,
    {
        let b = draw_seed_byte(rng);
        seed.push(b);
        i += 1;
    }
    seed
}

/// A valid bootstrap sample of a population of `rows` rows: exactly `rows`
/// indices, each naming a row of the population.
pub open spec fn is_bootstrap_sample(indices: Seq<usize>, rows: nat) -> bool {
    &&& indices.len() == rows
    &&& forall|i: int| 0 <= i < indices.len() ==> (indices[i] as nat) < rows
}

/// Draws `num_indices` row indices uniformly from `[0, num_indices)` with
/// replacement. There is nothing to sample from an empty population, so
/// `None` comes exactly when `num_indices` is zero.
pub fn bootstrap_indices(num_indices: usize, rng: &mut StdRng) -> (r: Option<Vec<usize>>)
    ensures
        r is None <==> num_indices == 0,
        r matches Some(v) ==> is_bootstrap_sample(v@, num_indices as nat),
{
    if num_indices == 0 {
        return None;
    }
    let mut indices: Vec<usize> = Vec::with_capacity(num_indices);
    let mut i: usize = 0;
    while i < num_indices
        invariant
            i <= num_indices,
            indices@.len() == i,
            forall|j: int| 0 <= j < indices@.len() ==> indices@[j] < num_indices,
        decreases num_indices - i,
    {
        let k = draw_below(rng, num_indices);
        indices.push(k);
        i += 1;
    }
    Some(indices)
}

} // verus!
