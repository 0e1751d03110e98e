//! The sources of randomness: the seeded ChaCha generators of the
//! `rand_chacha` crate (ChaCha20 for the game, ChaCha8 for dealing packs),
//! and the draws the rules make from them through the `rand` crate.

use vstd::prelude::*;

use rand::seq::SliceRandom;
use rand::Rng;
use rand::SeedableRng;

verus! {

/// The game's seeded generator, held by value.
#[verifier::external_type_specification]
#[verifier::external_body]
pub struct ExChaCha20Rng(rand_chacha::ChaCha20Rng);

/// The generator packs are dealt with, held by value.
#[verifier::external_type_specification]
#[verifier::external_body]
pub struct ExChaCha8Rng(rand_chacha::ChaCha8Rng);

/// `SeedableRng::seed_from_u64` for `ChaCha20Rng`: a generator seeded from
/// a number. Nothing is stated of its state.
#[verifier::external_body]
pub(crate) fn seeded_rng(seed: u64) -> rand_chacha::ChaCha20Rng {
    rand_chacha::ChaCha20Rng::seed_from_u64(seed)
}

/// `Rng::random_ratio`: `true` with odds `numerator` in `denominator`.
/// Either value may come back; the call panics on a zero denominator or a
/// numerator above it, which `requires` leaves out.
#[verifier::external_body]
pub(crate) fn random_ratio(rng: &mut rand_chacha::ChaCha20Rng, numerator: u32, denominator: u32) -> bool
    requires
        0 < denominator,
        numerator <= denominator,
{
    rng.random_ratio(numerator, denominator)
}

/// `SliceRandom::shuffle`: puts the elements in a random order. What is
/// stated is that the result is a permutation of the input; which one it is
/// depends on the generator.
#[verifier::external_body]
pub(crate) fn shuffle_in_place<T, R: rand::RngCore>(v: &mut Vec<T>, rng: &mut R)
    ensures
        final(v)@.len() == old(v)@.len(),
        final(v)@.to_multiset() == old(v)@.to_multiset(),
{
    v.as_mut_slice().shuffle(rng)
}

} // verus!
