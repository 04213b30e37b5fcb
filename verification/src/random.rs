//! The random draws of the engines, all made from a seedable generator, so
//! that a game can be replayed from its seed.

use rand::rngs::OsRng;
use rand::rngs::StdRng;
use rand::seq::SliceRandom;
use rand::Rng;
use rand::SeedableRng;
use vstd::prelude::*;

verus! {

/// `rand::rngs::StdRng`, the generator that the engines draw from. Its state
/// is hidden from the proofs.
#[verifier::external_type_specification]
#[verifier::external_body]
pub struct ExStdRng(StdRng);

/// The generator that `SeedableRng::seed_from_u64` makes of a seed. It
/// depends on the seed alone: the function expands the seed by fixed
/// arithmetic into the key that the generator starts from.
pub uninterp spec fn seeded_generator(seed: u64) -> StdRng;

/// A generator set up by `SeedableRng::seed_from_u64`. The claim is that it
/// is the one that the seed determines; nothing is claimed of what it draws.
#[verifier::external_body]
pub(crate) fn seeded(seed: u64) -> (rng: StdRng)
    ensures
        rng == seeded_generator(seed),
{
    StdRng::seed_from_u64(seed)
}

/// A generator set up by `SeedableRng::from_rng` from `OsRng`, the random
/// numbers of the system; none where the system has none to give. Nothing is
/// claimed of the generator.
#[verifier::external_body]
pub(crate) fn unseeded() -> (rng: Option<StdRng>) {
    StdRng::from_rng(OsRng).ok()
}

/// A number drawn by `Rng::gen_range` from `0..n`. The claim is the range
/// alone, which holds of every draw. `gen_range` panics on an empty range,
/// which `n > 0` excludes.
#[verifier::external_body]
pub(crate) fn below(rng: &mut StdRng, n: usize) -> (drawn: usize)
    requires
        n > 0,
    ensures
        drawn < n,
{
    rng.gen_range(0..n)
}

/// Reorders the items by `SliceRandom::shuffle`, which only swaps items of
/// the slice. The claim is that the items are the same ones, in some order.
#[verifier::external_body]
pub(crate) fn shuffle<T>(rng: &mut StdRng, items: &mut [T])
    ensures
        final(items)@.to_multiset() == old(items)@.to_multiset(),
{
    items.shuffle(rng)
}

} // verus!
