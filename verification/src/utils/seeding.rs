//! Seeded pseudo-random generators.

use rand::SeedableRng;
use rand_xoshiro::Xoshiro256Plus;
use vstd::prelude::*;

verus! {

/// `rand_xoshiro::Xoshiro256Plus`, carried through as a value of which
/// nothing inside is seen.
#[verifier::external_type_specification]
#[verifier::external_body]
pub struct ExXoshiro256Plus(Xoshiro256Plus);

/// The generator that every space owns.
pub type Generator = Xoshiro256Plus;

/// The generator that `Xoshiro256Plus::seed_from_u64` returns for `seed`.
pub uninterp spec fn seeded_generator(seed: u64) -> Xoshiro256Plus;

/// `Xoshiro256Plus::seed_from_u64`: the four words of the state are the first
/// four numbers of the SplitMix64 sequence that starts at `seed`, so the
/// generator depends on the seed alone, and equal seeds give equal
/// generators.
#[verifier::external_body]
fn seed_from_u64(seed: u64) -> (g: Generator)
    ensures
        g == seeded_generator(seed),
{
    Xoshiro256Plus::seed_from_u64(seed)
}

/// `Clone::clone` of `Xoshiro256Plus`, which the type derives: the copy has
/// the state of the generator it was made from.
pub assume_specification[ <Xoshiro256Plus as Clone>::clone ](g: &Xoshiro256Plus) -> (r:
    Xoshiro256Plus)
    ensures
        r == *g,
;

/// `rand::random`: a number drawn from the generator of the thread, which
/// the operating system's entropy seeds. Nothing is claimed of its value.
/// The call stops the program where the operating system gives no entropy.
#[verifier::external_body]
fn entropy_seed() -> usize {
    rand::random()
}

/// What a generator is seeded from: a number, or a generator that was built
/// elsewhere and is taken over as it is.
pub enum Seed {
    USize(usize),
    Generator(Generator),
}

/// What `rs_random` gives for `seed`: the generator that the resolved seed
/// yields, beside that seed, which is the given one where one was given.
pub open spec fn seeds_as(seed: Option<usize>, r: (Generator, usize)) -> bool {
    &&& seed matches Some(s) ==> r.1 == s
    &&& r.0 == seeded_generator(r.1 as u64)
}

/// The generator for a seed that has been resolved, and that seed.
pub fn generator_from_seed(rs_seed: usize) -> (r: (Generator, usize))
    ensures
        r.0 == seeded_generator(rs_seed as u64),
        r.1 == rs_seed,
{
    let rng = seed_from_u64(rs_seed as u64);
    (rng, rs_seed)
}

/// A generator and the seed it was made from. Without a seed, one is drawn
/// from the operating system's entropy; a given seed is used as it is.
pub fn rs_random(seed: Option<usize>) -> (r: (Generator, usize))
    ensures
        seeds_as(seed, r),
{
    let rs_seed: usize = match seed {
        Some(seed) => seed,
        None => entropy_seed(),
    };
    generator_from_seed(rs_seed)
}

/// A given seed comes back unchanged, and two generators made from the same
/// given seed are equal: the seed alone fixes everything they go on to give.
pub proof fn lemma_given_seed_is_reproducible(
    seed: usize,
    first: (Generator, usize),
    second: (Generator, usize),
)
    requires
        seeds_as(Some(seed), first),
        seeds_as(Some(seed), second),
    ensures
        first.1 == seed,
        second.1 == seed,
        first.0 == second.0,
{
}

} // verus!
