use vstd::prelude::*;
use bracket_random::prelude::RandomNumberGenerator;

verus! {

/// The random number generator of `bracket_random`; its state is not visible.
#[verifier::external_type_specification]
#[verifier::external_body]
pub struct ExRandomNumberGenerator(RandomNumberGenerator);

/// `RandomNumberGenerator::new`: a generator seeded from the operating system. Nothing is
/// promised of the numbers it gives.
#[verifier::external_body]
pub(crate) fn rng_new() -> RandomNumberGenerator {
    RandomNumberGenerator::new()
}

/// What the first `range(min, max)` on `u32` of a generator started from `seed` gives. The
/// generator is an XorShift generator seeded from `seed` alone, so the first draw is a function
/// of the seed and the range.
pub uninterp spec fn seeded_first_draw(seed: u64, min: u32, max: u32) -> u32;

/// `RandomNumberGenerator::seeded(seed)` followed by its first `range(min, max)` on `u32`: the
/// generator, and that first number, which lies in the range (`gen_range` panics on an empty
/// range, hence `min < max`) and is fixed by the seed and the range.
#[verifier::external_body]
pub(crate) fn rng_seeded_first(seed: u64, min: u32, max: u32) -> (r: (RandomNumberGenerator, u32))
    requires
        min < max,
    ensures
        min <= r.1 < max,
        r.1 == seeded_first_draw(seed, min, max),
{
    let mut rng = RandomNumberGenerator::seeded(seed);
    let first = rng.range(min, max);
    (rng, first)
}

/// `RandomNumberGenerator::range` on `u32`: a number from `min` up to but not including `max`
/// (`gen_range` panics on an empty range, hence `min < max`). Which number comes out is left
/// unsaid.
#[verifier::external_body]
pub(crate) fn rng_range_u32(rng: &mut RandomNumberGenerator, min: u32, max: u32) -> (r: u32)
    requires
        min < max,
    ensures
        min <= r < max,
{
    rng.range(min, max)
}

/// `RandomNumberGenerator::range` on `usize`: a number from `min` up to but not including `max`
/// (it calls `gen_range(min..max)`, which panics on an empty range, hence `min < max`). Which
/// number of the range comes out is left unsaid.
#[verifier::external_body]
pub(crate) fn rng_range(rng: &mut RandomNumberGenerator, min: usize, max: usize) -> (r: usize)
    requires
        min < max,
    ensures
        min <= r < max,
{
    rng.range(min, max)
}

} // verus!
