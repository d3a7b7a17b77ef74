//! The random source of a simulation: a seedable generator, and the one kind of draw
//! that everything random in the world is made of.

use rand::rngs::StdRng;
use rand::Rng;
use rand::SeedableRng;
use vstd::prelude::*;

verus! {

/// `rand::rngs::StdRng`, the generator of the `rand` crate: carried through as a value
/// of which nothing is known.
#[verifier::external_type_specification]
#[verifier::external_body]
pub struct ExStdRng(StdRng);

/// `rand::SeedableRng::seed_from_u64` on `rand::rngs::StdRng`: builds a generator from a
/// 64-bit seed. Nothing is claimed of the generator that comes back.
#[verifier::external_body]
fn seeded_generator(seed: u64) -> StdRng {
    StdRng::seed_from_u64(seed)
}

/// `rand::Rng::gen_range` on a half-open range `0..bound` of `usize`: the draw lies in
/// the range. The call panics on an empty range, so `bound` must be positive.
#[verifier::external_body]
fn generator_below(rng: &mut StdRng, bound: usize) -> (r: usize)
    requires
        bound > 0,
    ensures
        r < bound,
{
    rng.gen_range(0..bound)
}

/// The single random source of a simulation, seedable so that a run can be repeated.
/// It counts the draws made from it.
pub struct RandomSource {
    rng: StdRng,
    drawn: Ghost<nat>,
}

impl RandomSource {
    /// Number of draws made from the source so far.
    pub closed spec fn drawn(&self) -> nat {
        self.drawn@
    }

    /// A source whose sequence of draws is fixed by `seed`, with no draw made yet.
    pub fn from_seed(seed: u64) -> (source: RandomSource)
        ensures
            source.drawn() == 0,
    {
        RandomSource { rng: seeded_generator(seed), drawn: Ghost(0) }
    }

    /// A uniform draw from `0..bound`: one draw more is made from the source.
    pub fn below(&mut self, bound: usize) -> (r: usize)
        requires
            bound > 0,
        ensures
            r < bound,
            final(self).drawn() == old(self).drawn() + 1,
    {
        let r = generator_below(&mut self.rng, bound);
        self.drawn = Ghost((self.drawn@ + 1) as nat);
        r
    }
}

} // verus!
