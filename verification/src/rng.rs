use rand::rngs::StdRng;
use vstd::prelude::*;

verus! {

/// `rand::rngs::StdRng`, the generator behind the dice and the shuffles. Its
/// state is opaque to the proofs.
#[verifier::external_type_specification]
#[verifier::external_body]
pub struct ExStdRng(StdRng);

/// The game's source of randomness: a seeded generator, and the seed it was
/// made from, kept for replay.
pub struct Rng {
    rng: StdRng,
    seed: u64,
}

/// `rand::SeedableRng::seed_from_u64` for `StdRng`: a generator whose state is
/// derived from `seed`. Nothing is claimed of the state.
#[verifier::external_body]
fn seeded_generator(seed: u64) -> StdRng {
    <StdRng as rand::SeedableRng>::seed_from_u64(seed)
}

/// `rand::Rng::gen` on `rand::thread_rng()`: a `u64` from the thread's
/// entropy-seeded generator. Any value may come back. The call fails only
/// where the operating system has no entropy to seed the thread's generator
/// with.
#[verifier::external_body]
fn entropy_seed() -> u64 {
    rand::Rng::gen::<u64>(&mut rand::thread_rng())
}

/// `rand::Rng::gen_range` over `1u8..=6u8`: the range is not empty, so the
/// call returns, and what it returns lies in the range.
#[verifier::external_body]
fn sample_die(rng: &mut StdRng) -> (face: u8)
    ensures
        1 <= face <= 6,
{
    rand::Rng::gen_range(rng, 1u8..=6u8)
}

/// `rand::seq::SliceRandom::shuffle` on the elements of `items`: it only swaps
/// elements, so the same elements are there afterwards, each as often as
/// before.
#[verifier::external_body]
fn shuffle_in_place<T>(rng: &mut StdRng, items: &mut Vec<T>)
    ensures
        final(items)@.to_multiset() == old(items)@.to_multiset(),
{
    rand::seq::SliceRandom::shuffle(items.as_mut_slice(), rng)
}

/// `rand::SeedableRng::from_entropy` for `StdRng`: a generator seeded from
/// system entropy. Nothing is claimed of its state. The call fails only where
/// the operating system has no entropy to give.
#[verifier::external_body]
pub(crate) fn entropy_generator() -> StdRng {
    <StdRng as rand::SeedableRng>::from_entropy()
}

/// `rand::Rng::gen_ratio` with the ratio one in two, which is in range, so
/// the call returns. Either value may come back.
#[verifier::external_body]
pub(crate) fn coin_flip(rng: &mut StdRng) -> bool {
    rand::Rng::gen_ratio(rng, 1, 2)
}

/// `rand::Rng::gen_range` over `0..=max`: the range is not empty, so the call
/// returns, and what it returns lies in the range.
#[verifier::external_body]
pub(crate) fn index_up_to(rng: &mut StdRng, max: usize) -> (index: usize)
    ensures
        index <= max,
{
    rand::Rng::gen_range(rng, 0..=max)
}

/// `rand::seq::SliceRandom::choose` on the elements of `items`: one of the
/// elements, or `None` if there are none.
#[verifier::external_body]
pub(crate) fn pick<T: Copy>(rng: &mut StdRng, items: &Vec<T>) -> (picked: Option<T>)
    ensures
        picked is Some <==> items@.len() > 0,
        picked matches Some(item) ==> items@.contains(item),
{
    rand::seq::SliceRandom::choose(items.as_slice(), rng).copied()
}

impl Rng {
    /// The seed that the generator was made from.
    pub closed spec fn spec_seed(&self) -> u64 {
        self.seed
    }

    /// The seed that the generator was made from.
    #[verifier::when_used_as_spec(spec_seed)]
    pub fn seed(&self) -> (seed: u64)
        ensures
            seed == self.spec_seed(),
    {
        self.seed
    }

    /// A generator made from `seed`.
    pub fn new_with_seed(seed: u64) -> (rng: Rng)
        ensures
            rng.spec_seed() == seed,
    {
        Rng { rng: seeded_generator(seed), seed }
    }

    /// A generator made from a seed drawn from system entropy.
    pub fn new() -> Rng {
        Rng::new_with_seed(entropy_seed())
    }

    /// Rolls one die.
    pub fn roll_die(&mut self) -> (face: u8)
        ensures
            1 <= face <= 6,
            final(self).spec_seed() == old(self).spec_seed(),
    {
        sample_die(&mut self.rng)
    }

    /// Rolls two dice and returns their sum.
    pub fn roll_two_dice(&mut self) -> (sum: u8)
        ensures
            2 <= sum <= 12,
            final(self).spec_seed() == old(self).spec_seed(),
    {
        let first: u8 = self.roll_die();
        let second: u8 = self.roll_die();
        first + second
    }

    /// Puts `items` in a random order.
    pub fn shuffle<T>(&mut self, items: &mut Vec<T>)
        ensures
            final(items)@.to_multiset() == old(items)@.to_multiset(),
            final(items)@.len() == old(items)@.len(),
            final(self).spec_seed() == old(self).spec_seed(),
    {
        let ghost before = items@;
        shuffle_in_place(&mut self.rng, items);
        proof {
            before.to_multiset_ensures();
            items@.to_multiset_ensures();
        }
    }
}

} // verus!
