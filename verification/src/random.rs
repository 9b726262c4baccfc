//! The source of random draws.

use vstd::prelude::*;
use rand::rngs::StdRng;
use rand::{Rng, SeedableRng};

verus! {

/// The generator of `rand`, carried through as an opaque value.
#[verifier::external_type_specification]
#[verifier::external_body]
pub struct ExStdRng(rand::rngs::StdRng);

/// What a generator holds: the state that fixes every draw to come.
pub uninterp spec fn generator_state(rng: StdRng) -> Seq<u8>;

/// The state of the generator that `SeedableRng::seed_from_u64` makes of `seed`.
pub uninterp spec fn seeded_state(seed: u64) -> Seq<u8>;

/// What `Rng::gen_range` draws from the inclusive range from `low` to `high`
/// with a generator in the given state, and the state it leaves.
pub uninterp spec fn draw_of(state: Seq<u8>, low: u32, high: u32) -> (u32, Seq<u8>);

/// `Rng::gen_range` on the inclusive range from `low` to `high`.
///
/// The contract claims that the number drawn lies in the range, and that it
/// and the state the generator is left in are a function of the state it
/// was in and of the range (`draw_of`): the generator is a cipher run from
/// its key and counter, and the sampling reads nothing but its output.
/// `gen_range` panics on an empty range, which `low <= high` rules out.
#[verifier::external_body]
pub(crate) fn draw(rng: &mut StdRng, low: u32, high: u32) -> (drawn: u32)
    requires
        low <= high,
    ensures
        low <= drawn <= high,
        (drawn, generator_state(*final(rng))) == draw_of(generator_state(*old(rng)), low, high),
{
    rng.gen_range(low..=high)
}

/// `SeedableRng::seed_from_u64` for `StdRng`.
///
/// The contract claims that the state of the generator made is a function of
/// `seed` alone (`seeded_state`): the source stretches the seed to a key by
/// fixed integer steps and starts the cipher from that key, with nothing
/// taken from the machine or the moment.
#[verifier::external_body]
pub(crate) fn seeded(seed: u64) -> (rng: StdRng)
    ensures
        generator_state(rng) == seeded_state(seed),
{
    StdRng::seed_from_u64(seed)
}

} // verus!
