use vstd::prelude::*;

verus! {

/// Multiplier of the linear congruential generator.
pub const LCG_MULTIPLIER: u64 = 6364136223846793005;

/// Seed of a generator that was not given one.
pub const DEFAULT_SEED: u64 = 1;

/// Seedable pseudorandom generator: a 64-bit linear congruential state that
/// callers pass explicitly, so that no hidden global state is involved.
#[derive(Clone, Copy, Debug, PartialEq, Eq, Structural)]
pub struct Prng {
    pub state: u64,
}

/// State after one step: `state * LCG_MULTIPLIER + 1`, modulo 2^64.
pub open spec fn next_state(state: u64) -> u64 {
    state.wrapping_mul(LCG_MULTIPLIER).wrapping_add(1)
}

/// What a step yields: the upper 32 bits of the new state.
pub open spec fn output_of(state: u64) -> u32 {
    (state >> 32u64) as u32
}

impl Prng {
    /// A generator started from `seed`.
    pub fn new(seed: u64) -> (r: Prng)
        ensures
            r.state == seed,
    {
        Prng { state: seed }
    }

    /// A generator started from the default seed.
    pub fn with_default_seed() -> (r: Prng)
        ensures
            r.state == DEFAULT_SEED,
    {
        Prng { state: DEFAULT_SEED }
    }
}

/// Returns a uniformly distributed pseudorandom u32 and advances the generator.
pub fn rand_u32(rng: &mut Prng) -> (r: u32)
    ensures
        final(rng).state == next_state(old(rng).state),
        r == output_of(next_state(old(rng).state)),
{
    let new_state = rng.state.wrapping_mul(LCG_MULTIPLIER).wrapping_add(1);
    rng.state = new_state;
    (new_state >> 32) as u32
}

/// Returns a uniformly distributed pseudorandom u64 made of two successive
/// u32 draws, the first in the low half.
pub fn rand_u64(rng: &mut Prng) -> (r: u64)
    ensures
        final(rng).state == next_state(next_state(old(rng).state)),
        r == output_of(next_state(old(rng).state)) as u64
            + output_of(next_state(next_state(old(rng).state))) as u64 * 0x1_0000_0000,
{
    let low = rand_u32(rng);
    let high = rand_u32(rng);
    let (lo, hi) = (low as u64, high as u64);
    assert(lo | (hi << 32) == lo + hi * 0x1_0000_0000) by (bit_vector)
        requires
            lo < 0x1_0000_0000,
            hi < 0x1_0000_0000,
    ;
    lo | (hi << 32)
}

} // verus!
