use std::collections::hash_map::DefaultHasher;
use std::hash::BuildHasher;
use std::hash::Hasher;
use std::hash::RandomState;
use std::ops::Range;
use vstd::prelude::*;

verus! {

/// The value a pseudo-random stream starts from.
#[derive(Copy, Clone, Debug, PartialEq, Eq, Structural)]
pub struct Seed(pub u32);

/// `RandomState::new` hands back a hasher factory with keys that the
/// process drew at random. Nothing is claimed of it.
pub assume_specification[ RandomState::new ]() -> (state: RandomState)
;

/// `RandomState::build_hasher` hands back a hasher that starts from the
/// factory's keys. Nothing is claimed of it.
pub assume_specification[ <RandomState as BuildHasher>::build_hasher ](
    state: &RandomState,
) -> (hasher: DefaultHasher)
;

impl Seed {
    /// A seed that differs from run to run.
    pub fn new() -> (seed: Self) {
        let state = RandomState::new();
        let hasher = state.build_hasher();
        let bits: u64 = hasher.finish();
        Seed::from_bits(bits)
    }

    /// The seed that is made of the 64 bits `bits`: their lower half.
    pub fn from_bits(bits: u64) -> (seed: Self)
        ensures
            seed.0 == bits % 0x1_0000_0000,
    {
        Seed((bits % 0x1_0000_0000) as u32)
    }
}

/// A signed number read as the unsigned number of the same 64 bits.
pub open spec fn spec_unsigned(value: i64) -> u64 {
    if value >= 0 {
        value as u64
    } else {
        (value + 0x1_0000_0000_0000_0000) as u64
    }
}

/// A signed number read as the unsigned number of the same 64 bits.
pub fn unsigned(value: i64) -> (bits: u64)
    ensures
        bits == spec_unsigned(value),
{
    if value >= 0 {
        value as u64
    } else {
        (value as i128 + 0x1_0000_0000_0000_0000) as u64
    }
}

/// What the stream's state is multiplied by at each step.
pub const MULTIPLIER: u64 = 6364136223846793005;

/// What is added to the stream's state at each step.
pub const INCREMENT: u64 = 1442695040888963407;

/// The state that follows `state`.
#[verifier::opaque]
pub open spec fn spec_step(state: u64) -> u64 {
    ((state * MULTIPLIER + INCREMENT) % 0x1_0000_0000_0000_0000) as u64
}

/// The state that the stream is in after `n` steps from `state`.
pub open spec fn spec_advance(state: u64, n: nat) -> u64
    decreases n,
{
    if n == 0 {
        state
    } else {
        spec_step(spec_advance(state, (n - 1) as nat))
    }
}

/// The number that the stream hands out on reaching `state`: the upper
/// half of the state.
pub open spec fn spec_output(state: u64) -> u32 {
    (state / 0x1_0000_0000) as u32
}

/// The `n`-th number, counted from zero, that a stream in `state` hands out.
pub open spec fn spec_draw(state: u64, n: nat) -> u32 {
    spec_output(spec_advance(state, n + 1))
}

/// A deterministic stream of pseudo-random numbers: a linear congruential
/// generator of 64 bits that hands out the upper half of its state.
pub struct Prng {
    state: u64,
}

impl View for Prng {
    type V = u64;

    closed spec fn view(&self) -> u64 {
        self.state
    }
}

impl Prng {
    /// The state of a stream that was just made from `seed`.
    pub open spec fn spec_seeded(seed: Seed) -> u64 {
        seed.0 as u64
    }

    /// A stream that starts from `seed`.
    pub fn new(seed: Seed) -> (prng: Self)
        ensures
            prng@ == Self::spec_seeded(seed),
    {
        Prng { state: seed.0 as u64 }
    }

    /// Advances the stream by one step and hands out its number.
    pub fn next_u32(&mut self) -> (number: u32)
        ensures
            final(self)@ == spec_step(old(self)@),
            number == spec_output(final(self)@),
    {
        assert(self.state * MULTIPLIER <= 0xffff_ffff_ffff_ffff * 0xffff_ffff_ffff_ffff)
            by (nonlinear_arith)
            requires
                self.state <= 0xffff_ffff_ffff_ffff,
                MULTIPLIER <= 0xffff_ffff_ffff_ffff,
        ;
        reveal(spec_step);
        let wide: u128 = self.state as u128 * MULTIPLIER as u128 + INCREMENT as u128;
        self.state = (wide % 0x1_0000_0000_0000_0000) as u64;
        (self.state / 0x1_0000_0000) as u32
    }

    /// Advances the stream by one step and hands out a number of `range`.
    pub fn next_in_range(&mut self, range: Range<usize>) -> (number: usize)
        requires
            range.start < range.end,
        ensures
            final(self)@ == spec_step(old(self)@),
            number == range.start + spec_output(final(self)@) as int % (range.end - range.start),
            range.start <= number < range.end,
    {
        let span: usize = range.end - range.start;
        let number: u32 = self.next_u32();
        range.start + (number as usize) % span
    }

    /// Advances the stream by one step and hands out a number below one
    /// thousand, to be held against a probability in thousandths.
    pub fn next_per_mille(&mut self) -> (number: u16)
        ensures
            final(self)@ == spec_step(old(self)@),
            number == spec_output(final(self)@) % 1000,
            number < 1000,
    {
        let number: u32 = self.next_u32();
        (number % 1000) as u16
    }
}

} // verus!
