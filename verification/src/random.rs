//! The pseudo-random number generator behind the randomize instruction: a
//! sixteen-bit linear congruential generator. Its sequence is fixed by its
//! seed, so a run of the machine can be replayed.

use vstd::prelude::*;

verus! {

/// Multiplier of the generator.
pub const MULTIPLIER: u32 = 25173;

/// Increment of the generator.
pub const INCREMENT: u32 = 13849;

/// The seed that follows `seed`.
pub open spec fn next_seed(seed: u16) -> u16 {
    ((seed * MULTIPLIER + INCREMENT) % 0x1_0000) as u16
}

/// The byte that a seed yields: its high half, which has the longer period.
pub open spec fn random_byte(seed: u16) -> u8 {
    (seed / 0x100) as u8
}

/// Source of the bytes for the randomize instruction.
pub struct Randomizer {
    seed: u16,
}

impl View for Randomizer {
    type V = u16;

    closed spec fn view(&self) -> u16 {
        self.seed
    }
}

impl Randomizer {
    /// A generator that starts from `seed`.
    pub fn new(seed: u16) -> (r: Randomizer)
        ensures
            r@ == seed,
    {
        Randomizer { seed }
    }

    /// Moves on to the next seed and returns its byte.
    pub fn next_byte(&mut self) -> (b: u8)
        ensures
            final(self)@ == next_seed(old(self)@),
            b == random_byte(final(self)@),
    {
        let next: u32 = (self.seed as u32 * MULTIPLIER + INCREMENT) % 0x1_0000;
        self.seed = next as u16;
        (self.seed / 0x100) as u8
    }
}

} // verus!
