//! A small deterministic source of numbers, for drawing weights and choices.
//!
//! It is the splitmix sequence: a counter stepped by a fixed odd number, and
//! each count stirred into an output. Two streams from one seed agree number
//! for number.

use vstd::prelude::*;

use vstd::wrapping::u64_specs::{wrapping_add, wrapping_mul};

verus! {

/// What the counter is stepped by, and what a seed is mixed with.
pub const GOLDEN: u64 = 0x9e37_79b9_7f4a_7c15;

/// How one count is stirred into an output.
pub open spec fn stirred(count: u64) -> u64 {
    let a = wrapping_mul(count ^ (count >> 30u64), 0xbf58_476d_1ce4_e5b9u64);
    let b = wrapping_mul(a ^ (a >> 27u64), 0x94d0_49bb_1331_11ebu64);
    b ^ (b >> 31u64)
}

/// A small deterministic source of numbers, for drawing weights and choices.
#[derive(Clone, Copy, Debug, PartialEq, Eq, Structural)]
pub struct Dice {
    state: u64,
}

impl View for Dice {
    /// Where the counter stands.
    type V = u64;

    closed spec fn view(&self) -> u64 {
        self.state
    }
}

impl Dice {
    /// A stream from a seed.
    pub fn from_seed(seed: u64) -> (dice: Dice)
        ensures
            dice@ == seed ^ GOLDEN,
    {
        Dice { state: seed ^ GOLDEN }
    }

    /// The next number of the stream.
    pub fn next_u64(&mut self) -> (n: u64)
        ensures
            final(self)@ == wrapping_add(old(self)@, GOLDEN),
            n == stirred(final(self)@),
    {
        self.state = self.state.wrapping_add(GOLDEN);
        let mut z = self.state;
        z = (z ^ (z >> 30)).wrapping_mul(0xbf58_476d_1ce4_e5b9);
        z = (z ^ (z >> 27)).wrapping_mul(0x94d0_49bb_1331_11eb);
        z ^ (z >> 31)
    }
}

} // verus!
