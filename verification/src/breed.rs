//! The seeds a crowd is taught on.
//!
//! Every match a generation plays is drawn from a stream of numbers seeded
//! by which generation it is, so that a run repeats to the number and no
//! model is ever judged twice on the same match.

use vstd::prelude::*;

use vstd::wrapping::u64_specs::{wrapping_add, wrapping_mul};

use crate::dice::{stirred, Dice, GOLDEN};
use crate::swiss::SWISS_ROUNDS;

verus! {

/// Matches a lesson is reported on, which never change.
pub const REPORTED_ON: usize = 4;

/// Where the reporting seeds come from, apart from everything else.
pub const REPORTING_SEED: u64 = 0x5eed_0001;

/// Where the counter of a stream from a seed stands after some draws.
pub open spec fn count_after(seed: u64, draws: nat) -> u64
    decreases draws,
{
    if draws == 0 {
        seed ^ GOLDEN
    } else {
        wrapping_add(count_after(seed, (draws - 1) as nat), GOLDEN)
    }
}

/// The first few numbers of the stream from a seed.
pub open spec fn stream(seed: u64, n: nat) -> Seq<u64> {
    Seq::new(n, |k: int| stirred(count_after(seed, (k + 1) as nat)))
}

/// The first few numbers of the stream from a seed.
pub fn draws(seed: u64, n: usize) -> (drawn: Vec<u64>)
    ensures
        drawn@ == stream(seed, n as nat),
{
    let mut dice = Dice::from_seed(seed);
    let mut drawn: Vec<u64> = Vec::new();
    let mut i: usize = 0;
    while i < n
        invariant
            i <= n,
            dice@ == count_after(seed, i as nat),
            drawn@ == stream(seed, i as nat),
        decreases n - i,
    {
        let next = dice.next_u64();
        drawn.push(next);
        i += 1;
        assert(drawn@ =~= stream(seed, i as nat));
    }
    drawn
}

/// The seed a generation's trials are drawn from.
pub open spec fn trial_seed(seed: u64, life: u32) -> u64 {
    wrapping_add(wrapping_mul(seed, 0x9e37_79b9u64), wrapping_mul(life as u64, 0x1000_0001u64))
}

/// The seed a tournament generation's rounds are drawn from.
pub open spec fn round_seed(seed: u64, life: u32) -> u64 {
    wrapping_add(wrapping_mul(seed, 0x0b0f_a577u64), wrapping_mul(life as u64, 0x4000_0005u64))
}

/// The matches a generation is judged on, for a run seeded from a number
/// playing so many trials a model.
///
/// A function of which generation it is, so that a run repeats to the
/// number and no model is ever judged twice on the same match.
pub fn trials_of(seed: u64, trials: usize, life: u32) -> (matches: Vec<u64>)
    ensures
        matches@ == stream(trial_seed(seed, life), trials as nat),
{
    let start = seed.wrapping_mul(0x9e37_79b9).wrapping_add((life as u64).wrapping_mul(0x1000_0001));
    draws(start, trials)
}

/// The matches a lesson is reported on, the same ones every time.
pub fn reported_on() -> (matches: Vec<u64>)
    ensures
        matches@ == stream(REPORTING_SEED, REPORTED_ON as nat),
{
    draws(REPORTING_SEED, REPORTED_ON)
}

/// The seeds of a tournament generation's rounds, the anchor match's last.
///
/// One a round, common to every pair of it, and a function of which
/// generation it is, exactly as the trials are.
pub fn round_seeds(seed: u64, life: u32) -> (seeds: Vec<u64>)
    ensures
        seeds@ == stream(round_seed(seed, life), (SWISS_ROUNDS + 1) as nat),
{
    let start = seed.wrapping_mul(0x0b0f_a577).wrapping_add((life as u64).wrapping_mul(0x4000_0005));
    draws(start, SWISS_ROUNDS + 1)
}

} // verus!
