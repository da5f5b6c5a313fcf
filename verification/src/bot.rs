//! The seat a bot sits down in.
//!
//! A bot is handed a seat, the terms of the match, and then one tick at a
//! time; it answers each tick with at most one order. What it needs to know
//! before any of that is where the match is and who it plays.

use vstd::prelude::*;

use crate::proto::HeroId;

verus! {

/// Where and as whom a bot sits down.
#[derive(Clone, Debug)]
pub struct Chair {
    /// Where the match server listens.
    pub addr: String,
    /// The name the seat goes by.
    pub name: String,
    /// The hero it asks for.
    pub hero: HeroId,
    /// The tick to stand up at, if it should not play the match out.
    pub limit: Option<u32>,
}

} // verus!
