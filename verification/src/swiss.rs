//! Choosing a crowd by tournament rather than by its own company.
//!
//! A generation plays a few rounds against crowd-mates paired by standing,
//! then one anchor match against the crowd's incoming best. A pair plays its
//! round's seed twice, once from either side; the anchor match is played
//! once, from the same side by everybody.

use vstd::prelude::*;

verus! {

/// How a generation is chosen over.
#[derive(Clone, Copy, Debug, PartialEq, Eq, Structural)]
pub enum Selection {
    /// Every model plays itself, and its two seats are averaged.
    Mirror,
    /// A tournament: rounds paired by standing, scored by margins.
    Swiss,
}

/// How a plan spells a selection.
pub open spec fn spelled(way: Selection) -> Seq<char> {
    match way {
        Selection::Mirror => "mirror"@,
        Selection::Swiss => "swiss"@,
    }
}

/// The selection a spelling names, if any does.
pub open spec fn read_as(name: Seq<char>) -> Option<Selection> {
    if name == "mirror"@ {
        Some(Selection::Mirror)
    } else if name == "swiss"@ {
        Some(Selection::Swiss)
    } else {
        None
    }
}

impl Selection {
    /// How a plan spells it.
    pub fn spelling(self) -> (name: &'static str)
        ensures
            name@ == spelled(self),
    {
        match self {
            Selection::Mirror => "mirror",
            Selection::Swiss => "swiss",
        }
    }

    /// The selection a spelling names.
    pub fn named(name: &str) -> (way: Option<Selection>)
        ensures
            way == read_as(name@),
    {
        let typed = name.to_owned();
        if typed == "mirror".to_owned() {
            Some(Selection::Mirror)
        } else if typed == "swiss".to_owned() {
            Some(Selection::Swiss)
        } else {
            None
        }
    }
}

/// Every selection reads back as itself from its own spelling.
pub proof fn lemma_spelling_reads_back(way: Selection)
    ensures
        read_as(spelled(way)) == Some(way),
{
    reveal_strlit("mirror");
    reveal_strlit("swiss");
    assert("mirror"@ != "swiss"@) by {
        assert("mirror"@[0] != "swiss"@[0]);
    }
}

/// Rounds a tournament generation plays before the anchor match.
pub const SWISS_ROUNDS: usize = 3;

/// How many of the first rounds run on the shorter clock.
pub const SWISS_SHORT_ROUNDS: usize = 2;

/// How many times shorter than the stage's clock those rounds are.
pub const SHORT_SHARE: u32 = 4;

/// Neighbours in a standing paired off: first against second, third against
/// fourth, and so on.
pub open spec fn paired(order: Seq<usize>) -> Seq<(usize, usize)> {
    Seq::new(order.len() / 2, |i: int| (order[2 * i], order[2 * i + 1]))
}

/// Neighbours in the standing paired off: first against second, third
/// against fourth, and so on. An odd crowd's last standing sits the round
/// out.
pub fn pairs_of(order: &[usize]) -> (pairs: Vec<(usize, usize)>)
    ensures
        pairs@ == paired(order@),
{
    let mut pairs: Vec<(usize, usize)> = Vec::new();
    let mut i: usize = 0;
    while i + 1 < order.len()
        invariant
            i % 2 == 0,
            i <= order@.len(),
            pairs@.len() == i / 2,
            forall|k: int| 0 <= k < i / 2 ==> #[trigger] pairs@[k] == (order@[2 * k], order@[2 * k + 1]),
        decreases order@.len() - i,
    {
        pairs.push((order[i], order[i + 1]));
        i += 2;
    }
    assert(pairs@ =~= paired(order@));
    pairs
}

} // verus!
