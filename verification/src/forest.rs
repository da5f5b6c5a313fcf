//! Where the trees stand.
//!
//! The map's own forest is sent once, when the match begins; which of those
//! trees are down and which have been put up during the match ride in every
//! snapshot. Both are needed to eat a tango, which asks for a tree by the
//! ground it stands on.

use vstd::prelude::*;

use crate::proto::{MatchInfo, Vec2, WorldView};

verus! {

/// The map's own trees, in the order the match names them.
#[derive(Clone, Debug, Default)]
pub struct Forest {
    /// Every tree the map was made with, standing or not.
    pub trees: Vec<Vec2>,
}

/// The first few of the map's trees that are not down, in the map's order.
pub open spec fn kept_trees(trees: Seq<Vec2>, felled: Seq<u32>, k: int) -> Seq<Vec2>
    decreases k,
{
    if k <= 0 {
        Seq::empty()
    } else {
        let before = kept_trees(trees, felled, k - 1);
        if felled.contains((k - 1) as u32) {
            before
        } else {
            before.push(trees[k - 1])
        }
    }
}

/// Every tree standing at a tick: the map's own that are not down, in the
/// map's order, then those put up during the match.
pub open spec fn standing_trees(trees: Seq<Vec2>, felled: Seq<u32>, planted: Seq<Vec2>) -> Seq<
    Vec2,
> {
    kept_trees(trees, felled, trees.len() as int) + planted
}

/// Whether a row of tree numbers names a tree.
fn names_tree(felled: &Vec<u32>, at: u32) -> (named: bool)
    ensures
        named == felled@.contains(at),
{
    let mut i: usize = 0;
    while i < felled.len()
        invariant
            i <= felled@.len(),
            forall|j: int| 0 <= j < i ==> felled@[j] != at,
        decreases felled@.len() - i,
    {
        if felled[i] == at {
            assert(felled@[i as int] == at);
            return true;
        }
        i += 1;
    }
    false
}

impl Forest {
    /// Every tree standing at a tick: the map's own that are not down, in
    /// the map's order, then those put up during the match.
    pub fn standing(&self, view: &WorldView) -> (trees: Vec<Vec2>)
        ensures
            trees@ == standing_trees(self.trees@, view.felled_trees@, view.planted_trees@),
    {
        let mut trees: Vec<Vec2> = Vec::new();
        let mut i: usize = 0;
        while i < self.trees.len()
            invariant
                i <= self.trees@.len(),
                trees@ == kept_trees(self.trees@, view.felled_trees@, i as int),
            decreases self.trees@.len() - i,
        {
            if !names_tree(&view.felled_trees, i as u32) {
                trees.push(self.trees[i]);
            }
            i += 1;
        }
        let mut k: usize = 0;
        let ghost kept = trees@;
        while k < view.planted_trees.len()
            invariant
                k <= view.planted_trees@.len(),
                kept == kept_trees(self.trees@, view.felled_trees@, self.trees@.len() as int),
                trees@ == kept + view.planted_trees@.take(k as int),
            decreases view.planted_trees@.len() - k,
        {
            trees.push(view.planted_trees[k]);
            k += 1;
            assert(trees@ =~= kept + view.planted_trees@.take(k as int));
        }
        assert(view.planted_trees@.take(view.planted_trees@.len() as int) =~= view.planted_trees@);
        trees
    }

    /// The forest a match opened with.
    pub fn of(info: &MatchInfo) -> (forest: Forest)
        ensures
            forest.trees@ == info.trees@,
    {
        let mut trees: Vec<Vec2> = Vec::new();
        let mut i: usize = 0;
        while i < info.trees.len()
            invariant
                i <= info.trees@.len(),
                trees@ == info.trees@.take(i as int),
            decreases info.trees@.len() - i,
        {
            trees.push(info.trees[i]);
            i += 1;
            assert(trees@ =~= info.trees@.take(i as int));
        }
        assert(info.trees@.take(info.trees@.len() as int) =~= info.trees@);
        Forest { trees }
    }
}

} // verus!
