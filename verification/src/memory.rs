//! The window of past ticks a chooser is shown.
//!
//! Several ticks are shown at once rather than only the newest, because a
//! swing that has begun, a creep that is about to die and a creep that has
//! just died look the same in one frame. The frames are spaced by doubling
//! ages, half a second back, then one, two, four, eight and sixteen, so the
//! window reaches a quarter of a minute on seven frames.
//!
//! What is kept here is which ticks were seen; what each tick showed is kept
//! beside it by whoever holds the numbers, frame for frame.

use vstd::prelude::*;

verus! {

/// Ticks in a second, which is what the ages are reckoned in.
pub const A_SECOND: u32 = 30;

/// How many frames are shown at once.
pub const HISTORY: usize = 7;

/// How long before the tick being decided each frame was seen, in ticks,
/// oldest first. The last is nought: the tick itself.
pub const AGES: [u32; HISTORY] = [
    16 * A_SECOND,
    8 * A_SECOND,
    4 * A_SECOND,
    2 * A_SECOND,
    A_SECOND,
    A_SECOND / 2,
    0,
];

/// How far back the oldest frame reaches, in ticks.
pub const REMEMBERED: u32 = 16 * A_SECOND;

/// A tick taken back by some ticks, held at nought.
pub open spec fn back(at: u32, by: u32) -> u32 {
    if at >= by {
        (at - by) as u32
    } else {
        0
    }
}

/// The ticks kept once those aged out are dropped: the oldest goes while
/// the one after it is no newer than the oldest tick the window can reach,
/// since the oldest frame asks for the newest tick at or before it.
pub open spec fn pruned(seen: Seq<u32>, oldest: u32) -> Seq<u32>
    decreases seen.len(),
{
    if seen.len() > 1 && seen[1] <= oldest {
        pruned(seen.drop_first(), oldest)
    } else {
        seen
    }
}

/// What is kept never reaches further back than one tick beyond the oldest
/// the window asks for: after the first, every tick kept is newer than it.
pub proof fn lemma_what_is_kept_is_bounded(seen: Seq<u32>, oldest: u32)
    ensures
        pruned(seen, oldest).len() > 1 ==> pruned(seen, oldest)[1] > oldest,
        pruned(seen, oldest).len() <= seen.len(),
        seen.len() > 0 ==> pruned(seen, oldest).len() > 0 && pruned(seen, oldest).last() == seen.last(),
    decreases seen.len(),
{
    if seen.len() > 1 && seen[1] <= oldest {
        lemma_what_is_kept_is_bounded(seen.drop_first(), oldest);
    }
}

/// How many of the ticks seen are at or before a tick.
pub open spec fn seen_by(seen: Seq<u32>, wanted: u32) -> nat {
    seen.filter(|t: u32| t <= wanted).len()
}

/// Which of the ticks seen a frame shows: the newest at or before the tick
/// it asks for, for ticks seen in order, and the oldest seen when none is
/// that old.
pub open spec fn frame_at(seen: Seq<u32>, wanted: u32) -> int {
    if seen_by(seen, wanted) == 0 {
        0
    } else {
        seen_by(seen, wanted) - 1
    }
}

/// The ticks a chooser has been shown inside the window, oldest first.
#[derive(Clone, Debug)]
pub struct Memory {
    /// Every tick seen inside the window, and one from just beyond it.
    pub seen: Vec<u32>,
}

impl Memory {
    /// A memory of nothing.
    pub fn new() -> (memory: Memory)
        ensures
            memory.seen@.len() == 0,
    {
        Memory { seen: Vec::new() }
    }

    /// Forgets every tick, as a match begins.
    pub fn forget(&mut self)
        ensures
            final(self).seen@.len() == 0,
    {
        self.seen = Vec::new();
    }

    /// Takes a tick in, and drops what the window can no longer reach.
    pub fn remember(&mut self, at: u32)
        ensures
            final(self).seen@ == pruned(old(self).seen@.push(at), back(at, REMEMBERED)),
    {
        self.seen.push(at);
        let oldest = at.saturating_sub(REMEMBERED);
        let ghost all = self.seen@;
        let n = self.seen.len();
        assert(all.len() == n);
        let mut k: usize = 0;
        assert(all.skip(0) =~= all);
        while k + 1 < self.seen.len() && self.seen[k + 1] <= oldest
            invariant
                self.seen@ == all,
                k < all.len(),
                all.len() <= usize::MAX,
                oldest == back(at, REMEMBERED),
                pruned(all, oldest) == pruned(all.skip(k as int), oldest),
            decreases all.len() - k,
        {
            proof {
                let rest = all.skip(k as int);
                assert(rest[1] == all[k + 1]);
                assert(rest.drop_first() =~= all.skip(k + 1));
            }
            k += 1;
        }
        proof {
            let rest = all.skip(k as int);
            if rest.len() > 1 {
                assert(rest[1] == all[k + 1]);
            }
        }
        let mut kept: Vec<u32> = Vec::new();
        let mut i: usize = k;
        while i < self.seen.len()
            invariant
                self.seen@ == all,
                k <= i <= all.len(),
                kept@ == all.subrange(k as int, i as int),
            decreases all.len() - i,
        {
            kept.push(self.seen[i]);
            i += 1;
            assert(kept@ =~= all.subrange(k as int, i as int));
        }
        assert(all.subrange(k as int, all.len() as int) =~= all.skip(k as int));
        self.seen = kept;
    }

    /// Which of the ticks seen each frame shows, oldest frame first, for the
    /// tick being decided.
    pub fn frames(&self, at: u32) -> (frames: Vec<usize>)
        ensures
            frames@.len() == HISTORY,
            forall|i: int| 0 <= i < HISTORY ==> frames@[i] == frame_at(self.seen@, back(at, #[trigger] AGES@[i])),
    {
        let mut frames: Vec<usize> = Vec::new();
        let mut a: usize = 0;
        while a < HISTORY
            invariant
                a <= HISTORY,
                frames@.len() == a,
                forall|i: int| 0 <= i < a ==> frames@[i] == frame_at(self.seen@, back(at, #[trigger] AGES@[i])),
            decreases HISTORY - a,
        {
            let wanted = at.saturating_sub(AGES[a]);
            let ghost test = |t: u32| t <= wanted;
            let mut count: usize = 0;
            let mut j: usize = 0;
            while j < self.seen.len()
                invariant
                    j <= self.seen@.len(),
                    test == (|t: u32| t <= wanted),
                    count == self.seen@.take(j as int).filter(test).len(),
                    count <= j,
                decreases self.seen@.len() - j,
            {
                proof {
                    assert(self.seen@.take(j as int + 1) =~= self.seen@.take(j as int).push(self.seen@[j as int]));
                    self.seen@.take(j as int).lemma_filter_push(self.seen@[j as int], test);
                }
                if self.seen[j] <= wanted {
                    count += 1;
                }
                j += 1;
            }
            assert(self.seen@.take(self.seen@.len() as int) =~= self.seen@);
            frames.push(if count == 0 { 0 } else { count - 1 });
            a += 1;
        }
        frames
    }

    /// The tick each frame shows, oldest frame first. Nothing before any
    /// tick has been seen.
    pub fn frame_ticks(&self, at: u32) -> (ticks: Vec<u32>)
        ensures
            self.seen@.len() == 0 ==> ticks@.len() == 0,
            self.seen@.len() > 0 ==> ticks@.len() == HISTORY && forall|i: int|
                0 <= i < HISTORY ==> ticks@[i] == self.seen@[frame_at(self.seen@, back(at, #[trigger] AGES@[i]))],
    {
        let mut ticks: Vec<u32> = Vec::new();
        if self.seen.len() == 0 {
            return ticks;
        }
        let frames = self.frames(at);
        let mut i: usize = 0;
        while i < HISTORY
            invariant
                i <= HISTORY,
                self.seen@.len() > 0,
                frames@.len() == HISTORY,
                forall|k: int| 0 <= k < HISTORY ==> frames@[k] == frame_at(self.seen@, back(at, #[trigger] AGES@[k])),
                ticks@.len() == i,
                forall|k: int| 0 <= k < i ==> ticks@[k] == self.seen@[frame_at(self.seen@, back(at, #[trigger] AGES@[k]))],
            decreases HISTORY - i,
        {
            proof {
                let wanted = back(at, AGES@[i as int]);
                self.seen@.lemma_filter_len(|t: u32| t <= wanted);
            }
            let f = frames[i];
            ticks.push(self.seen[f]);
            i += 1;
        }
        ticks
    }
}

} // verus!
