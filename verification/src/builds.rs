//! Whether a shop's builds bottom out.
//!
//! Rows are settled one by one: a row is settled once every row selling one
//! of its parts is. When a whole pass settles nothing more, either every row
//! is settled, and the order they were settled in ranks every part below
//! what it goes into, or some row never can be, and no ranking exists.

use vstd::prelude::*;

use crate::proto::{ItemId, ShopEntry};
use crate::shop::{ranked_by, well_founded, Stall};

verus! {

/// How many of a row of flags are up.
pub open spec fn trues(s: Seq<bool>) -> nat
    decreases s.len(),
{
    if s.len() == 0 {
        0
    } else {
        trues(s.drop_last()) + if s.last() {
            1nat
        } else {
            0nat
        }
    }
}

/// No more flags are up than there are flags.
proof fn lemma_trues_bound(s: Seq<bool>)
    ensures
        trues(s) <= s.len(),
    decreases s.len(),
{
    if s.len() > 0 {
        lemma_trues_bound(s.drop_last());
    }
}

/// Raising a flag that was down counts one more.
proof fn lemma_trues_raise(s: Seq<bool>, i: int)
    requires
        0 <= i < s.len(),
        !s[i],
    ensures
        trues(s.update(i, true)) == trues(s) + 1,
    decreases s.len(),
{
    let t = s.update(i, true);
    if i == s.len() - 1 {
        assert(t.drop_last() =~= s.drop_last());
    } else {
        assert(t.drop_last() =~= s.drop_last().update(i, true));
        lemma_trues_raise(s.drop_last(), i);
    }
}

/// Flags that are all up count as many as there are; a flag down counts
/// fewer.
proof fn lemma_trues_full(s: Seq<bool>)
    ensures
        (forall|k: int| 0 <= k < s.len() ==> s[k]) <==> trues(s) == s.len(),
    decreases s.len(),
{
    if s.len() > 0 {
        lemma_trues_full(s.drop_last());
        lemma_trues_bound(s.drop_last());
        if forall|k: int| 0 <= k < s.len() ==> s[k] {
            assert forall|k: int| 0 <= k < s.drop_last().len() implies s.drop_last()[k] by {
                assert(s[k]);
            }
        } else {
            let k = choose|k: int| 0 <= k < s.len() && !s[k];
            if k < s.len() - 1 {
                assert(!s.drop_last()[k]);
            }
        }
    }
}

/// Whether every row selling one of a row's parts is settled.
pub open spec fn parts_settled(entries: Seq<ShopEntry>, settled: Seq<bool>, i: int) -> bool {
    forall|t: int, j: int|
        #![trigger entries[i].components@[t], settled[j]]
        0 <= t < entries[i].components@.len() && 0 <= j < entries.len() && entries[j].id
            == entries[i].components@[t] ==> settled[j]
}

/// Whether every settled row was settled after every row selling one of its
/// parts, by the stamps they were settled at, all before the clock.
spec fn stamped(entries: Seq<ShopEntry>, settled: Seq<bool>, stamp: Seq<nat>, clock: nat) -> bool {
    &&& settled.len() == entries.len()
    &&& stamp.len() == entries.len()
    &&& forall|i: int| 0 <= i < entries.len() && settled[i] ==> stamp[i] < clock
    &&& forall|i: int, t: int, j: int|
        #![trigger settled[i], entries[i].components@[t], stamp[j]]
        0 <= i < entries.len() && settled[i] && 0 <= t < entries[i].components@.len() && 0 <= j
            < entries.len() && entries[j].id == entries[i].components@[t] ==> settled[j] && stamp[j]
            < stamp[i]
}

/// One past the latest stamp among the first rows selling an item, nought
/// when none does.
spec fn stamp_rank(entries: Seq<ShopEntry>, stamp: Seq<nat>, x: ItemId, k: int) -> nat
    decreases k,
{
    if k <= 0 {
        0
    } else {
        let below = stamp_rank(entries, stamp, x, k - 1);
        if entries[k - 1].id == x && stamp[k - 1] + 1 > below {
            (stamp[k - 1] + 1) as nat
        } else {
            below
        }
    }
}

/// The rank stays at or below a stamp that every row selling the item is
/// stamped before.
proof fn lemma_stamp_rank_upper(
    entries: Seq<ShopEntry>,
    stamp: Seq<nat>,
    x: ItemId,
    k: int,
    s: nat,
)
    requires
        0 <= k <= entries.len(),
        forall|j: int| 0 <= j < k && entries[j].id == x ==> stamp[j] < s,
    ensures
        stamp_rank(entries, stamp, x, k) <= s,
    decreases k,
{
    if k > 0 {
        lemma_stamp_rank_upper(entries, stamp, x, k - 1, s);
    }
}

/// The rank lies past the stamp of every row selling the item.
proof fn lemma_stamp_rank_lower(entries: Seq<ShopEntry>, stamp: Seq<nat>, x: ItemId, k: int, j: int)
    requires
        0 <= j < k <= entries.len(),
        entries[j].id == x,
    ensures
        stamp_rank(entries, stamp, x, k) >= stamp[j] + 1,
    decreases k,
{
    if j < k - 1 {
        lemma_stamp_rank_lower(entries, stamp, x, k - 1, j);
    }
}

/// With every row settled, the stamps rank every part below what it goes
/// into.
proof fn lemma_settled_is_founded(entries: Seq<ShopEntry>, settled: Seq<bool>, stamp: Seq<nat>, clock: nat)
    requires
        stamped(entries, settled, stamp, clock),
        forall|k: int| 0 <= k < entries.len() ==> settled[k],
    ensures
        well_founded(entries),
{
    let n = entries.len() as int;
    let rank = |x: ItemId| stamp_rank(entries, stamp, x, n);
    assert forall|i: int, t: int|
        0 <= i < entries.len() && 0 <= t < entries[i].components@.len() implies rank(
        #[trigger] entries[i].components@[t],
    ) < rank(entries[i].id) by {
        let part = entries[i].components@[t];
        assert(settled[i]);
        assert forall|j: int| 0 <= j < n && entries[j].id == part implies stamp[j] < stamp[i] by {
            assert(settled[j] && stamp[j] < stamp[i]);
        }
        lemma_stamp_rank_upper(entries, stamp, part, n, stamp[i]);
        lemma_stamp_rank_lower(entries, stamp, entries[i].id, n, i);
    }
    assert(ranked_by(entries, rank));
}

/// With every row left unsettled waiting on another unsettled row, no
/// ranking puts a row left unsettled below any bound.
proof fn lemma_stuck_rows_rank_high(
    entries: Seq<ShopEntry>,
    settled: Seq<bool>,
    rank: spec_fn(ItemId) -> nat,
    m: nat,
)
    requires
        settled.len() == entries.len(),
        ranked_by(entries, rank),
        forall|i: int|
            0 <= i < entries.len() && !settled[i] ==> !#[trigger] parts_settled(entries, settled, i),
    ensures
        forall|i: int| 0 <= i < entries.len() && !settled[i] ==> rank(#[trigger] entries[i].id) >= m,
    decreases m,
{
    if m > 0 {
        lemma_stuck_rows_rank_high(entries, settled, rank, (m - 1) as nat);
        assert forall|i: int| 0 <= i < entries.len() && !settled[i] implies rank(
            #[trigger] entries[i].id,
        ) >= m by {
            assert(!parts_settled(entries, settled, i));
            let (t, j) = choose|t: int, j: int|
                0 <= t < entries[i].components@.len() && 0 <= j < entries.len() && entries[j].id
                    == entries[i].components@[t] && !settled[j];
            assert(rank(entries[i].components@[t]) < rank(entries[i].id));
            assert(rank(entries[j].id) >= m - 1);
        }
    }
}

/// A row that can never be settled shows the shop unfounded.
proof fn lemma_stuck_is_unfounded(entries: Seq<ShopEntry>, settled: Seq<bool>, i0: int)
    requires
        settled.len() == entries.len(),
        0 <= i0 < entries.len(),
        !settled[i0],
        forall|i: int|
            0 <= i < entries.len() && !settled[i] ==> !#[trigger] parts_settled(entries, settled, i),
    ensures
        !well_founded(entries),
{
    if well_founded(entries) {
        let rank = choose|rank: spec_fn(ItemId) -> nat| ranked_by(entries, rank);
        lemma_stuck_rows_rank_high(entries, settled, rank, rank(entries[i0].id) + 1);
        assert(rank(entries[i0].id) >= rank(entries[i0].id) + 1);
    }
}

/// Whether every row selling one of a row's parts is settled.
fn parts_are_settled(entries: &Vec<ShopEntry>, settled: &Vec<bool>, i: usize) -> (all: bool)
    requires
        settled@.len() == entries@.len(),
        i < entries@.len(),
    ensures
        all == parts_settled(entries@, settled@, i as int),
{
    let parts = &entries[i].components;
    let mut t: usize = 0;
    while t < parts.len()
        invariant
            settled@.len() == entries@.len(),
            i < entries@.len(),
            parts@ == entries@[i as int].components@,
            t <= parts@.len(),
            forall|t2: int, j: int|
                #![trigger entries@[i as int].components@[t2], settled@[j]]
                0 <= t2 < t && 0 <= j < entries@.len() && entries@[j].id
                    == entries@[i as int].components@[t2] ==> settled@[j],
        decreases parts@.len() - t,
    {
        let part = parts[t];
        let mut j: usize = 0;
        while j < entries.len()
            invariant
                settled@.len() == entries@.len(),
                i < entries@.len(),
                parts@ == entries@[i as int].components@,
                t < parts@.len(),
                part == parts@[t as int],
                j <= entries@.len(),
                forall|t2: int, j2: int|
                    #![trigger entries@[i as int].components@[t2], settled@[j2]]
                    0 <= t2 < t && 0 <= j2 < entries@.len() && entries@[j2].id
                        == entries@[i as int].components@[t2] ==> settled@[j2],
                forall|j2: int| 0 <= j2 < j && entries@[j2].id == part ==> #[trigger] settled@[j2],
            decreases entries@.len() - j,
        {
            if entries[j].id == part && !settled[j] {
                assert(entries@[i as int].components@[t as int] == part);
                assert(!settled@[j as int]);
                return false;
            }
            j += 1;
        }
        t += 1;
    }
    true
}

impl Stall {
    /// Whether no item of the shop is built, however deep, out of itself.
    pub fn bottoms_out(&self) -> (sound: bool)
        ensures
            sound == well_founded(self.entries@),
    {
        let n = self.entries.len();
        let ghost e = self.entries@;
        let mut settled: Vec<bool> = Vec::new();
        while settled.len() < n
            invariant
                settled@.len() <= n,
                forall|k: int| 0 <= k < settled@.len() ==> !settled@[k],
            decreases n - settled@.len(),
        {
            settled.push(false);
        }
        proof {
            assert(trues(settled@) == 0) by {
                lemma_trues_full(settled@);
                lemma_trues_bound(settled@);
                if trues(settled@) > 0 {
                    lemma_trues_zero(settled@);
                }
            }
        }
        let ghost mut stamp: Seq<nat> = Seq::new(n as nat, |k: int| 0nat);
        let ghost mut clock: nat = 0;
        let mut done: usize = 0;
        let mut going = true;
        while going
            invariant
                e == self.entries@,
                n == e.len(),
                stamped(e, settled@, stamp, clock),
                done == trues(settled@),
                done <= n,
                !going ==> forall|k: int|
                    0 <= k < n && !settled@[k] ==> !#[trigger] parts_settled(e, settled@, k),
            decreases 2 * (n - done) + if going {
                1int
            } else {
                0int
            },
        {
            let mut progressed = false;
            let ghost start = done;
            let mut i: usize = 0;
            while i < n
                invariant
                    e == self.entries@,
                    n == e.len(),
                    stamped(e, settled@, stamp, clock),
                    done == trues(settled@),
                    done <= n,
                    start <= done,
                    progressed ==> start < done,
                    i <= n,
                    !progressed ==> forall|k: int|
                        0 <= k < i && !settled@[k] ==> !#[trigger] parts_settled(e, settled@, k),
                decreases n - i,
            {
                if !settled[i] && parts_are_settled(&self.entries, &settled, i) {
                    proof {
                        lemma_settle(e, settled@, stamp, clock, i as int);
                        lemma_trues_raise(settled@, i as int);
                        lemma_trues_bound(settled@.update(i as int, true));
                        stamp = stamp.update(i as int, clock);
                        clock = clock + 1;
                    }
                    settled.set(i, true);
                    done += 1;
                    progressed = true;
                }
                i += 1;
            }
            if !progressed {
                going = false;
            }
        }
        proof {
            lemma_trues_full(settled@);
        }
        if done == n {
            proof {
                lemma_settled_is_founded(e, settled@, stamp, clock);
            }
            true
        } else {
            proof {
                let i0 = choose|k: int| 0 <= k < n && !settled@[k];
                lemma_stuck_is_unfounded(e, settled@, i0);
            }
            false
        }
    }
}

/// Flags all down count nought.
proof fn lemma_trues_zero(s: Seq<bool>)
    requires
        forall|k: int| 0 <= k < s.len() ==> !s[k],
    ensures
        trues(s) == 0,
    decreases s.len(),
{
    if s.len() > 0 {
        lemma_trues_zero(s.drop_last());
    }
}

/// What being stamped says of one settled row and one row selling one of
/// its parts.
proof fn lemma_stamped_at(
    entries: Seq<ShopEntry>,
    settled: Seq<bool>,
    stamp: Seq<nat>,
    clock: nat,
    k: int,
    t: int,
    j: int,
)
    requires
        stamped(entries, settled, stamp, clock),
        0 <= k < entries.len(),
        settled[k],
        0 <= t < entries[k].components@.len(),
        0 <= j < entries.len(),
        entries[j].id == entries[k].components@[t],
    ensures
        settled[j],
        stamp[j] < stamp[k],
{
    assert(settled[k] && entries[k].components@[t] == entries[j].id && stamp[j] == stamp[j]);
}

/// Settling a row whose parts are all settled, at the clock, keeps every
/// settled row stamped after the rows selling its parts.
proof fn lemma_settle(entries: Seq<ShopEntry>, settled: Seq<bool>, stamp: Seq<nat>, clock: nat, i: int)
    requires
        stamped(entries, settled, stamp, clock),
        0 <= i < entries.len(),
        !settled[i],
        parts_settled(entries, settled, i),
    ensures
        stamped(entries, settled.update(i, true), stamp.update(i, clock), clock + 1),
{
    let s2 = settled.update(i, true);
    let st2 = stamp.update(i, clock);
    let n = entries.len() as int;
    assert forall|k: int| 0 <= k < n && s2[k] implies st2[k] < clock + 1 by {
        if k != i {
            assert(settled[k]);
        }
    }
    assert forall|k: int, t: int, j: int|
        #![trigger s2[k], entries[k].components@[t], st2[j]]
        #![trigger s2[k], entries[k].components@[t], s2[j]]
        0 <= k < n && s2[k] && 0 <= t < entries[k].components@.len() && 0 <= j < n
            && entries[j].id == entries[k].components@[t] implies s2[j] && st2[j] < st2[k] by {
        if k == i {
            assert(settled[j]);
            assert(stamp[j] < clock);
        } else {
            lemma_stamped_at(entries, settled, stamp, clock, k, t, j);
        }
    }
}

} // verus!
