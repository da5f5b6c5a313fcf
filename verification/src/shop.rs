//! What the bot buys, and how what it buys reaches its hands.
//!
//! Prices and parts are read off the terms of the match rather than written
//! out here: the wire carries both, so the one thing the bot has to know of
//! itself is which items it wants and in what order.
//!
//! The list is parts rather than builds. An order to buy a built item is
//! turned down unless the whole of its price is in hand, while the server
//! puts a build together on its own the moment its parts are in the bag —
//! so buying the parts spends gold as it arrives.

use vstd::prelude::*;

use crate::numbers::{
    BELT, BOOTS, BRANCH, BROADSWORD, CIRCLET, CLARITY, COURIER_BATCH, COURIER_PATIENCE, DELIVER,
    ERRAND_TICKS, FIGHT_RANGE, TAKE_STASH, GAUNTLETS, GLOVES, MAGIC_STICK, MANTLE,
    QUARTERSTAFF, RECIPE_BRACER, RECIPE_MAGIC_WAND, RECIPE_NULL_TALISMAN, RECIPE_WRAITH_BAND,
    SAGES_MASK, SALVE, SCROLL, SHADOW_FIEND, SLIPPERS, SPARE_SLOTS, SYLLA, TANGO,
};
use crate::ask::Ask;
use crate::field::{
    deref, first_where, gold_in, has_ability, lemma_first_where, lemma_nowhere, unrefs,
    within_reach, worn, Field,
};
use crate::proto::{
    AbilityId, AbilitySlot, AbilityView, HeroId, ItemId, ItemView, MatchInfo, Order, PlayerView, ShopEntry,
    Target, UnitView,
};

verus! {

/// The consumables the bot buys.
///
/// What an item is does not cross the wire, so the ones that are spent by
/// using them are named here. Their place in a list is where restocking
/// happens: drunk, a stack stops being held, and the next walk of the list
/// finds it wanting again.
pub const CONSUMABLES: [u16; 4] = [TANGO, CLARITY, SALVE, SCROLL];

/// Shadow Fiend's list: the drink first, then everything that answers the
/// one thing he runs out of — a talisman and a mask for the mana, a wand for
/// both pools — and plain damage last.
///
/// A raze costs the better part of a hundred mana against a pool that mends
/// some two a second, so what is bought is mana before damage. Nothing is
/// bought that no want on the ladder reaches for.
pub const FIEND_GOODS: [u16; 16] = [
    TANGO,
    CLARITY,
    SCROLL,
    BRANCH,
    BRANCH,
    CIRCLET,
    MANTLE,
    RECIPE_NULL_TALISMAN,
    SAGES_MASK,
    SALVE,
    BOOTS,
    MAGIC_STICK,
    RECIPE_MAGIC_WAND,
    GLOVES,
    BELT,
    BROADSWORD,
];

/// Sylla's list: a band for the agility, a wand, treads, then plain damage.
pub const SYLLA_GOODS: [u16; 16] = [
    TANGO,
    CLARITY,
    SCROLL,
    BRANCH,
    BRANCH,
    CIRCLET,
    SLIPPERS,
    RECIPE_WRAITH_BAND,
    SALVE,
    BOOTS,
    MAGIC_STICK,
    RECIPE_MAGIC_WAND,
    GLOVES,
    BELT,
    BROADSWORD,
    QUARTERSTAFF,
];

/// What a hero with no list of its own buys.
pub const PLAIN_GOODS: [u16; 14] = [
    TANGO,
    CLARITY,
    SCROLL,
    BRANCH,
    BRANCH,
    SALVE,
    BOOTS,
    MAGIC_STICK,
    RECIPE_MAGIC_WAND,
    GLOVES,
    BELT,
    CIRCLET,
    GAUNTLETS,
    RECIPE_BRACER,
];

/// Whether an item is one that is spent by using it.
pub open spec fn consumable(item: ItemId) -> bool {
    item.0 == TANGO || item.0 == CLARITY || item.0 == SALVE || item.0 == SCROLL
}

/// Whether an item is one that is spent by using it.
pub fn is_consumable(item: ItemId) -> (spent: bool)
    ensures
        spent == consumable(item),
        spent == CONSUMABLES@.contains(item.0),
{
    let mut i: usize = 0;
    assert(CONSUMABLES@ == seq![TANGO, CLARITY, SALVE, SCROLL]);
    while i < CONSUMABLES.len()
        invariant
            i <= 4,
            CONSUMABLES@ == seq![TANGO, CLARITY, SALVE, SCROLL],
            forall|j: int| 0 <= j < i ==> CONSUMABLES@[j] != item.0,
        decreases 4 - i,
    {
        if CONSUMABLES[i] == item.0 {
            return true;
        }
        i += 1;
    }
    assert(!CONSUMABLES@.contains(item.0)) by {
        if CONSUMABLES@.contains(item.0) {
            let k = choose|k: int| 0 <= k < 4 && CONSUMABLES@[k] == item.0;
            assert(CONSUMABLES@[k] != item.0);
        }
    }
    false
}

/// What a hero wants to own, in the order it wants it.
pub open spec fn goods(hero: HeroId) -> Seq<u16> {
    if hero.0 == SHADOW_FIEND {
        FIEND_GOODS@
    } else if hero.0 == SYLLA {
        SYLLA_GOODS@
    } else {
        PLAIN_GOODS@
    }
}

/// The items a row of item numbers names.
pub open spec fn items_named(names: Seq<u16>) -> Seq<ItemId> {
    names.map_values(|n: u16| ItemId(n))
}

/// The items a row of numbers names, in the same order.
fn name_items(names: &[u16]) -> (items: Vec<ItemId>)
    ensures
        items@ == items_named(names@),
{
    let mut items: Vec<ItemId> = Vec::new();
    let mut i: usize = 0;
    while i < names.len()
        invariant
            i <= names@.len(),
            items@ == items_named(names@.take(i as int)),
        decreases names@.len() - i,
    {
        items.push(ItemId(names[i]));
        i += 1;
        assert(items_named(names@.take(i as int)) =~= items_named(names@.take(i - 1)).push(
            ItemId(names@[i - 1]),
        ));
    }
    assert(names@.take(names@.len() as int) =~= names@);
    items
}

/// What a hero wants to own, in the order it wants it.
pub fn shopping_list(hero: HeroId) -> (list: Vec<ItemId>)
    ensures
        list@ == items_named(goods(hero)),
{
    if hero.0 == SHADOW_FIEND {
        name_items(FIEND_GOODS.as_slice())
    } else if hero.0 == SYLLA {
        name_items(SYLLA_GOODS.as_slice())
    } else {
        name_items(PLAIN_GOODS.as_slice())
    }
}

/// The items a shop's rows sell, row by row.
pub open spec fn ids(entries: Seq<ShopEntry>) -> Seq<ItemId> {
    entries.map_values(|e: ShopEntry| e.id)
}

/// A place holding an item, with none before it that does, is the first.
proof fn lemma_first_place(items: Seq<ItemId>, item: ItemId, i: int)
    requires
        0 <= i < items.len(),
        items[i] == item,
        forall|j: int| 0 <= j < i ==> items[j] != item,
    ensures
        items.index_of_first(item) == Some(i),
{
    items.index_of_first_ensures(item);
    assert(items.contains(item)) by {
        assert(items[i] == item);
    }
    let k = items.index_of_first(item).unwrap();
    if k < i {
        assert(items[k] != item);
    }
    if i < k {
        assert(items[i] != item);
    }
}

/// The place of the first row of a shop that sells an item.
pub open spec fn row_of(entries: Seq<ShopEntry>, item: ItemId) -> Option<int> {
    ids(entries).index_of_first(item)
}

/// The first row of a shop that sells an item.
pub open spec fn entry_in(entries: Seq<ShopEntry>, item: ItemId) -> Option<ShopEntry> {
    match row_of(entries, item) {
        Some(i) => Some(entries[i]),
        None => None,
    }
}

/// What one item costs whole: nought for one the shop does not sell.
pub open spec fn cost_in(entries: Seq<ShopEntry>, item: ItemId) -> i32 {
    match entry_in(entries, item) {
        Some(e) => e.cost,
        None => 0,
    }
}

/// What one item is built from: nothing for one bought whole or not sold.
pub open spec fn parts_in(entries: Seq<ShopEntry>, item: ItemId) -> Seq<ItemId> {
    match entry_in(entries, item) {
        Some(e) => e.components@,
        None => Seq::empty(),
    }
}

/// Whether two rows of a shop say the same: the same items, at the same
/// prices, built from the same parts, in the same order.
pub open spec fn same_rows(one: Seq<ShopEntry>, other: Seq<ShopEntry>) -> bool {
    &&& ids(one) == ids(other)
    &&& forall|i: int|
        0 <= i < one.len() ==> (#[trigger] one[i]).cost == other[i].cost
            && one[i].components@ == other[i].components@
}

/// Two shops whose rows say the same name the same price and the same parts
/// for every item.
pub proof fn lemma_same_rows_same_prices(one: Seq<ShopEntry>, other: Seq<ShopEntry>, item: ItemId)
    requires
        same_rows(one, other),
    ensures
        cost_in(one, item) == cost_in(other, item),
        parts_in(one, item) == parts_in(other, item),
{
    assert(ids(one).len() == one.len() && ids(other).len() == other.len());
    ids(one).index_of_first_ensures(item);
    if let Some(i) = row_of(one, item) {
        assert(0 <= i < one.len());
        assert(one[i].cost == other[i].cost);
    }
}

/// Whether a ranking of items puts every part below the item it goes into.
pub open spec fn ranked_by(entries: Seq<ShopEntry>, rank: spec_fn(ItemId) -> nat) -> bool {
    forall|i: int, j: int|
        0 <= i < entries.len() && 0 <= j < entries[i].components@.len() ==> rank(
            #[trigger] entries[i].components@[j],
        ) < rank(entries[i].id)
}

/// Whether no item is built, however deep, out of itself: some ranking puts
/// every part below what it goes into.
pub open spec fn well_founded(entries: Seq<ShopEntry>) -> bool {
    exists|rank: spec_fn(ItemId) -> nat| ranked_by(entries, rank)
}

/// How deep an item is built, by one ranking that shows the shop well
/// founded.
pub open spec fn rank_in(entries: Seq<ShopEntry>, item: ItemId) -> nat {
    if well_founded(entries) {
        (choose|rank: spec_fn(ItemId) -> nat| ranked_by(entries, rank))(item)
    } else {
        0
    }
}

/// Every part of an item ranks below it.
pub proof fn lemma_parts_rank_lower(entries: Seq<ShopEntry>, item: ItemId, k: int)
    requires
        well_founded(entries),
        0 <= k < parts_in(entries, item).len(),
    ensures
        rank_in(entries, parts_in(entries, item)[k]) < rank_in(entries, item),
{
    let rank = choose|rank: spec_fn(ItemId) -> nat| ranked_by(entries, rank);
    assert(ranked_by(entries, rank));
    ids(entries).index_of_first_ensures(item);
    let i = row_of(entries, item).unwrap();
    assert(ids(entries)[i] == entries[i].id);
    assert(entries[i].components@[k] == parts_in(entries, item)[k]);
    assert(rank(entries[i].components@[k]) < rank(entries[i].id));
}

/// How many of one item went into another, the item itself counted.
pub open spec fn within(entries: Seq<ShopEntry>, held: ItemId, wanted: ItemId) -> nat
    decreases rank_in(entries, held) + 1, 0nat,
    when well_founded(entries)
{
    if held == wanted {
        1
    } else {
        within_first(entries, held, parts_in(entries, held).len(), wanted)
    }
}

/// How many of one item went into the first few parts of another.
pub open spec fn within_first(entries: Seq<ShopEntry>, parent: ItemId, k: nat, wanted: ItemId) -> nat
    decreases rank_in(entries, parent), k,
    when well_founded(entries) && k <= parts_in(entries, parent).len()
{
    if k == 0 {
        0
    } else {
        proof {
            lemma_parts_rank_lower(entries, parent, k - 1);
        }
        within_first(entries, parent, (k - 1) as nat, wanted) + within(
            entries,
            parts_in(entries, parent)[k - 1],
            wanted,
        )
    }
}

/// Counting over more of the parts never counts fewer.
proof fn lemma_within_first_grows(
    entries: Seq<ShopEntry>,
    parent: ItemId,
    a: nat,
    b: nat,
    wanted: ItemId,
)
    requires
        well_founded(entries),
        a <= b <= parts_in(entries, parent).len(),
    ensures
        within_first(entries, parent, a, wanted) <= within_first(entries, parent, b, wanted),
    decreases b,
{
    if a < b {
        lemma_within_first_grows(entries, parent, a, (b - 1) as nat, wanted);
    }
}

/// A part that goes into a build is counted within it at least once: a part
/// inside a build is still a part that was paid for.
pub proof fn lemma_a_part_is_within_its_build(entries: Seq<ShopEntry>, build: ItemId, k: int)
    requires
        well_founded(entries),
        0 <= k < parts_in(entries, build).len(),
    ensures
        within(entries, build, parts_in(entries, build)[k]) >= 1,
{
    let part = parts_in(entries, build)[k];
    if build != part {
        let n = parts_in(entries, build).len();
        lemma_within_first_grows(entries, build, (k + 1) as nat, n, part);
        assert(within(entries, part, part) == 1);
        assert(within_first(entries, build, (k + 1) as nat, part) == within_first(
            entries,
            build,
            k as nat,
            part,
        ) + within(entries, part, part));
    }
}

/// How many of an item a row of slots holds, the builds counted into.
pub open spec fn count_in(entries: Seq<ShopEntry>, slots: Seq<Option<ItemView>>, wanted: ItemId) -> nat
    decreases slots.len(),
{
    if slots.len() == 0 {
        0
    } else {
        count_in(entries, slots.drop_last(), wanted) + match slots.last() {
            Some(held) => within(entries, held.id, wanted),
            None => 0,
        }
    }
}

/// Counting over a longer start of a row never counts fewer.
proof fn lemma_count_grows(
    entries: Seq<ShopEntry>,
    slots: Seq<Option<ItemView>>,
    a: int,
    wanted: ItemId,
)
    requires
        0 <= a <= slots.len(),
    ensures
        count_in(entries, slots.take(a), wanted) <= count_in(entries, slots, wanted),
    decreases slots.len(),
{
    if a < slots.len() {
        assert(slots.drop_last().take(a) =~= slots.take(a));
        lemma_count_grows(entries, slots.drop_last(), a, wanted);
    } else {
        assert(slots.take(a) =~= slots);
    }
}

/// How many of an item a seat owns, wherever it sits: the bag of a standing
/// hero, what a fallen one left, the stash, and what the courier carries.
pub open spec fn held_count(
    entries: Seq<ShopEntry>,
    me: Option<UnitView>,
    seat: PlayerView,
    courier: Option<UnitView>,
    wanted: ItemId,
) -> nat {
    let bag = match me {
        Some(u) => count_in(entries, u.items@, wanted),
        None => 0,
    };
    let kit = match seat.kit {
        Some(k) => count_in(entries, k.items@, wanted),
        None => 0,
    };
    let stash = match seat.stash {
        Some(slots) => count_in(entries, slots@, wanted),
        None => 0,
    };
    let riding = match courier {
        Some(bird) => count_in(entries, bird.items@, wanted),
        None => 0,
    };
    bag + kit + stash + riding
}

/// Whatever a row of slots holds of an item counts: a slot holding it, or
/// a build it went into, adds to the count of the whole row at least what
/// it adds alone.
proof fn lemma_a_slot_counts(entries: Seq<ShopEntry>, slots: Seq<Option<ItemView>>, i: int, wanted: ItemId)
    requires
        0 <= i < slots.len(),
        slots[i] is Some,
    ensures
        count_in(entries, slots, wanted) >= count_in(entries, slots.take(i), wanted) + within(
            entries,
            slots[i]->0.id,
            wanted,
        ),
{
    lemma_count_grows(entries, slots, i + 1, wanted);
    assert(slots.take(i + 1).drop_last() =~= slots.take(i));
}

/// What the courier carries is owned: the seat's count of an item is what
/// the bag, a fallen hero's kit and the stash hold of it, and what the
/// courier carries on top, so a copy of the item on the courier is one more
/// owned than the seat would own without it.
pub proof fn lemma_what_the_courier_carries_is_owned(
    entries: Seq<ShopEntry>,
    me: Option<UnitView>,
    seat: PlayerView,
    bird: UnitView,
    wanted: ItemId,
)
    requires
        well_founded(entries),
    ensures
        held_count(entries, me, seat, Some(bird), wanted) == held_count(
            entries,
            me,
            seat,
            None,
            wanted,
        ) + count_in(entries, bird.items@, wanted),
        forall|i: int|
            0 <= i < bird.items@.len() && (#[trigger] bird.items@[i]) is Some
                && bird.items@[i]->0.id == wanted ==> held_count(entries, me, seat, Some(bird), wanted) >= held_count(
                entries,
                me,
                seat,
                None,
                wanted,
            ) + 1,
{
    assert forall|i: int|
        0 <= i < bird.items@.len() && (#[trigger] bird.items@[i]) is Some
            && bird.items@[i]->0.id == wanted implies held_count(entries, me, seat, Some(bird), wanted) >= held_count(
            entries,
            me,
            seat,
            None,
            wanted,
        ) + 1 by {
        lemma_a_slot_counts(entries, bird.items@, i, wanted);
    }
}

/// How many of the item at one place of a list the list names up to and
/// including that place: the second branch on a list is wanted as two.
pub open spec fn want_at(list: Seq<ItemId>, i: int) -> nat {
    list.take(i + 1).filter(|x: ItemId| x == list[i]).len()
}

/// Whether the walk of a list goes past the item at one place: as many of
/// it as the list wants by then are owned, or it is a consumable and there
/// is no room for one.
pub open spec fn stepped_over(
    entries: Seq<ShopEntry>,
    me: Option<UnitView>,
    seat: PlayerView,
    courier: Option<UnitView>,
    list: Seq<ItemId>,
    room: bool,
    i: int,
) -> bool {
    held_count(entries, me, seat, courier, list[i]) >= want_at(list, i) || (consumable(list[i])
        && !room)
}

/// Where the walk of a list, begun at one place, stops: the first place from
/// there that it does not go past.
pub open spec fn first_stop(
    entries: Seq<ShopEntry>,
    me: Option<UnitView>,
    seat: PlayerView,
    courier: Option<UnitView>,
    list: Seq<ItemId>,
    room: bool,
    from: int,
) -> Option<int>
    decreases list.len() - from,
{
    if from < 0 || from >= list.len() {
        None
    } else if !stepped_over(entries, me, seat, courier, list, room, from) {
        Some(from)
    } else {
        first_stop(entries, me, seat, courier, list, room, from + 1)
    }
}

/// Whether a working slot stands free beyond those kept spare.
pub open spec fn has_room(me: Option<UnitView>) -> bool {
    match me {
        Some(u) => worn(u.items@).filter(|s: Option<ItemView>| s is None).len() > SPARE_SLOTS,
        None => 0 > SPARE_SLOTS,
    }
}

/// The next thing on a hero's list, when there is gold for it: the first
/// thing the walk of the list stops at, if the gold in hand pays for it.
pub open spec fn next_buy_spec(entries: Seq<ShopEntry>, field: Field) -> Option<ItemId> {
    let list = items_named(goods(field.hero));
    let stop = first_stop(
        entries,
        deref(field.me),
        *field.seat,
        deref(field.courier),
        list,
        has_room(deref(field.me)),
        0,
    );
    match stop {
        Some(i) => if gold_in(*field.seat) >= cost_in(entries, list[i]) {
            Some(list[i])
        } else {
            None
        },
        None => None,
    }
}

/// Whether the held counts a walk of a hero's list weighs all fit the
/// width they are counted in.
pub open spec fn counts_fit(entries: Seq<ShopEntry>, field: Field) -> bool {
    forall|item: ItemId|
        items_named(goods(field.hero)).contains(item) ==> held_count(
            entries,
            deref(field.me),
            *field.seat,
            deref(field.courier),
            item,
        ) <= usize::MAX
}

/// How many of the item at one place a list names up to that place.
fn count_upto(list: &Vec<ItemId>, i: usize) -> (n: usize)
    requires
        i < list@.len(),
    ensures
        n == want_at(list@, i as int),
{
    let ghost same = |x: ItemId| x == list@[i as int];
    let total = list.len();
    let mut n: usize = 0;
    let mut j: usize = 0;
    while j <= i
        invariant
            j <= i + 1,
            i < list@.len(),
            total == list@.len(),
            same == (|x: ItemId| x == list@[i as int]),
            n == list@.take(j as int).filter(same).len(),
            n <= j,
        decreases i + 1 - j,
    {
        proof {
            assert(list@.take(j as int + 1) =~= list@.take(j as int).push(list@[j as int]));
            list@.take(j as int).lemma_filter_push(list@[j as int], same);
        }
        if list[j] == list[i] {
            n += 1;
        }
        j += 1;
    }
    n
}

/// The shop as the match described it.
#[derive(Clone, Debug, Default)]
pub struct Stall {
    /// Everything on sale, in item id order.
    pub entries: Vec<ShopEntry>,
}

/// A copy of a row of items.
fn copy_items(items: &Vec<ItemId>) -> (copy: Vec<ItemId>)
    ensures
        copy@ == items@,
{
    let mut copy: Vec<ItemId> = Vec::new();
    let mut i: usize = 0;
    while i < items.len()
        invariant
            i <= items@.len(),
            copy@ == items@.take(i as int),
        decreases items@.len() - i,
    {
        copy.push(items[i]);
        i += 1;
        assert(copy@ =~= items@.take(i as int));
    }
    assert(items@.take(items@.len() as int) =~= items@);
    copy
}

impl Stall {
    /// The shop a match opened with.
    pub fn of(info: &MatchInfo) -> (stall: Stall)
        ensures
            same_rows(stall.entries@, info.shop@),
    {
        let mut entries: Vec<ShopEntry> = Vec::new();
        let mut i: usize = 0;
        while i < info.shop.len()
            invariant
                i <= info.shop@.len(),
                entries@.len() == i,
                forall|j: int|
                    0 <= j < i ==> (#[trigger] entries@[j]).id == info.shop@[j].id
                        && entries@[j].cost == info.shop@[j].cost && entries@[j].components@
                        == info.shop@[j].components@,
            decreases info.shop@.len() - i,
        {
            let row = &info.shop[i];
            let components = copy_items(&row.components);
            entries.push(ShopEntry { id: row.id, cost: row.cost, components });
            i += 1;
        }
        assert(ids(entries@) =~= ids(info.shop@));
        Stall { entries }
    }

    /// One row of the shop.
    fn entry(&self, item: ItemId) -> (row: Option<&ShopEntry>)
        ensures
            match row {
                Some(e) => entry_in(self.entries@, item) == Some(*e),
                None => entry_in(self.entries@, item) is None,
            },
    {
        let ghost names = ids(self.entries@);
        let mut i: usize = 0;
        while i < self.entries.len()
            invariant
                i <= self.entries@.len(),
                names == ids(self.entries@),
                forall|j: int| 0 <= j < i ==> names[j] != item,
            decreases self.entries@.len() - i,
        {
            if self.entries[i].id == item {
                proof {
                    lemma_first_place(names, item, i as int);
                }
                return Some(&self.entries[i]);
            }
            i += 1;
        }
        proof {
            names.index_of_first_ensures(item);
            if names.contains(item) {
                let k = choose|k: int| 0 <= k < names.len() && names[k] == item;
                assert(names[k] != item);
            }
        }
        None
    }

    /// What one item costs whole. Nought for one the shop does not sell.
    pub fn cost_of(&self, item: ItemId) -> (cost: i32)
        ensures
            cost == cost_in(self.entries@, item),
    {
        match self.entry(item) {
            Some(e) => e.cost,
            None => 0,
        }
    }

    /// What one item is built from. Empty for one bought whole.
    pub fn parts_of(&self, item: ItemId) -> (parts: &[ItemId])
        ensures
            parts@ == parts_in(self.entries@, item),
    {
        match self.entry(item) {
            Some(e) => e.components.as_slice(),
            None => &[],
        }
    }

    /// How many of one item went into another, the item itself counted.
    ///
    /// A part that has gone into a build is still a part that was paid for.
    pub fn how_many_within(&self, held: ItemId, wanted: ItemId) -> (n: usize)
        requires
            well_founded(self.entries@),
            within(self.entries@, held, wanted) <= usize::MAX,
        ensures
            n == within(self.entries@, held, wanted),
        decreases rank_in(self.entries@, held),
    {
        if held == wanted {
            return 1;
        }
        let parts = self.parts_of(held);
        let ghost e = self.entries@;
        let mut total: usize = 0;
        let mut k: usize = 0;
        while k < parts.len()
            invariant
                e == self.entries@,
                well_founded(e),
                held != wanted,
                k <= parts@.len(),
                parts@ == parts_in(e, held),
                total == within_first(e, held, k as nat, wanted),
                within_first(e, held, parts@.len(), wanted) <= usize::MAX,
            decreases parts@.len() - k,
        {
            proof {
                lemma_parts_rank_lower(e, held, k as int);
                lemma_within_first_grows(e, held, (k + 1) as nat, parts@.len(), wanted);
            }
            let more = self.how_many_within(parts[k], wanted);
            total = total + more;
            k += 1;
        }
        total
    }

    /// How many of an item a row of slots holds, the builds counted into.
    pub fn how_many_in(&self, slots: &[Option<ItemView>], wanted: ItemId) -> (n: usize)
        requires
            well_founded(self.entries@),
            count_in(self.entries@, slots@, wanted) <= usize::MAX,
        ensures
            n == count_in(self.entries@, slots@, wanted),
    {
        let mut total: usize = 0;
        let mut i: usize = 0;
        while i < slots.len()
            invariant
                well_founded(self.entries@),
                i <= slots@.len(),
                total == count_in(self.entries@, slots@.take(i as int), wanted),
                count_in(self.entries@, slots@, wanted) <= usize::MAX,
            decreases slots@.len() - i,
        {
            proof {
                assert(slots@.take(i as int + 1).drop_last() =~= slots@.take(i as int));
                lemma_count_grows(self.entries@, slots@, i as int + 1, wanted);
            }
            match &slots[i] {
                Some(held) => {
                    let more = self.how_many_within(held.id, wanted);
                    total = total + more;
                },
                None => {},
            }
            i += 1;
        }
        assert(slots@.take(slots@.len() as int) =~= slots@);
        total
    }

    /// How many of an item the seat owns, wherever it sits: the bag, the
    /// stash, and whatever the courier is carrying.
    pub fn how_many_held(&self, field: &Field, wanted: ItemId) -> (n: usize)
        requires
            well_founded(self.entries@),
            held_count(self.entries@, deref(field.me), *field.seat, deref(field.courier), wanted)
                <= usize::MAX,
        ensures
            n == held_count(self.entries@, deref(field.me), *field.seat, deref(field.courier), wanted),
    {
        let bag = match field.me {
            Some(me) => self.how_many_in(me.items.as_slice(), wanted),
            None => 0,
        };
        let kit = match &field.seat.kit {
            Some(kit) => self.how_many_in(kit.items.as_slice(), wanted),
            None => 0,
        };
        let stash = match &field.seat.stash {
            Some(slots) => self.how_many_in(slots.as_slice(), wanted),
            None => 0,
        };
        let riding = match field.courier {
            Some(bird) => self.how_many_in(bird.items.as_slice(), wanted),
            None => 0,
        };
        // A standing hero carries its bag; a fallen one leaves it behind as a
        // kit. Only one of the two is ever there.
        bag + kit + stash + riding
    }

    /// The next thing on a hero's list, when there is gold for it.
    ///
    /// The list is walked in order and stops at the first thing not owned:
    /// skipping ahead to whatever is affordable spends on the tail of a list
    /// the gold its head was being saved for.
    ///
    /// A consumable with no working slot to go in is stepped over rather than
    /// stopped at. What holds it up is room, not gold, and gold that is not
    /// being saved for it should go on what comes next.
    pub fn next_buy(&self, field: &Field) -> (buy: Option<ItemId>)
        requires
            well_founded(self.entries@),
            counts_fit(self.entries@, *field),
        ensures
            buy == next_buy_spec(self.entries@, *field),
    {
        let room = field.free_slots() > SPARE_SLOTS;
        let list = shopping_list(field.hero);
        let ghost e = self.entries@;
        let ghost me = deref(field.me);
        let ghost seat = *field.seat;
        let ghost bird = deref(field.courier);
        let mut i: usize = 0;
        while i < list.len()
            invariant
                e == self.entries@,
                me == deref(field.me),
                seat == *field.seat,
                bird == deref(field.courier),
                well_founded(e),
                room == has_room(me),
                list@ == items_named(goods(field.hero)),
                forall|item: ItemId|
                    list@.contains(item) ==> held_count(e, me, seat, bird, item) <= usize::MAX,
                i <= list@.len(),
                first_stop(e, me, seat, bird, list@, room, 0) == first_stop(
                    e,
                    me,
                    seat,
                    bird,
                    list@,
                    room,
                    i as int,
                ),
            decreases list@.len() - i,
        {
            let item = list[i];
            let want = count_upto(&list, i);
            assert(list@.contains(item));
            if self.how_many_held(field, item) >= want {
                i += 1;
                continue;
            }
            if is_consumable(item) && !room {
                i += 1;
                continue;
            }
            return if field.gold() >= self.cost_of(item) {
                Some(item)
            } else {
                None
            };
        }
        None
    }
}


/// Whether a slot holds anything.
pub open spec fn is_filled() -> spec_fn(Option<ItemView>) -> bool {
    |slot: Option<ItemView>| slot is Some
}

/// How many slots of a row hold something.
pub open spec fn filled(slots: Seq<Option<ItemView>>) -> nat {
    slots.filter(is_filled()).len()
}

/// How many slots of a row hold something.
fn count_filled(slots: &[Option<ItemView>]) -> (n: usize)
    ensures
        n == filled(slots@),
{
    let ghost test = is_filled();
    let mut n: usize = 0;
    let mut i: usize = 0;
    while i < slots.len()
        invariant
            i <= slots@.len(),
            test == is_filled(),
            n == slots@.take(i as int).filter(test).len(),
            n <= i,
        decreases slots@.len() - i,
    {
        proof {
            assert(slots@.take(i as int + 1) =~= slots@.take(i as int).push(slots@[i as int]));
            slots@.take(i as int).lemma_filter_push(slots@[i as int], test);
        }
        if slots[i].is_some() {
            n += 1;
        }
        i += 1;
    }
    assert(slots@.take(slots@.len() as int) =~= slots@);
    n
}

/// How far one tick lies after another, nought for one before it.
pub open spec fn ticks_since(now: u32, then: u32) -> int {
    if now >= then {
        now - then
    } else {
        0
    }
}

/// The errand worth calling for, by what the courier carries, what waits in
/// the stash and since when: handing over whatever it carries, else taking
/// the stash once enough has piled up or the first has waited long enough.
pub open spec fn errand_wanted(carrying: nat, waiting: nat, since: Option<u32>, tick: u32) -> Option<
    u16,
> {
    let patience_out = since matches Some(at) && ticks_since(tick, at) >= COURIER_PATIENCE;
    if carrying > 0 {
        Some(DELIVER)
    } else if waiting >= COURIER_BATCH || (waiting > 0 && patience_out) {
        Some(TAKE_STASH)
    } else {
        None
    }
}

/// What waits in a seat's stash: nothing where the view does not show it.
pub open spec fn stash_waiting(seat: PlayerView) -> nat {
    match seat.stash {
        Some(slots) => filled(slots@),
        None => 0,
    }
}

/// Where in a row of ability slots the first holding an ability sits.
fn place_of_ability(book: &Vec<AbilityView>, id: u16) -> (at: Option<usize>)
    ensures
        match at {
            Some(i) => first_where(book@, has_ability(AbilityId(id))) == Some(i as int),
            None => first_where(book@, has_ability(AbilityId(id))) is None,
        },
{
    let ghost test = has_ability(AbilityId(id));
    let mut i: usize = 0;
    while i < book.len()
        invariant
            i <= book@.len(),
            test == has_ability(AbilityId(id)),
            forall|j: int| 0 <= j < i ==> !test(#[trigger] book@[j]),
        decreases book@.len() - i,
    {
        if book[i].id.0 == id {
            proof {
                lemma_first_where(book@, test, i as int);
            }
            return Some(i);
        }
        i += 1;
    }
    proof {
        lemma_nowhere(book@, test);
    }
    None
}

/// What the courier has been sent for, and when.
#[derive(Clone, Copy, Debug, PartialEq, Eq, Structural, Default)]
pub struct Errands {
    /// The tick an errand was last called for.
    sent_at: Option<u32>,
    /// The tick the stash stopped being empty.
    waiting_since: Option<u32>,
}

/// The errand worth calling for at a tick: none without a courier, while
/// one is under way, or with an enemy hero near; else handing over what the
/// courier carries, or taking the stash once it is worth a trip, cast from
/// the courier's first slot that holds it.
pub open spec fn errand_spec(errands: Errands, tick: u32, field: Field) -> Option<Ask> {
    match deref(field.courier) {
        None => None,
        Some(bird) => {
            let held_back = errands.sent() matches Some(at) && ticks_since(tick, at)
                < ERRAND_TICKS;
            let foes_near = within_reach(unrefs(field.enemies@), field.spot(), FIGHT_RANGE as int).len()
                > 0;
            if held_back || foes_near {
                None
            } else {
                match errand_wanted(
                    filled(bird.items@),
                    stash_waiting(*field.seat),
                    errands.waiting(),
                    tick,
                ) {
                    None => None,
                    Some(errand) => match first_where(bird.abilities@, has_ability(AbilityId(errand))) {
                        None => None,
                        Some(i) => Some(
                            Ask {
                                unit: Some(bird.id),
                                order: Order::Cast {
                                    slot: AbilitySlot(i as u8),
                                    target: Target::Nothing,
                                },
                            },
                        ),
                    },
                }
            }
        },
    }
}

/// An errand called for is not called for again until its ticks are up,
/// whatever the field shows meanwhile.
pub proof fn lemma_an_errand_under_way_is_left_alone(
    errands: Errands,
    sent: u32,
    tick: u32,
    field: Field,
)
    requires
        errands.sent() == Some(sent),
        sent <= tick,
        tick < sent + ERRAND_TICKS,
    ensures
        errand_spec(errands, tick, field) is None,
{
}

impl View for Errands {
    /// The tick an errand was last called for, and the tick the stash
    /// stopped being empty, while it has not been empty since.
    type V = (Option<u32>, Option<u32>);

    closed spec fn view(&self) -> (Option<u32>, Option<u32>) {
        (self.sent_at, self.waiting_since)
    }
}

impl Errands {
    /// The tick an errand was last called for.
    pub open spec fn sent(self) -> Option<u32> {
        self@.0
    }

    /// The tick the stash stopped being empty, while it has not been empty
    /// since.
    pub open spec fn waiting(self) -> Option<u32> {
        self@.1
    }

    /// A courier that has been sent nowhere.
    pub fn new() -> (errands: Errands)
        ensures
            errands.sent() is None,
            errands.waiting() is None,
    {
        Errands { sent_at: None, waiting_since: None }
    }

    /// Takes one tick in, keeping how long the stash has been waiting.
    pub fn watch(&mut self, tick: u32, field: &Field)
        ensures
            final(self).sent() == old(self).sent(),
            final(self).waiting() == if stash_waiting(*field.seat) == 0 {
                None
            } else {
                match old(self).waiting() {
                    Some(since) => Some(since),
                    None => Some(tick),
                }
            },
    {
        let waiting = match &field.seat.stash {
            Some(slots) => count_filled(slots.as_slice()) > 0,
            None => false,
        };
        if !waiting {
            self.waiting_since = None;
        } else if self.waiting_since.is_none() {
            self.waiting_since = Some(tick);
        }
    }

    /// The errand worth calling for this tick.
    ///
    /// A trip is not made for one item: it waits until [`COURIER_BATCH`] have
    /// piled up or the first has waited [`COURIER_PATIENCE`] ticks. It is
    /// held back entirely while an enemy hero stands near the seat's own
    /// hero, since a courier walks to where its owner stands.
    pub fn errand(&mut self, tick: u32, field: &Field) -> (ask: Option<Ask>)
        ensures
            ask == errand_spec(*old(self), tick, *field),
            final(self).sent() == if ask is Some {
                Some(tick)
            } else {
                old(self).sent()
            },
            final(self).waiting() == old(self).waiting(),
            ask is None ==> final(self)@ == old(self)@,
    {
        let bird = match field.courier {
            Some(bird) => bird,
            None => return None,
        };
        match self.sent_at {
            Some(at) => {
                if tick.saturating_sub(at) < ERRAND_TICKS {
                    return None;
                }
            },
            None => {},
        }
        if field.foes_within(FIGHT_RANGE).len() > 0 {
            return None;
        }
        let carrying = count_filled(bird.items.as_slice());
        let waiting = match &field.seat.stash {
            Some(slots) => count_filled(slots.as_slice()),
            None => 0,
        };
        let patience_out = match self.waiting_since {
            Some(at) => tick.saturating_sub(at) >= COURIER_PATIENCE,
            None => false,
        };
        let errand = if carrying > 0 {
            DELIVER
        } else if waiting >= COURIER_BATCH || (waiting > 0 && patience_out) {
            TAKE_STASH
        } else {
            return None;
        };
        match place_of_ability(&bird.abilities, errand) {
            Some(i) => {
                self.sent_at = Some(tick);
                Some(
                    Ask::of(
                        bird.id,
                        Order::Cast { slot: AbilitySlot(i as u8), target: Target::Nothing },
                    ),
                )
            },
            None => None,
        }
    }
}

} // verus!
