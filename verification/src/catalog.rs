//! What the client knows about abilities, items, effects and heroes, and
//! what the shop asks for an item by the rule the server charges by.
//!
//! Names and blurbs only: every number an entry is worth rides the wire, in
//! the views for what a unit holds and in the shop table for what a thing
//! costs before anybody holds it.
//!
//! One entry to a thing, found by the id the wire carries. Anything the view
//! already brings -- level, mana cost, cooldown left, charges left -- is read
//! from the view; what stands here is what the wire does not send.

use vstd::prelude::*;

use crate::field::{find_unit, unit_in};
use crate::proto::{ItemId, ItemView, PlayerView, ShopEntry, UnitView, WorldView};
use crate::shop::{cost_in, ids, lemma_parts_rank_lower, parts_in, rank_in, row_of, well_founded};

verus! {

/// What one item is built from, by id.
fn components_of(shop: &[ShopEntry], item: ItemId) -> (parts: &[ItemId])
    ensures
        parts@ == parts_in(shop@, item),
{
    let ghost names = ids(shop@);
    let mut i: usize = 0;
    while i < shop.len()
        invariant
            i <= shop@.len(),
            names == ids(shop@),
            forall|j: int| 0 <= j < i ==> names[j] != item,
        decreases shop@.len() - i,
    {
        if shop[i].id == item {
            proof {
                names.index_of_first_ensures(item);
                assert(names.contains(item)) by {
                    assert(names[i as int] == item);
                }
                let k = names.index_of_first(item).unwrap();
                if k < i {
                    assert(names[k] != item);
                }
                if i < k {
                    assert(names[i as int] != item);
                }
            }
            return shop[i].components.as_slice();
        }
        i += 1;
    }
    proof {
        names.index_of_first_ensures(item);
        if names.contains(item) {
            let k = choose|k: int| 0 <= k < names.len() && names[k] == item;
            assert(names[k] != item);
        }
    }
    &[]
}

/// What the shop asks for one item whole, before anything already in hand.
pub fn whole_price(shop: &[ShopEntry], item: ItemId) -> (price: i32)
    ensures
        price == cost_in(shop@, item),
{
    let ghost names = ids(shop@);
    let mut i: usize = 0;
    while i < shop.len()
        invariant
            i <= shop@.len(),
            names == ids(shop@),
            forall|j: int| 0 <= j < i ==> names[j] != item,
        decreases shop@.len() - i,
    {
        if shop[i].id == item {
            proof {
                names.index_of_first_ensures(item);
                assert(names.contains(item)) by {
                    assert(names[i as int] == item);
                }
                let k = names.index_of_first(item).unwrap();
                if k < i {
                    assert(names[k] != item);
                }
                if i < k {
                    assert(names[i as int] != item);
                }
            }
            return shop[i].cost;
        }
        i += 1;
    }
    proof {
        names.index_of_first_ensures(item);
        if names.contains(item) {
            let k = choose|k: int| 0 <= k < names.len() && names[k] == item;
            assert(names[k] != item);
        }
    }
    0
}

/// What one part still costs a seat holding some items, spending them as it
/// goes: a part in hand is spent and costs nothing; one bought whole is
/// wanted; a build is laid out part by part. The items left in hand come
/// first, what is wanted second.
pub open spec fn beyond(shop: Seq<ShopEntry>, item: ItemId, held: Seq<ItemId>) -> (
    Seq<ItemId>,
    Seq<ItemId>,
)
    decreases rank_in(shop, item) + 1, 0nat,
    when well_founded(shop)
{
    if held.contains(item) {
        (held.remove(held.index_of_first(item)->0), Seq::empty())
    } else if parts_in(shop, item).len() == 0 {
        (held, seq![item])
    } else {
        beyond_first(shop, item, parts_in(shop, item).len(), held)
    }
}

/// What the first few parts of an item still cost, laid out one after
/// another, each spending from what the ones before it left in hand.
pub open spec fn beyond_first(shop: Seq<ShopEntry>, parent: ItemId, k: nat, held: Seq<ItemId>) -> (
    Seq<ItemId>,
    Seq<ItemId>,
)
    decreases rank_in(shop, parent), k,
    when well_founded(shop) && k <= parts_in(shop, parent).len()
{
    if k == 0 {
        (held, Seq::empty())
    } else {
        proof {
            lemma_parts_rank_lower(shop, parent, k - 1);
        }
        let first = beyond_first(shop, parent, (k - 1) as nat, held);
        let last = beyond(shop, parts_in(shop, parent)[k - 1], first.0);
        (last.0, first.1 + last.1)
    }
}

/// What a seat holding some items still has to buy for one item: the item
/// itself when it is bought whole, however many are held; else whatever its
/// parts still need.
pub open spec fn wanted_for(shop: Seq<ShopEntry>, item: ItemId, held: Seq<ItemId>) -> Seq<ItemId> {
    if parts_in(shop, item).len() == 0 {
        seq![item]
    } else {
        beyond_first(shop, item, parts_in(shop, item).len(), held).1
    }
}

/// What a row of items costs, each whole.
pub open spec fn price_of(shop: Seq<ShopEntry>, wanted: Seq<ItemId>) -> int
    decreases wanted.len(),
{
    if wanted.len() == 0 {
        0
    } else {
        price_of(shop, wanted.drop_last()) + cost_in(shop, wanted.last())
    }
}

/// What is bought whole costs its whole price, however many of it are
/// already held.
pub proof fn lemma_a_whole_item_costs_its_price(shop: Seq<ShopEntry>, item: ItemId, held: Seq<ItemId>)
    requires
        parts_in(shop, item).len() == 0,
    ensures
        price_of(shop, wanted_for(shop, item, held)) == cost_in(shop, item),
{
    let one = seq![item];
    assert(wanted_for(shop, item, held) == one);
    assert(one.drop_last() =~= Seq::<ItemId>::empty());
    assert(price_of(shop, one.drop_last()) == 0);
    assert(one.last() == item);
}

/// Whether adding up the prices of a row of items, one at a time, never
/// leaves the width a price is kept in.
pub open spec fn adds_up(shop: Seq<ShopEntry>, wanted: Seq<ItemId>) -> bool {
    forall|n: int|
        0 <= n <= wanted.len() ==> i32::MIN <= #[trigger] price_of(shop, wanted.take(n))
            <= i32::MAX
}

/// The position of the first of a row of items that is a given one.
fn position_of(held: &Vec<ItemId>, item: ItemId) -> (at: Option<usize>)
    ensures
        match at {
            Some(i) => i < held@.len() && held@.contains(item) && held@.index_of_first(item) == Some(
                i as int,
            ),
            None => !held@.contains(item),
        },
{
    let mut i: usize = 0;
    while i < held.len()
        invariant
            i <= held@.len(),
            forall|j: int| 0 <= j < i ==> held@[j] != item,
        decreases held@.len() - i,
    {
        if held[i] == item {
            proof {
                held@.index_of_first_ensures(item);
                assert(held@.contains(item)) by {
                    assert(held@[i as int] == item);
                }
                let k = held@.index_of_first(item).unwrap();
                if k < i {
                    assert(held@[k] != item);
                }
                if i < k {
                    assert(held@[i as int] != item);
                }
            }
            return Some(i);
        }
        i += 1;
    }
    proof {
        if held@.contains(item) {
            let k = choose|k: int| 0 <= k < held@.len() && held@[k] == item;
            assert(held@[k] != item);
        }
    }
    None
}

/// Lays out what one part still costs, spending `held` as it goes.
fn parts_beyond(shop: &[ShopEntry], item: ItemId, held: &mut Vec<ItemId>, wanted: &mut Vec<ItemId>)
    requires
        well_founded(shop@),
    ensures
        final(held)@ == beyond(shop@, item, old(held)@).0,
        final(wanted)@ == old(wanted)@ + beyond(shop@, item, old(held)@).1,
    decreases rank_in(shop@, item),
{
    match position_of(held, item) {
        Some(at) => {
            held.remove(at);
            assert(wanted@ =~= wanted@ + Seq::<ItemId>::empty());
            return;
        },
        None => {},
    }
    let parts = components_of(shop, item);
    if parts.len() == 0 {
        wanted.push(item);
        return;
    }
    let ghost start = held@;
    let ghost before = wanted@;
    let mut k: usize = 0;
    assert(before =~= before + Seq::<ItemId>::empty());
    while k < parts.len()
        invariant
            well_founded(shop@),
            k <= parts@.len(),
            parts@ == parts_in(shop@, item),
            parts@.len() > 0,
            !start.contains(item),
            held@ == beyond_first(shop@, item, k as nat, start).0,
            wanted@ == before + beyond_first(shop@, item, k as nat, start).1,
        decreases parts@.len() - k,
    {
        proof {
            lemma_parts_rank_lower(shop@, item, k as int);
        }
        let ghost mid = wanted@;
        parts_beyond(shop, parts[k], held, wanted);
        proof {
            let first = beyond_first(shop@, item, k as nat, start);
            let last = beyond(shop@, parts@[k as int], first.0);
            assert(wanted@ =~= before + (first.1 + last.1));
        }
        k += 1;
    }
}

/// The items a row of slots holds, in slot order, empty slots skipped.
pub open spec fn ids_held(slots: Seq<Option<ItemView>>) -> Seq<ItemId>
    decreases slots.len(),
{
    if slots.len() == 0 {
        Seq::empty()
    } else {
        let before = ids_held(slots.drop_last());
        match slots.last() {
            Some(it) => before.push(it.id),
            None => before,
        }
    }
}

/// The bag of the body a seat drives, as the view shows it: empty while no
/// body of it is in sight.
pub open spec fn seat_bag(units: Seq<UnitView>, seat: PlayerView) -> Seq<Option<ItemView>> {
    match seat.unit {
        Some(id) => match unit_in(units, id) {
            Some(u) => u.items@,
            None => Seq::empty(),
        },
        None => Seq::empty(),
    }
}

/// The stash of a seat, as the view shows it: empty where it is not shown.
pub open spec fn seat_stash(seat: PlayerView) -> Seq<Option<ItemView>> {
    match seat.stash {
        Some(slots) => slots@,
        None => Seq::empty(),
    }
}

/// Appends the items a row of slots holds to what has been gathered.
fn gather(slots: &Vec<Option<ItemView>>, out: &mut Vec<ItemId>)
    ensures
        final(out)@ == old(out)@ + ids_held(slots@),
{
    let ghost start = out@;
    let mut i: usize = 0;
    assert(slots@.take(0) =~= Seq::<Option<ItemView>>::empty());
    assert(start + ids_held(Seq::empty()) =~= start);
    while i < slots.len()
        invariant
            i <= slots@.len(),
            out@ == start + ids_held(slots@.take(i as int)),
        decreases slots@.len() - i,
    {
        proof {
            assert(slots@.take(i as int + 1).drop_last() =~= slots@.take(i as int));
        }
        match &slots[i] {
            Some(it) => {
                out.push(it.id);
                assert(out@ =~= start + ids_held(slots@.take(i as int + 1)));
            },
            None => {
                assert(out@ =~= start + ids_held(slots@.take(i as int + 1)));
            },
        }
        i += 1;
    }
    assert(slots@.take(slots@.len() as int) =~= slots@);
}

/// Everything a seat holds, bag first, then stash, in slot order: what the
/// shop looks for in hand when it prices a build for that seat.
pub fn held_items(view: &WorldView, seat: &PlayerView) -> (held: Vec<ItemId>)
    ensures
        held@ == ids_held(seat_bag(view.units@, *seat)) + ids_held(seat_stash(*seat)),
{
    let mut held: Vec<ItemId> = Vec::new();
    let body = match seat.unit {
        Some(id) => find_unit(view, id),
        None => None,
    };
    match body {
        Some(u) => gather(&u.items, &mut held),
        None => {
            assert(ids_held(Seq::<Option<ItemView>>::empty()) =~= Seq::<ItemId>::empty());
        },
    }
    let ghost bag = held@;
    match &seat.stash {
        Some(slots) => gather(slots, &mut held),
        None => {
            assert(held@ =~= bag + ids_held(Seq::<Option<ItemView>>::empty()));
        },
    }
    held
}

/// What the shop asks a seat holding `held` for one item.
///
/// The rule the server charges by: what was asked for is bought however many
/// of it are already held, and only its parts are looked for in hand.
pub fn price_for(shop: &[ShopEntry], item: ItemId, held: &[ItemId]) -> (price: i32)
    requires
        well_founded(shop@),
        adds_up(shop@, wanted_for(shop@, item, held@)),
    ensures
        price == price_of(shop@, wanted_for(shop@, item, held@)),
{
    let mut spare: Vec<ItemId> = Vec::new();
    let mut i: usize = 0;
    while i < held.len()
        invariant
            i <= held@.len(),
            spare@ == held@.take(i as int),
        decreases held@.len() - i,
    {
        spare.push(held[i]);
        i += 1;
        assert(spare@ =~= held@.take(i as int));
    }
    assert(held@.take(held@.len() as int) =~= held@);
    let mut wanted: Vec<ItemId> = Vec::new();
    let parts = components_of(shop, item);
    if parts.len() == 0 {
        wanted.push(item);
        assert(wanted@ =~= seq![item]);
    } else {
        let mut k: usize = 0;
        while k < parts.len()
            invariant
                well_founded(shop@),
                k <= parts@.len(),
                parts@ == parts_in(shop@, item),
                spare@ == beyond_first(shop@, item, k as nat, held@).0,
                wanted@ == beyond_first(shop@, item, k as nat, held@).1,
            decreases parts@.len() - k,
        {
            proof {
                lemma_parts_rank_lower(shop@, item, k as int);
            }
            parts_beyond(shop, parts[k], &mut spare, &mut wanted);
            k += 1;
        }
    }
    let ghost list = wanted_for(shop@, item, held@);
    assert(wanted@ == list);
    let mut total: i32 = 0;
    let mut j: usize = 0;
    while j < wanted.len()
        invariant
            j <= wanted@.len(),
            wanted@ == list,
            adds_up(shop@, list),
            total == price_of(shop@, list.take(j as int)),
        decreases wanted@.len() - j,
    {
        let cost = whole_price(shop, wanted[j]);
        proof {
            assert(list.take(j as int + 1).drop_last() =~= list.take(j as int));
            assert(i32::MIN <= price_of(shop@, list.take(j as int + 1)) <= i32::MAX);
        }
        total = total + cost;
        j += 1;
    }
    assert(list.take(list.len() as int) =~= list);
    total
}


/// One ability, as the client shows and aims it.
#[derive(Clone, Copy, Debug, PartialEq, Eq)]
pub struct AbilityFace {
    /// The id it answers to on the wire.
    pub id: u16,
    /// Short name for the panel.
    pub name: &'static str,
    /// What it does, for the hover popup.
    pub blurb: &'static str,
    /// The drawing of it. Absent while there is none.
    pub icon: Option<&'static [u8]>,
}

/// One item, as the client shows and aims it.
#[derive(Clone, Copy, Debug, PartialEq, Eq)]
pub struct ItemFace {
    /// The id it answers to on the wire.
    pub id: u16,
    /// Short name for the panel and the shop.
    pub name: &'static str,
    /// Its one-line stats, for the shop row.
    pub stats: &'static str,
    /// What it does, for the hover popup.
    pub blurb: &'static str,
    /// The drawing of it. Absent while there is none.
    pub icon: Option<&'static [u8]>,
}

/// One timed effect, as the client shows it.
#[derive(Clone, Copy, Debug, PartialEq, Eq)]
pub struct EffectFace {
    /// The id it answers to on the wire.
    pub id: u16,
    /// Short name for the chip.
    pub name: &'static str,
    /// What it does, for the hover popup.
    pub blurb: &'static str,
    /// The drawing of it. Absent while there is none.
    pub icon: Option<&'static [u8]>,
}

/// One hero, as the client shows it.
#[derive(Clone, Copy, Debug, PartialEq, Eq)]
pub struct HeroFace {
    /// The id it answers to on the wire.
    pub id: u16,
    /// Its name, for the roster and the panel.
    pub name: &'static str,
    /// The drawing of it. Absent while there is none.
    pub icon: Option<&'static [u8]>,
}

/// How many abilities the catalog holds, in id order from nought.
pub const ABILITIES_KNOWN: u16 = 17;

/// The short name the panel shows an ability by.
pub open spec fn ability_name(id: u16) -> Seq<char> {
    if id == 0 {
        "Crit"@
    } else if id == 1 {
        "Frenzy"@
    } else if id == 2 {
        "Bounce"@
    } else if id == 3 {
        "Volley"@
    } else if id == 4 {
        "Hook"@
    } else if id == 5 {
        "Rot"@
    } else if id == 6 {
        "Heap"@
    } else if id == 7 {
        "Dismem"@
    } else if id == 8 {
        "Burst"@
    } else if id == 9 {
        "Return"@
    } else if id == 10 {
        "Stash"@
    } else if id == 11 {
        "Give"@
    } else if id == 12 {
        "Shield"@
    } else if id == 13 {
        "Raze 1"@
    } else if id == 14 {
        "Raze 2"@
    } else if id == 15 {
        "Raze 3"@
    } else if id == 16 {
        "Requiem"@
    } else {
        Seq::empty()
    }
}

/// What the panel says an ability does, by its wire id.
pub open spec fn ability_blurb(id: u16) -> Seq<char> {
    if id == 0 {
        "Passive. 20/25/30/35% chance to strike for 175/200/225/250% damage."@
    } else if id == 1 {
        "No target. +20/28/36/44% attack speed for 6 s. 30/40/50/60 mana."@
    } else if id == 2 {
        "Enemy target, range 550. 70/140/210/280 magic damage, then jumps to the 2/4/6/8 nearest new enemies."@
    } else if id == 3 {
        "Ultimate, no target. An attack at 80/100/120% damage flies at every enemy within 700."@
    } else if id == 4 {
        "Point target, range 1100. Catches the first unit in its way, drags it back and deals 90/180/270/360 pure damage."@
    } else if id == 5 {
        "Toggle. Burns everything within 250 for 30/60/90/120 a second and slows it, its owner included, but never kills its owner."@
    } else if id == 6 {
        "Passive. Magic resistance, and health for every death near you."@
    } else if id == 7 {
        "Ultimate, enemy target, range 150. Holds it for 3 s, eating it and healing you."@
    } else if id == 8 {
        "No target. The courier flies 50% faster for 6 s. 120 s wait."@
    } else if id == 9 {
        "No target. The courier puts what it holds back in the stash, then goes home."@
    } else if id == 10 {
        "No target. The courier takes what waits in your stash and carries it to you."@
    } else if id == 11 {
        "No target. The courier carries what it holds to you, then goes home."@
    } else if id == 12 {
        "No target. Nothing gets through to the courier for 2 s. 200 s wait."@
    } else if id == 13 {
        "Point target. Burns everything within 250 of a spot 200 ahead for 90/160/230/300 magic damage. 10 s wait."@
    } else if id == 14 {
        "Point target. Burns everything within 250 of a spot 450 ahead for 90/160/230/300 magic damage. 10 s wait."@
    } else if id == 15 {
        "Point target. Burns everything within 250 of a spot 700 ahead for 90/160/230/300 magic damage. 10 s wait."@
    } else if id == 16 {
        "Ultimate, no target. Every enemy within 900 takes 8/11/14 magic damage per soul held and is slowed for 2 s. The souls are kept."@
    } else {
        Seq::empty()
    }
}

/// The ability of that id, or nothing for one the catalog does not hold.
pub fn ability(id: u16) -> (face: Option<AbilityFace>)
    ensures
        match face {
            Some(f) => {
                &&& id < ABILITIES_KNOWN
                &&& f.id == id
                &&& f.name@ == ability_name(id)
                &&& f.blurb@ == ability_blurb(id)
                &&& f.icon is None
            },
            None => id >= ABILITIES_KNOWN,
        },
{
    match id {
        0 => Some(AbilityFace {
            id: 0,
            name: "Crit",
            blurb: "Passive. 20/25/30/35% chance to strike for 175/200/225/250% damage.",
            icon: None,
        }),
        1 => Some(AbilityFace {
            id: 1,
            name: "Frenzy",
            blurb: "No target. +20/28/36/44% attack speed for 6 s. 30/40/50/60 mana.",
            icon: None,
        }),
        2 => Some(AbilityFace {
            id: 2,
            name: "Bounce",
            blurb: "Enemy target, range 550. 70/140/210/280 magic damage, then jumps to the 2/4/6/8 nearest new enemies.",
            icon: None,
        }),
        3 => Some(AbilityFace {
            id: 3,
            name: "Volley",
            blurb: "Ultimate, no target. An attack at 80/100/120% damage flies at every enemy within 700.",
            icon: None,
        }),
        4 => Some(AbilityFace {
            id: 4,
            name: "Hook",
            blurb: "Point target, range 1100. Catches the first unit in its way, drags it back and deals 90/180/270/360 pure damage.",
            icon: None,
        }),
        5 => Some(AbilityFace {
            id: 5,
            name: "Rot",
            blurb: "Toggle. Burns everything within 250 for 30/60/90/120 a second and slows it, its owner included, but never kills its owner.",
            icon: None,
        }),
        6 => Some(AbilityFace {
            id: 6,
            name: "Heap",
            blurb: "Passive. Magic resistance, and health for every death near you.",
            icon: None,
        }),
        7 => Some(AbilityFace {
            id: 7,
            name: "Dismem",
            blurb: "Ultimate, enemy target, range 150. Holds it for 3 s, eating it and healing you.",
            icon: None,
        }),
        8 => Some(AbilityFace {
            id: 8,
            name: "Burst",
            blurb: "No target. The courier flies 50% faster for 6 s. 120 s wait.",
            icon: None,
        }),
        9 => Some(AbilityFace {
            id: 9,
            name: "Return",
            blurb: "No target. The courier puts what it holds back in the stash, then goes home.",
            icon: None,
        }),
        10 => Some(AbilityFace {
            id: 10,
            name: "Stash",
            blurb: "No target. The courier takes what waits in your stash and carries it to you.",
            icon: None,
        }),
        11 => Some(AbilityFace {
            id: 11,
            name: "Give",
            blurb: "No target. The courier carries what it holds to you, then goes home.",
            icon: None,
        }),
        12 => Some(AbilityFace {
            id: 12,
            name: "Shield",
            blurb: "No target. Nothing gets through to the courier for 2 s. 200 s wait.",
            icon: None,
        }),
        13 => Some(AbilityFace {
            id: 13,
            name: "Raze 1",
            blurb: "Point target. Burns everything within 250 of a spot 200 ahead for 90/160/230/300 magic damage. 10 s wait.",
            icon: None,
        }),
        14 => Some(AbilityFace {
            id: 14,
            name: "Raze 2",
            blurb: "Point target. Burns everything within 250 of a spot 450 ahead for 90/160/230/300 magic damage. 10 s wait.",
            icon: None,
        }),
        15 => Some(AbilityFace {
            id: 15,
            name: "Raze 3",
            blurb: "Point target. Burns everything within 250 of a spot 700 ahead for 90/160/230/300 magic damage. 10 s wait.",
            icon: None,
        }),
        16 => Some(AbilityFace {
            id: 16,
            name: "Requiem",
            blurb: "Ultimate, no target. Every enemy within 900 takes 8/11/14 magic damage per soul held and is slowed for 2 s. The souls are kept.",
            icon: None,
        }),
        _ => None,
    }
}

/// How many items the catalog holds, in id order from nought.
pub const ITEMS_KNOWN: u16 = 42;

/// The short name the panel and the shop show an item by.
pub open spec fn item_name(id: u16) -> Seq<char> {
    if id == 0 {
        "Boots"@
    } else if id == 1 {
        "Clarity"@
    } else if id == 2 {
        "Salve"@
    } else if id == 3 {
        "Branch"@
    } else if id == 4 {
        "Obs"@
    } else if id == 5 {
        "Quell"@
    } else if id == 6 {
        "Sentry"@
    } else if id == 7 {
        "Tango"@
    } else if id == 8 {
        "TP"@
    } else if id == 9 {
        "Circlet"@
    } else if id == 10 {
        "Gauntlet"@
    } else if id == 11 {
        "Slippers"@
    } else if id == 12 {
        "Mantle"@
    } else if id == 13 {
        "Belt"@
    } else if id == 14 {
        "Band"@
    } else if id == 15 {
        "Robe"@
    } else if id == 16 {
        "Ogre Axe"@
    } else if id == 17 {
        "Alacrity"@
    } else if id == 18 {
        "Wizardry"@
    } else if id == 19 {
        "Gloves"@
    } else if id == 20 {
        "Blades"@
    } else if id == 21 {
        "Broad"@
    } else if id == 22 {
        "Qstaff"@
    } else if id == 23 {
        "Ring Pro"@
    } else if id == 24 {
        "Chain"@
    } else if id == 25 {
        "Regen"@
    } else if id == 26 {
        "Sage"@
    } else if id == 27 {
        "Vitality"@
    } else if id == 28 {
        "Energy"@
    } else if id == 29 {
        "Treads"@
    } else if id == 30 {
        "Phase"@
    } else if id == 31 {
        "Blink"@
    } else if id == 32 {
        "Bracer"@
    } else if id == 33 {
        "Wraith"@
    } else if id == 34 {
        "Null"@
    } else if id == 35 {
        "Stick"@
    } else if id == 36 {
        "Wand"@
    } else if id == 37 {
        "Rcp Phase"@
    } else if id == 38 {
        "Rcp Bracer"@
    } else if id == 39 {
        "Rcp Wraith"@
    } else if id == 40 {
        "Rcp Null"@
    } else if id == 41 {
        "Rcp Wand"@
    } else {
        Seq::empty()
    }
}

/// The short line of numbers the panel shows for an item, by its wire id.
pub open spec fn item_stats(id: u16) -> Seq<char> {
    if id == 0 {
        "+45 MS"@
    } else if id == 1 {
        "150MP/25s"@
    } else if id == 2 {
        "400HP/10s"@
    } else if id == 3 {
        "+30HP+15MP"@
    } else if id == 4 {
        "Vision"@
    } else if id == 5 {
        "+18 creep"@
    } else if id == 6 {
        "True sight"@
    } else if id == 7 {
        "115HP x3"@
    } else if id == 8 {
        "Teleport"@
    } else if id == 9 {
        "+2 all"@
    } else if id == 10 {
        "+3 STR"@
    } else if id == 11 {
        "+3 AGI"@
    } else if id == 12 {
        "+3 INT"@
    } else if id == 13 {
        "+6 STR"@
    } else if id == 14 {
        "+6 AGI"@
    } else if id == 15 {
        "+6 INT"@
    } else if id == 16 {
        "+10 STR"@
    } else if id == 17 {
        "+10 AGI"@
    } else if id == 18 {
        "+10 INT"@
    } else if id == 19 {
        "+20 AS"@
    } else if id == 20 {
        "+9 DMG"@
    } else if id == 21 {
        "+18 DMG"@
    } else if id == 22 {
        "+10DMG+10AS"@
    } else if id == 23 {
        "+2 ARM"@
    } else if id == 24 {
        "+5 ARM"@
    } else if id == 25 {
        "+2 HP/s"@
    } else if id == 26 {
        "+1 MP/s"@
    } else if id == 27 {
        "+250 HP"@
    } else if id == 28 {
        "+250 MP"@
    } else if id == 29 {
        "+45MS+25AS"@
    } else if id == 30 {
        "+45MS+18DMG"@
    } else if id == 31 {
        "1200 jump"@
    } else if id == 32 {
        "+6STR+3+3"@
    } else if id == 33 {
        "+6AGI+3+3"@
    } else if id == 34 {
        "+6INT+3+3"@
    } else if id == 35 {
        "10 charges"@
    } else if id == 36 {
        "+3 all"@
    } else if id == 37 {
        "recipe"@
    } else if id == 38 {
        "recipe"@
    } else if id == 39 {
        "recipe"@
    } else if id == 40 {
        "recipe"@
    } else if id == 41 {
        "recipe"@
    } else {
        Seq::empty()
    }
}

/// What the panel says an item does, by its wire id.
pub open spec fn item_blurb(id: u16) -> Seq<char> {
    if id == 0 {
        "+45 movement speed."@
    } else if id == 1 {
        "Consumable. Restores 150 mana over 25 s. Any hero's hit breaks it."@
    } else if id == 2 {
        "Consumable. Restores 400 health over 10 s. Any hero's hit breaks it."@
    } else if id == 3 {
        "+30 maximum health, +15 maximum mana, +1 attack damage."@
    } else if id == 4 {
        "Consumable. Stands a ward that sees 1600 and that the enemy cannot see."@
    } else if id == 5 {
        "+18 attack damage against creeps. Fells the tree you point at."@
    } else if id == 6 {
        "Consumable. Stands a ward that gives true sight, revealing enemy wards."@
    } else if id == 7 {
        "Three charges. Eats a tree to restore 115 health over 16 s."@
    } else if id == 8 {
        "Consumable. Channels, then carries you to an allied building."@
    } else if id == 9 {
        "+2 to every attribute."@
    } else if id == 10 {
        "+3 strength."@
    } else if id == 11 {
        "+3 agility."@
    } else if id == 12 {
        "+3 intelligence."@
    } else if id == 13 {
        "+6 strength."@
    } else if id == 14 {
        "+6 agility."@
    } else if id == 15 {
        "+6 intelligence."@
    } else if id == 16 {
        "+10 strength."@
    } else if id == 17 {
        "+10 agility."@
    } else if id == 18 {
        "+10 intelligence."@
    } else if id == 19 {
        "+20 attack speed."@
    } else if id == 20 {
        "+9 attack damage."@
    } else if id == 21 {
        "+18 attack damage."@
    } else if id == 22 {
        "+10 attack damage, +10 attack speed."@
    } else if id == 23 {
        "+2 armor."@
    } else if id == 24 {
        "+5 armor."@
    } else if id == 25 {
        "+2 health a second."@
    } else if id == 26 {
        "+1 mana a second."@
    } else if id == 27 {
        "+250 maximum health."@
    } else if id == 28 {
        "+250 maximum mana."@
    } else if id == 29 {
        "+45 movement speed, +25 attack speed, +10 to the attribute it is set to. Using them sets them to the next one."@
    } else if id == 30 {
        "+45 movement speed, +18 attack damage. Walks 20% faster and through bodies for 3 s. 8 s wait."@
    } else if id == 31 {
        "Carries you to a point up to 1200 away. 15 s wait, and any hero's blow sets it back 3 s."@
    } else if id == 32 {
        "+6 strength, +3 agility, +3 intelligence."@
    } else if id == 33 {
        "+6 agility, +3 strength, +3 intelligence."@
    } else if id == 34 {
        "+6 intelligence, +3 strength, +3 agility."@
    } else if id == 35 {
        "Gains a charge from every enemy cast within 1200. Spends them all to restore 15 health and mana each. 13 s wait."@
    } else if id == 36 {
        "+3 to every attribute. Gains a charge from every enemy cast within 1200, up to twenty. 13 s wait."@
    } else if id == 37 {
        "Builds Phase Boots out of Boots and two Blades of Attack."@
    } else if id == 38 {
        "Builds a Bracer out of a Circlet and Gauntlets of Strength."@
    } else if id == 39 {
        "Builds a Wraith Band out of a Circlet and Slippers of Agility."@
    } else if id == 40 {
        "Builds a Null Talisman out of a Circlet and a Mantle of Intelligence."@
    } else if id == 41 {
        "Builds a Magic Wand out of a Magic Stick and two Iron Branches."@
    } else {
        Seq::empty()
    }
}

/// The item of that id, or nothing for one the catalog does not hold.
pub fn item(id: u16) -> (face: Option<ItemFace>)
    ensures
        match face {
            Some(f) => {
                &&& id < ITEMS_KNOWN
                &&& f.id == id
                &&& f.name@ == item_name(id)
                &&& f.stats@ == item_stats(id)
                &&& f.blurb@ == item_blurb(id)
                &&& f.icon is None
            },
            None => id >= ITEMS_KNOWN,
        },
{
    match id {
        0 => Some(ItemFace {
            id: 0,
            name: "Boots",
            stats: "+45 MS",
            blurb: "+45 movement speed.",
            icon: None,
        }),
        1 => Some(ItemFace {
            id: 1,
            name: "Clarity",
            stats: "150MP/25s",
            blurb: "Consumable. Restores 150 mana over 25 s. Any hero's hit breaks it.",
            icon: None,
        }),
        2 => Some(ItemFace {
            id: 2,
            name: "Salve",
            stats: "400HP/10s",
            blurb: "Consumable. Restores 400 health over 10 s. Any hero's hit breaks it.",
            icon: None,
        }),
        3 => Some(ItemFace {
            id: 3,
            name: "Branch",
            stats: "+30HP+15MP",
            blurb: "+30 maximum health, +15 maximum mana, +1 attack damage.",
            icon: None,
        }),
        4 => Some(ItemFace {
            id: 4,
            name: "Obs",
            stats: "Vision",
            blurb: "Consumable. Stands a ward that sees 1600 and that the enemy cannot see.",
            icon: None,
        }),
        5 => Some(ItemFace {
            id: 5,
            name: "Quell",
            stats: "+18 creep",
            blurb: "+18 attack damage against creeps. Fells the tree you point at.",
            icon: None,
        }),
        6 => Some(ItemFace {
            id: 6,
            name: "Sentry",
            stats: "True sight",
            blurb: "Consumable. Stands a ward that gives true sight, revealing enemy wards.",
            icon: None,
        }),
        7 => Some(ItemFace {
            id: 7,
            name: "Tango",
            stats: "115HP x3",
            blurb: "Three charges. Eats a tree to restore 115 health over 16 s.",
            icon: None,
        }),
        8 => Some(ItemFace {
            id: 8,
            name: "TP",
            stats: "Teleport",
            blurb: "Consumable. Channels, then carries you to an allied building.",
            icon: None,
        }),
        9 => Some(ItemFace {
            id: 9,
            name: "Circlet",
            stats: "+2 all",
            blurb: "+2 to every attribute.",
            icon: None,
        }),
        10 => Some(ItemFace {
            id: 10,
            name: "Gauntlet",
            stats: "+3 STR",
            blurb: "+3 strength.",
            icon: None,
        }),
        11 => Some(ItemFace {
            id: 11,
            name: "Slippers",
            stats: "+3 AGI",
            blurb: "+3 agility.",
            icon: None,
        }),
        12 => Some(ItemFace {
            id: 12,
            name: "Mantle",
            stats: "+3 INT",
            blurb: "+3 intelligence.",
            icon: None,
        }),
        13 => Some(ItemFace {
            id: 13,
            name: "Belt",
            stats: "+6 STR",
            blurb: "+6 strength.",
            icon: None,
        }),
        14 => Some(ItemFace {
            id: 14,
            name: "Band",
            stats: "+6 AGI",
            blurb: "+6 agility.",
            icon: None,
        }),
        15 => Some(ItemFace {
            id: 15,
            name: "Robe",
            stats: "+6 INT",
            blurb: "+6 intelligence.",
            icon: None,
        }),
        16 => Some(ItemFace {
            id: 16,
            name: "Ogre Axe",
            stats: "+10 STR",
            blurb: "+10 strength.",
            icon: None,
        }),
        17 => Some(ItemFace {
            id: 17,
            name: "Alacrity",
            stats: "+10 AGI",
            blurb: "+10 agility.",
            icon: None,
        }),
        18 => Some(ItemFace {
            id: 18,
            name: "Wizardry",
            stats: "+10 INT",
            blurb: "+10 intelligence.",
            icon: None,
        }),
        19 => Some(ItemFace {
            id: 19,
            name: "Gloves",
            stats: "+20 AS",
            blurb: "+20 attack speed.",
            icon: None,
        }),
        20 => Some(ItemFace {
            id: 20,
            name: "Blades",
            stats: "+9 DMG",
            blurb: "+9 attack damage.",
            icon: None,
        }),
        21 => Some(ItemFace {
            id: 21,
            name: "Broad",
            stats: "+18 DMG",
            blurb: "+18 attack damage.",
            icon: None,
        }),
        22 => Some(ItemFace {
            id: 22,
            name: "Qstaff",
            stats: "+10DMG+10AS",
            blurb: "+10 attack damage, +10 attack speed.",
            icon: None,
        }),
        23 => Some(ItemFace {
            id: 23,
            name: "Ring Pro",
            stats: "+2 ARM",
            blurb: "+2 armor.",
            icon: None,
        }),
        24 => Some(ItemFace {
            id: 24,
            name: "Chain",
            stats: "+5 ARM",
            blurb: "+5 armor.",
            icon: None,
        }),
        25 => Some(ItemFace {
            id: 25,
            name: "Regen",
            stats: "+2 HP/s",
            blurb: "+2 health a second.",
            icon: None,
        }),
        26 => Some(ItemFace {
            id: 26,
            name: "Sage",
            stats: "+1 MP/s",
            blurb: "+1 mana a second.",
            icon: None,
        }),
        27 => Some(ItemFace {
            id: 27,
            name: "Vitality",
            stats: "+250 HP",
            blurb: "+250 maximum health.",
            icon: None,
        }),
        28 => Some(ItemFace {
            id: 28,
            name: "Energy",
            stats: "+250 MP",
            blurb: "+250 maximum mana.",
            icon: None,
        }),
        29 => Some(ItemFace {
            id: 29,
            name: "Treads",
            stats: "+45MS+25AS",
            blurb: "+45 movement speed, +25 attack speed, +10 to the attribute it is set to. Using them sets them to the next one.",
            icon: None,
        }),
        30 => Some(ItemFace {
            id: 30,
            name: "Phase",
            stats: "+45MS+18DMG",
            blurb: "+45 movement speed, +18 attack damage. Walks 20% faster and through bodies for 3 s. 8 s wait.",
            icon: None,
        }),
        31 => Some(ItemFace {
            id: 31,
            name: "Blink",
            stats: "1200 jump",
            blurb: "Carries you to a point up to 1200 away. 15 s wait, and any hero's blow sets it back 3 s.",
            icon: None,
        }),
        32 => Some(ItemFace {
            id: 32,
            name: "Bracer",
            stats: "+6STR+3+3",
            blurb: "+6 strength, +3 agility, +3 intelligence.",
            icon: None,
        }),
        33 => Some(ItemFace {
            id: 33,
            name: "Wraith",
            stats: "+6AGI+3+3",
            blurb: "+6 agility, +3 strength, +3 intelligence.",
            icon: None,
        }),
        34 => Some(ItemFace {
            id: 34,
            name: "Null",
            stats: "+6INT+3+3",
            blurb: "+6 intelligence, +3 strength, +3 agility.",
            icon: None,
        }),
        35 => Some(ItemFace {
            id: 35,
            name: "Stick",
            stats: "10 charges",
            blurb: "Gains a charge from every enemy cast within 1200. Spends them all to restore 15 health and mana each. 13 s wait.",
            icon: None,
        }),
        36 => Some(ItemFace {
            id: 36,
            name: "Wand",
            stats: "+3 all",
            blurb: "+3 to every attribute. Gains a charge from every enemy cast within 1200, up to twenty. 13 s wait.",
            icon: None,
        }),
        37 => Some(ItemFace {
            id: 37,
            name: "Rcp Phase",
            stats: "recipe",
            blurb: "Builds Phase Boots out of Boots and two Blades of Attack.",
            icon: None,
        }),
        38 => Some(ItemFace {
            id: 38,
            name: "Rcp Bracer",
            stats: "recipe",
            blurb: "Builds a Bracer out of a Circlet and Gauntlets of Strength.",
            icon: None,
        }),
        39 => Some(ItemFace {
            id: 39,
            name: "Rcp Wraith",
            stats: "recipe",
            blurb: "Builds a Wraith Band out of a Circlet and Slippers of Agility.",
            icon: None,
        }),
        40 => Some(ItemFace {
            id: 40,
            name: "Rcp Null",
            stats: "recipe",
            blurb: "Builds a Null Talisman out of a Circlet and a Mantle of Intelligence.",
            icon: None,
        }),
        41 => Some(ItemFace {
            id: 41,
            name: "Rcp Wand",
            stats: "recipe",
            blurb: "Builds a Magic Wand out of a Magic Stick and two Iron Branches.",
            icon: None,
        }),
        _ => None,
    }
}

/// How many effects the catalog holds, in id order from nought.
pub const EFFECTS_KNOWN: u16 = 12;

/// The short name the chip shows an effect by.
pub open spec fn effect_name(id: u16) -> Seq<char> {
    if id == 0 {
        "Frenzy"@
    } else if id == 1 {
        "Mending"@
    } else if id == 2 {
        "Clarity"@
    } else if id == 3 {
        "Fountain"@
    } else if id == 4 {
        "Held"@
    } else if id == 5 {
        "Slowed"@
    } else if id == 6 {
        "Burning"@
    } else if id == 7 {
        "Hastened"@
    } else if id == 8 {
        "Shielded"@
    } else if id == 9 {
        "Phased"@
    } else if id == 10 {
        "Heap"@
    } else if id == 11 {
        "Souls"@
    } else {
        Seq::empty()
    }
}

/// What the panel says an effect does, by its wire id.
pub open spec fn effect_blurb(id: u16) -> Seq<char> {
    if id == 0 {
        "Attack speed increased."@
    } else if id == 1 {
        "Regenerating health."@
    } else if id == 2 {
        "Regenerating mana."@
    } else if id == 3 {
        "Regenerating health and mana for standing in the fountain."@
    } else if id == 4 {
        "Cannot move, attack or cast."@
    } else if id == 5 {
        "Movement speed reduced."@
    } else if id == 6 {
        "Losing health over time."@
    } else if id == 7 {
        "Movement speed increased."@
    } else if id == 8 {
        "Nothing gets through."@
    } else if id == 9 {
        "Walking through the bodies in the way."@
    } else if id == 10 {
        "Health kept from every death nearby."@
    } else if id == 11 {
        "Attack damage from every unit brought down."@
    } else {
        Seq::empty()
    }
}

/// The effect of that id, or nothing for one the catalog does not hold.
pub fn effect(id: u16) -> (face: Option<EffectFace>)
    ensures
        match face {
            Some(f) => {
                &&& id < EFFECTS_KNOWN
                &&& f.id == id
                &&& f.name@ == effect_name(id)
                &&& f.blurb@ == effect_blurb(id)
                &&& f.icon is None
            },
            None => id >= EFFECTS_KNOWN,
        },
{
    match id {
        0 => Some(EffectFace {
            id: 0,
            name: "Frenzy",
            blurb: "Attack speed increased.",
            icon: None,
        }),
        1 => Some(EffectFace {
            id: 1,
            name: "Mending",
            blurb: "Regenerating health.",
            icon: None,
        }),
        2 => Some(EffectFace {
            id: 2,
            name: "Clarity",
            blurb: "Regenerating mana.",
            icon: None,
        }),
        3 => Some(EffectFace {
            id: 3,
            name: "Fountain",
            blurb: "Regenerating health and mana for standing in the fountain.",
            icon: None,
        }),
        4 => Some(EffectFace {
            id: 4,
            name: "Held",
            blurb: "Cannot move, attack or cast.",
            icon: None,
        }),
        5 => Some(EffectFace {
            id: 5,
            name: "Slowed",
            blurb: "Movement speed reduced.",
            icon: None,
        }),
        6 => Some(EffectFace {
            id: 6,
            name: "Burning",
            blurb: "Losing health over time.",
            icon: None,
        }),
        7 => Some(EffectFace {
            id: 7,
            name: "Hastened",
            blurb: "Movement speed increased.",
            icon: None,
        }),
        8 => Some(EffectFace {
            id: 8,
            name: "Shielded",
            blurb: "Nothing gets through.",
            icon: None,
        }),
        9 => Some(EffectFace {
            id: 9,
            name: "Phased",
            blurb: "Walking through the bodies in the way.",
            icon: None,
        }),
        10 => Some(EffectFace {
            id: 10,
            name: "Heap",
            blurb: "Health kept from every death nearby.",
            icon: None,
        }),
        11 => Some(EffectFace {
            id: 11,
            name: "Souls",
            blurb: "Attack damage from every unit brought down.",
            icon: None,
        }),
        _ => None,
    }
}

/// How many heroes the catalog holds, in id order from nought.
pub const HEROES_KNOWN: u16 = 3;

/// The name the roster shows a hero by.
pub open spec fn hero_name(id: u16) -> Seq<char> {
    if id == 0 {
        "Sylla"@
    } else if id == 1 {
        "Pudge"@
    } else if id == 2 {
        "Shadow Fiend"@
    } else {
        Seq::empty()
    }
}

/// The hero of that id, or nothing for one the catalog does not hold.
pub fn hero(id: u16) -> (face: Option<HeroFace>)
    ensures
        match face {
            Some(f) => {
                &&& id < HEROES_KNOWN
                &&& f.id == id
                &&& f.name@ == hero_name(id)
                &&& f.icon is None
            },
            None => id >= HEROES_KNOWN,
        },
{
    match id {
        0 => Some(HeroFace {
            id: 0,
            name: "Sylla",
            icon: None,
        }),
        1 => Some(HeroFace {
            id: 1,
            name: "Pudge",
            icon: None,
        }),
        2 => Some(HeroFace {
            id: 2,
            name: "Shadow Fiend",
            icon: None,
        }),
        _ => None,
    }
}

} // verus!
