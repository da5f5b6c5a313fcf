//! The rungs of the policy ladder that are answered in whole numbers.
//!
//! The ladder is walked top to bottom every tick and the first rung with an
//! answer is what the seat does. The rungs here weigh nothing by shares or
//! lengths: what stands in the bag, what the shop list wants next, whether a
//! swing is still under way, and whether the creeps chewing on the hero are
//! worth shaking off.

use vstd::prelude::*;

use crate::ask::Ask;
use crate::beat::{struck_by_one, Beat};
use crate::field::{
    deref, find_unit, first_where, lemma_first_found, lemma_first_where, lemma_nowhere,
    swing_reach, unit_in, unrefs, within_reach, worn, Field, WORN_SLOTS,
};
use crate::numbers::{
    FIGHT_RANGE, MAGIC_STICK, MAGIC_WAND, RESTORE_CHARGES, RESTORE_PER_CHARGE, SHAKE_CREEPS,
    SHAKE_TICKS, SHOP_RANGE,
};
use crate::proto::{
    near, EntityId, ItemId, ItemSlot, ItemView, Order, ShopEntry, Target, UnitView, WHOLE,
};
use crate::shop::{counts_fit, is_filled, next_buy_spec, ticks_since, well_founded, Stall};

verus! {

/// One rung of the ladder a seat's wants are walked down every tick.
#[derive(Clone, Copy, Debug, PartialEq, Eq, Structural)]
pub enum Rung {
    /// A body held, or in the middle of a channel, is told nothing.
    Held,
    /// A skill point to spend.
    Learn,
    /// An errand for the courier.
    Errand,
    /// The next thing on the shopping list.
    Buy,
    /// Goods stranded in the backpack.
    Tidy,
    /// A consumable worth spending.
    Remedy,
    /// The scroll home, or back.
    Portal,
    /// Out of the lane.
    Retreat,
    /// A spell.
    Spell,
    /// Looking where a spell would land.
    Aim,
    /// A creep worth swinging at.
    Finish,
    /// A swing under way, left alone.
    MidSwing,
    /// Creeps chewing on the hero, shaken off.
    Shake,
    /// The other side's creeps, called back.
    Pull,
    /// An enemy or a building worth walking at.
    Press,
    /// Where to stand while there is nothing else.
    Hold,
}

/// The ladder, top to bottom: the first rung with an answer is what the
/// seat does, and the same questions are asked in the same order every tick.
pub open spec fn ladder() -> Seq<Rung> {
    seq![
        Rung::Held,
        Rung::Learn,
        Rung::Errand,
        Rung::Buy,
        Rung::Tidy,
        Rung::Remedy,
        Rung::Portal,
        Rung::Retreat,
        Rung::Spell,
        Rung::Aim,
        Rung::Finish,
        Rung::MidSwing,
        Rung::Shake,
        Rung::Pull,
        Rung::Press,
        Rung::Hold,
    ]
}

/// Where a rung stands on the ladder, from the top.
pub open spec fn rung_place(r: Rung) -> int {
    match r {
        Rung::Held => 0,
        Rung::Learn => 1,
        Rung::Errand => 2,
        Rung::Buy => 3,
        Rung::Tidy => 4,
        Rung::Remedy => 5,
        Rung::Portal => 6,
        Rung::Retreat => 7,
        Rung::Spell => 8,
        Rung::Aim => 9,
        Rung::Finish => 10,
        Rung::MidSwing => 11,
        Rung::Shake => 12,
        Rung::Pull => 13,
        Rung::Press => 14,
        Rung::Hold => 15,
    }
}

/// Every rung stands on the ladder once, at its place.
pub proof fn lemma_every_rung_has_its_place(r: Rung)
    ensures
        0 <= rung_place(r) < ladder().len(),
        ladder()[rung_place(r)] == r,
        forall|i: int| 0 <= i < ladder().len() && #[trigger] ladder()[i] == r ==> i == rung_place(r),
{
}

impl Rung {
    /// The top of the ladder.
    pub fn first() -> (r: Rung)
        ensures
            r == ladder()[0],
    {
        Rung::Held
    }

    /// The rung below this one, none below the last.
    pub fn next(self) -> (below: Option<Rung>)
        ensures
            match below {
                Some(b) => rung_place(self) + 1 < ladder().len() && b == ladder()[rung_place(self) + 1],
                None => rung_place(self) == ladder().len() - 1,
            },
    {
        match self {
            Rung::Held => Some(Rung::Learn),
            Rung::Learn => Some(Rung::Errand),
            Rung::Errand => Some(Rung::Buy),
            Rung::Buy => Some(Rung::Tidy),
            Rung::Tidy => Some(Rung::Remedy),
            Rung::Remedy => Some(Rung::Portal),
            Rung::Portal => Some(Rung::Retreat),
            Rung::Retreat => Some(Rung::Spell),
            Rung::Spell => Some(Rung::Aim),
            Rung::Aim => Some(Rung::Finish),
            Rung::Finish => Some(Rung::MidSwing),
            Rung::MidSwing => Some(Rung::Shake),
            Rung::Shake => Some(Rung::Pull),
            Rung::Pull => Some(Rung::Press),
            Rung::Press => Some(Rung::Hold),
            Rung::Hold => None,
        }
    }
}

/// Whether a bag slot stands empty.
pub open spec fn is_free() -> spec_fn(Option<ItemView>) -> bool {
    |slot: Option<ItemView>| slot is None
}

/// The backpack: the bag past its working slots.
pub open spec fn backpack(bag: Seq<Option<ItemView>>) -> Seq<Option<ItemView>> {
    if bag.len() <= WORN_SLOTS {
        Seq::empty()
    } else {
        bag.skip(WORN_SLOTS as int)
    }
}

/// The move that puts the first thing stranded in the backpack into the
/// first empty working slot, while there are both.
pub open spec fn tidy_spec(me: Option<UnitView>) -> Option<Ask> {
    match me {
        Some(u) => match (
            first_where(worn(u.items@), is_free()),
            first_where(backpack(u.items@), is_filled()),
        ) {
            (Some(free), Some(k)) => Some(
                Ask {
                    unit: None,
                    order: Order::Swap {
                        from: ItemSlot((k + WORN_SLOTS) as u8),
                        to: ItemSlot(free as u8),
                    },
                },
            ),
            _ => None,
        },
        None => None,
    }
}

/// The first empty working slot of a bag.
fn first_free(bag: &Vec<Option<ItemView>>) -> (free: Option<usize>)
    ensures
        match free {
            Some(i) => first_where(worn(bag@), is_free()) == Some(i as int) && i < WORN_SLOTS,
            None => first_where(worn(bag@), is_free()) is None,
        },
{
    let n: usize = if bag.len() < WORN_SLOTS { bag.len() } else { WORN_SLOTS };
    let ghost w = worn(bag@);
    let ghost test = is_free();
    assert(w.len() == n);
    let mut i: usize = 0;
    while i < n
        invariant
            i <= n,
            n == w.len(),
            n <= bag@.len(),
            n <= WORN_SLOTS,
            w == worn(bag@),
            forall|j: int| 0 <= j < n ==> w[j] == bag@[j],
            test == is_free(),
            forall|j: int| 0 <= j < i ==> !test(#[trigger] w[j]),
        decreases n - i,
    {
        if bag[i].is_none() {
            proof {
                assert(test(w[i as int]));
                lemma_first_where(w, test, i as int);
            }
            return Some(i);
        }
        assert(!test(w[i as int]));
        i += 1;
    }
    proof {
        lemma_nowhere(w, test);
    }
    None
}

/// The first slot of the backpack that holds anything, counted from the
/// start of the bag.
fn first_stranded(bag: &Vec<Option<ItemView>>) -> (stranded: Option<usize>)
    ensures
        match stranded {
            Some(at) => at >= WORN_SLOTS && first_where(backpack(bag@), is_filled()) == Some(
                at - WORN_SLOTS,
            ),
            None => first_where(backpack(bag@), is_filled()) is None,
        },
{
    let ghost p = backpack(bag@);
    let ghost test = is_filled();
    if bag.len() <= WORN_SLOTS {
        proof {
            lemma_nowhere(p, test);
        }
        return None;
    }
    assert(p.len() == bag@.len() - WORN_SLOTS);
    let mut i: usize = WORN_SLOTS;
    while i < bag.len()
        invariant
            WORN_SLOTS <= i <= bag@.len(),
            bag@.len() > WORN_SLOTS,
            p == backpack(bag@),
            p.len() == bag@.len() - WORN_SLOTS,
            forall|j: int| 0 <= j < p.len() ==> p[j] == bag@[j + WORN_SLOTS],
            test == is_filled(),
            forall|j: int| 0 <= j < i - WORN_SLOTS ==> !test(#[trigger] p[j]),
        decreases bag@.len() - i,
    {
        let k: usize = i - WORN_SLOTS;
        assert(p[k as int] == bag@[i as int]);
        if bag[i].is_some() {
            proof {
                assert(test(p[k as int]));
                lemma_first_where(p, test, k as int);
            }
            return Some(i);
        }
        assert(!test(p[k as int]));
        i += 1;
    }
    proof {
        lemma_nowhere(p, test);
    }
    None
}

/// A tidy moves something held in the backpack into an empty working slot,
/// for a bag whose slots the wire can number.
pub proof fn lemma_tidying_fills_a_working_slot_from_the_backpack(u: UnitView)
    requires
        u.items@.len() <= 256,
    ensures
        tidy_spec(Some(u)) matches Some(ask) ==> ask.order matches Order::Swap { from, to } && {
            &&& WORN_SLOTS <= from.0 < u.items@.len()
            &&& u.items@[from.0 as int] is Some
            &&& to.0 < WORN_SLOTS
            &&& u.items@[to.0 as int] is None
        },
{
    let bag = u.items@;
    lemma_first_found(worn(bag), is_free());
    lemma_first_found(backpack(bag), is_filled());
    if let (Some(free), Some(k)) = (
        first_where(worn(bag), is_free()),
        first_where(backpack(bag), is_filled()),
    ) {
        assert(bag.len() > WORN_SLOTS);
        assert(backpack(bag)[k] == bag[k + WORN_SLOTS]);
        assert(worn(bag)[free] == bag[free]);
    }
}

/// Goods stranded in the backpack, moved to a working slot.
///
/// A build lands in the lowest slot any of its parts came out of, and parts
/// bought with the working slots full come out of the backpack, so a
/// finished item can end up somewhere it does nothing.
pub fn tidy(field: &Field) -> (ask: Option<Ask>)
    ensures
        ask == tidy_spec(deref(field.me)),
{
    let me = match field.me {
        Some(me) => me,
        None => return None,
    };
    let free = match first_free(&me.items) {
        Some(free) => free,
        None => return None,
    };
    let stranded = match first_stranded(&me.items) {
        Some(at) => at,
        None => return None,
    };
    proof {
        assert(((stranded - WORN_SLOTS) + WORN_SLOTS) as u8 == stranded as u8);
    }
    Some(Ask::mine(Order::Swap { from: ItemSlot(stranded as u8), to: ItemSlot(free as u8) }))
}

/// Whether an item held in a working slot can be used now: off cooldown,
/// settled in after a move, and with a charge left if it counts them.
pub open spec fn usable(held: ItemView) -> bool {
    &&& held.cooldown_left == 0
    &&& held.mute_left == 0
    &&& (held.charges matches Some(left) ==> left > 0)
}

/// The working slot an item can be used from now, if the hero holds it there
/// and it is ready.
pub fn ready_item(field: &Field, id: ItemId) -> (slot: Option<ItemSlot>)
    ensures
        slot == match field.item_at(id) {
            Some((at, held)) => if usable(held) {
                Some(at)
            } else {
                None
            },
            None => None,
        },
{
    match field.item(id) {
        Some((at, held)) => {
            let charged = match held.charges {
                Some(left) => left > 0,
                None => true,
            };
            if held.cooldown_left == 0 && held.mute_left == 0 && charged {
                Some(at)
            } else {
                None
            }
        },
        None => None,
    }
}

/// Whether a wand or a stick is worth pressing: ready, holding enough
/// charges, and with a pool missing at least what the charges are worth, so
/// that nothing it restores is wasted.
pub open spec fn wand_worth(me: UnitView, held: ItemView) -> bool {
    let charges: int = match held.charges {
        Some(c) => c as int,
        None => 0,
    };
    let worth = charges * RESTORE_PER_CHARGE;
    &&& held.cooldown_left == 0
    &&& held.mute_left == 0
    &&& charges >= RESTORE_CHARGES
    &&& (me.max_hp - me.hp >= worth || me.max_mana - me.mana >= worth)
}

/// Pressing what a working slot holds, if it is worth pressing.
pub open spec fn pressed(me: UnitView, found: Option<(ItemSlot, ItemView)>) -> Option<Ask> {
    match found {
        Some((slot, held)) => if wand_worth(me, held) {
            Some(Ask { unit: None, order: Order::Use { slot, target: Target::Nothing } })
        } else {
            None
        },
        None => None,
    }
}

/// The wand, else the stick, whichever is worth pressing.
pub open spec fn press_a_wand_spec(field: Field) -> Option<Ask> {
    match deref(field.me) {
        Some(me) => match pressed(me, field.item_at(ItemId(MAGIC_WAND))) {
            Some(ask) => Some(ask),
            None => pressed(me, field.item_at(ItemId(MAGIC_STICK))),
        },
        None => None,
    }
}

/// Whether a wand or a stick held in a working slot is worth pressing.
fn worth_pressing(me: &UnitView, held: &ItemView) -> (worth: bool)
    ensures
        worth == wand_worth(*me, *held),
{
    let charges: u8 = match held.charges {
        Some(c) => c,
        None => 0,
    };
    if held.cooldown_left > 0 || held.mute_left > 0 || charges < RESTORE_CHARGES {
        return false;
    }
    let worth = (charges as i64) * (RESTORE_PER_CHARGE as i64);
    (me.max_hp as i64) - (me.hp as i64) >= worth || (me.max_mana as i64) - (me.mana as i64)
        >= worth
}

/// A wand or a stick worth pressing, for whichever pool it would fill.
pub fn press_a_wand(field: &Field) -> (ask: Option<Ask>)
    ensures
        ask == press_a_wand_spec(*field),
{
    let me = match field.me {
        Some(me) => me,
        None => return None,
    };
    if let Some((slot, held)) = field.item(ItemId(MAGIC_WAND)) {
        if worth_pressing(me, held) {
            return Some(Ask::use_item(slot, Target::Nothing));
        }
    }
    if let Some((slot, held)) = field.item(ItemId(MAGIC_STICK)) {
        if worth_pressing(me, held) {
            return Some(Ask::use_item(slot, Target::Nothing));
        }
    }
    None
}

/// Ticks a swing already ordered is waited out before the hero moves on.
pub const SWING_PATIENCE: u32 = 45;

/// Whether a swing ordered at a tick is still worth waiting out: it was an
/// attack on a unit, it is no older than the patience allows, and the unit
/// still stands, alive, within the hero's swing.
pub open spec fn mid_swing_spec(swinging_at: Option<Ask>, since: u32, tick: u32, field: Field) -> bool {
    match swinging_at {
        Some(ask) => match ask.order {
            Order::Attack { target: Target::Unit(mark) } => {
                &&& ticks_since(tick, since) <= SWING_PATIENCE
                &&& unit_in(field.view.units@, mark) matches Some(unit)
                &&& unit.hp > 0
                &&& field.me matches Some(me)
                &&& near(me.pos, unit.pos, swing_reach(*me, unit))
            },
            _ => false,
        },
        None => false,
    }
}

/// Whether a swing ordered a moment ago is still worth waiting out.
///
/// An order of any kind ends the wind-up before it, so walking somewhere on
/// the tick a blow was about to land is that blow given up.
pub fn mid_swing(swinging_at: Option<Ask>, since: u32, tick: u32, field: &Field) -> (waiting: bool)
    ensures
        waiting == mid_swing_spec(swinging_at, since, tick, *field),
{
    let mark = match swinging_at {
        Some(ask) => match ask.order {
            Order::Attack { target: Target::Unit(mark) } => mark,
            _ => return false,
        },
        None => return false,
    };
    if tick.saturating_sub(since) > SWING_PATIENCE {
        return false;
    }
    match find_unit(field.view, mark) {
        Some(unit) => unit.hp > 0 && field.in_reach(unit),
        None => false,
    }
}

/// Whether the hero stands where buying and selling are taken.
pub open spec fn in_shop(field: Field) -> bool {
    field.me matches Some(me) && field.home matches Some(home) && near(
        me.pos,
        home,
        SHOP_RANGE * WHOLE,
    )
}

/// The next thing on the shopping list, while there is quiet to buy it in:
/// at the shop, or away from it with nobody of the other side near and a
/// courier to carry it.
pub open spec fn shopping_spec(entries: Seq<ShopEntry>, field: Field) -> Option<Ask> {
    if !in_shop(field) && within_reach(unrefs(field.enemies@), field.spot(), FIGHT_RANGE as int).len()
        > 0 {
        None
    } else if !in_shop(field) && field.courier is None {
        None
    } else {
        match next_buy_spec(entries, field) {
            Some(item) => Some(Ask { unit: None, order: Order::Buy { item } }),
            None => None,
        }
    }
}

/// The next thing on the shopping list, while there is quiet to buy it in.
///
/// Bought away from the shop, goods land in the stash, where only a courier
/// can reach them.
pub fn shopping(stall: &Stall, field: &Field) -> (ask: Option<Ask>)
    requires
        well_founded(stall.entries@),
        counts_fit(stall.entries@, *field),
    ensures
        ask == shopping_spec(stall.entries@, *field),
{
    let there = field.at_shop();
    if !there && field.foes_within(FIGHT_RANGE).len() > 0 {
        return None;
    }
    if !there && field.courier.is_none() {
        return None;
    }
    match stall.next_buy(field) {
        Some(item) => Some(Ask::buy(item)),
        None => None,
    }
}

/// How many of a row of creeps have struck the hero lately.
pub open spec fn biting(creeps: Seq<UnitView>, bitten: Seq<(u32, EntityId)>) -> nat {
    creeps.filter(|creep: UnitView| struck_by_one(bitten, creep.id)).len()
}

/// Somebody else of its own to point at, nearest first: a creep of its own,
/// else an allied hero, else the courier.
pub open spec fn ally_to_point_at(field: Field) -> Option<EntityId> {
    if field.own_creeps@.len() > 0 {
        Some(field.own_creeps@[0].id)
    } else if field.allies@.len() > 0 {
        Some(field.allies@[0].id)
    } else {
        match field.courier {
            Some(bird) => Some(bird.id),
            None => None,
        }
    }
}

/// What shaking the creeps off asks for this tick, and the tick the creeps
/// were last shaken off after it.
///
/// The tick after a shake the hero is told to stand, without starting the
/// clock again. Within the wait after a shake nothing more is asked; after
/// it, enough creeps biting and somebody else of its own to point at make a
/// fresh shake, and the clock starts at this tick.
pub open spec fn shake_spec(
    shook_at: Option<u32>,
    tick: u32,
    bitten: Seq<(u32, EntityId)>,
    field: Field,
) -> (Option<Ask>, Option<u32>) {
    if shook_at == Some(ticks_since(tick, 1) as u32) {
        (Some(Ask { unit: None, order: Order::Move { target: Target::Nothing } }), shook_at)
    } else if shook_at matches Some(at) && ticks_since(tick, at) < SHAKE_TICKS {
        (None, shook_at)
    } else if biting(unrefs(field.creeps@), bitten) < SHAKE_CREEPS {
        (None, shook_at)
    } else {
        match ally_to_point_at(field) {
            Some(ally) => (
                Some(Ask { unit: None, order: Order::Attack { target: Target::Unit(ally) } }),
                Some(tick),
            ),
            None => (None, shook_at),
        }
    }
}

/// How many of the creeps in a field have struck the hero lately.
fn count_biting(beat: &Beat, field: &Field) -> (n: usize)
    ensures
        n == biting(unrefs(field.creeps@), beat.bitten()),
{
    let ghost all = unrefs(field.creeps@);
    let ghost test = |creep: UnitView| struck_by_one(beat.bitten(), creep.id);
    let mut n: usize = 0;
    let mut i: usize = 0;
    while i < field.creeps.len()
        invariant
            i <= field.creeps@.len(),
            all == unrefs(field.creeps@),
            all.len() == field.creeps@.len(),
            test == (|creep: UnitView| struck_by_one(beat.bitten(), creep.id)),
            n == all.take(i as int).filter(test).len(),
            n <= i,
        decreases field.creeps@.len() - i,
    {
        let creep = field.creeps[i];
        proof {
            assert(all[i as int] == *creep);
            assert(all.take(i as int + 1) =~= all.take(i as int).push(*creep));
            all.take(i as int).lemma_filter_push(*creep, test);
        }
        if beat.struck_me(creep.id) {
            n += 1;
        }
        i += 1;
    }
    assert(all.take(field.creeps@.len() as int) =~= all);
    n
}

/// Shakes off the creeps that are chewing on the hero, by pointing at
/// somebody else of its own, and stands still the tick after.
///
/// It has to be aimed at somebody else of its own: a hero pointing at itself
/// has told the creeps nothing. An order at a unit is a follow, so the tick
/// after, the hero is told to stand.
pub fn shake(shook_at: &mut Option<u32>, tick: u32, beat: &Beat, field: &Field) -> (ask: Option<Ask>)
    ensures
        (ask, *final(shook_at)) == shake_spec(*old(shook_at), tick, beat.bitten(), *field),
{
    if *shook_at == Some(tick.saturating_sub(1)) {
        return Some(Ask::mine(Order::Move { target: Target::Nothing }));
    }
    if let Some(at) = *shook_at {
        if tick.saturating_sub(at) < SHAKE_TICKS {
            return None;
        }
    }
    if count_biting(beat, field) < SHAKE_CREEPS {
        return None;
    }
    let ally = if field.own_creeps.len() > 0 {
        field.own_creeps[0].id
    } else if field.allies.len() > 0 {
        field.allies[0].id
    } else {
        match field.courier {
            Some(bird) => bird.id,
            None => return None,
        }
    };
    *shook_at = Some(tick);
    Some(Ask::swing_at(ally))
}

/// A fresh shake comes only once the wait after the last has run out, and
/// the tick after a shake leaves the clock where it stood.
pub proof fn lemma_shakes_keep_their_distance(
    shook_at: Option<u32>,
    tick: u32,
    bitten: Seq<(u32, EntityId)>,
    field: Field,
)
    ensures
        ({
            let (ask, after) = shake_spec(shook_at, tick, bitten, field);
            &&& after != shook_at ==> after == Some(tick) && ask is Some && (shook_at matches Some(
                at,
            ) ==> ticks_since(tick, at) >= SHAKE_TICKS)
            &&& shook_at == Some(ticks_since(tick, 1) as u32) ==> after == shook_at && ask == Some(
                Ask { unit: None, order: Order::Move { target: Target::Nothing } },
            )
        }),
{
}

} // verus!
