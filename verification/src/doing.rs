//! Whether a deed can be done, and what order it turns into.
//!
//! The two halves of the same question, kept together so they cannot drift
//! apart: a deed that [`allowed`] calls legal is one [`Deed::into_ask`] can
//! build an order for. A legal deed that decodes to nothing would be a tick
//! thrown away, and there is one order a tick.
//!
//! Deeds are numbered, one flag per number, so that whatever chooses can be
//! handed the whole list at once.

use vstd::prelude::*;

use crate::ask::Ask;
use crate::field::{
    deref, first_where, gold_in, has_ability, lemma_first_where, lemma_nowhere, ready, worn, Field,
    WORN_SLOTS,
};
use crate::aim::{ahead_of, spot_ahead};
use crate::numbers::{
    BURST, CLARITY, DELIVER, MAGIC_STICK, MAGIC_WAND, RETURN_ITEMS, SALVE, SCROLL, TAKE_STASH,
    TANGO,
};
use crate::proto::{
    near, saturate, AbilityId, AbilitySlot, AbilityView, EntityId, Fixed, ItemId, ItemSlot,
    ItemView, Order, ShopEntry, Target, UnitView, Vec2, WHOLE,
};
use crate::shop::{counts_fit, next_buy_spec, well_founded, Stall};

verus! {

/// How many of the nearest creeps, and of the nearest heroes, are offered.
pub const MARKS: usize = 5;

/// How many ways round a step is offered in, evenly spaced.
pub const STEPS: usize = 8;

/// How far one step goes, in world units.
pub const STEP: i32 = 400;

/// How far a step on the diagonal goes along each axis: a step over the
/// square root of two, rounded.
pub const DIAGONAL_STEP: i32 = 283;

/// Ability slots a deed may name.
pub const ABILITIES: usize = 6;

/// The ways a cast may be aimed.
pub const AIMS: usize = 4;

/// Bag slots a deed may name, backpack included.
pub const ITEMS: usize = 9;

/// The errands a courier may be sent on.
pub const ERRANDS: usize = 4;

/// The places a hero may be sent to.
pub const PLACES: usize = 3;

/// How far ahead a cast aimed at the ground is put, in world units.
pub const AHEAD: i32 = 600;

/// How near the fountain buying is offered, in world units, with room to
/// spare.
pub const SHOP_REACH: i32 = 800;

/// The cheapest thing the shop sells.
pub const CHEAPEST: i32 = 50;

/// Where the numbers of each kind of deed begin.
pub const SWING_BASE: usize = 1;
/// Where putting out one of its own begins.
pub const PUT_OUT_BASE: usize = SWING_BASE + MARKS;
/// Where fighting a hero begins.
pub const FIGHT_BASE: usize = PUT_OUT_BASE + MARKS;
/// Where the steps begin.
pub const STEP_BASE: usize = FIGHT_BASE + MARKS;
/// Where the places begin.
pub const GO_TO_BASE: usize = STEP_BASE + STEPS;
/// Where the casts begin: a run of aims per ability slot.
pub const CAST_BASE: usize = GO_TO_BASE + PLACES;
/// Where using an item begins.
pub const USE_BASE: usize = CAST_BASE + ABILITIES * AIMS;
/// The number of buying.
pub const BUY_AT: usize = USE_BASE + ITEMS;
/// Where spending a point begins.
pub const LEARN_BASE: usize = BUY_AT + 1;
/// Where the errands begin.
pub const ERRAND_BASE: usize = LEARN_BASE + ABILITIES;
/// Where selling begins.
pub const SELL_BASE: usize = ERRAND_BASE + ERRANDS;
/// How many deeds there are.
pub const DEEDS: usize = SELL_BASE + ITEMS;

/// Where a hero may be sent.
#[derive(Clone, Copy, Debug, PartialEq, Eq, Structural)]
pub enum Place {
    /// Its own fountain.
    Home,
    /// The frontmost tower its side holds on its lane.
    OwnTower,
    /// The frontmost tower the other side holds on its lane.
    TheirTower,
}

/// How a cast is aimed.
#[derive(Clone, Copy, Debug, PartialEq, Eq, Structural)]
pub enum Aim {
    /// At nothing: on the caster.
    Own,
    /// At the ground ahead of the caster.
    Ahead,
    /// At the nearest hero of the other side.
    Hero,
    /// At the nearest creep of the other side.
    Creep,
}

/// What a courier may be sent to do.
#[derive(Clone, Copy, Debug, PartialEq, Eq, Structural)]
pub enum Errand {
    /// Take what waits in the stash.
    TakeStash,
    /// Hand over what it carries.
    Deliver,
    /// Its burst of speed.
    Burst,
    /// Put back what it carries.
    PutBack,
}

/// One thing the hero may be told to do this tick.
#[derive(Clone, Copy, Debug, PartialEq, Eq, Structural)]
pub enum Deed {
    /// Stop where it stands.
    Stand,
    /// Swing at one of the other side's creeps, nearest first.
    Swing(usize),
    /// Put out one of its own creeps, nearest first.
    PutOut(usize),
    /// Fight one of the other side's heroes, nearest first.
    Fight(usize),
    /// Step one of the ways round.
    Step(usize),
    /// Walk to a place.
    GoTo(Place),
    /// Cast from an ability slot, aimed one way.
    Cast(usize, Aim),
    /// Use the item in a bag slot.
    Use(usize),
    /// Buy the next thing on the list.
    Buy,
    /// Spend a point on an ability slot.
    Learn(usize),
    /// Send the courier on an errand.
    Errand(Errand),
    /// Sell the item in a bag slot.
    Sell(usize),
}

/// The number of a place.
pub open spec fn place_number(p: Place) -> int {
    match p {
        Place::Home => 0,
        Place::OwnTower => 1,
        Place::TheirTower => 2,
    }
}

/// The number of an aim.
pub open spec fn aim_number(a: Aim) -> int {
    match a {
        Aim::Own => 0,
        Aim::Ahead => 1,
        Aim::Hero => 2,
        Aim::Creep => 3,
    }
}

/// The number of an errand.
pub open spec fn errand_number(e: Errand) -> int {
    match e {
        Errand::TakeStash => 0,
        Errand::Deliver => 1,
        Errand::Burst => 2,
        Errand::PutBack => 3,
    }
}

/// Whether a deed has a number: what it names lies inside the range offered.
pub open spec fn numbered(d: Deed) -> bool {
    match d {
        Deed::Swing(at) => at < MARKS,
        Deed::PutOut(at) => at < MARKS,
        Deed::Fight(at) => at < MARKS,
        Deed::Step(at) => at < STEPS,
        Deed::Cast(slot, _) => slot < ABILITIES,
        Deed::Use(slot) => slot < ITEMS,
        Deed::Learn(slot) => slot < ABILITIES,
        Deed::Sell(slot) => slot < ITEMS,
        _ => true,
    }
}

/// The number of a deed.
pub open spec fn deed_index(d: Deed) -> int {
    match d {
        Deed::Stand => 0,
        Deed::Swing(at) => SWING_BASE + at,
        Deed::PutOut(at) => PUT_OUT_BASE + at,
        Deed::Fight(at) => FIGHT_BASE + at,
        Deed::Step(at) => STEP_BASE + at,
        Deed::GoTo(p) => GO_TO_BASE + place_number(p),
        Deed::Cast(slot, aim) => CAST_BASE + slot * AIMS + aim_number(aim),
        Deed::Use(slot) => USE_BASE + slot,
        Deed::Buy => BUY_AT as int,
        Deed::Learn(slot) => LEARN_BASE + slot,
        Deed::Errand(e) => ERRAND_BASE + errand_number(e),
        Deed::Sell(slot) => SELL_BASE + slot,
    }
}

/// The aim of a number.
pub open spec fn aim_at(k: int) -> Aim {
    if k == 0 {
        Aim::Own
    } else if k == 1 {
        Aim::Ahead
    } else if k == 2 {
        Aim::Hero
    } else {
        Aim::Creep
    }
}

/// The deed a number stands for.
pub open spec fn deed_at(i: int) -> Deed {
    if i < SWING_BASE {
        Deed::Stand
    } else if i < PUT_OUT_BASE {
        Deed::Swing((i - SWING_BASE) as usize)
    } else if i < FIGHT_BASE {
        Deed::PutOut((i - PUT_OUT_BASE) as usize)
    } else if i < STEP_BASE {
        Deed::Fight((i - FIGHT_BASE) as usize)
    } else if i < GO_TO_BASE {
        Deed::Step((i - STEP_BASE) as usize)
    } else if i < CAST_BASE {
        Deed::GoTo(
            if i - GO_TO_BASE == 0 {
                Place::Home
            } else if i - GO_TO_BASE == 1 {
                Place::OwnTower
            } else {
                Place::TheirTower
            },
        )
    } else if i < USE_BASE {
        Deed::Cast(((i - CAST_BASE) / AIMS as int) as usize, aim_at((i - CAST_BASE) % AIMS as int))
    } else if i < BUY_AT {
        Deed::Use((i - USE_BASE) as usize)
    } else if i < LEARN_BASE {
        Deed::Buy
    } else if i < ERRAND_BASE {
        Deed::Learn((i - LEARN_BASE) as usize)
    } else if i < SELL_BASE {
        Deed::Errand(
            if i - ERRAND_BASE == 0 {
                Errand::TakeStash
            } else if i - ERRAND_BASE == 1 {
                Errand::Deliver
            } else if i - ERRAND_BASE == 2 {
                Errand::Burst
            } else {
                Errand::PutBack
            },
        )
    } else {
        Deed::Sell((i - SELL_BASE) as usize)
    }
}

/// Every numbered deed has a number below the count, and that number
/// stands for it.
pub proof fn lemma_numbers_read_back(d: Deed)
    requires
        numbered(d),
    ensures
        0 <= deed_index(d) < DEEDS,
        deed_at(deed_index(d)) == d,
{
    if let Deed::Cast(slot, aim) = d {
        let k = slot * AIMS + aim_number(aim);
        assert(k / 4 == slot && k % 4 == aim_number(aim)) by (nonlinear_arith)
            requires
                k == slot * 4 + aim_number(aim),
                0 <= aim_number(aim) < 4,
                0 <= slot,
        ;
    }
}

/// Every number below the count stands for a numbered deed whose number it
/// is.
pub proof fn lemma_every_number_is_a_deed(i: int)
    requires
        0 <= i < DEEDS,
    ensures
        numbered(deed_at(i)),
        deed_index(deed_at(i)) == i,
{
    if CAST_BASE <= i < USE_BASE {
        let k = i - CAST_BASE;
        assert(k / 4 * 4 + k % 4 == k && 0 <= k / 4 < 6 && 0 <= k % 4 < 4) by (nonlinear_arith)
            requires
                0 <= k < 24,
        ;
    }
}

impl Deed {
    /// The deed a number stands for.
    pub fn of(i: usize) -> (d: Deed)
        requires
            i < DEEDS,
        ensures
            d == deed_at(i as int),
            numbered(d),
            deed_index(d) == i,
    {
        proof {
            lemma_every_number_is_a_deed(i as int);
        }
        if i < SWING_BASE {
            Deed::Stand
        } else if i < PUT_OUT_BASE {
            Deed::Swing(i - SWING_BASE)
        } else if i < FIGHT_BASE {
            Deed::PutOut(i - PUT_OUT_BASE)
        } else if i < STEP_BASE {
            Deed::Fight(i - FIGHT_BASE)
        } else if i < GO_TO_BASE {
            Deed::Step(i - STEP_BASE)
        } else if i < CAST_BASE {
            Deed::GoTo(
                if i - GO_TO_BASE == 0 {
                    Place::Home
                } else if i - GO_TO_BASE == 1 {
                    Place::OwnTower
                } else {
                    Place::TheirTower
                },
            )
        } else if i < USE_BASE {
            let k = i - CAST_BASE;
            let a = k % AIMS;
            Deed::Cast(
                k / AIMS,
                if a == 0 {
                    Aim::Own
                } else if a == 1 {
                    Aim::Ahead
                } else if a == 2 {
                    Aim::Hero
                } else {
                    Aim::Creep
                },
            )
        } else if i < BUY_AT {
            Deed::Use(i - USE_BASE)
        } else if i < LEARN_BASE {
            Deed::Buy
        } else if i < ERRAND_BASE {
            Deed::Learn(i - LEARN_BASE)
        } else if i < SELL_BASE {
            Deed::Errand(
                if i - ERRAND_BASE == 0 {
                    Errand::TakeStash
                } else if i - ERRAND_BASE == 1 {
                    Errand::Deliver
                } else if i - ERRAND_BASE == 2 {
                    Errand::Burst
                } else {
                    Errand::PutBack
                },
            )
        } else {
            Deed::Sell(i - SELL_BASE)
        }
    }

    /// The number of a deed that has one.
    pub fn index(self) -> (i: usize)
        requires
            numbered(self),
        ensures
            i == deed_index(self),
            i < DEEDS,
    {
        proof {
            lemma_numbers_read_back(self);
        }
        match self {
            Deed::Stand => 0,
            Deed::Swing(at) => SWING_BASE + at,
            Deed::PutOut(at) => PUT_OUT_BASE + at,
            Deed::Fight(at) => FIGHT_BASE + at,
            Deed::Step(at) => STEP_BASE + at,
            Deed::GoTo(p) => GO_TO_BASE + match p {
                Place::Home => 0,
                Place::OwnTower => 1,
                Place::TheirTower => 2,
            },
            Deed::Cast(slot, aim) => CAST_BASE + slot * AIMS + match aim {
                Aim::Own => 0,
                Aim::Ahead => 1,
                Aim::Hero => 2,
                Aim::Creep => 3,
            },
            Deed::Use(slot) => USE_BASE + slot,
            Deed::Buy => BUY_AT,
            Deed::Learn(slot) => LEARN_BASE + slot,
            Deed::Errand(e) => ERRAND_BASE + match e {
                Errand::TakeStash => 0,
                Errand::Deliver => 1,
                Errand::Burst => 2,
                Errand::PutBack => 3,
            },
            Deed::Sell(slot) => SELL_BASE + slot,
        }
    }
}

/// The courier ability an errand is.
pub open spec fn errand_ability(e: Errand) -> u16 {
    match e {
        Errand::TakeStash => TAKE_STASH,
        Errand::Deliver => DELIVER,
        Errand::Burst => BURST,
        Errand::PutBack => RETURN_ITEMS,
    }
}

/// The first of a courier's ability slots holding an errand's ability.
pub open spec fn errand_slot(book: Seq<AbilityView>, e: Errand) -> Option<int> {
    first_where(book, has_ability(AbilityId(errand_ability(e))))
}

/// Whether an item has a use: one of the items that are spent or pressed.
pub open spec fn has_a_use(id: ItemId) -> bool {
    id.0 == TANGO || id.0 == CLARITY || id.0 == SALVE || id.0 == SCROLL || id.0 == MAGIC_STICK
        || id.0 == MAGIC_WAND
}

/// Whether an ability can be cast the way an aim asks: on its caster, on
/// the ground, or on a unit, as the ability itself is aimed.
pub open spec fn suits(held: AbilityView, aim: Aim) -> bool {
    !held.passive && match held.aim {
        crate::proto::Aim::Own => aim == Aim::Own,
        crate::proto::Aim::Point => aim == Aim::Ahead,
        crate::proto::Aim::Unit => aim == Aim::Hero || aim == Aim::Creep,
        _ => false,
    }
}

/// Whether one of its own is worn down far enough to be put out: below half
/// of its whole health.
pub open spec fn worn_down(unit: UnitView) -> bool {
    unit.max_hp <= 0 || 2 * (if unit.hp > 0 {
        unit.hp as int
    } else {
        0
    }) < unit.max_hp
}

/// Where a place is, when the field shows it.
pub open spec fn place_spot(field: Field, p: Place) -> Option<Vec2> {
    match p {
        Place::Home => field.home,
        Place::OwnTower => match field.lane {
            Some(lane) => lane.mine,
            None => None,
        },
        Place::TheirTower => match field.lane {
            Some(lane) => lane.theirs,
            None => None,
        },
    }
}

/// How far a step one of the ways round goes along each axis, counted round
/// from the way of rising x towards rising y.
pub open spec fn step_offset(way: int) -> (int, int) {
    let w = way % STEPS as int;
    if w == 0 {
        (STEP as int, 0)
    } else if w == 1 {
        (DIAGONAL_STEP as int, DIAGONAL_STEP as int)
    } else if w == 2 {
        (0, STEP as int)
    } else if w == 3 {
        (-DIAGONAL_STEP, DIAGONAL_STEP as int)
    } else if w == 4 {
        (-STEP, 0)
    } else if w == 5 {
        (-DIAGONAL_STEP, -DIAGONAL_STEP)
    } else if w == 6 {
        (0, -STEP)
    } else {
        (DIAGONAL_STEP as int, -DIAGONAL_STEP)
    }
}

/// Where a step one of the ways round from a spot lands, held on the map's
/// raw range.
pub open spec fn step_spot(from: Vec2, way: int) -> Vec2 {
    let (dx, dy) = step_offset(way);
    Vec2 {
        x: Fixed { raw: saturate(from.x.raw + dx * WHOLE) as i32 },
        y: Fixed { raw: saturate(from.y.raw + dy * WHOLE) as i32 },
    }
}

/// How far ahead a cast aimed at the ground is put: no further than the
/// cast reaches, so it goes off where the body stands.
pub open spec fn ahead_reach(held: AbilityView) -> int {
    if held.range < -32767 {
        -32767
    } else if held.range < AHEAD {
        held.range as int
    } else {
        AHEAD as int
    }
}

/// Whether a cast aimed one way has something to land on within its reach.
pub open spec fn has_a_target(field: Field, me: UnitView, held: AbilityView, aim: Aim) -> bool {
    match aim {
        Aim::Hero => field.enemies@.len() > 0 && near(
            me.pos,
            field.enemies@[0].pos,
            held.range * WHOLE,
        ),
        Aim::Creep => field.creeps@.len() > 0 && near(
            me.pos,
            field.creeps@[0].pos,
            held.range * WHOLE,
        ),
        _ => true,
    }
}

/// What a cast aimed one way is aimed at, when there is anything.
pub open spec fn cast_target(field: Field, me: UnitView, held: AbilityView, aim: Aim) -> Option<
    Target,
> {
    match aim {
        Aim::Own => Some(Target::Nothing),
        Aim::Ahead => Some(Target::Pos(ahead_of(me, ahead_reach(held)))),
        Aim::Hero => if field.enemies@.len() > 0 {
            Some(Target::Unit(field.enemies@[0].id))
        } else {
            None
        },
        Aim::Creep => if field.creeps@.len() > 0 {
            Some(Target::Unit(field.creeps@[0].id))
        } else {
            None
        },
    }
}

/// Whether a row of slots has an empty one among its first few.
pub open spec fn room_within(slots: Seq<Option<ItemView>>, n: int) -> bool {
    exists|k: int| 0 <= k < n && k < slots.len() && slots[k] is None
}

/// Whether there is anything worth buying, the gold for the cheapest thing,
/// and somewhere for it to land: a working slot when bought at the shop, a
/// stash slot and a courier to fetch it when bought away from it.
pub open spec fn wants_to_buy(field: Field) -> bool {
    match deref(field.me) {
        Some(me) => {
            &&& gold_in(*field.seat) >= CHEAPEST
            &&& if (field.home matches Some(home) && near(me.pos, home, SHOP_REACH * WHOLE)) {
                room_within(me.items@, WORN_SLOTS as int)
            } else {
                (field.seat.stash matches Some(slots) && room_within(slots@, slots@.len() as int))
                    && field.courier is Some
            }
        },
        None => false,
    }
}

/// Whether a deed could be done this tick.
///
/// Everything a body cannot do because it is not standing, or has nothing
/// to do it to, is not; buying is only offered when the list has something
/// the gold pays for.
pub open spec fn allowed_spec(field: Field, entries: Seq<ShopEntry>, d: Deed) -> bool {
    match deref(field.me) {
        None => false,
        Some(me) => match d {
            Deed::Stand => true,
            Deed::Swing(at) => at < field.creeps@.len(),
            Deed::PutOut(at) => at < field.own_creeps@.len() && worn_down(*field.own_creeps@[at as int]),
            Deed::Fight(at) => at < field.enemies@.len(),
            Deed::Step(_) => true,
            Deed::GoTo(p) => place_spot(field, p) is Some,
            Deed::Cast(slot, aim) => slot < me.abilities@.len() && {
                let held = me.abilities@[slot as int];
                &&& ready(held, me)
                &&& suits(held, aim)
                &&& has_a_target(field, me, held, aim)
            },
            Deed::Use(slot) => slot < me.items@.len() && (me.items@[slot as int] matches Some(held)
                && has_a_use(held.id) && held.cooldown_left == 0),
            Deed::Buy => wants_to_buy(field) && next_buy_spec(entries, field) is Some,
            Deed::Learn(slot) => slot < me.abilities@.len() && me.abilities@[slot as int].can_level,
            Deed::Errand(e) => (field.courier matches Some(bird) && (errand_slot(
                bird.abilities@,
                e,
            ) matches Some(k) && bird.abilities@[k].cooldown_left == 0)),
            Deed::Sell(slot) => slot < me.items@.len() && me.items@[slot as int] is Some,
        },
    }
}

/// An order for the seat's own hero.
pub open spec fn hero_order(order: Order) -> Option<Ask> {
    Some(Ask { unit: None, order })
}

/// The order a deed asks for, if it can be turned into one.
pub open spec fn deed_ask(d: Deed, field: Field, entries: Seq<ShopEntry>) -> Option<Ask> {
    match deref(field.me) {
        None => None,
        Some(me) => match d {
            Deed::Stand => hero_order(Order::Move { target: Target::Nothing }),
            Deed::Swing(at) => if at < field.creeps@.len() {
                hero_order(Order::Attack { target: Target::Unit(field.creeps@[at as int].id) })
            } else {
                None
            },
            Deed::PutOut(at) => if at < field.own_creeps@.len() {
                hero_order(Order::Attack { target: Target::Unit(field.own_creeps@[at as int].id) })
            } else {
                None
            },
            Deed::Fight(at) => if at < field.enemies@.len() {
                hero_order(Order::Attack { target: Target::Unit(field.enemies@[at as int].id) })
            } else {
                None
            },
            Deed::Step(way) => hero_order(
                Order::Move { target: Target::Pos(step_spot(me.pos, way as int)) },
            ),
            Deed::GoTo(p) => match place_spot(field, p) {
                Some(spot) => hero_order(Order::Move { target: Target::Pos(spot) }),
                None => None,
            },
            Deed::Cast(slot, aim) => if slot < me.abilities@.len() {
                let held = me.abilities@[slot as int];
                if held.level == 0 || held.cooldown_left > 0 || !suits(held, aim) {
                    None
                } else {
                    match cast_target(field, me, held, aim) {
                        Some(target) => hero_order(
                            Order::Cast { slot: AbilitySlot(slot as u8), target },
                        ),
                        None => None,
                    }
                }
            } else {
                None
            },
            Deed::Use(slot) => if slot < me.items@.len() && me.items@[slot as int] is Some {
                hero_order(Order::Use { slot: ItemSlot(slot as u8), target: Target::Nothing })
            } else {
                None
            },
            Deed::Buy => match next_buy_spec(entries, field) {
                Some(item) => hero_order(Order::Buy { item }),
                None => None,
            },
            Deed::Learn(slot) => if slot < me.abilities@.len() {
                hero_order(Order::Learn { slot: AbilitySlot(slot as u8) })
            } else {
                None
            },
            Deed::Errand(e) => match field.courier {
                Some(bird) => match errand_slot(bird.abilities@, e) {
                    Some(k) => Some(
                        Ask {
                            unit: Some(bird.id),
                            order: Order::Cast {
                                slot: AbilitySlot(k as u8),
                                target: Target::Nothing,
                            },
                        },
                    ),
                    None => None,
                },
                None => None,
            },
            Deed::Sell(slot) => if slot < me.items@.len() && me.items@[slot as int] is Some {
                hero_order(Order::Sell { slot: ItemSlot(slot as u8) })
            } else {
                None
            },
        },
    }
}

/// The first of a courier's ability slots holding an errand's ability.
fn errand_slot_of(book: &Vec<AbilityView>, e: Errand) -> (k: Option<usize>)
    ensures
        match k {
            Some(at) => errand_slot(book@, e) == Some(at as int) && at < book@.len(),
            None => errand_slot(book@, e) is None,
        },
{
    let wanted: u16 = match e {
        Errand::TakeStash => TAKE_STASH,
        Errand::Deliver => DELIVER,
        Errand::Burst => BURST,
        Errand::PutBack => RETURN_ITEMS,
    };
    let ghost test = has_ability(AbilityId(errand_ability(e)));
    let mut i: usize = 0;
    while i < book.len()
        invariant
            i <= book@.len(),
            wanted == errand_ability(e),
            test == has_ability(AbilityId(errand_ability(e))),
            forall|j: int| 0 <= j < i ==> !test(#[trigger] book@[j]),
        decreases book@.len() - i,
    {
        if book[i].id.0 == wanted {
            proof {
                lemma_first_where(book@, test, i as int);
            }
            return Some(i);
        }
        i += 1;
    }
    proof {
        lemma_nowhere(book@, test);
    }
    None
}

/// Whether an item has a use.
fn is_of_use(id: ItemId) -> (useful: bool)
    ensures
        useful == has_a_use(id),
{
    id.0 == TANGO || id.0 == CLARITY || id.0 == SALVE || id.0 == SCROLL || id.0 == MAGIC_STICK
        || id.0 == MAGIC_WAND
}

/// Whether an ability can be cast the way an aim asks.
fn suits_aim(held: &AbilityView, aim: Aim) -> (fits: bool)
    ensures
        fits == suits(*held, aim),
{
    if held.passive {
        return false;
    }
    match held.aim {
        crate::proto::Aim::Own => aim == Aim::Own,
        crate::proto::Aim::Point => aim == Aim::Ahead,
        crate::proto::Aim::Unit => aim == Aim::Hero || aim == Aim::Creep,
        _ => false,
    }
}

/// Whether one of its own is worn down far enough to be put out.
fn is_worn_down(unit: &UnitView) -> (down: bool)
    ensures
        down == worn_down(*unit),
{
    let hp: i64 = if unit.hp > 0 { unit.hp as i64 } else { 0 };
    unit.max_hp <= 0 || 2 * hp < unit.max_hp as i64
}

/// Where a place is, when the field shows it.
fn place_of(field: &Field, p: Place) -> (spot: Option<Vec2>)
    ensures
        spot == place_spot(*field, p),
{
    match p {
        Place::Home => field.home,
        Place::OwnTower => match &field.lane {
            Some(lane) => lane.mine,
            None => None,
        },
        Place::TheirTower => match &field.lane {
            Some(lane) => lane.theirs,
            None => None,
        },
    }
}

/// Where a step one of the ways round from a spot lands.
fn step_from(from: Vec2, way: usize) -> (spot: Vec2)
    ensures
        spot == step_spot(from, way as int),
{
    let w = way % STEPS;
    let (dx, dy): (i32, i32) = if w == 0 {
        (STEP, 0)
    } else if w == 1 {
        (DIAGONAL_STEP, DIAGONAL_STEP)
    } else if w == 2 {
        (0, STEP)
    } else if w == 3 {
        (-DIAGONAL_STEP, DIAGONAL_STEP)
    } else if w == 4 {
        (-STEP, 0)
    } else if w == 5 {
        (-DIAGONAL_STEP, -DIAGONAL_STEP)
    } else if w == 6 {
        (0, -STEP)
    } else {
        (DIAGONAL_STEP, -DIAGONAL_STEP)
    };
    from.offset_by(Vec2::from_ints(dx, dy))
}

/// Whether a spot lies within a reach, in world units, of another.
fn near_within(one: Vec2, other: Vec2, reach: i32) -> (close: bool)
    ensures
        close == near(one, other, reach * WHOLE),
{
    let r = (reach as i128) * 65536;
    proof {
        assert(r * r <= 0x1_0000_0000_0000_0000_0000_0000) by (nonlinear_arith)
            requires
                r == reach * 65536,
                i32::MIN <= reach <= i32::MAX,
        ;
    }
    r >= 0 && one.distance_squared(other) <= r * r
}

/// Whether a cast aimed one way has something to land on within its reach.
fn aimed_at_something(field: &Field, me: &UnitView, held: &AbilityView, aim: Aim) -> (found: bool)
    ensures
        found == has_a_target(*field, *me, *held, aim),
{
    match aim {
        Aim::Hero => field.enemies.len() > 0 && near_within(me.pos, field.enemies[0].pos, held.range),
        Aim::Creep => field.creeps.len() > 0 && near_within(me.pos, field.creeps[0].pos, held.range),
        _ => true,
    }
}

/// What a cast aimed one way is aimed at, when there is anything.
fn target_of(field: &Field, me: &UnitView, held: &AbilityView, aim: Aim) -> (target: Option<
    Target,
>)
    ensures
        target == cast_target(*field, *me, *held, aim),
{
    match aim {
        Aim::Own => Some(Target::Nothing),
        Aim::Ahead => {
            let reach: i32 = if held.range < -32767 {
                -32767
            } else if held.range < AHEAD {
                held.range
            } else {
                AHEAD
            };
            Some(Target::Pos(spot_ahead(me, reach)))
        },
        Aim::Hero => if field.enemies.len() > 0 {
            Some(Target::Unit(field.enemies[0].id))
        } else {
            None
        },
        Aim::Creep => if field.creeps.len() > 0 {
            Some(Target::Unit(field.creeps[0].id))
        } else {
            None
        },
    }
}

/// Whether a row of slots has an empty one among its first few.
fn has_room(slots: &Vec<Option<ItemView>>, n: usize) -> (room: bool)
    ensures
        room == room_within(slots@, n as int),
{
    let mut k: usize = 0;
    while k < n && k < slots.len()
        invariant
            k <= n,
            k <= slots@.len(),
            forall|j: int| 0 <= j < k ==> slots@[j] is Some,
        decreases slots@.len() - k,
    {
        if slots[k].is_none() {
            return true;
        }
        k += 1;
    }
    false
}

/// Whether there is the gold and the room for buying.
fn buying_wanted(field: &Field) -> (wanted: bool)
    ensures
        wanted == wants_to_buy(*field),
{
    let me = match field.me {
        Some(me) => me,
        None => return false,
    };
    if field.gold() < CHEAPEST {
        return false;
    }
    let at_shop = match field.home {
        Some(home) => near_within(me.pos, home, SHOP_REACH),
        None => false,
    };
    if at_shop {
        has_room(&me.items, WORN_SLOTS)
    } else {
        let stash_room = match &field.seat.stash {
            Some(slots) => has_room(slots, slots.len()),
            None => false,
        };
        stash_room && field.courier.is_some()
    }
}

/// Whether one deed could be done this tick.
pub fn is_allowed(d: Deed, field: &Field, stall: &Stall) -> (may: bool)
    requires
        well_founded(stall.entries@),
        counts_fit(stall.entries@, *field),
    ensures
        may == allowed_spec(*field, stall.entries@, d),
{
    let me = match field.me {
        Some(me) => me,
        None => return false,
    };
    match d {
        Deed::Stand => true,
        Deed::Swing(at) => at < field.creeps.len(),
        Deed::PutOut(at) => at < field.own_creeps.len() && is_worn_down(field.own_creeps[at]),
        Deed::Fight(at) => at < field.enemies.len(),
        Deed::Step(_) => true,
        Deed::GoTo(p) => place_of(field, p).is_some(),
        Deed::Cast(slot, aim) => {
            if slot >= me.abilities.len() {
                return false;
            }
            let held = &me.abilities[slot];
            held.level > 0 && held.cooldown_left == 0 && me.mana >= held.mana_cost && suits_aim(
                held,
                aim,
            ) && aimed_at_something(field, me, held, aim)
        },
        Deed::Use(slot) => slot < me.items.len() && match &me.items[slot] {
            Some(held) => is_of_use(held.id) && held.cooldown_left == 0,
            None => false,
        },
        Deed::Buy => buying_wanted(field) && stall.next_buy(field).is_some(),
        Deed::Learn(slot) => slot < me.abilities.len() && me.abilities[slot].can_level,
        Deed::Errand(e) => match field.courier {
            Some(bird) => match errand_slot_of(&bird.abilities, e) {
                Some(k) => bird.abilities[k].cooldown_left == 0,
                None => false,
            },
            None => false,
        },
        Deed::Sell(slot) => slot < me.items.len() && me.items[slot].is_some(),
    }
}

/// Which deeds could be done this tick, one flag per deed in the numbering
/// of the list.
///
/// Everything a body cannot do because it is not standing, or has nothing
/// to do it to, comes out false; what is left is what may be chosen
/// between.
pub fn allowed(field: &Field, stall: &Stall) -> (out: Vec<bool>)
    requires
        well_founded(stall.entries@),
        counts_fit(stall.entries@, *field),
    ensures
        out@.len() == DEEDS,
        forall|i: int| 0 <= i < DEEDS ==> out@[i] == allowed_spec(*field, stall.entries@, deed_at(i)),
        forall|d: Deed|
            numbered(d) ==> out@[deed_index(d)] == allowed_spec(*field, stall.entries@, d),
{
    let mut out: Vec<bool> = Vec::new();
    let mut i: usize = 0;
    while i < DEEDS
        invariant
            i <= DEEDS,
            well_founded(stall.entries@),
            counts_fit(stall.entries@, *field),
            out@.len() == i,
            forall|j: int|
                0 <= j < i ==> out@[j] == allowed_spec(*field, stall.entries@, deed_at(j)),
        decreases DEEDS - i,
    {
        let d = Deed::of(i);
        out.push(is_allowed(d, field, stall));
        i += 1;
    }
    proof {
        assert forall|d: Deed| numbered(d) implies out@[deed_index(d)] == allowed_spec(
            *field,
            stall.entries@,
            d,
        ) by {
            lemma_numbers_read_back(d);
        }
    }
    out
}

impl Deed {
    /// The order this deed asks for, if it can be turned into one.
    ///
    /// Answers nothing for a deed that could not be done; [`allowed`] is the
    /// same question asked ahead of time.
    pub fn into_ask(self, field: &Field, stall: &Stall) -> (ask: Option<Ask>)
        requires
            well_founded(stall.entries@),
            counts_fit(stall.entries@, *field),
        ensures
            ask == deed_ask(self, *field, stall.entries@),
    {
        let me = match field.me {
            Some(me) => me,
            None => return None,
        };
        match self {
            Deed::Stand => Some(Ask::mine(Order::Move { target: Target::Nothing })),
            Deed::Swing(at) => if at < field.creeps.len() {
                Some(Ask::swing_at(field.creeps[at].id))
            } else {
                None
            },
            Deed::PutOut(at) => if at < field.own_creeps.len() {
                Some(Ask::swing_at(field.own_creeps[at].id))
            } else {
                None
            },
            Deed::Fight(at) => if at < field.enemies.len() {
                Some(Ask::swing_at(field.enemies[at].id))
            } else {
                None
            },
            Deed::Step(way) => Some(Ask::walk_to(step_from(me.pos, way))),
            Deed::GoTo(p) => match place_of(field, p) {
                Some(spot) => Some(Ask::walk_to(spot)),
                None => None,
            },
            Deed::Cast(slot, aim) => {
                if slot >= me.abilities.len() {
                    return None;
                }
                let held = &me.abilities[slot];
                if held.level == 0 || held.cooldown_left > 0 || !suits_aim(held, aim) {
                    return None;
                }
                match target_of(field, me, held, aim) {
                    Some(target) => Some(Ask::cast(AbilitySlot(slot as u8), target)),
                    None => None,
                }
            },
            Deed::Use(slot) => if slot < me.items.len() && me.items[slot].is_some() {
                Some(Ask::use_item(ItemSlot(slot as u8), Target::Nothing))
            } else {
                None
            },
            Deed::Buy => match stall.next_buy(field) {
                Some(item) => Some(Ask::buy(item)),
                None => None,
            },
            Deed::Learn(slot) => if slot < me.abilities.len() {
                Some(Ask::learn(AbilitySlot(slot as u8)))
            } else {
                None
            },
            Deed::Errand(e) => match field.courier {
                Some(bird) => match errand_slot_of(&bird.abilities, e) {
                    Some(k) => Some(
                        Ask::of(
                            bird.id,
                            Order::Cast { slot: AbilitySlot(k as u8), target: Target::Nothing },
                        ),
                    ),
                    None => None,
                },
                None => None,
            },
            Deed::Sell(slot) => if slot < me.items.len() && me.items[slot].is_some() {
                Some(Ask::mine(Order::Sell { slot: ItemSlot(slot as u8) }))
            } else {
                None
            },
        }
    }
}

/// A deed that is allowed always turns into an order.
pub proof fn a_legal_deed_decodes(field: Field, entries: Seq<ShopEntry>, d: Deed)
    requires
        allowed_spec(field, entries, d),
    ensures
        deed_ask(d, field, entries) is Some,
{
}

/// How far, in raw steps along each axis, the order of a step deed sends
/// the hero from where it stands; nought for an order that sends it to no
/// spot.
pub open spec fn step_walk(field: Field, entries: Seq<ShopEntry>, way: int) -> (int, int) {
    match (deref(field.me), deed_ask(Deed::Step(way as usize), field, entries)) {
        (Some(me), Some(ask)) => match ask.order {
            Order::Move { target: Target::Pos(p) } => (p.x.raw - me.pos.x.raw, p.y.raw - me.pos.y.raw),
            _ => (0, 0),
        },
        _ => (0, 0),
    }
}

/// The steps go evenly round: the first goes [`STEP`] world units the way
/// of rising x, each next one is the one before turned an eighth of a circle
/// towards rising y (two ways on is a quarter turn, four ways on is straight
/// back), and a slanting one goes along each axis the step over the square
/// root of two, to the nearest world unit. Each is the hero's own walk to a
/// spot, for a hero standing clear of the edges of the raw range.
#[verifier::rlimit(50)]
pub proof fn lemma_steps_go_evenly_round(field: Field, entries: Seq<ShopEntry>)
    requires
        field.me is Some,
        i32::MIN + STEP * WHOLE <= field.me->0.pos.x.raw <= i32::MAX - STEP * WHOLE,
        i32::MIN + STEP * WHOLE <= field.me->0.pos.y.raw <= i32::MAX - STEP * WHOLE,
    ensures
        forall|w: int|
            0 <= w < STEPS ==> ((#[trigger] deed_ask(Deed::Step(w as usize), field, entries))
                matches Some(ask) && ask.unit is None && ask.order is Move),
        step_walk(field, entries, 0) == (STEP * WHOLE, 0int),
        forall|w: int|
            #![trigger step_walk(field, entries, w)]
            0 <= w < STEPS - 2 ==> step_walk(field, entries, w + 2) == (
                -step_walk(field, entries, w).1,
                step_walk(field, entries, w).0,
            ),
        forall|w: int|
            #![trigger step_walk(field, entries, w)]
            0 <= w < STEPS / 2 ==> step_walk(field, entries, w + 4) == (
                -step_walk(field, entries, w).0,
                -step_walk(field, entries, w).1,
            ),
        ({
            let d = step_walk(field, entries, 1);
            let k = d.0 / (WHOLE as int);
            &&& d.0 == d.1
            &&& d.0 == k * WHOLE
            &&& 2 * (2 * k - 1) * (2 * k - 1) < 4 * STEP * STEP < 2 * (2 * k + 1) * (2 * k + 1)
        }),
{
    let me = field.me->0;
    assert forall|w: int| 0 <= w < STEPS implies step_walk(field, entries, w) == (
        step_offset(w).0 * WHOLE,
        step_offset(w).1 * WHOLE,
    ) && ((#[trigger] deed_ask(Deed::Step(w as usize), field, entries)) matches Some(ask)
        && ask.unit is None && ask.order is Move) by {
        assert((w as usize) as int == w);
    }
    assert(step_walk(field, entries, 0) == (STEP * WHOLE, 0int));
    assert(step_walk(field, entries, 1) == (DIAGONAL_STEP * WHOLE, DIAGONAL_STEP * WHOLE));
    assert(step_walk(field, entries, 2) == (0int, STEP * WHOLE));
    assert(step_walk(field, entries, 3) == (-DIAGONAL_STEP * WHOLE, DIAGONAL_STEP * WHOLE));
    assert(step_walk(field, entries, 4) == (-STEP * WHOLE, 0int));
    assert(step_walk(field, entries, 5) == (-DIAGONAL_STEP * WHOLE, -DIAGONAL_STEP * WHOLE));
    assert(step_walk(field, entries, 6) == (0int, -STEP * WHOLE));
    assert(step_walk(field, entries, 7) == (DIAGONAL_STEP * WHOLE, -DIAGONAL_STEP * WHOLE));
    let d = step_walk(field, entries, 1);
    let k = d.0 / (WHOLE as int);
    assert(k == 283 && d.0 == k * WHOLE) by (nonlinear_arith)
        requires d.0 == 283 * 65536, k == d.0 / 65536;
    assert(2 * (2 * k - 1) * (2 * k - 1) < 4 * STEP * STEP < 2 * (2 * k + 1) * (2 * k + 1))
        by (nonlinear_arith)
        requires k == 283;
}

} // verus!
