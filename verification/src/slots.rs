//! What sits in a slot of the panel: how pressing it is answered, and how it
//! is drawn.
//!
//! Nothing here asks whether an order would succeed. A press is sent whatever
//! state the slot is in, and the server names what was wrong with it; what is
//! worked out here is only which order a press means and what the slot should
//! look like.

use vstd::prelude::*;

use crate::field::{seat_in, unit_in};
use crate::proto::{
    AbilitySlot, AbilityView, Aim, EntityId, ItemSlot, ItemView, Order, PlayerView, SlotId, Target,
    UnitView, Vec2, WorldView,
};

verus! {

/// How many item slots a hero carries on itself: inventory and backpack.
pub const BAG_SLOTS: u8 = 9;

/// How many of those are the inventory proper, where items work.
pub const INVENTORY_SLOTS: u8 = 6;

/// One slot of the bottom panel.
#[derive(Clone, Copy, Debug, PartialEq, Eq, Structural)]
pub enum Slot {
    /// An ability slot of whatever is commanded.
    Ability(u8),
    /// An item slot of this seat: inventory, backpack, then stash.
    Item(u8),
}

/// What pressing a slot asks for.
#[derive(Clone, Copy, Debug, PartialEq, Eq, Structural)]
pub enum Press {
    /// Send this order now.
    Send(Order),
    /// Take the slot up to be aimed; the next click in the world spends it.
    Aim(Slot),
    /// Nothing to press: the slot holds nothing, or holds it somewhere a
    /// press cannot reach.
    Nothing,
}

/// How a slot is drawn.
///
/// The states are not exclusive and are not meant to be: what has no points
/// in it is unusable as well as unlearned, and a passive may sit on a
/// cooldown of its own. Each field answers one question and the drawing
/// decides what to do with all of them together.
#[derive(Clone, Copy, Debug, Default, PartialEq, Eq, Structural)]
pub struct Look {
    /// Whether anything is in the slot at all.
    pub filled: bool,
    /// Whether it has been learned. Always true for an item.
    pub learned: bool,
    /// Whether pressing it right now would be carried out.
    pub usable: bool,
    /// Whether it is a toggle that is currently on.
    pub toggled: bool,
    /// Whether it works on its own and is never used.
    pub passive: bool,
    /// Ticks before it may be used again. Zero when nothing is owed.
    pub cooldown_left: u32,
}

/// The look of an empty slot.
pub open spec fn blank() -> Look {
    Look {
        filled: false,
        learned: false,
        usable: false,
        toggled: false,
        passive: false,
        cooldown_left: 0,
    }
}

/// The order one slot sends at a target: a cast from an ability slot, a use
/// from an item slot.
pub open spec fn order_spec(slot: Slot, target: Target) -> Order {
    match slot {
        Slot::Ability(at) => Order::Cast { slot: AbilitySlot(at), target },
        Slot::Item(at) => Order::Use { slot: ItemSlot(at), target },
    }
}

/// The order one slot sends at a target.
pub fn order_for(slot: Slot, target: Target) -> (order: Order)
    ensures
        order == order_spec(slot, target),
{
    match slot {
        Slot::Ability(at) => Order::Cast { slot: AbilitySlot(at), target },
        Slot::Item(at) => Order::Use { slot: ItemSlot(at), target },
    }
}

/// Which order a press means: with `ctrl` an ability slot spends a skill
/// point; a slot past the inventory means nothing; an empty slot means
/// nothing; a slot already taken up and aimed at a unit is sent at the one
/// the panel is about; what works on its own, or is never used, is sent; and
/// what is aimed is taken up.
pub open spec fn press_spec(
    slot: Slot,
    ctrl: bool,
    held: Option<Option<Aim>>,
    aiming: Option<Slot>,
    commanded: Option<EntityId>,
) -> Press {
    let learning = match slot {
        Slot::Ability(at) => if ctrl {
            Some(Press::Send(Order::Learn { slot: AbilitySlot(at) }))
        } else {
            None
        },
        Slot::Item(at) => if at >= INVENTORY_SLOTS {
            Some(Press::Nothing)
        } else {
            None
        },
    };
    if let Some(press) = learning {
        press
    } else {
        match held {
            None => Press::Nothing,
            Some(aim) => if aiming == Some(slot) && aim == Some(Aim::Unit) {
                match commanded {
                    Some(target) => Press::Send(order_spec(slot, Target::Unit(target))),
                    None => Press::Nothing,
                }
            } else {
                match aim {
                    None => Press::Send(order_spec(slot, Target::Nothing)),
                    Some(Aim::Own) => Press::Send(order_spec(slot, Target::Nothing)),
                    Some(_) => Press::Aim(slot),
                }
            },
        }
    }
}

/// Which order a press means, from the few facts that settle it.
///
/// `held` says whether the slot holds anything and how it is aimed: the outer
/// answer is whether anything is there, the inner one how it is aimed, absent
/// for something that is never used. `aiming` is the slot already taken up,
/// and `commanded` whoever the panel is about.
pub fn decide(
    slot: Slot,
    ctrl: bool,
    held: Option<Option<Aim>>,
    aiming: Option<Slot>,
    commanded: Option<EntityId>,
) -> (press: Press)
    ensures
        press == press_spec(slot, ctrl, held, aiming, commanded),
{
    match slot {
        Slot::Ability(at) => {
            if ctrl {
                return Press::Send(Order::Learn { slot: AbilitySlot(at) });
            }
        },
        Slot::Item(at) => {
            // The backpack and the stash are reached by dragging, not by
            // pressing: there is nothing there a press could mean.
            if at >= INVENTORY_SLOTS {
                return Press::Nothing;
            }
        },
    }
    let aim = match held {
        Some(aim) => aim,
        None => return Press::Nothing,
    };
    // Taken up already and aimed at a unit, a second press aims it at the one
    // holding it.
    let taken_up = match aiming {
        Some(up) => up == slot,
        None => false,
    };
    if taken_up && aim == Some(Aim::Unit) {
        return match commanded {
            Some(target) => Press::Send(order_for(slot, Target::Unit(target))),
            None => Press::Nothing,
        };
    }
    match aim {
        // What works on its own, and what cannot be used at all, is still
        // sent: the server is the one that says so.
        None | Some(Aim::Own) => Press::Send(order_for(slot, Target::Nothing)),
        Some(_) => Press::Aim(slot),
    }
}

/// How one ability slot should be drawn, given the mana its holder has.
pub fn ability_look(held: Option<&AbilityView>, mana: i32) -> (look: Look)
    ensures
        look == match held {
            None => blank(),
            Some(h) => Look {
                filled: true,
                learned: h.level > 0,
                usable: h.level > 0 && h.cooldown_left == 0 && !h.passive && mana >= h.mana_cost,
                toggled: h.on,
                passive: h.passive,
                cooldown_left: h.cooldown_left,
            },
        },
{
    let held = match held {
        Some(h) => h,
        None => return Look {
            filled: false,
            learned: false,
            usable: false,
            toggled: false,
            passive: false,
            cooldown_left: 0,
        },
    };
    Look {
        filled: true,
        learned: held.level > 0,
        usable: held.level > 0 && held.cooldown_left == 0 && !held.passive && mana
            >= held.mana_cost,
        toggled: held.on,
        passive: held.passive,
        cooldown_left: held.cooldown_left,
    }
}

/// How one item slot should be drawn.
///
/// `at` says which slot it is, since one carried in the backpack or waiting in
/// the stash is held rather than used, and `mana` is what its holder has.
pub fn item_look(item: Option<&ItemView>, at: u8, mana: i32) -> (look: Look)
    ensures
        look == match item {
            None => blank(),
            Some(it) => Look {
                filled: true,
                learned: true,
                usable: at < INVENTORY_SLOTS && it.aim is Some && it.cooldown_left == 0 && (match it.charges {
                    Some(left) => left > 0,
                    None => true,
                }) && mana >= it.mana_cost,
                toggled: false,
                passive: it.aim is None,
                cooldown_left: it.cooldown_left,
            },
        },
{
    let item = match item {
        Some(it) => it,
        None => return Look {
            filled: false,
            learned: false,
            usable: false,
            toggled: false,
            passive: false,
            cooldown_left: 0,
        },
    };
    let charged = match item.charges {
        Some(left) => left > 0,
        None => true,
    };
    Look {
        filled: true,
        learned: true,
        usable: at < INVENTORY_SLOTS && item.aim.is_some() && item.cooldown_left == 0 && charged
            && mana >= item.mana_cost,
        toggled: false,
        // An item with nothing to activate is worn rather than used, which is
        // what a passive ability is.
        passive: item.aim.is_none(),
        cooldown_left: item.cooldown_left,
    }
}

/// What the panel reads of the client: the snapshot in hand, the seat it
/// plays, whom the panel is about, and the slot taken up to be aimed.
#[derive(Clone, Copy, Debug)]
pub struct Panel<'a> {
    /// The snapshot in hand, once one has come.
    pub view: Option<&'a WorldView>,
    /// The seat this client plays, once it has one.
    pub mine: Option<SlotId>,
    /// The unit the panel is about.
    pub commanded: Option<EntityId>,
    /// The slot taken up to be aimed, if any is.
    pub aiming: Option<Slot>,
}

/// The unit of a snapshot the panel is about: the first with its handle.
pub open spec fn panel_unit(view: Option<WorldView>, commanded: Option<EntityId>) -> Option<UnitView> {
    match (view, commanded) {
        (Some(v), Some(id)) => unit_in(v.units@, id),
        _ => None,
    }
}

/// What one slot of a row of item slots holds: nothing past its end.
pub open spec fn slot_of(slots: Seq<Option<ItemView>>, at: int) -> Option<ItemView> {
    if 0 <= at < slots.len() {
        slots[at]
    } else {
        None
    }
}

/// What sits in one item slot of the panel: the bag slots are the commanded
/// unit's, the stash slots after them the seat's own.
pub open spec fn item_spec(
    view: Option<WorldView>,
    mine: Option<SlotId>,
    commanded: Option<EntityId>,
    slot: u8,
) -> Option<ItemView> {
    if slot < BAG_SLOTS {
        match panel_unit(view, commanded) {
            Some(u) => slot_of(u.items@, slot as int),
            None => None,
        }
    } else {
        match (view, mine) {
            (Some(v), Some(seat)) => match seat_in(v.players@, seat) {
                Some(p) => match p.stash {
                    Some(stash) => slot_of(stash@, slot - BAG_SLOTS),
                    None => None,
                },
                None => None,
            },
            _ => None,
        }
    }
}

/// The first unit of a snapshot with a handle.
fn unit_of<'a>(view: &'a WorldView, id: EntityId) -> (unit: Option<&'a UnitView>)
    ensures
        match unit {
            Some(u) => unit_in(view.units@, id) == Some(*u),
            None => unit_in(view.units@, id) is None,
        },
{
    let mut i: usize = 0;
    while i < view.units.len()
        invariant
            i <= view.units@.len(),
            forall|j: int| 0 <= j < i ==> (#[trigger] view.units@[j]).id != id,
        decreases view.units@.len() - i,
    {
        if view.units[i].id == id {
            proof {
                let p = view.units@;
                let k = choose|k: int|
                    0 <= k < p.len() && (#[trigger] p[k]).id == id && forall|j: int|
                        0 <= j < k ==> (#[trigger] p[j]).id != id;
                assert(0 <= i < p.len() && p[i as int].id == id && forall|j: int|
                    0 <= j < i ==> (#[trigger] p[j]).id != id);
                if k < i {
                    assert(p[k].id != id);
                }
                if i < k {
                    assert(p[i as int].id != id);
                }
            }
            return Some(&view.units[i]);
        }
        i += 1;
    }
    None
}

/// The first seat of a snapshot holding a slot.
fn seat_of<'a>(view: &'a WorldView, slot: SlotId) -> (seat: Option<&'a PlayerView>)
    ensures
        match seat {
            Some(s) => seat_in(view.players@, slot) == Some(*s),
            None => seat_in(view.players@, slot) is None,
        },
{
    let mut i: usize = 0;
    while i < view.players.len()
        invariant
            i <= view.players@.len(),
            forall|j: int| 0 <= j < i ==> (#[trigger] view.players@[j]).slot != slot,
        decreases view.players@.len() - i,
    {
        if view.players[i].slot == slot {
            proof {
                let p = view.players@;
                let k = choose|k: int|
                    0 <= k < p.len() && (#[trigger] p[k]).slot == slot && forall|j: int|
                        0 <= j < k ==> (#[trigger] p[j]).slot != slot;
                assert(0 <= i < p.len() && p[i as int].slot == slot && forall|j: int|
                    0 <= j < i ==> (#[trigger] p[j]).slot != slot);
                if k < i {
                    assert(p[k].slot != slot);
                }
                if i < k {
                    assert(p[i as int].slot != slot);
                }
            }
            return Some(&view.players[i]);
        }
        i += 1;
    }
    None
}

/// What one slot of a row of item slots holds.
fn held_at(slots: &Vec<Option<ItemView>>, at: usize) -> (held: Option<ItemView>)
    ensures
        held == slot_of(slots@, at as int),
{
    if at < slots.len() {
        slots[at]
    } else {
        None
    }
}

/// The spec view of an optional reference to a snapshot.
pub open spec fn seen(view: Option<&WorldView>) -> Option<WorldView> {
    match view {
        Some(v) => Some(*v),
        None => None,
    }
}

impl<'a> Panel<'a> {
    /// The unit whose ability slots the panel is about.
    pub fn slot_unit(&self) -> (unit: Option<&'a UnitView>)
        ensures
            match unit {
                Some(u) => panel_unit(seen(self.view), self.commanded) == Some(*u),
                None => panel_unit(seen(self.view), self.commanded) is None,
            },
    {
        let id = self.commanded?;
        let view = self.view?;
        unit_of(view, id)
    }

    /// What sits in one item slot of the panel.
    ///
    /// The bag slots are the commanded unit's — the same bag the panel
    /// draws, a courier's as readily as the hero's. The stash is the seat's
    /// own whatever is commanded.
    pub fn item_in(&self, slot: u8) -> (held: Option<ItemView>)
        ensures
            held == item_spec(seen(self.view), self.mine, self.commanded, slot),
    {
        if slot < BAG_SLOTS {
            let unit = self.slot_unit()?;
            held_at(&unit.items, slot as usize)
        } else {
            let view = self.view?;
            let mine = self.mine?;
            let player = seat_of(view, mine)?;
            match &player.stash {
                Some(stash) => held_at(stash, (slot - BAG_SLOTS) as usize),
                None => None,
            }
        }
    }

    /// How one slot is aimed, and nothing for one that cannot be used at all.
    pub fn aim_in(&self, slot: Slot) -> (aim: Option<Aim>)
        ensures
            aim == match slot {
                Slot::Ability(at) => match panel_unit(seen(self.view), self.commanded) {
                    Some(u) => if (at as int) < u.abilities@.len() {
                        Some(u.abilities@[at as int].aim)
                    } else {
                        None
                    },
                    None => None,
                },
                Slot::Item(at) => match item_spec(seen(self.view), self.mine, self.commanded, at) {
                    Some(it) => it.aim,
                    None => None,
                },
            },
    {
        match slot {
            Slot::Ability(at) => {
                let unit = self.slot_unit()?;
                if (at as usize) < unit.abilities.len() {
                    Some(unit.abilities[at as usize].aim)
                } else {
                    None
                }
            },
            Slot::Item(at) => match self.item_in(at) {
                Some(it) => it.aim,
                None => None,
            },
        }
    }

    /// How far one slot reaches, in world units: nought for one that holds
    /// nothing.
    pub fn reach_of(&self, slot: Slot) -> (reach: i32)
        ensures
            reach == match slot {
                Slot::Ability(at) => match panel_unit(seen(self.view), self.commanded) {
                    Some(u) => if (at as int) < u.abilities@.len() {
                        u.abilities@[at as int].range
                    } else {
                        0
                    },
                    None => 0,
                },
                Slot::Item(at) => match item_spec(seen(self.view), self.mine, self.commanded, at) {
                    Some(it) => it.range,
                    None => 0,
                },
            },
    {
        match slot {
            Slot::Ability(at) => match self.slot_unit() {
                Some(unit) => if (at as usize) < unit.abilities.len() {
                    unit.abilities[at as usize].range
                } else {
                    0
                },
                None => 0,
            },
            Slot::Item(at) => match self.item_in(at) {
                Some(it) => it.range,
                None => 0,
            },
        }
    }

    /// Whether a slot holds anything, and how it is aimed: the outer answer
    /// says whether the slot holds something, the inner one how that
    /// something is aimed, absent for one that is never used.
    pub open spec fn filled_spec(self, slot: Slot) -> Option<Option<Aim>> {
        match slot {
            Slot::Ability(at) => match panel_unit(seen(self.view), self.commanded) {
                Some(u) => if (at as int) < u.abilities@.len() {
                    Some(Some(u.abilities@[at as int].aim))
                } else {
                    None
                },
                None => None,
            },
            Slot::Item(at) => match item_spec(seen(self.view), self.mine, self.commanded, at) {
                Some(it) => Some(it.aim),
                None => None,
            },
        }
    }

    /// Whether a slot holds anything, and how it is aimed.
    fn filled(&self, slot: Slot) -> (held: Option<Option<Aim>>)
        ensures
            held == self.filled_spec(slot),
    {
        match slot {
            Slot::Ability(at) => {
                let unit = self.slot_unit()?;
                if (at as usize) < unit.abilities.len() {
                    Some(Some(unit.abilities[at as usize].aim))
                } else {
                    None
                }
            },
            Slot::Item(at) => match self.item_in(at) {
                Some(it) => Some(it.aim),
                None => None,
            },
        }
    }
}

/// Which order pressing a slot means.
///
/// With `ctrl` held an ability slot spends a skill point instead of casting.
/// A slot that is aimed is taken up rather than sent, and reaching for one
/// already taken up aims it at whoever holds it, so a salve is drunk with two
/// presses of its own key and no click at all.
pub fn press(panel: &Panel, slot: Slot, ctrl: bool) -> (pressed: Press)
    ensures
        pressed == press_spec(slot, ctrl, panel.filled_spec(slot), panel.aiming, panel.commanded),
{
    decide(slot, ctrl, panel.filled(slot), panel.aiming, panel.commanded)
}

/// A key or a click that orders may come of.
#[derive(Clone, Copy, Debug, PartialEq, Eq, Structural)]
pub enum Gesture {
    /// The attack-move key: the next left click is an attack.
    Arm,
    /// The stop key.
    Stop,
    /// The hold key: stand and fight what comes.
    Hold,
    /// A left click on the world.
    Left,
    /// A right click on the world.
    Right,
}

/// What lies under the cursor, as the client measured it.
#[derive(Clone, Copy, Debug)]
pub struct Pointed {
    /// The unit under the cursor, one's own hero counted.
    pub any_unit: Option<EntityId>,
    /// The unit under the cursor besides one's own hero, and whether it is
    /// of one's own side.
    pub other_unit: Option<(EntityId, bool)>,
    /// An item lying on the ground under the cursor.
    pub loot: Option<EntityId>,
    /// An enemy near the cursor.
    pub enemy_near: Option<EntityId>,
    /// The ground under the cursor.
    pub ground: Vec2,
}

/// What the world's controls are in the middle of.
#[derive(Clone, Copy, Debug, PartialEq, Eq, Structural)]
pub struct Controls {
    /// Whether the next left click is an attack.
    pub armed: bool,
    /// The slot taken up, waiting for a click to be aimed.
    pub aiming: Option<Slot>,
}

/// What a slot taken up is aimed at by a left click, the way it is aimed:
/// the ground for a spot, a tree or a building, the unit under the cursor
/// for a unit, nothing for a slot that works on its holder. Nothing to aim
/// at is no order.
pub open spec fn aimed_target(aim: Option<Aim>, pointed: Pointed) -> Option<Target> {
    match aim {
        Some(Aim::Point) | Some(Aim::Tree) | Some(Aim::Building) => Some(Target::Pos(pointed.ground)),
        Some(Aim::Unit) => match pointed.any_unit {
            Some(id) => Some(Target::Unit(id)),
            None => None,
        },
        _ => Some(Target::Nothing),
    }
}

/// What a key or a click orders, and the controls after it. `aim` is how
/// the slot taken up, if one is, is aimed.
///
/// A right click reads the ground: an enemy under the cursor is attacked,
/// one of this side's own is followed, an item lying there is picked up, an
/// enemy near the cursor is attacked, open ground is walked to.
pub open spec fn order_on_spec(controls: Controls, gesture: Gesture, pointed: Pointed, aim: Option<Aim>) -> (
    Option<Order>,
    Controls,
) {
    match gesture {
        Gesture::Arm => (None, Controls { armed: true, ..controls }),
        Gesture::Stop => (
            Some(Order::Move { target: Target::Nothing }),
            Controls { armed: false, aiming: None },
        ),
        Gesture::Hold => (
            Some(Order::Attack { target: Target::Nothing }),
            Controls { armed: false, ..controls },
        ),
        Gesture::Left => match controls.aiming {
            Some(slot) => (
                match aimed_target(aim, pointed) {
                    Some(target) => Some(order_spec(slot, target)),
                    None => None,
                },
                Controls { aiming: None, ..controls },
            ),
            None => if controls.armed {
                (
                    Some(
                        Order::Attack {
                            target: match pointed.other_unit {
                                Some((id, _)) => Target::Unit(id),
                                None => match pointed.enemy_near {
                                    Some(id) => Target::Unit(id),
                                    None => Target::Pos(pointed.ground),
                                },
                            },
                        },
                    ),
                    Controls { armed: false, ..controls },
                )
            } else {
                (None, controls)
            },
        },
        Gesture::Right => (
            Some(
                match pointed.other_unit {
                    Some((id, true)) => Order::Move { target: Target::Unit(id) },
                    Some((id, false)) => Order::Attack { target: Target::Unit(id) },
                    None => match pointed.loot {
                        Some(item) => Order::Take { target: Target::Unit(item) },
                        None => match pointed.enemy_near {
                            Some(mark) => Order::Attack { target: Target::Unit(mark) },
                            None => Order::Move { target: Target::Pos(pointed.ground) },
                        },
                    },
                },
            ),
            Controls { armed: false, aiming: None },
        ),
    }
}

/// What a key or a click on the world orders, with the controls moved on.
pub fn order_on(controls: &mut Controls, gesture: Gesture, pointed: &Pointed, aim: Option<Aim>) -> (order: Option<Order>)
    ensures
        (order, *final(controls)) == order_on_spec(*old(controls), gesture, *pointed, aim),
{
    match gesture {
        Gesture::Arm => {
            controls.armed = true;
            None
        },
        Gesture::Stop => {
            controls.armed = false;
            controls.aiming = None;
            Some(Order::Move { target: Target::Nothing })
        },
        Gesture::Hold => {
            controls.armed = false;
            Some(Order::Attack { target: Target::Nothing })
        },
        Gesture::Left => match controls.aiming {
            Some(slot) => {
                controls.aiming = None;
                let target = match aim {
                    Some(Aim::Point) | Some(Aim::Tree) | Some(Aim::Building) => Some(
                        Target::Pos(pointed.ground),
                    ),
                    Some(Aim::Unit) => match pointed.any_unit {
                        Some(id) => Some(Target::Unit(id)),
                        None => None,
                    },
                    _ => Some(Target::Nothing),
                };
                match target {
                    Some(target) => Some(order_for(slot, target)),
                    None => None,
                }
            },
            None => if controls.armed {
                controls.armed = false;
                let target = match pointed.other_unit {
                    Some((id, _)) => Target::Unit(id),
                    None => match pointed.enemy_near {
                        Some(id) => Target::Unit(id),
                        None => Target::Pos(pointed.ground),
                    },
                };
                Some(Order::Attack { target })
            } else {
                None
            },
        },
        Gesture::Right => {
            controls.armed = false;
            controls.aiming = None;
            Some(
                match pointed.other_unit {
                    Some((id, true)) => Order::Move { target: Target::Unit(id) },
                    Some((id, false)) => Order::Attack { target: Target::Unit(id) },
                    None => match pointed.loot {
                        Some(item) => Order::Take { target: Target::Unit(item) },
                        None => match pointed.enemy_near {
                            Some(mark) => Order::Attack { target: Target::Unit(mark) },
                            None => Order::Move { target: Target::Pos(pointed.ground) },
                        },
                    },
                },
            )
        },
    }
}

} // verus!
