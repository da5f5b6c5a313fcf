//! Sylla's spellwork.
//!
//! The bolt is thrown at a body and jumps from it to the ones around; the
//! volley and the frenzy both work on the caster and are weighed by what
//! stands near.

use vstd::prelude::*;

use crate::ask::Ask;
use crate::field::{
    casts_ready, count_near, first_where, lemma_first_where, lemma_nowhere, near_enough, ready, swing_reach,
    unrefs, within_reach, Field,
};
use crate::numbers::{BOUNCE, FIGHT_RANGE, FRENZY, VOLLEY};
use crate::proto::{dist2, near, AbilityId, AbilitySlot, AbilityView, Order, Target, UnitView, Vec2, WHOLE};

verus! {

/// Enemy heroes within a volley's reach that make it worth loosing.
pub const VOLLEY_CROWD: usize = 1;

/// Creeps within a volley's reach that make it worth loosing at the wave.
pub const VOLLEY_WAVE: usize = 4;

/// How near two creeps must stand, in world units, for a bolt to jump
/// between them.
pub const BOUNCE_SPREAD: i32 = 500;

/// Creeps a bolt must be able to jump between to be worth throwing at a wave.
pub const BOUNCE_CHAIN: usize = 3;

/// Mana, in hundredths of the whole, kept back from throwing bolts at a wave.
pub const BOLT_SPARE_PERCENT: i32 = 55;

/// A cast from one of the hero's slots.
pub open spec fn cast_at(slot: crate::proto::AbilitySlot, target: Target) -> Ask {
    Ask { unit: None, order: Order::Cast { slot, target } }
}

/// Whether a body's mana, as a part of its whole, is at least a number of
/// hundredths. A body with no pool has none to spare.
pub open spec fn mana_at_least(me: UnitView, percent: int) -> bool {
    me.max_mana > 0 && 100 * (if me.mana > 0 {
        me.mana as int
    } else {
        0
    }) >= percent * me.max_mana
}

/// Whether a body's mana, as a part of its whole, is at least a number of
/// hundredths.
pub(crate) fn has_mana_part(me: &UnitView, percent: i32) -> (enough: bool)
    requires
        0 <= percent <= 100,
    ensures
        enough == mana_at_least(*me, percent as int),
{
    let left: i64 = if me.mana > 0 {
        me.mana as i64
    } else {
        0
    };
    let whole = me.max_mana as i64;
    let pct = percent as i64;
    assert(-0x1_0000_0000_00 <= pct * whole <= 0x1_0000_0000_00) by (nonlinear_arith)
        requires
            0 <= pct <= 100,
            i32::MIN <= whole <= i32::MAX,
    ;
    me.max_mana > 0 && 100 * left >= pct * whole
}

/// The volley, when there is a crowd for it.
pub open spec fn volley_spec(field: Field) -> Option<Ask> {
    match field.me {
        None => None,
        Some(me) => match field.ability_at(AbilityId(VOLLEY)) {
            None => None,
            Some((slot, held)) => if !ready(held, *me) {
                None
            } else {
                let heroes = within_reach(unrefs(field.enemies@), field.spot(), held.range as int).len();
                let creeps = within_reach(unrefs(field.creeps@), me.pos, held.range as int).len();
                if heroes >= VOLLEY_CROWD || creeps >= VOLLEY_WAVE {
                    Some(cast_at(slot, Target::Nothing))
                } else {
                    None
                }
            },
        },
    }
}

/// The frenzy, when there is something in front worth swinging faster at:
/// an enemy hero in a fight's reach, or the nearest of the other side's
/// buildings within a swing.
pub open spec fn frenzy_spec(field: Field) -> Option<Ask> {
    match field.me {
        None => None,
        Some(me) => match field.ability_at(AbilityId(FRENZY)) {
            None => None,
            Some((slot, held)) => if !ready(held, *me) {
                None
            } else {
                let fighting = within_reach(
                    unrefs(field.enemies@),
                    field.spot(),
                    FIGHT_RANGE as int,
                ).len() > 0;
                let sieging = field.enemy_works@.len() > 0 && near(
                    me.pos,
                    field.enemy_works@[0].pos,
                    swing_reach(*me, *field.enemy_works@[0]),
                );
                if fighting || sieging {
                    Some(cast_at(slot, Target::Nothing))
                } else {
                    None
                }
            },
        },
    }
}

/// The place of the nearest of a row of bodies to a spot, the first of
/// those as near.
pub open spec fn nearest_of(s: Seq<UnitView>, at: Vec2) -> Option<int>
    decreases s.len(),
{
    if s.len() == 0 {
        None
    } else {
        match nearest_of(s.drop_last(), at) {
            None => Some(s.len() - 1),
            Some(best) => if dist2(s.last().pos, at) < dist2(s[best].pos, at) {
                Some(s.len() - 1)
            } else {
                Some(best)
            },
        }
    }
}

/// How many creeps a bolt thrown at one would find, itself counted: those
/// other than it within a jump of it.
pub open spec fn chain_of(creeps: Seq<UnitView>, first: UnitView) -> nat {
    1 + creeps.filter(
        |c: UnitView| c.id != first.id && near(c.pos, first.pos, BOUNCE_SPREAD * WHOLE),
    ).len()
}

/// Whether a creep is worth a bolt thrown from a spot with a reach: it is
/// within the reach, and the bolt would find enough creeps from it.
pub open spec fn bolt_mark(creeps: Seq<UnitView>, at: Vec2, reach: int) -> spec_fn(UnitView) -> bool {
    |c: UnitView| near(c.pos, at, reach * WHOLE) && chain_of(creeps, c) >= BOUNCE_CHAIN
}

/// The bolt, thrown at the nearest hero in range, and at the first creep of
/// the wave it would chain from while the mana is spare.
pub open spec fn bolt_spec(field: Field) -> Option<Ask> {
    match field.me {
        None => None,
        Some(me) => match field.ability_at(AbilityId(BOUNCE)) {
            None => None,
            Some((slot, held)) => if !ready(held, *me) {
                None
            } else {
                let foes = within_reach(unrefs(field.enemies@), field.spot(), held.range as int);
                match nearest_of(foes, me.pos) {
                    Some(b) => Some(cast_at(slot, Target::Unit(foes[b].id))),
                    None => if !mana_at_least(*me, BOLT_SPARE_PERCENT as int) {
                        None
                    } else {
                        let creeps = unrefs(field.creeps@);
                        match first_where(creeps, bolt_mark(creeps, me.pos, held.range as int)) {
                            Some(k) => Some(cast_at(slot, Target::Unit(creeps[k].id))),
                            None => None,
                        }
                    },
                }
            },
        },
    }
}

/// What Sylla would cast this tick: the volley, else the frenzy, else the
/// bolt.
pub open spec fn sylla_spec(field: Field) -> Option<Ask> {
    match volley_spec(field) {
        Some(ask) => Some(ask),
        None => match frenzy_spec(field) {
            Some(ask) => Some(ask),
            None => bolt_spec(field),
        },
    }
}

/// What Sylla would cast this tick.
pub fn sylla_spell(field: &Field) -> (ask: Option<Ask>)
    ensures
        ask == sylla_spec(*field),
{
    match volley(field) {
        Some(ask) => Some(ask),
        None => match frenzy(field) {
            Some(ask) => Some(ask),
            None => bolt(field),
        },
    }
}

/// The volley, when there is a crowd for it.
fn volley(field: &Field) -> (ask: Option<Ask>)
    ensures
        ask == volley_spec(*field),
{
    let me = field.me?;
    let (slot, held) = field.ability(AbilityId(VOLLEY))?;
    if held.level == 0 || held.cooldown_left > 0 || me.mana < held.mana_cost {
        return None;
    }
    let heroes = field.foes_within(held.range).len();
    let creeps = count_near(&field.creeps, me.pos, held.range);
    if heroes >= VOLLEY_CROWD || creeps >= VOLLEY_WAVE {
        Some(Ask::cast(slot, Target::Nothing))
    } else {
        None
    }
}

/// The frenzy, when there is something in front worth swinging faster at.
fn frenzy(field: &Field) -> (ask: Option<Ask>)
    ensures
        ask == frenzy_spec(*field),
{
    let me = field.me?;
    let (slot, held) = field.ability(AbilityId(FRENZY))?;
    if held.level == 0 || held.cooldown_left > 0 || me.mana < held.mana_cost {
        return None;
    }
    let fighting = field.foes_within(FIGHT_RANGE).len() > 0;
    let sieging = field.enemy_works.len() > 0 && field.in_reach(field.enemy_works[0]);
    if fighting || sieging {
        Some(Ask::cast(slot, Target::Nothing))
    } else {
        None
    }
}

/// The place of the nearest of a row of bodies to a spot.
fn nearest_in(units: &Vec<&UnitView>, at: Vec2) -> (best: Option<usize>)
    ensures
        match best {
            Some(b) => b < units@.len() && nearest_of(unrefs(units@), at) == Some(b as int),
            None => nearest_of(unrefs(units@), at) is None,
        },
{
    let ghost all = unrefs(units@);
    let mut best: Option<usize> = None;
    let mut i: usize = 0;
    while i < units.len()
        invariant
            i <= units@.len(),
            all == unrefs(units@),
            match best {
                Some(b) => b < i && nearest_of(all.take(i as int), at) == Some(b as int),
                None => nearest_of(all.take(i as int), at) is None,
            },
        decreases units@.len() - i,
    {
        proof {
            assert(all.take(i as int + 1).drop_last() =~= all.take(i as int));
            assert(all.take(i as int + 1).last() == *units@[i as int]);
        }
        match best {
            Some(b) => {
                proof {
                    assert(all.take(i as int + 1)[b as int] == *units@[b as int]);
                }
                if units[i].pos.distance_squared(at) < units[b].pos.distance_squared(at) {
                    best = Some(i);
                }
            },
            None => {
                best = Some(i);
            },
        }
        i += 1;
    }
    assert(all.take(units@.len() as int) =~= all);
    best
}

/// How many creeps a bolt thrown at one would find besides it.
fn jumps_from(field: &Field, first: &UnitView) -> (n: usize)
    ensures
        n + 1 == chain_of(unrefs(field.creeps@), *first),
{
    let ghost all = unrefs(field.creeps@);
    let ghost test = |c: UnitView| c.id != first.id && near(c.pos, first.pos, BOUNCE_SPREAD * WHOLE);
    let mut n: usize = 0;
    let mut i: usize = 0;
    while i < field.creeps.len()
        invariant
            i <= field.creeps@.len(),
            all == unrefs(field.creeps@),
            test == (|c: UnitView|
                c.id != first.id && near(c.pos, first.pos, BOUNCE_SPREAD * WHOLE)),
            n == all.take(i as int).filter(test).len(),
            n <= i,
        decreases field.creeps@.len() - i,
    {
        let creep = field.creeps[i];
        proof {
            assert(all[i as int] == *creep);
            assert(all.take(i as int + 1) =~= all.take(i as int).push(*creep));
            all.take(i as int).lemma_filter_push(*creep, test);
        }
        if creep.id != first.id && near_enough(creep.pos, first.pos, BOUNCE_SPREAD) {
            n += 1;
        }
        i += 1;
    }
    assert(all.take(field.creeps@.len() as int) =~= all);
    n
}

/// The first creep of the wave worth a bolt thrown from a spot with a reach.
fn bolt_creep<'a>(field: &Field<'a>, at: Vec2, reach: i32) -> (mark: Option<&'a UnitView>)
    ensures
        ({
            let creeps = unrefs(field.creeps@);
            match mark {
                Some(c) => first_where(creeps, bolt_mark(creeps, at, reach as int)) matches Some(
                    k,
                ) && *c == creeps[k],
                None => first_where(creeps, bolt_mark(creeps, at, reach as int)) is None,
            }
        }),
{
    let ghost creeps = unrefs(field.creeps@);
    let ghost test = bolt_mark(creeps, at, reach as int);
    let mut i: usize = 0;
    while i < field.creeps.len()
        invariant
            i <= field.creeps@.len(),
            creeps == unrefs(field.creeps@),
            test == bolt_mark(creeps, at, reach as int),
            forall|j: int| 0 <= j < i ==> !test(#[trigger] creeps[j]),
        decreases field.creeps@.len() - i,
    {
        let creep = field.creeps[i];
        assert(creeps[i as int] == *creep);
        if near_enough(creep.pos, at, reach) && jumps_from(field, creep) >= BOUNCE_CHAIN - 1 {
            proof {
                lemma_first_where(creeps, test, i as int);
            }
            return Some(creep);
        }
        i += 1;
    }
    proof {
        lemma_nowhere(creeps, test);
    }
    None
}

/// The bolt, thrown at a hero when one is in range and at the wave when the
/// mana is spare.
fn bolt(field: &Field) -> (ask: Option<Ask>)
    ensures
        ask == bolt_spec(*field),
{
    let me = field.me?;
    let (slot, held) = field.ability(AbilityId(BOUNCE))?;
    if held.level == 0 || held.cooldown_left > 0 || me.mana < held.mana_cost {
        return None;
    }
    let foes = field.foes_within(held.range);
    match nearest_in(&foes, me.pos) {
        Some(b) => {
            return Some(Ask::cast(slot, Target::Unit(foes[b].id)));
        },
        None => {},
    }
    if !has_mana_part(me, BOLT_SPARE_PERCENT) {
        return None;
    }
    let mark = bolt_creep(field, me.pos, held.range)?;
    Some(Ask::cast(slot, Target::Unit(mark.id)))
}

/// Sylla casts nothing that is not ready: whatever she would cast is an
/// ability of her own, learned, off cooldown and paid for.
pub proof fn lemma_sylla_casts_only_what_is_ready(field: Field)
    ensures
        sylla_spec(field) matches Some(ask) ==> casts_ready(field, ask),
{
    if let Some(me) = field.me {
        if let Some((slot, held)) = field.ability_at(AbilityId(VOLLEY)) {
            assert(field.ability_at(AbilityId(VOLLEY)) matches Some((s, h)) && s == slot && h
                == held);
        }
        if let Some((slot, held)) = field.ability_at(AbilityId(FRENZY)) {
            assert(field.ability_at(AbilityId(FRENZY)) matches Some((s, h)) && s == slot && h
                == held);
        }
        if let Some((slot, held)) = field.ability_at(AbilityId(BOUNCE)) {
            assert(field.ability_at(AbilityId(BOUNCE)) matches Some((s, h)) && s == slot && h
                == held);
        }
    }
}

/// A wave in the volley's reach draws the volley: with it learned, off
/// cooldown and paid for, [`VOLLEY_WAVE`] creeps or more standing within its
/// range of Sylla make her loose it, on nothing, whatever else stands near
/// and whatever else she could cast.
pub proof fn lemma_a_wave_draws_the_volley(field: Field, slot: AbilitySlot, held: AbilityView)
    requires
        field.me is Some,
        field.ability_at(AbilityId(VOLLEY)) == Some((slot, held)),
        held.level > 0,
        held.cooldown_left == 0,
        field.me->0.mana >= held.mana_cost,
        unrefs(field.creeps@).filter(
            |c: UnitView| near(c.pos, field.me->0.pos, held.range * WHOLE),
        ).len() >= VOLLEY_WAVE,
    ensures
        sylla_spec(field) == Some(
            Ask { unit: None, order: Order::Cast { slot, target: Target::Nothing } },
        ),
{
    let me = field.me->0;
    assert(within_reach(unrefs(field.creeps@), me.pos, held.range as int) =~= unrefs(
        field.creeps@,
    ).filter(|c: UnitView| near(c.pos, field.me->0.pos, held.range * WHOLE)));
}

/// An enemy hero in the volley's reach draws the volley just as a wave does.
pub proof fn lemma_a_hero_draws_the_volley(field: Field, slot: AbilitySlot, held: AbilityView)
    requires
        field.me is Some,
        field.ability_at(AbilityId(VOLLEY)) == Some((slot, held)),
        held.level > 0,
        held.cooldown_left == 0,
        field.me->0.mana >= held.mana_cost,
        unrefs(field.enemies@).filter(
            |c: UnitView| near(c.pos, field.spot(), held.range * WHOLE),
        ).len() >= VOLLEY_CROWD,
    ensures
        sylla_spec(field) == Some(
            Ask { unit: None, order: Order::Cast { slot, target: Target::Nothing } },
        ),
{
    assert(within_reach(unrefs(field.enemies@), field.spot(), held.range as int) =~= unrefs(
        field.enemies@,
    ).filter(|c: UnitView| near(c.pos, field.spot(), held.range * WHOLE)));
}

} // verus!
