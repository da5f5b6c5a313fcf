//! Shadow Fiend's spellwork.
//!
//! A raze takes no aim. It lands at its own reach along the line the caster
//! is already looking down, so casting one is two decisions: which way to
//! look, and whether what stands where it would land is worth the mana.
//!
//! How fast each creep is falling is not on the wire; it is read off a run
//! of snapshots by whoever keeps them, and handed in here as the health each
//! creep of the field is forecast to have a tick from now.

use vstd::prelude::*;

use crate::aim::{after_mitigation, ahead_of, facing_between, facing_gap, facing_towards, mitigated, rotation, spot_ahead, within};
use crate::ask::Ask;
use crate::field::{casts_ready, near_enough, ready, souls_on, unrefs, within_reach, Field};
use crate::numbers::{RAZES, RAZE_DAMAGE, RAZE_RADIUS, REQUIEM, REQUIEM_DAMAGE_PER_SOUL};
use crate::proto::{
    dist2, near, AbilityId, AbilitySlot, AbilityView, DamageKind, Order, Target, UnitView, Vec2, WHOLE,
};
use crate::sylla::{cast_at, has_mana_part, mana_at_least};

verus! {

/// Souls a requiem is worth letting go for a lone enemy that it would not
/// kill.
pub const REQUIEM_SOULS: u32 = 10;

/// Enemy heroes within a requiem's reach that make it worth casting whatever
/// is gathered.
pub const REQUIEM_CROWD: usize = 2;

/// Creeps a raze must cover to be worth casting for the wave alone.
pub const RAZE_CROWD: usize = 3;

/// Mana, in hundredths of the whole, kept back from razing a wave.
pub const RAZE_SPARE_PERCENT: i32 = 50;

/// What one soul is worth to a requiem cast at a level: nought beyond the
/// levels it has.
pub open spec fn per_soul(level: u8) -> int {
    if 1 <= level <= 3 {
        REQUIEM_DAMAGE_PER_SOUL@[level - 1] as int
    } else {
        0
    }
}

/// What a raze cast at a level burns for: nought beyond the levels it has.
pub open spec fn raze_damage(level: u8) -> int {
    if 1 <= level <= 4 {
        RAZE_DAMAGE@[level - 1] as int
    } else {
        0
    }
}

/// The souls a requiem would let go, counted as damage, for the hero's
/// requiem and what shows on it: their number times what each is worth,
/// wrapped into the width the count is kept in.
pub open spec fn requiem_dose(level: u8, souls: u32) -> int {
    per_soul(level) * (souls as i32)
}

/// Whether the requiem's dose can be weighed against whom it would catch:
/// where it would be weighed at all, it stays within what a whole number of
/// fixed-point units can hold.
pub open spec fn requiem_weighable(field: Field) -> bool {
    match (field.me, field.ability_at(AbilityId(REQUIEM))) {
        (Some(me), Some((_, held))) => ready(held, *me) && souls_on(me.effects@) > 0
            && within_reach(unrefs(field.enemies@), field.spot(), held.range as int).len() > 0
            ==> -32768 <= requiem_dose(held.level, souls_on(me.effects@)) <= 32767,
        _ => true,
    }
}

/// Whether a requiem's dose kills one of a row of heroes.
pub open spec fn kills_one(caught: Seq<UnitView>, dose: int) -> bool {
    exists|k: int|
        0 <= k < caught.len() && mitigated(
            dose,
            DamageKind::Magical,
            (#[trigger] caught[k]).armor.raw as int,
            caught[k].magic_resist.raw as int,
        ) >= caught[k].hp
}

/// The requiem, when there is a crowd for it, one it would kill, or a lone
/// enemy and souls enough.
pub open spec fn requiem_spec(field: Field) -> Option<Ask> {
    match field.me {
        None => None,
        Some(me) => match field.ability_at(AbilityId(REQUIEM)) {
            None => None,
            Some((slot, held)) => {
                let souls = souls_on(me.effects@);
                if !ready(held, *me) || souls == 0 {
                    None
                } else {
                    let caught = within_reach(unrefs(field.enemies@), field.spot(), held.range as int);
                    let worth = caught.len() >= REQUIEM_CROWD || kills_one(
                        caught,
                        requiem_dose(held.level, souls),
                    ) || (caught.len() > 0 && souls >= REQUIEM_SOULS);
                    if worth {
                        Some(cast_at(slot, Target::Nothing))
                    } else {
                        None
                    }
                }
            },
        },
    }
}

/// The requiem, when there is a crowd for it.
fn requiem(field: &Field) -> (ask: Option<Ask>)
    requires
        requiem_weighable(*field),
    ensures
        ask == requiem_spec(*field),
{
    let me = field.me?;
    let (slot, held) = field.ability(AbilityId(REQUIEM))?;
    if held.level == 0 || held.cooldown_left > 0 || me.mana < held.mana_cost {
        return None;
    }
    let souls = field.souls();
    if souls == 0 {
        return None;
    }
    let each: i32 = if 1 <= held.level && held.level <= 3 {
        REQUIEM_DAMAGE_PER_SOUL[(held.level - 1) as usize]
    } else {
        0
    };
    let caught = field.foes_within(held.range);
    let ghost seen = unrefs(caught@);
    let mut kills = false;
    let mut k: usize = 0;
    while k < caught.len()
        invariant
            k <= caught@.len(),
            seen == unrefs(caught@),
            caught@.len() > 0 ==> -32768 <= requiem_dose(held.level, souls) <= 32767,
            each == per_soul(held.level),
            kills == exists|j: int|
                0 <= j < k && mitigated(
                    requiem_dose(held.level, souls),
                    DamageKind::Magical,
                    (#[trigger] seen[j]).armor.raw as int,
                    seen[j].magic_resist.raw as int,
                ) >= seen[j].hp,
        decreases caught@.len() - k,
    {
        let foe = caught[k];
        assert(seen[k as int] == *foe);
        let dose = each * (souls as i32);
        if after_mitigation(dose, DamageKind::Magical, foe) >= foe.hp {
            kills = true;
        }
        k += 1;
    }
    let worth = caught.len() >= REQUIEM_CROWD || kills || (caught.len() > 0 && souls
        >= REQUIEM_SOULS);
    if worth {
        Some(Ask::cast(slot, Target::Nothing))
    } else {
        None
    }
}

/// Whether a body stands inside the burn of a raze landing on a spot.
pub open spec fn burned(unit: UnitView, lands: Vec2) -> bool {
    dist2(unit.pos, lands) <= (RAZE_RADIUS * WHOLE) * (RAZE_RADIUS * WHOLE)
}

/// What the first few creeps of a row show of a raze landing on a spot and
/// burning for an amount, each weighed against the health it is forecast to
/// have: how many it catches, and how many of those it kills.
pub open spec fn tally(
    creeps: Seq<UnitView>,
    forecast: Seq<i32>,
    lands: Vec2,
    damage: int,
    n: int,
) -> (nat, nat)
    decreases n,
{
    if n <= 0 {
        (0, 0)
    } else {
        let before = tally(creeps, forecast, lands, damage, n - 1);
        let c = creeps[n - 1];
        if burned(c, lands) {
            let dies = mitigated(
                damage,
                DamageKind::Magical,
                c.armor.raw as int,
                c.magic_resist.raw as int,
            ) >= forecast[n - 1];
            (before.0 + 1, before.1 + if dies {
                1nat
            } else {
                0nat
            })
        } else {
            before
        }
    }
}

/// How many of the first few of a row of bodies a raze landing on a spot
/// burns.
pub open spec fn burned_count(units: Seq<UnitView>, lands: Vec2, n: int) -> nat
    decreases n,
{
    if n <= 0 {
        0
    } else {
        burned_count(units, lands, n - 1) + if burned(units[n - 1], lands) {
            1nat
        } else {
            0nat
        }
    }
}

/// The least of two distances that may be missing.
pub open spec fn least(one: Option<int>, other: Option<int>) -> Option<int> {
    match (one, other) {
        (Some(a), Some(b)) => Some(if a <= b {
            a
        } else {
            b
        }),
        (Some(a), None) => Some(a),
        (None, b) => b,
    }
}

/// How near, squared, the nearest burned one of the first few of a row of
/// bodies stands to where a raze lands.
pub open spec fn closest_burned(units: Seq<UnitView>, lands: Vec2, n: int) -> Option<int>
    decreases n,
{
    if n <= 0 {
        None
    } else {
        let before = closest_burned(units, lands, n - 1);
        if burned(units[n - 1], lands) {
            least(before, Some(dist2(units[n - 1].pos, lands)))
        } else {
            before
        }
    }
}

/// How a raze is weighed: heroes burned, creeps it would kill, creeps it
/// catches, and how near the burn lands to the nearest of those, negated.
pub type Score = (int, int, int, int);

/// Whether one score beats another, in that order, each weighed only where
/// the ones before it are equal.
pub open spec fn beats(one: Score, other: Score) -> bool {
    one.0 > other.0 || (one.0 == other.0 && (one.1 > other.1 || (one.1 == other.1 && (one.2
        > other.2 || (one.2 == other.2 && one.3 > other.3)))))
}

/// One raze weighed: `None` when it is not learned, ready and paid for, or
/// when what it would land on is not worth it; else its score and its slot.
pub open spec fn raze_weighed(field: Field, forecast: Seq<i32>, k: int) -> Option<(Score, AbilitySlot)> {
    match field.me {
        None => None,
        Some(me) => match field.ability_at(AbilityId(RAZES@[k])) {
            None => None,
            Some((slot, held)) => if !ready(held, *me) {
                None
            } else {
                let lands = ahead_of(*me, held.range as int);
                let enemies = unrefs(field.enemies@);
                let creeps = unrefs(field.creeps@);
                let heroes = burned_count(enemies, lands, enemies.len() as int);
                let (caught, killed) = tally(
                    creeps,
                    forecast,
                    lands,
                    raze_damage(held.level),
                    creeps.len() as int,
                );
                let spare = mana_at_least(*me, RAZE_SPARE_PERCENT as int);
                let worth = heroes > 0 || killed >= 2 || (spare && killed >= 1 && caught
                    >= RAZE_CROWD);
                if !worth {
                    None
                } else {
                    let centred = least(
                        closest_burned(enemies, lands, enemies.len() as int),
                        closest_burned(creeps, lands, creeps.len() as int),
                    )->0;
                    Some(((heroes as int, killed as int, caught as int, -centred), slot))
                }
            },
        },
    }
}

/// The best of the first few razes, the earlier kept where two score alike.
pub open spec fn best_raze(field: Field, forecast: Seq<i32>, n: int) -> Option<(Score, AbilitySlot)>
    decreases n,
{
    if n <= 0 {
        None
    } else {
        let before = best_raze(field, forecast, n - 1);
        match raze_weighed(field, forecast, n - 1) {
            None => before,
            Some((score, slot)) => match before {
                Some((had, _)) => if beats(score, had) {
                    Some((score, slot))
                } else {
                    before
                },
                None => Some((score, slot)),
            },
        }
    }
}

/// The best raze the hero is already looking down the line of.
pub open spec fn raze_spec(field: Field, forecast: Seq<i32>) -> Option<Ask> {
    match best_raze(field, forecast, 3) {
        Some((_, slot)) => Some(cast_at(slot, Target::Nothing)),
        None => None,
    }
}

/// Whether every raze the hero could cast reaches no further than a spot
/// can be put ahead of it.
pub open spec fn razes_in_bounds(field: Field) -> bool {
    forall|k: int|
        0 <= k < 3 ==> match (field.me, field.ability_at(AbilityId(#[trigger] RAZES@[k]))) {
            (Some(me), Some((_, held))) => ready(held, *me) ==> -32767 <= held.range <= 32767,
            _ => true,
        }
}

/// What one raze, landing on a spot and burning for an amount, catches and
/// kills of the field's creeps, and how near the nearest of them stands.
fn tally_creeps(
    field: &Field,
    forecast: &Vec<i32>,
    lands: Vec2,
    damage: i32,
) -> (counts: (usize, usize, Option<i128>))
    requires
        forecast@.len() == field.creeps@.len(),
        0 <= damage <= 300,
    ensures
        ({
            let creeps = unrefs(field.creeps@);
            let t = tally(creeps, forecast@, lands, damage as int, creeps.len() as int);
            &&& counts.0 == t.0
            &&& counts.1 == t.1
            &&& match counts.2 {
                Some(d) => closest_burned(creeps, lands, creeps.len() as int) == Some(d as int),
                None => closest_burned(creeps, lands, creeps.len() as int) is None,
            }
        }),
{
    let ghost creeps = unrefs(field.creeps@);
    let mut caught: usize = 0;
    let mut killed: usize = 0;
    let mut closest: Option<i128> = None;
    let mut i: usize = 0;
    while i < field.creeps.len()
        invariant
            i <= field.creeps@.len(),
            creeps == unrefs(field.creeps@),
            forecast@.len() == field.creeps@.len(),
            0 <= damage <= 300,
            caught == tally(creeps, forecast@, lands, damage as int, i as int).0,
            killed == tally(creeps, forecast@, lands, damage as int, i as int).1,
            caught <= i,
            killed <= i,
            match closest {
                Some(d) => closest_burned(creeps, lands, i as int) == Some(d as int),
                None => closest_burned(creeps, lands, i as int) is None,
            },
        decreases field.creeps@.len() - i,
    {
        let creep = field.creeps[i];
        assert(creeps[i as int] == *creep);
        if within(creep, lands, RAZE_RADIUS) {
            caught += 1;
            if after_mitigation(damage, DamageKind::Magical, creep) >= forecast[i] {
                killed += 1;
            }
            let d = creep.pos.distance_squared(lands);
            closest = match closest {
                Some(had) => Some(if had <= d { had } else { d }),
                None => Some(d),
            };
        }
        i += 1;
    }
    (caught, killed, closest)
}

/// How many of the field's enemy heroes a raze landing on a spot burns, and
/// how near the nearest of them stands.
fn tally_heroes(field: &Field, lands: Vec2) -> (counts: (usize, Option<i128>))
    ensures
        ({
            let enemies = unrefs(field.enemies@);
            &&& counts.0 == burned_count(enemies, lands, enemies.len() as int)
            &&& match counts.1 {
                Some(d) => closest_burned(enemies, lands, enemies.len() as int) == Some(d as int),
                None => closest_burned(enemies, lands, enemies.len() as int) is None,
            }
        }),
{
    let ghost enemies = unrefs(field.enemies@);
    let mut heroes: usize = 0;
    let mut closest: Option<i128> = None;
    let mut i: usize = 0;
    while i < field.enemies.len()
        invariant
            i <= field.enemies@.len(),
            enemies == unrefs(field.enemies@),
            heroes == burned_count(enemies, lands, i as int),
            heroes <= i,
            match closest {
                Some(d) => closest_burned(enemies, lands, i as int) == Some(d as int),
                None => closest_burned(enemies, lands, i as int) is None,
            },
        decreases field.enemies@.len() - i,
    {
        let foe = field.enemies[i];
        assert(enemies[i as int] == *foe);
        if within(foe, lands, RAZE_RADIUS) {
            heroes += 1;
            let d = foe.pos.distance_squared(lands);
            closest = match closest {
                Some(had) => Some(if had <= d { had } else { d }),
                None => Some(d),
            };
        }
        i += 1;
    }
    (heroes, closest)
}

/// One raze weighed.
fn weigh_raze(field: &Field, forecast: &Vec<i32>, k: usize) -> (weighed: Option<((usize, usize, usize, i128), AbilitySlot)>)
    requires
        k < 3,
        forecast@.len() == field.creeps@.len(),
        razes_in_bounds(*field),
    ensures
        match weighed {
            Some((score, slot)) => raze_weighed(*field, forecast@, k as int) == Some(
                (score_of(score), slot),
            ),
            None => raze_weighed(*field, forecast@, k as int) is None,
        },
{
    let me = field.me?;
    assert(RAZES@ == seq![13u16, 14, 15]);
    let (slot, held) = field.ability(AbilityId(RAZES[k]))?;
    if held.level == 0 || held.cooldown_left > 0 || me.mana < held.mana_cost {
        return None;
    }
    assert(-32767 <= held.range <= 32767) by {
        assert(field.ability_at(AbilityId(RAZES@[k as int])) == Some((slot, *held)));
    }
    assert(RAZE_DAMAGE@ == seq![90i32, 160, 230, 300]);
    let damage: i32 = if 1 <= held.level && held.level <= 4 {
        RAZE_DAMAGE[(held.level - 1) as usize]
    } else {
        0
    };
    let lands = spot_ahead(me, held.range);
    let (heroes, near_hero) = tally_heroes(field, lands);
    let (caught, killed, near_creep) = tally_creeps(field, forecast, lands, damage);
    let spare = has_mana_part(me, RAZE_SPARE_PERCENT);
    let worth = heroes > 0 || killed >= 2 || (spare && killed >= 1 && caught >= RAZE_CROWD);
    if !worth {
        return None;
    }
    let centred: i128 = match (near_hero, near_creep) {
        (Some(a), Some(b)) => if a <= b { a } else { b },
        (Some(a), None) => a,
        (None, Some(b)) => b,
        (None, None) => 0,
    };
    proof {
        let enemies = unrefs(field.enemies@);
        let creeps = unrefs(field.creeps@);
        lemma_burned_found(enemies, lands, enemies.len() as int);
        lemma_tally_found(creeps, forecast@, lands, damage as int, creeps.len() as int);
        crate::proto::lemma_square_bound(0);
    }
    proof {
        lemma_closest_bound(unrefs(field.enemies@), lands, unrefs(field.enemies@).len() as int);
        lemma_closest_bound(unrefs(field.creeps@), lands, unrefs(field.creeps@).len() as int);
    }
    Some(((heroes, killed, caught, -centred), slot))
}

/// A row with a burned body has a nearest burned body.
proof fn lemma_burned_found(units: Seq<UnitView>, lands: Vec2, n: int)
    ensures
        burned_count(units, lands, n) > 0 ==> closest_burned(units, lands, n) is Some,
    decreases n,
{
    if n > 0 {
        lemma_burned_found(units, lands, n - 1);
    }
}

/// A row with a caught creep has a nearest caught creep.
proof fn lemma_tally_found(
    creeps: Seq<UnitView>,
    forecast: Seq<i32>,
    lands: Vec2,
    damage: int,
    n: int,
)
    ensures
        tally(creeps, forecast, lands, damage, n).0 > 0 ==> closest_burned(creeps, lands, n) is Some,
        tally(creeps, forecast, lands, damage, n).1 <= tally(creeps, forecast, lands, damage, n).0,
    decreases n,
{
    if n > 0 {
        lemma_tally_found(creeps, forecast, lands, damage, n - 1);
    }
}

/// The nearest burned body stands no further, squared, than a raw
/// difference can reach.
proof fn lemma_closest_bound(units: Seq<UnitView>, lands: Vec2, n: int)
    ensures
        closest_burned(units, lands, n) matches Some(d) ==> 0 <= d <= 0x2_0000_0000_0000_0000,
    decreases n,
{
    if n > 0 {
        lemma_closest_bound(units, lands, n - 1);
        let u = units[n - 1];
        crate::proto::lemma_square_bound(u.pos.x.raw - lands.x.raw);
        crate::proto::lemma_square_bound(u.pos.y.raw - lands.y.raw);
    }
}

/// A score as counted, as a score.
pub open spec fn score_of(score: (usize, usize, usize, i128)) -> Score {
    (score.0 as int, score.1 as int, score.2 as int, score.3 as int)
}

/// Whether one score as counted beats another.
fn outscores(one: (usize, usize, usize, i128), other: (usize, usize, usize, i128)) -> (wins: bool)
    ensures
        wins == beats(score_of(one), score_of(other)),
{
    one.0 > other.0 || (one.0 == other.0 && (one.1 > other.1 || (one.1 == other.1 && (one.2
        > other.2 || (one.2 == other.2 && one.3 > other.3)))))
}

/// The best raze the hero is already looking down the line of.
///
/// Between two that cover the same mark, the one whose burn lands nearest it
/// is taken: a mark at the edge of one is a mark a step out of it.
fn raze(field: &Field, forecast: &Vec<i32>) -> (ask: Option<Ask>)
    requires
        forecast@.len() == field.creeps@.len(),
        razes_in_bounds(*field),
    ensures
        ask == raze_spec(*field, forecast@),
{
    let mut best: Option<((usize, usize, usize, i128), AbilitySlot)> = None;
    let mut k: usize = 0;
    while k < 3
        invariant
            k <= 3,
            forecast@.len() == field.creeps@.len(),
            razes_in_bounds(*field),
            match best {
                Some((score, slot)) => best_raze(*field, forecast@, k as int) == Some(
                    (score_of(score), slot),
                ),
                None => best_raze(*field, forecast@, k as int) is None,
            },
        decreases 3 - k,
    {
        match weigh_raze(field, forecast, k) {
            Some((score, slot)) => {
                let better = match best {
                    Some((had, _)) => outscores(score, had),
                    None => true,
                };
                if better {
                    best = Some((score, slot));
                }
            },
            None => {},
        }
        k += 1;
    }
    match best {
        Some((_, slot)) => Some(Ask::cast(slot, Target::Nothing)),
        None => None,
    }
}

/// What Shadow Fiend would cast this tick: the requiem when it is worth it,
/// else the best raze. `forecast` holds, creep by creep of the field, the
/// health each is expected to have a tick from now.
pub fn fiend_spell(field: &Field, forecast: &Vec<i32>) -> (ask: Option<Ask>)
    requires
        forecast@.len() == field.creeps@.len(),
        requiem_weighable(*field),
        razes_in_bounds(*field),
    ensures
        ask == match requiem_spec(*field) {
            Some(cast) => Some(cast),
            None => raze_spec(*field, forecast@),
        },
        ask == fiend_choice(*field, forecast@),
{
    match requiem(field) {
        Some(cast) => Some(cast),
        None => raze(field, forecast),
    }
}

/// The reaches of the first few razes that could be cast right now, in the
/// order the razes are named.
pub open spec fn ready_reaches(field: Field, n: int) -> Seq<i32>
    decreases n,
{
    if n <= 0 {
        Seq::empty()
    } else {
        let before = ready_reaches(field, n - 1);
        match (field.me, field.ability_at(AbilityId(RAZES@[n - 1]))) {
            (Some(me), Some((_, held))) => if ready(held, *me) {
                before.push(held.range)
            } else {
                before
            },
            _ => before,
        }
    }
}

/// The furthest of a row of reaches.
pub open spec fn furthest_of(reaches: Seq<i32>) -> int
    decreases reaches.len(),
{
    if reaches.len() == 0 {
        0
    } else if reaches.len() == 1 {
        reaches[0] as int
    } else {
        let rest = furthest_of(reaches.drop_last());
        if reaches.last() > rest {
            reaches.last() as int
        } else {
            rest
        }
    }
}

/// The nearest of a row of reaches.
pub open spec fn nearest_reach(reaches: Seq<i32>) -> int
    decreases reaches.len(),
{
    if reaches.len() == 0 {
        0
    } else if reaches.len() == 1 {
        reaches[0] as int
    } else {
        let rest = nearest_reach(reaches.drop_last());
        if reaches.last() < rest {
            reaches.last() as int
        } else {
            rest
        }
    }
}

/// Whether an enemy stands within a reach, in world units, of a spot.
pub open spec fn reachable_from(at: Vec2, reach: int) -> spec_fn(UnitView) -> bool {
    |u: UnitView| near(u.pos, at, reach * WHOLE)
}

/// Where Shadow Fiend would look for a raze to land on somebody: the first
/// enemy, nearest first, within the furthest ready raze and its burn, and
/// not already inside the burn of any ready raze; how far the hero would
/// have to turn to face him, in brads; and the nearest ready reach, which
/// sets how far off the line a burn still covers him.
#[derive(Clone, Copy, Debug, PartialEq, Eq, Structural)]
pub struct Sighting {
    /// Where the enemy stands.
    pub mark: Vec2,
    /// How far the hero's facing is from facing him, in brads.
    pub gap: u16,
    /// The nearest reach of any ready raze, in world units.
    pub nearest: i32,
}

/// What [`fiend_sighting`] finds, as a spec.
pub open spec fn sighting_spec(field: Field) -> Option<Sighting> {
    match field.me {
        None => None,
        Some(me) => {
            let reaches = ready_reaches(field, 3);
            if reaches.len() == 0 {
                None
            } else {
                let enemies = unrefs(field.enemies@);
                let furthest = furthest_of(reaches) + RAZE_RADIUS;
                match crate::field::first_where(enemies, reachable_from(me.pos, furthest)) {
                    None => None,
                    Some(i) => {
                        let mark = enemies[i];
                        let already = exists|k: int|
                            0 <= k < reaches.len() && burned(
                                mark,
                                ahead_of(*me, #[trigger] reaches[k] as int),
                            );
                        if already {
                            None
                        } else {
                            Some(
                                Sighting {
                                    mark: mark.pos,
                                    gap: crate::aim::abs(
                                        rotation(
                                            me.facing.brads as int,
                                            facing_between(me.pos, mark.pos),
                                        ),
                                    ) as u16,
                                    nearest: nearest_reach(reaches) as i32,
                                },
                            )
                        }
                    },
                }
            }
        },
    }
}

/// The reaches of every raze that could be cast right now.
fn raze_reaches(field: &Field) -> (reaches: Vec<i32>)
    requires
        razes_in_bounds(*field),
    ensures
        reaches@ == ready_reaches(*field, 3),
        forall|k: int| 0 <= k < reaches@.len() ==> -32767 <= #[trigger] reaches@[k] <= 32767,
{
    let mut reaches: Vec<i32> = Vec::new();
    assert(RAZES@ == seq![13u16, 14, 15]);
    let mut k: usize = 0;
    while k < 3
        invariant
            k <= 3,
            RAZES@ == seq![13u16, 14, 15],
            razes_in_bounds(*field),
            reaches@ == ready_reaches(*field, k as int),
            forall|j: int| 0 <= j < reaches@.len() ==> -32767 <= #[trigger] reaches@[j] <= 32767,
        decreases 3 - k,
    {
        match field.me {
            Some(me) => match field.ability(AbilityId(RAZES[k])) {
                Some((slot, held)) => {
                    if held.level > 0 && held.cooldown_left == 0 && me.mana >= held.mana_cost {
                        assert(field.ability_at(AbilityId(RAZES@[k as int])) == Some(
                            (slot, *held),
                        ));
                        reaches.push(held.range);
                    }
                },
                None => {},
            },
            None => {},
        }
        k += 1;
    }
    reaches
}

/// The furthest of a row of reaches.
fn furthest_in(reaches: &Vec<i32>) -> (far: i32)
    requires
        reaches@.len() > 0,
    ensures
        far == furthest_of(reaches@),
{
    let mut far = reaches[0];
    let mut i: usize = 1;
    assert(reaches@.take(1) =~= seq![reaches@[0]]);
    while i < reaches.len()
        invariant
            1 <= i <= reaches@.len(),
            far == furthest_of(reaches@.take(i as int)),
        decreases reaches@.len() - i,
    {
        assert(reaches@.take(i as int + 1).drop_last() =~= reaches@.take(i as int));
        if reaches[i] > far {
            far = reaches[i];
        }
        i += 1;
    }
    assert(reaches@.take(reaches@.len() as int) =~= reaches@);
    far
}

/// The nearest of a row of reaches.
fn nearest_in_reaches(reaches: &Vec<i32>) -> (close: i32)
    requires
        reaches@.len() > 0,
    ensures
        close == nearest_reach(reaches@),
{
    let mut close = reaches[0];
    let mut i: usize = 1;
    assert(reaches@.take(1) =~= seq![reaches@[0]]);
    while i < reaches.len()
        invariant
            1 <= i <= reaches@.len(),
            close == nearest_reach(reaches@.take(i as int)),
        decreases reaches@.len() - i,
    {
        assert(reaches@.take(i as int + 1).drop_last() =~= reaches@.take(i as int));
        if reaches[i] < close {
            close = reaches[i];
        }
        i += 1;
    }
    assert(reaches@.take(reaches@.len() as int) =~= reaches@);
    close
}

/// The furthest of a row of reaches is one of them.
proof fn lemma_furthest_is_one(reaches: Seq<i32>)
    requires
        reaches.len() > 0,
    ensures
        exists|k: int| 0 <= k < reaches.len() && furthest_of(reaches) == reaches[k],
    decreases reaches.len(),
{
    if reaches.len() > 1 {
        lemma_furthest_is_one(reaches.drop_last());
        let k = choose|k: int| 0 <= k < reaches.len() - 1 && furthest_of(reaches.drop_last())
            == reaches.drop_last()[k];
        assert(reaches.drop_last()[k] == reaches[k]);
        if reaches.last() > furthest_of(reaches.drop_last()) {
            assert(furthest_of(reaches) == reaches[reaches.len() - 1]);
        } else {
            assert(furthest_of(reaches) == reaches[k]);
        }
    } else {
        assert(furthest_of(reaches) == reaches[0]);
    }
}

/// The first of the field's enemy heroes within a reach of a spot.
fn first_within<'a>(field: &Field<'a>, at: Vec2, reach: i32) -> (mark: Option<&'a UnitView>)
    ensures
        ({
            let enemies = unrefs(field.enemies@);
            match mark {
                Some(m) => crate::field::first_where(enemies, reachable_from(at, reach as int))
                    matches Some(i) && *m == enemies[i],
                None => crate::field::first_where(enemies, reachable_from(at, reach as int))
                    is None,
            }
        }),
{
    let ghost enemies = unrefs(field.enemies@);
    let ghost test = reachable_from(at, reach as int);
    let mut i: usize = 0;
    while i < field.enemies.len()
        invariant
            i <= field.enemies@.len(),
            enemies == unrefs(field.enemies@),
            test == reachable_from(at, reach as int),
            forall|j: int| 0 <= j < i ==> !test(#[trigger] enemies[j]),
        decreases field.enemies@.len() - i,
    {
        let foe = field.enemies[i];
        assert(enemies[i as int] == *foe);
        if near_enough(foe.pos, at, reach) {
            proof {
                crate::field::lemma_first_where(enemies, test, i as int);
            }
            return Some(foe);
        }
        i += 1;
    }
    proof {
        crate::field::lemma_nowhere(enemies, test);
    }
    None
}

/// Whether a body already stands in the burn of a raze of any of a row of
/// reaches.
fn in_any_burn(me: &UnitView, mark: &UnitView, reaches: &Vec<i32>) -> (burns: bool)
    requires
        forall|j: int| 0 <= j < reaches@.len() ==> -32767 <= #[trigger] reaches@[j] <= 32767,
    ensures
        burns == exists|k: int|
            0 <= k < reaches@.len() && burned(*mark, ahead_of(*me, #[trigger] reaches@[k] as int)),
{
    let mut k: usize = 0;
    while k < reaches.len()
        invariant
            k <= reaches@.len(),
            forall|j: int| 0 <= j < reaches@.len() ==> -32767 <= #[trigger] reaches@[j] <= 32767,
            forall|j: int|
                0 <= j < k ==> !burned(*mark, ahead_of(*me, #[trigger] reaches@[j] as int)),
        decreases reaches@.len() - k,
    {
        if within(mark, spot_ahead(me, reaches[k]), RAZE_RADIUS) {
            return true;
        }
        k += 1;
    }
    false
}

/// Where Shadow Fiend would look so that a raze would land on somebody, and
/// how far off that he looks now.
///
/// `None` when nobody is within reach of any raze, or when somebody already
/// stands in the burn of one.
pub fn fiend_sighting(field: &Field) -> (seen: Option<Sighting>)
    requires
        razes_in_bounds(*field),
    ensures
        seen == sighting_spec(*field),
{
    let me = field.me?;
    let reaches = raze_reaches(field);
    if reaches.len() == 0 {
        return None;
    }
    let far = furthest_in(&reaches);
    proof {
        lemma_furthest_is_one(reaches@);
    }
    let mark = first_within(field, me.pos, far + RAZE_RADIUS)?;
    if in_any_burn(me, mark, &reaches) {
        return None;
    }
    let nearest = nearest_in_reaches(&reaches);
    let wanted = facing_towards(me.pos, mark.pos);
    let gap = facing_gap(me.facing, wanted);
    Some(Sighting { mark: mark.pos, gap, nearest })
}

/// The best of the first few razes is one of them, weighed worth casting.
proof fn lemma_best_raze_is_one(field: Field, forecast: Seq<i32>, n: int)
    ensures
        best_raze(field, forecast, n) matches Some((score, slot)) ==> exists|k: int|
            0 <= k < n && #[trigger] raze_weighed(field, forecast, k) == Some((score, slot)),
    decreases n,
{
    if n > 0 {
        lemma_best_raze_is_one(field, forecast, n - 1);
        if let Some(w) = raze_weighed(field, forecast, n - 1) {
            assert(raze_weighed(field, forecast, n - 1) == Some(w));
        }
    }
}

/// Shadow Fiend casts nothing that is not ready: whatever he would cast is
/// an ability of his own, learned, off cooldown and paid for.
pub proof fn lemma_fiend_casts_only_what_is_ready(field: Field, forecast: Seq<i32>)
    ensures
        (match requiem_spec(field) {
            Some(cast) => Some(cast),
            None => raze_spec(field, forecast),
        }) matches Some(ask) ==> casts_ready(field, ask),
{
    lemma_best_raze_is_one(field, forecast, 3);
    if field.me is None {
        if let Some((score, slot)) = best_raze(field, forecast, 3) {
            let k = choose|k: int|
                0 <= k < 3 && #[trigger] raze_weighed(field, forecast, k) == Some((score, slot));
            assert(raze_weighed(field, forecast, k) is None);
        }
    }
    if let Some(me) = field.me {
        if let Some((slot, held)) = field.ability_at(AbilityId(REQUIEM)) {
            assert(field.ability_at(AbilityId(REQUIEM)) matches Some((s, h)) && s == slot && h
                == held);
        }
        if requiem_spec(field) is None {
            if let Some((score, slot)) = best_raze(field, forecast, 3) {
                let k = choose|k: int|
                    0 <= k < 3 && #[trigger] raze_weighed(field, forecast, k) == Some(
                        (score, slot),
                    );
                let id = AbilityId(RAZES@[k]);
                assert(field.ability_at(id) matches Some((s, h)) && s == slot && ready(h, *me));
            }
        }
    }
}

/// What Shadow Fiend casts this tick, as [`fiend_spell`] answers.
pub open spec fn fiend_choice(field: Field, forecast: Seq<i32>) -> Option<Ask> {
    match requiem_spec(field) {
        Some(cast) => Some(cast),
        None => raze_spec(field, forecast),
    }
}

/// Souls enough let the requiem go at a lone enemy: with the requiem
/// learned, off cooldown and paid for, [`REQUIEM_SOULS`] souls or more
/// gathered and an enemy hero within its reach, the fiend's spell is the
/// requiem cast on nothing, whether or not it would kill, and before any
/// raze.
pub proof fn lemma_souls_enough_let_the_requiem_go(
    field: Field,
    forecast: Seq<i32>,
    slot: AbilitySlot,
    held: AbilityView,
)
    requires
        field.me is Some,
        field.ability_at(AbilityId(REQUIEM)) == Some((slot, held)),
        held.level > 0,
        held.cooldown_left == 0,
        field.me->0.mana >= held.mana_cost,
        souls_on(field.me->0.effects@) >= REQUIEM_SOULS,
        unrefs(field.enemies@).filter(
            |u: UnitView| near(u.pos, field.spot(), held.range * WHOLE),
        ).len() >= 1,
    ensures
        fiend_choice(field, forecast) == Some(
            Ask { unit: None, order: Order::Cast { slot, target: Target::Nothing } },
        ),
{
    assert(within_reach(unrefs(field.enemies@), field.spot(), held.range as int) =~= unrefs(
        field.enemies@,
    ).filter(|u: UnitView| near(u.pos, field.spot(), held.range * WHOLE)));
}

/// A crowd lets the requiem go whatever is gathered: with it ready, a soul
/// or more and [`REQUIEM_CROWD`] enemy heroes within its reach, the fiend's
/// spell is the requiem cast on nothing.
pub proof fn lemma_a_crowd_lets_the_requiem_go(
    field: Field,
    forecast: Seq<i32>,
    slot: AbilitySlot,
    held: AbilityView,
)
    requires
        field.me is Some,
        field.ability_at(AbilityId(REQUIEM)) == Some((slot, held)),
        held.level > 0,
        held.cooldown_left == 0,
        field.me->0.mana >= held.mana_cost,
        souls_on(field.me->0.effects@) > 0,
        unrefs(field.enemies@).filter(
            |u: UnitView| near(u.pos, field.spot(), held.range * WHOLE),
        ).len() >= REQUIEM_CROWD,
    ensures
        fiend_choice(field, forecast) == Some(
            Ask { unit: None, order: Order::Cast { slot, target: Target::Nothing } },
        ),
{
    assert(within_reach(unrefs(field.enemies@), field.spot(), held.range as int) =~= unrefs(
        field.enemies@,
    ).filter(|u: UnitView| near(u.pos, field.spot(), held.range * WHOLE)));
}

} // verus!
