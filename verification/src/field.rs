//! One tick, read into a settled shape.
//!
//! Everything the policy is allowed to weigh comes from here, in one order
//! that does not shift from tick to tick. Bodies are ranked by nearness with
//! the handle breaking ties, so the third creep of one tick is the third
//! creep of the next.

use vstd::prelude::*;

use crate::ask::Ask;
use crate::lane::{
    fountain, fountain_in, lane_of, opposed, other_side, sort_by, Lane, Role,
};
use crate::numbers::{SHOP_RANGE, SOULS};
use crate::proto::{
    dist2, near, EffectId, EffectView, Fixed, Order, AbilityId, AbilitySlot, AbilityView, EntityId, HeroId, ItemId, ItemSlot, ItemView,
    PlayerView, SlotId, Team, UnitKind, UnitView, Vec2, WorldView, WHOLE,
};

verus! {

/// Slots of the bag where an item works, before the backpack begins.
pub const WORN_SLOTS: usize = 6;

/// How far from the hero, in world units, a creep is still one of the creeps
/// it is dealing with.
///
/// Waves on the other lanes are visible and have nothing to do with where
/// this hero stands or what it swings at.
pub const NEARBY: i32 = 2400;

/// Whether a kind is one of the creeps a lane wave is made of.
pub open spec fn wave_creep(kind: UnitKind) -> bool {
    kind == UnitKind::CreepMelee || kind == UnitKind::CreepFlagbearer || kind
        == UnitKind::CreepRanged || kind == UnitKind::CreepSiege
}

/// Whether a kind is one of the creeps a lane wave is made of.
pub fn is_wave_creep(kind: UnitKind) -> (wave: bool)
    ensures
        wave == wave_creep(kind),
{
    match kind {
        UnitKind::CreepMelee | UnitKind::CreepFlagbearer | UnitKind::CreepRanged
        | UnitKind::CreepSiege => true,
        _ => false,
    }
}

/// One tick as the policy sees it.
#[derive(Clone, Debug)]
pub struct Field<'a> {
    /// The snapshot it was read from.
    pub view: &'a WorldView,
    /// The seat being played.
    pub seat: &'a PlayerView,
    /// The body it drives, while one is standing.
    pub me: Option<&'a UnitView>,
    /// The side it plays for.
    pub team: Team,
    /// The hero it picked.
    pub hero: HeroId,
    /// What the seat is there to do.
    pub role: Role,
    /// The lane that role holds. Absent before the buildings are up.
    pub lane: Option<Lane>,
    /// Wave creeps of the other side, nearest first.
    pub creeps: Vec<&'a UnitView>,
    /// Wave creeps of its own, nearest first.
    pub own_creeps: Vec<&'a UnitView>,
    /// Heroes of the other side, nearest first.
    pub enemies: Vec<&'a UnitView>,
    /// Heroes of its own besides itself, nearest first.
    pub allies: Vec<&'a UnitView>,
    /// Standing towers of its own, nearest first.
    pub own_towers: Vec<&'a UnitView>,
    /// Standing towers of the other side, nearest first.
    pub enemy_towers: Vec<&'a UnitView>,
    /// Everything of the other side's that can be knocked down, nearest
    /// first: towers, barracks and the ancient.
    pub enemy_works: Vec<&'a UnitView>,
    /// Its own courier, while one is standing.
    pub courier: Option<&'a UnitView>,
    /// Where its own fountain stands.
    pub home: Option<Vec2>,
    /// Where the other side's stands.
    pub away: Option<Vec2>,
}

/// The units a row of handles to them points at.
pub open spec fn unrefs(s: Seq<&UnitView>) -> Seq<UnitView> {
    s.map_values(|u: &UnitView| *u)
}

/// The list a body may be ranked into.
#[derive(Clone, Copy, Debug, PartialEq, Eq, Structural)]
pub enum Crowd {
    /// Wave creeps of the other side within [`NEARBY`].
    Creeps,
    /// Wave creeps of its own within [`NEARBY`].
    OwnCreeps,
    /// Heroes of the other side.
    Enemies,
    /// Heroes of its own, other than the seat's own body.
    Allies,
    /// Towers of its own.
    OwnTowers,
    /// Towers of the other side.
    EnemyTowers,
    /// Towers, barracks and ancients of the other side.
    EnemyWorks,
    /// Couriers the seat drives.
    Couriers,
}

/// Whether a standing body belongs in one of the lists, for a seat of a side
/// whose body, if one stands, has a given handle, reading from a spot.
pub open spec fn belongs(
    crowd: Crowd,
    unit: UnitView,
    team: Team,
    body: Option<EntityId>,
    slot: SlotId,
    at: Vec2,
) -> bool {
    let foe = opposed(team);
    let about = dist2(at, unit.pos) <= (NEARBY * WHOLE) * (NEARBY * WHOLE);
    match crowd {
        Crowd::Creeps => unit.team == foe && wave_creep(unit.kind) && about,
        Crowd::OwnCreeps => unit.team == team && wave_creep(unit.kind) && about,
        Crowd::Enemies => unit.team == foe && unit.kind == UnitKind::Hero,
        Crowd::Allies => unit.team == team && unit.kind == UnitKind::Hero && Some(unit.id) != body,
        Crowd::OwnTowers => unit.team == team && unit.kind == UnitKind::Tower,
        Crowd::EnemyTowers => unit.team == foe && unit.kind == UnitKind::Tower,
        Crowd::EnemyWorks => unit.team == foe && (unit.kind == UnitKind::Tower || unit.kind
            == UnitKind::Barracks || unit.kind == UnitKind::Ancient),
        Crowd::Couriers => unit.kind == UnitKind::Courier && unit.owner == Some(slot),
    }
}

/// The key bodies are ranked by from a spot: nearness first, the handle's
/// index breaking ties.
pub open spec fn nearness(at: Vec2) -> spec_fn(UnitView) -> int {
    |u: UnitView| dist2(at, u.pos) * 0x1_0000_0000 + u.id.idx
}

/// The standing bodies of one list, nearest first, bodies as near with the
/// same index keeping the order the snapshot gave them.
pub open spec fn ranked(
    units: Seq<UnitView>,
    crowd: Crowd,
    team: Team,
    body: Option<EntityId>,
    slot: SlotId,
    at: Vec2,
) -> Seq<UnitView> {
    sort_by(
        units.filter(|u: UnitView| u.hp > 0 && belongs(crowd, u, team, body, slot, at)),
        nearness(at),
    )
}

/// Every list a field reads bodies into comes out nearest first, the
/// handle's index breaking ties.
pub proof fn lemma_lists_come_out_nearest_first(
    units: Seq<UnitView>,
    crowd: Crowd,
    team: Team,
    body: Option<EntityId>,
    slot: SlotId,
    at: Vec2,
)
    ensures
        ({
            let list = ranked(units, crowd, team, body, slot, at);
            forall|i: int, j: int|
                0 <= i < j < list.len() ==> dist2(at, (#[trigger] list[i]).pos) < dist2(
                    at,
                    (#[trigger] list[j]).pos,
                ) || (dist2(at, list[i].pos) == dist2(at, list[j].pos) && list[i].id.idx
                    <= list[j].id.idx)
        }),
{
    let kept = units.filter(|u: UnitView| u.hp > 0 && belongs(crowd, u, team, body, slot, at));
    crate::lane::lemma_sorted_in_order(kept, nearness(at));
    let list = ranked(units, crowd, team, body, slot, at);
    assert forall|i: int, j: int| 0 <= i < j < list.len() implies dist2(
        at,
        (#[trigger] list[i]).pos,
    ) < dist2(at, (#[trigger] list[j]).pos) || (dist2(at, list[i].pos) == dist2(at, list[j].pos)
        && list[i].id.idx <= list[j].id.idx) by {
        let a = dist2(at, list[i].pos);
        let b = dist2(at, list[j].pos);
        let p = list[i].id.idx as int;
        let q = list[j].id.idx as int;
        assert(nearness(at)(list[i]) <= nearness(at)(list[j]));
        assert(a * 0x1_0000_0000 + p <= b * 0x1_0000_0000 + q);
        assert(0 <= p < 0x1_0000_0000 && 0 <= q < 0x1_0000_0000);
        assert(a < b || (a == b && p <= q)) by (nonlinear_arith)
            requires
                a * 0x1_0000_0000 + p <= b * 0x1_0000_0000 + q,
                0 <= p < 0x1_0000_0000,
                0 <= q < 0x1_0000_0000,
        ;
    }
}

/// Whether a body belongs in a list.
fn takes(
    crowd: Crowd,
    unit: &UnitView,
    team: Team,
    body: Option<EntityId>,
    slot: SlotId,
    at: Vec2,
) -> (taken: bool)
    ensures
        taken == belongs(crowd, *unit, team, body, slot, at),
{
    let foe = other_side(team);
    let reach = (NEARBY as i128) * (WHOLE as i128);
    assert(reach == NEARBY * WHOLE);
    let about = at.distance_squared(unit.pos) <= reach * reach;
    match crowd {
        Crowd::Creeps => unit.team == foe && is_wave_creep(unit.kind) && about,
        Crowd::OwnCreeps => unit.team == team && is_wave_creep(unit.kind) && about,
        Crowd::Enemies => unit.team == foe && unit.kind == UnitKind::Hero,
        Crowd::Allies => unit.team == team && unit.kind == UnitKind::Hero && match body {
            Some(id) => unit.id != id,
            None => true,
        },
        Crowd::OwnTowers => unit.team == team && unit.kind == UnitKind::Tower,
        Crowd::EnemyTowers => unit.team == foe && unit.kind == UnitKind::Tower,
        Crowd::EnemyWorks => unit.team == foe && (unit.kind == UnitKind::Tower || unit.kind
            == UnitKind::Barracks || unit.kind == UnitKind::Ancient),
        Crowd::Couriers => unit.kind == UnitKind::Courier && match unit.owner {
            Some(owner) => owner == slot,
            None => false,
        },
    }
}

/// How near a body stands to a spot, as the key [`nearness`] gives it.
fn nearness_of(at: Vec2, unit: &UnitView) -> (key: i128)
    ensures
        key == nearness(at)(*unit),
{
    let d = at.distance_squared(unit.pos);
    proof {
        crate::proto::lemma_square_bound(at.x.raw - unit.pos.x.raw);
        crate::proto::lemma_square_bound(at.y.raw - unit.pos.y.raw);
    }
    d * 0x1_0000_0000 + (unit.id.idx as i128)
}

/// The standing bodies of one list, nearest first.
fn ranked_of<'a>(
    view: &'a WorldView,
    crowd: Crowd,
    team: Team,
    body: Option<EntityId>,
    slot: SlotId,
    at: Vec2,
) -> (out: Vec<&'a UnitView>)
    ensures
        unrefs(out@) == ranked(view.units@, crowd, team, body, slot, at),
{
    let ghost pred = |u: UnitView| u.hp > 0 && belongs(crowd, u, team, body, slot, at);
    let ghost key = nearness(at);
    let mut out: Vec<&'a UnitView> = Vec::new();
    let mut i: usize = 0;
    while i < view.units.len()
        invariant
            i <= view.units@.len(),
            pred == (|u: UnitView| u.hp > 0 && belongs(crowd, u, team, body, slot, at)),
            key == nearness(at),
            unrefs(out@) == sort_by(view.units@.take(i as int).filter(pred), key),
        decreases view.units@.len() - i,
    {
        let unit = &view.units[i];
        proof {
            assert(view.units@.take(i as int + 1) =~= view.units@.take(i as int).push(*unit));
            view.units@.take(i as int).lemma_filter_push(*unit, pred);
        }
        if unit.hp > 0 && takes(crowd, unit, team, body, slot, at) {
            let k = nearness_of(at, unit);
            let mut j: usize = out.len();
            while j > 0 && nearness_of(at, out[j - 1]) > k
                invariant
                    j <= out@.len(),
                    k == key(*unit),
                    key == nearness(at),
                    forall|m: int| j <= m < out@.len() ==> key(#[trigger] unrefs(out@)[m]) > key(
                        *unit,
                    ),
                decreases j,
            {
                j -= 1;
                assert(unrefs(out@)[j as int] == *out@[j as int]);
            }
            let ghost before = unrefs(out@);
            proof {
                if j > 0 {
                    assert(before[j - 1] == *out@[j - 1]);
                }
                crate::lane::lemma_insert_at(before, *unit, key, j as int);
            }
            out.insert(j, unit);
            proof {
                assert(unrefs(out@) =~= before.insert(j as int, *unit));
                let s = view.units@.take(i as int).filter(pred);
                assert(sort_by(s.push(*unit), key) == crate::lane::insert_by(
                    sort_by(s, key),
                    *unit,
                    key,
                )) by {
                    assert(s.push(*unit).drop_last() =~= s);
                }
            }
        } else {
            proof {
                assert(!pred(*unit));
            }
        }
        i += 1;
    }
    assert(view.units@.take(view.units@.len() as int) =~= view.units@);
    out
}

/// The first seat in a row with a given slot, if any holds it.
pub open spec fn seat_in(players: Seq<PlayerView>, slot: SlotId) -> Option<PlayerView> {
    if exists|i: int| 0 <= i < players.len() && (#[trigger] players[i]).slot == slot {
        let i = choose|i: int|
            0 <= i < players.len() && (#[trigger] players[i]).slot == slot && forall|j: int|
                0 <= j < i ==> (#[trigger] players[j]).slot != slot;
        Some(players[i])
    } else {
        None
    }
}

/// The first unit in a row with a given handle, if any has it.
pub open spec fn unit_in(units: Seq<UnitView>, id: EntityId) -> Option<UnitView> {
    if exists|i: int| 0 <= i < units.len() && (#[trigger] units[i]).id == id {
        let i = choose|i: int|
            0 <= i < units.len() && (#[trigger] units[i]).id == id && forall|j: int|
                0 <= j < i ==> (#[trigger] units[j]).id != id;
        Some(units[i])
    } else {
        None
    }
}

/// The first seat in the view holding a slot.
fn find_seat<'a>(view: &'a WorldView, slot: SlotId) -> (seat: Option<&'a PlayerView>)
    ensures
        match seat {
            Some(s) => seat_in(view.players@, slot) == Some(*s),
            None => seat_in(view.players@, slot) is None,
        },
{
    let mut i: usize = 0;
    while i < view.players.len()
        invariant
            i <= view.players@.len(),
            forall|j: int| 0 <= j < i ==> (#[trigger] view.players@[j]).slot != slot,
        decreases view.players@.len() - i,
    {
        if view.players[i].slot == slot {
            proof {
                let p = view.players@;
                let k = choose|k: int|
                    0 <= k < p.len() && (#[trigger] p[k]).slot == slot && forall|j: int|
                        0 <= j < k ==> (#[trigger] p[j]).slot != slot;
                assert(0 <= i < p.len() && p[i as int].slot == slot && forall|j: int|
                    0 <= j < i ==> (#[trigger] p[j]).slot != slot);
                if k < i {
                    assert(p[k].slot != slot);
                }
                if i < k {
                    assert(p[i as int].slot != slot);
                }
            }
            return Some(&view.players[i]);
        }
        i += 1;
    }
    None
}

/// The first unit in the view with a handle.
pub(crate) fn find_unit<'a>(view: &'a WorldView, id: EntityId) -> (unit: Option<&'a UnitView>)
    ensures
        match unit {
            Some(u) => unit_in(view.units@, id) == Some(*u),
            None => unit_in(view.units@, id) is None,
        },
{
    let mut i: usize = 0;
    while i < view.units.len()
        invariant
            i <= view.units@.len(),
            forall|j: int| 0 <= j < i ==> (#[trigger] view.units@[j]).id != id,
        decreases view.units@.len() - i,
    {
        if view.units[i].id == id {
            proof {
                let p = view.units@;
                let k = choose|k: int|
                    0 <= k < p.len() && (#[trigger] p[k]).id == id && forall|j: int|
                        0 <= j < k ==> (#[trigger] p[j]).id != id;
                assert(0 <= i < p.len() && p[i as int].id == id && forall|j: int|
                    0 <= j < i ==> (#[trigger] p[j]).id != id);
                if k < i {
                    assert(p[k].id != id);
                }
                if i < k {
                    assert(p[i as int].id != id);
                }
            }
            return Some(&view.units[i]);
        }
        i += 1;
    }
    None
}

/// Where a seat reads the field from: its body, or its own fountain while it
/// stands nowhere, or the middle of the map when there is neither.
pub open spec fn reading_spot(me: Option<UnitView>, home: Option<Vec2>) -> Vec2 {
    match me {
        Some(u) => u.pos,
        None => match home {
            Some(h) => h,
            None => Vec2 { x: crate::proto::Fixed { raw: 0 }, y: crate::proto::Fixed { raw: 0 } },
        },
    }
}

/// The body a seat drives, as the view shows it.
pub open spec fn body_of(units: Seq<UnitView>, seat: PlayerView) -> Option<UnitView> {
    match seat.unit {
        Some(id) => unit_in(units, id),
        None => None,
    }
}

/// The unit an optional handle points at.
pub open spec fn deref(me: Option<&UnitView>) -> Option<UnitView> {
    match me {
        Some(u) => Some(*u),
        None => None,
    }
}

impl<'a> Field<'a> {
    /// Whether a field is the one a view reads into for a seat holding a
    /// slot and playing a role.
    pub open spec fn read_from(self, view: WorldView, slot: SlotId, role: Role) -> bool {
        let seat = seat_in(view.players@, slot)->0;
        let team = seat.team;
        let me = body_of(view.units@, seat);
        let home = fountain_in(view.units@, team);
        let at = reading_spot(me, home);
        let list = |crowd: Crowd| ranked(view.units@, crowd, team, seat.unit, slot, at);
        &&& *self.view == view
        &&& *self.seat == seat
        &&& deref(self.me) == me
        &&& self.team == team
        &&& self.hero == seat.hero
        &&& self.role == role
        &&& self.home == home
        &&& self.away == fountain_in(view.units@, opposed(team))
        &&& unrefs(self.creeps@) == list(Crowd::Creeps)
        &&& unrefs(self.own_creeps@) == list(Crowd::OwnCreeps)
        &&& unrefs(self.enemies@) == list(Crowd::Enemies)
        &&& unrefs(self.allies@) == list(Crowd::Allies)
        &&& unrefs(self.own_towers@) == list(Crowd::OwnTowers)
        &&& unrefs(self.enemy_towers@) == list(Crowd::EnemyTowers)
        &&& unrefs(self.enemy_works@) == list(Crowd::EnemyWorks)
        &&& deref(self.courier) == (if list(Crowd::Couriers).len() > 0 {
            Some(list(Crowd::Couriers)[0])
        } else {
            None
        })
    }

    /// Reads one tick for one seat playing one role.
    ///
    /// `None` when the snapshot has no row for that seat.
    pub fn of(view: &'a WorldView, slot: SlotId, role: Role) -> (field: Option<Field<'a>>)
        ensures
            field is Some <==> seat_in(view.players@, slot) is Some,
            field matches Some(f) ==> f.read_from(*view, slot, role) && ({
                let team = seat_in(view.players@, slot)->0.team;
                &&& (f.lane is Some <==> (fountain_in(view.units@, Team::Radiant) is Some
                    && fountain_in(view.units@, Team::Dire) is Some))
                &&& f.lane matches Some(lane) ==> ({
                    let radiant = fountain_in(view.units@, Team::Radiant)->0;
                    let dire = fountain_in(view.units@, Team::Dire)->0;
                    let which = lane_of(role, team);
                    &&& lane.which == which
                    &&& lane.route@ == crate::lane::route_of(view.units@, which, team, radiant, dire)
                    &&& lane.mine == crate::lane::frontmost(
                        crate::lane::laid_out(view.units@, which, team, team, radiant, dire),
                    )
                    &&& lane.theirs == crate::lane::hindmost(
                        crate::lane::laid_out(view.units@, which, opposed(team), team, radiant, dire),
                    )
                })
            }),
    {
        let seat = find_seat(view, slot)?;
        let team = seat.team;
        let foe = other_side(team);
        let me = match seat.unit {
            Some(id) => find_unit(view, id),
            None => None,
        };
        let home = fountain(view, team);
        let away = fountain(view, foe);
        let at = match me {
            Some(unit) => unit.pos,
            None => match home {
                Some(h) => h,
                None => Vec2::zero(),
            },
        };
        let body = seat.unit;
        let couriers = ranked_of(view, Crowd::Couriers, team, body, slot, at);
        let courier = if couriers.len() > 0 { Some(couriers[0]) } else { None };
        let lane = Lane::read(view, role.lane(team), team);
        Some(Field {
            view,
            seat,
            me,
            team,
            hero: seat.hero,
            role,
            lane,
            creeps: ranked_of(view, Crowd::Creeps, team, body, slot, at),
            own_creeps: ranked_of(view, Crowd::OwnCreeps, team, body, slot, at),
            enemies: ranked_of(view, Crowd::Enemies, team, body, slot, at),
            allies: ranked_of(view, Crowd::Allies, team, body, slot, at),
            own_towers: ranked_of(view, Crowd::OwnTowers, team, body, slot, at),
            enemy_towers: ranked_of(view, Crowd::EnemyTowers, team, body, slot, at),
            enemy_works: ranked_of(view, Crowd::EnemyWorks, team, body, slot, at),
            courier,
            home,
            away,
        })
    }
}


/// The first place in a row where a test holds, if it holds anywhere.
pub open spec fn first_where<T>(s: Seq<T>, test: spec_fn(T) -> bool) -> Option<int> {
    if exists|i: int| 0 <= i < s.len() && test(#[trigger] s[i]) {
        Some(
            choose|i: int|
                0 <= i < s.len() && test(#[trigger] s[i]) && forall|j: int|
                    0 <= j < i ==> !test(#[trigger] s[j]),
        )
    } else {
        None
    }
}

/// A place where a test holds and holds nowhere before is the first.
pub proof fn lemma_first_where<T>(s: Seq<T>, test: spec_fn(T) -> bool, i: int)
    requires
        0 <= i < s.len(),
        test(s[i]),
        forall|j: int| 0 <= j < i ==> !test(#[trigger] s[j]),
    ensures
        first_where(s, test) == Some(i),
{
    let k = choose|k: int|
        0 <= k < s.len() && test(#[trigger] s[k]) && forall|j: int|
            0 <= j < k ==> !test(#[trigger] s[j]);
    assert(0 <= k < s.len() && test(s[k]) && forall|j: int| 0 <= j < k ==> !test(#[trigger] s[j]));
    if k < i {
        assert(!test(s[k]));
    }
    if i < k {
        assert(!test(s[i]));
    }
}

/// The first place where a test holds is a place in the row where it holds.
pub proof fn lemma_first_found<T>(s: Seq<T>, test: spec_fn(T) -> bool)
    ensures
        first_where(s, test) matches Some(i) ==> 0 <= i < s.len() && test(s[i]),
{
    if exists|i: int| 0 <= i < s.len() && test(#[trigger] s[i]) {
        let k = choose|k: int|
            0 <= k < s.len() && test(#[trigger] s[k]) && forall|j: int|
                0 <= j < k ==> !test(#[trigger] s[j]);
        let w = choose|i: int| 0 <= i < s.len() && test(#[trigger] s[i]);
        if !(0 <= k < s.len() && test(s[k])) {
            // The first holding place exists: walk down from any holding
            // place to the least one.
            lemma_least_place(s, test, w);
        }
    }
}

/// Nothing before the first place where a test holds passes it, and a test
/// with no first place holds nowhere.
pub proof fn lemma_first_is_first<T>(s: Seq<T>, test: spec_fn(T) -> bool)
    ensures
        first_where(s, test) matches Some(k) ==> forall|j: int| 0 <= j < k ==> !test(#[trigger] s[j]),
        first_where(s, test) is None ==> forall|j: int| 0 <= j < s.len() ==> !test(#[trigger] s[j]),
{
    if exists|i: int| 0 <= i < s.len() && test(#[trigger] s[i]) {
        let w = choose|i: int| 0 <= i < s.len() && test(#[trigger] s[i]);
        lemma_least_place(s, test, w);
    }
}

/// Below any place where a test holds lies a least such place.
proof fn lemma_least_place<T>(s: Seq<T>, test: spec_fn(T) -> bool, w: int)
    requires
        0 <= w < s.len(),
        test(s[w]),
    ensures
        exists|k: int|
            0 <= k < s.len() && test(#[trigger] s[k]) && forall|j: int|
                0 <= j < k ==> !test(#[trigger] s[j]),
    decreases w,
{
    if exists|j: int| 0 <= j < w && test(#[trigger] s[j]) {
        let j = choose|j: int| 0 <= j < w && test(#[trigger] s[j]);
        lemma_least_place(s, test, j);
    } else {
        assert(0 <= w < s.len() && test(s[w]) && forall|j: int| 0 <= j < w ==> !test(#[trigger] s[j]));
    }
}

/// A test that holds nowhere has no first place.
pub proof fn lemma_nowhere<T>(s: Seq<T>, test: spec_fn(T) -> bool)
    requires
        forall|j: int| 0 <= j < s.len() ==> !test(#[trigger] s[j]),
    ensures
        first_where(s, test) is None,
{
}

/// Gold a seat has in hand: nought where the view does not show it.
pub open spec fn gold_in(seat: PlayerView) -> i32 {
    match seat.gold {
        Some(g) => g,
        None => 0,
    }
}

/// The ability slots a seat reads from: its body's while one stands, else
/// what its fallen hero left.
pub open spec fn book_of(me: Option<UnitView>, seat: PlayerView) -> Option<Seq<AbilityView>> {
    match me {
        Some(u) => Some(u.abilities@),
        None => match seat.kit {
            Some(kit) => Some(kit.abilities@),
            None => None,
        },
    }
}

/// Whether an ability slot holds a given ability.
pub open spec fn has_ability(id: AbilityId) -> spec_fn(AbilityView) -> bool {
    |a: AbilityView| a.id == id
}

/// Whether an effect is the one souls are counted by.
pub open spec fn is_souls() -> spec_fn(EffectView) -> bool {
    |e: EffectView| e.id == EffectId(SOULS)
}

/// Whether a bag slot holds a given item.
pub open spec fn holds(id: ItemId) -> spec_fn(Option<ItemView>) -> bool {
    |slot: Option<ItemView>| slot matches Some(held) && held.id == id
}

/// The working slots of a bag, before the backpack begins.
pub open spec fn worn(bag: Seq<Option<ItemView>>) -> Seq<Option<ItemView>> {
    if bag.len() <= WORN_SLOTS {
        bag
    } else {
        bag.take(WORN_SLOTS as int)
    }
}

/// How far a swing reaches, in raw steps, counted between centres.
pub open spec fn swing_reach(me: UnitView, other: UnitView) -> int {
    me.attack_range.raw + me.radius.raw + other.radius.raw
}

/// How many souls show on a body: the stacks of the first soul effect on it.
pub open spec fn souls_on(effects: Seq<EffectView>) -> u32 {
    match first_where(effects, is_souls()) {
        Some(i) => match effects[i].stacks {
            Some(n) => n,
            None => 0,
        },
        None => 0,
    }
}

/// The enemy heroes of a list standing within a reach, in world units, of a
/// spot.
pub open spec fn within_reach(enemies: Seq<UnitView>, at: Vec2, reach: int) -> Seq<UnitView> {
    enemies.filter(|u: UnitView| near(u.pos, at, reach * WHOLE))
}

/// Whether one spot stands within a reach, in world units, of another.
pub(crate) fn near_enough(one: Vec2, other: Vec2, reach: i32) -> (close: bool)
    ensures
        close == near(one, other, reach * WHOLE),
{
    let whole = WHOLE as i128;
    assert(whole == 65536);
    let r = (reach as i128) * whole;
    proof {
        assert(-0x1_0000_0000_0000 <= r <= 0x1_0000_0000_0000) by (nonlinear_arith)
            requires
                r == reach * 65536,
                i32::MIN <= reach <= i32::MAX,
        ;
        assert(r * r <= 0x1_0000_0000_0000_0000_0000_0000) by (nonlinear_arith)
            requires
                -0x1_0000_0000_0000 <= r <= 0x1_0000_0000_0000,
        ;
    }
    r >= 0 && one.distance_squared(other) <= r * r
}

/// How many of a row of bodies stand within a reach, in world units, of a
/// spot.
pub(crate) fn count_near(units: &Vec<&UnitView>, at: Vec2, reach: i32) -> (n: usize)
    ensures
        n == within_reach(unrefs(units@), at, reach as int).len(),
{
    let ghost all = unrefs(units@);
    let ghost test = |u: UnitView| near(u.pos, at, reach * WHOLE);
    let mut n: usize = 0;
    let mut i: usize = 0;
    while i < units.len()
        invariant
            i <= units@.len(),
            all == unrefs(units@),
            test == (|u: UnitView| near(u.pos, at, reach * WHOLE)),
            n == all.take(i as int).filter(test).len(),
            n <= i,
        decreases units@.len() - i,
    {
        let unit = units[i];
        proof {
            assert(all[i as int] == *unit);
            assert(all.take(i as int + 1) =~= all.take(i as int).push(*unit));
            all.take(i as int).lemma_filter_push(*unit, test);
        }
        if near_enough(unit.pos, at, reach) {
            n += 1;
        }
        i += 1;
    }
    assert(all.take(units@.len() as int) =~= all);
    n
}

/// Whether an ability is ready to cast for a body: learned, off cooldown,
/// and paid for.
pub open spec fn ready(held: AbilityView, me: UnitView) -> bool {
    held.level > 0 && held.cooldown_left == 0 && me.mana >= held.mana_cost
}

/// Whether an order is the hero's own cast of an ability that is ready:
/// learned, off cooldown and paid for.
pub open spec fn casts_ready(field: Field, ask: Ask) -> bool {
    match (field.me, ask.order) {
        (Some(me), Order::Cast { slot, target: _ }) => ask.unit is None && exists|id: AbilityId|
            #[trigger] field.ability_at(id) matches Some((s, held)) && s == slot && ready(held, *me),
        _ => false,
    }
}

impl<'a> Field<'a> {
    /// One of the hero's ability slots, by the ability that sits in it.
    pub open spec fn ability_at(self, id: AbilityId) -> Option<(AbilitySlot, AbilityView)> {
        match book_of(deref(self.me), *self.seat) {
            Some(b) => match first_where(b, has_ability(id)) {
                Some(i) => Some((AbilitySlot(i as u8), b[i])),
                None => None,
            },
            None => None,
        }
    }

    /// One of the hero's working inventory slots, by the item in it.
    pub open spec fn item_at(self, id: ItemId) -> Option<(ItemSlot, ItemView)> {
        match self.me {
            Some(me) => match first_where(worn(me.items@), holds(id)) {
                Some(i) => Some((ItemSlot(i as u8), worn(me.items@)[i]->0)),
                None => None,
            },
            None => None,
        }
    }

    /// Where the hero reads the field from.
    pub open spec fn spot(self) -> Vec2 {
        reading_spot(deref(self.me), self.home)
    }

    /// Where the hero stands, or its own fountain while it stands nowhere.
    pub fn at(&self) -> (spot: Vec2)
        ensures
            spot == self.spot(),
    {
        match self.me {
            Some(unit) => unit.pos,
            None => match self.home {
                Some(h) => h,
                None => Vec2::zero(),
            },
        }
    }

    /// Whether the hero is standing at all.
    pub fn alive(&self) -> (standing: bool)
        ensures
            standing == self.me is Some,
    {
        self.me.is_some()
    }

    /// The side that is not its own.
    pub fn foe(&self) -> (side: Team)
        ensures
            side == opposed(self.team),
    {
        other_side(self.team)
    }

    /// Whether a body stands within a swing: the ground between the two,
    /// edge to edge, is no more than the hero's reach.
    pub fn in_reach(&self, other: &UnitView) -> (reached: bool)
        ensures
            reached == (self.me matches Some(me) && near(
                me.pos,
                other.pos,
                swing_reach(*me, *other),
            )),
    {
        match self.me {
            Some(me) => {
                let reach = (me.attack_range.raw as i128) + (me.radius.raw as i128) + (
                other.radius.raw as i128);
                proof {
                    crate::proto::lemma_square_bound(reach as int / 2);
                    assert(reach * reach <= 0x10_0000_0000_0000_0000) by (nonlinear_arith)
                        requires
                            -0x1_8000_0000 <= reach <= 0x1_8000_0000,
                    ;
                }
                reach >= 0 && me.pos.distance_squared(other.pos) <= reach * reach
            },
            None => false,
        }
    }

    /// Gold the seat has in hand.
    pub fn gold(&self) -> (gold: i32)
        ensures
            gold == gold_in(*self.seat),
    {
        match self.seat.gold {
            Some(g) => g,
            None => 0,
        }
    }

    /// Whether the hero stands where buying and selling are taken.
    pub fn at_shop(&self) -> (there: bool)
        ensures
            there == (self.me matches Some(me) && self.home matches Some(home) && near(
                me.pos,
                home,
                SHOP_RANGE * WHOLE,
            )),
    {
        match (self.me, self.home) {
            (Some(me), Some(home)) => me.pos.within(home, Fixed::from_int(SHOP_RANGE)),
            _ => false,
        }
    }

    /// One of the hero's ability slots, by the ability that sits in it.
    pub fn ability(&self, id: AbilityId) -> (found: Option<(AbilitySlot, &'a AbilityView)>)
        ensures
            ({
                let book = book_of(deref(self.me), *self.seat);
                match found {
                    Some((slot, held)) => book matches Some(b) && first_where(b, has_ability(id))
                        matches Some(i) && slot.0 == i as u8 && *held == b[i],
                    None => book matches Some(b) ==> first_where(b, has_ability(id)) is None,
                }
            }),
            match found {
                Some((slot, held)) => self.ability_at(id) == Some((slot, *held)),
                None => self.ability_at(id) is None,
            },
    {
        let book: &'a Vec<AbilityView> = match self.me {
            Some(me) => &me.abilities,
            None => match &self.seat.kit {
                Some(kit) => &kit.abilities,
                None => return None,
            },
        };
        let ghost test = has_ability(id);
        let mut i: usize = 0;
        while i < book.len()
            invariant
                i <= book@.len(),
                test == has_ability(id),
                book_of(deref(self.me), *self.seat) == Some(book@),
                forall|j: int| 0 <= j < i ==> !test(#[trigger] book@[j]),
            decreases book@.len() - i,
        {
            if book[i].id == id {
                proof {
                    lemma_first_where(book@, test, i as int);
                }
                return Some((AbilitySlot(i as u8), &book[i]));
            }
            i += 1;
        }
        proof {
            lemma_nowhere(book@, test);
        }
        None
    }

    /// Every ability slot the hero carries, in the order they are shown.
    pub fn abilities(&self) -> (book: &'a [AbilityView])
        ensures
            book@ == match self.me {
                Some(me) => me.abilities@,
                None => Seq::empty(),
            },
    {
        match self.me {
            Some(me) => me.abilities.as_slice(),
            None => &[],
        }
    }

    /// One of the hero's working inventory slots, by the item in it.
    ///
    /// The backpack takes no part: an item there does nothing until it is
    /// moved forward.
    pub fn item(&self, id: ItemId) -> (found: Option<(ItemSlot, &'a ItemView)>)
        ensures
            match found {
                Some((slot, held)) => self.me matches Some(me) && first_where(
                    worn(me.items@),
                    holds(id),
                ) matches Some(i) && slot.0 == i as u8 && Some(*held) == worn(me.items@)[i],
                None => self.me matches Some(me) ==> first_where(worn(me.items@), holds(id))
                    is None,
            },
            match found {
                Some((slot, held)) => self.item_at(id) == Some((slot, *held)),
                None => self.item_at(id) is None,
            },
    {
        let me = match self.me {
            Some(me) => me,
            None => return None,
        };
        let bag: &'a Vec<Option<ItemView>> = &me.items;
        let n: usize = if bag.len() < WORN_SLOTS { bag.len() } else { WORN_SLOTS };
        let ghost w = worn(bag@);
        let ghost test = holds(id);
        assert(w.len() == n);
        let mut i: usize = 0;
        while i < n
            invariant
                i <= n,
                n == w.len(),
                n <= bag@.len(),
                w == worn(bag@),
                forall|j: int| 0 <= j < n ==> w[j] == bag@[j],
                test == holds(id),
                self.me == Some(me),
                bag == &me.items,
                forall|j: int| 0 <= j < i ==> !test(#[trigger] w[j]),
            decreases n - i,
        {
            match &bag[i] {
                Some(held) => {
                    if held.id == id {
                        proof {
                            assert(w[i as int] == Some(*held));
                            assert(test(w[i as int]));
                            lemma_first_where(w, test, i as int);
                        }
                        return Some((ItemSlot(i as u8), held));
                    }
                },
                None => {},
            }
            assert(!test(w[i as int]));
            i += 1;
        }
        proof {
            lemma_nowhere(w, test);
        }
        None
    }

    /// How many of the bag's working slots hold nothing.
    pub fn free_slots(&self) -> (free: usize)
        ensures
            free == match self.me {
                Some(me) => worn(me.items@).filter(|s: Option<ItemView>| s is None).len(),
                None => 0,
            },
    {
        let me = match self.me {
            Some(me) => me,
            None => return 0,
        };
        let bag = &me.items;
        let n: usize = if bag.len() < WORN_SLOTS { bag.len() } else { WORN_SLOTS };
        let ghost w = worn(bag@);
        let ghost empty = |s: Option<ItemView>| s is None;
        let mut free: usize = 0;
        let mut i: usize = 0;
        while i < n
            invariant
                i <= n,
                n == w.len(),
                n <= bag@.len(),
                n <= WORN_SLOTS,
                w == worn(bag@),
                forall|j: int| 0 <= j < n ==> w[j] == bag@[j],
                empty == (|s: Option<ItemView>| s is None),
                self.me == Some(me),
                bag == &me.items,
                free == w.take(i as int).filter(empty).len(),
                free <= i,
            decreases n - i,
        {
            proof {
                assert(w.take(i as int + 1) =~= w.take(i as int).push(w[i as int]));
                w.take(i as int).lemma_filter_push(w[i as int], empty);
            }
            if bag[i].is_none() {
                free += 1;
            }
            i += 1;
        }
        assert(w.take(n as int) =~= w);
        free
    }

    /// How many souls the hero has gathered.
    pub fn souls(&self) -> (souls: u32)
        ensures
            souls == match self.me {
                Some(me) => souls_on(me.effects@),
                None => 0,
            },
    {
        let me = match self.me {
            Some(me) => me,
            None => return 0,
        };
        let ghost test = is_souls();
        let mut i: usize = 0;
        while i < me.effects.len()
            invariant
                i <= me.effects@.len(),
                test == is_souls(),
                self.me == Some(me),
                forall|j: int| 0 <= j < i ==> !test(#[trigger] me.effects@[j]),
            decreases me.effects@.len() - i,
        {
            if me.effects[i].id.0 == SOULS {
                proof {
                    lemma_first_where(me.effects@, test, i as int);
                }
                return match me.effects[i].stacks {
                    Some(n) => n,
                    None => 0,
                };
            }
            i += 1;
        }
        proof {
            lemma_nowhere(me.effects@, test);
        }
        0
    }

    /// Enemy heroes standing within a reach, in world units, of the hero,
    /// nearest first.
    pub fn foes_within(&self, reach: i32) -> (foes: Vec<&'a UnitView>)
        ensures
            unrefs(foes@) == within_reach(unrefs(self.enemies@), self.spot(), reach as int),
    {
        let at = self.at();
        let whole = WHOLE as i128;
        assert(whole == 65536);
        let r = (reach as i128) * whole;
        proof {
            assert(-0x1_0000_0000_0000 <= r <= 0x1_0000_0000_0000) by (nonlinear_arith)
                requires
                    r == reach * 65536,
                    i32::MIN <= reach <= i32::MAX,
            ;
            assert(r * r <= 0x1_0000_0000_0000_0000_0000_0000) by (nonlinear_arith)
                requires
                    -0x1_0000_0000_0000 <= r <= 0x1_0000_0000_0000,
            ;
        }
        let ghost all = unrefs(self.enemies@);
        let ghost test = |u: UnitView| near(u.pos, at, reach * WHOLE);
        let mut foes: Vec<&'a UnitView> = Vec::new();
        let mut i: usize = 0;
        while i < self.enemies.len()
            invariant
                i <= self.enemies@.len(),
                all == unrefs(self.enemies@),
                test == (|u: UnitView| near(u.pos, at, reach * WHOLE)),
                r == reach * WHOLE,
                r * r <= 0x1_0000_0000_0000_0000_0000_0000,
                unrefs(foes@) == all.take(i as int).filter(test),
            decreases self.enemies@.len() - i,
        {
            let unit = self.enemies[i];
            proof {
                assert(all[i as int] == *unit);
                assert(all.take(i as int + 1) =~= all.take(i as int).push(*unit));
                all.take(i as int).lemma_filter_push(*unit, test);
            }
            if r >= 0 && unit.pos.distance_squared(at) <= r * r {
                let ghost before = unrefs(foes@);
                foes.push(unit);
                assert(unrefs(foes@) =~= before.push(*unit));
            }
            i += 1;
        }
        assert(all.take(self.enemies@.len() as int) =~= all);
        foes
    }
}

} // verus!
