//! Which lane a seat holds, and where along it things are.
//!
//! The lane is read off the snapshot rather than carried as a table: both
//! sides always see every building, so the fountains and the towers are
//! enough to lay out where a lane runs on whichever map is being played.
//!
//! Every measure here is worked exactly, in raw steps: a distance is compared
//! by its square, and a distance to a slanting leg by its square as a
//! fraction.

use vstd::prelude::*;

use crate::proto::{dist2, Fixed, Team, UnitKind, UnitView, Vec2, WorldView, WHOLE};

verus! {

/// What a seat is there to do.
#[derive(Clone, Copy, Debug, PartialEq, Eq, Structural)]
pub enum Role {
    /// The one the safe lane is farmed for.
    Carry,
    /// The middle.
    Mid,
    /// The hard lane.
    Offlane,
    /// With the hard lane.
    Roamer,
    /// With the safe lane.
    Support,
}

/// How many roles there are.
pub const ROLES: usize = 5;

/// The number a role is spoken of by, counting from one.
pub open spec fn role_number(role: Role) -> u8 {
    match role {
        Role::Carry => 1,
        Role::Mid => 2,
        Role::Offlane => 3,
        Role::Roamer => 4,
        Role::Support => 5,
    }
}

/// One of the three lanes, named as the map has them rather than as a side
/// sees them.
#[derive(Clone, Copy, Debug, PartialEq, Eq, Structural)]
pub enum Which {
    /// Up the one edge and along the other.
    Top,
    /// Straight between the fountains.
    Mid,
    /// Round the other corner.
    Bottom,
}

/// Every lane there is.
pub const LANES: [Which; 3] = [Which::Top, Which::Mid, Which::Bottom];

/// The lane a role holds for a side: the middle is the middle; the safe lane
/// is the bottom for the Radiant and the top for anybody else, and the hard
/// lane the other one.
pub open spec fn lane_of(role: Role, team: Team) -> Which {
    let bottom_is_safe = team == Team::Radiant;
    match role {
        Role::Mid => Which::Mid,
        Role::Carry | Role::Support => if bottom_is_safe { Which::Bottom } else { Which::Top },
        Role::Offlane | Role::Roamer => if bottom_is_safe { Which::Top } else { Which::Bottom },
    }
}

/// How a plan spells a role.
pub open spec fn role_spelled(role: Role) -> Seq<char> {
    match role {
        Role::Carry => "carry"@,
        Role::Mid => "mid"@,
        Role::Offlane => "offlane"@,
        Role::Roamer => "roamer"@,
        Role::Support => "support"@,
    }
}

/// The role a spelling names, if any does.
pub open spec fn role_read_as(name: Seq<char>) -> Option<Role> {
    if name == "carry"@ {
        Some(Role::Carry)
    } else if name == "mid"@ {
        Some(Role::Mid)
    } else if name == "offlane"@ {
        Some(Role::Offlane)
    } else if name == "roamer"@ {
        Some(Role::Roamer)
    } else if name == "support"@ {
        Some(Role::Support)
    } else {
        None
    }
}

/// Every role reads back as itself from its own spelling.
pub proof fn lemma_role_spelling_reads_back(role: Role)
    ensures
        role_read_as(role_spelled(role)) == Some(role),
{
    reveal_strlit("carry");
    reveal_strlit("mid");
    reveal_strlit("offlane");
    reveal_strlit("roamer");
    reveal_strlit("support");
    assert("carry"@ != "mid"@ && "carry"@ != "offlane"@ && "carry"@ != "roamer"@ && "carry"@
        != "support"@) by {
        assert("carry"@[0] != "mid"@[0] && "carry"@[0] != "offlane"@[0] && "carry"@[0]
            != "roamer"@[0] && "carry"@[0] != "support"@[0]);
    }
    assert("mid"@ != "offlane"@ && "mid"@ != "roamer"@ && "mid"@ != "support"@) by {
        assert("mid"@[0] != "offlane"@[0] && "mid"@[0] != "roamer"@[0] && "mid"@[0]
            != "support"@[0]);
    }
    assert("offlane"@ != "roamer"@ && "offlane"@ != "support"@) by {
        assert("offlane"@[0] != "roamer"@[0] && "offlane"@[0] != "support"@[0]);
    }
    assert("roamer"@ != "support"@) by {
        assert("roamer"@[0] != "support"@[0]);
    }
}

impl Role {
    /// How a plan spells it.
    pub fn spelling(self) -> (name: &'static str)
        ensures
            name@ == role_spelled(self),
    {
        match self {
            Role::Carry => "carry",
            Role::Mid => "mid",
            Role::Offlane => "offlane",
            Role::Roamer => "roamer",
            Role::Support => "support",
        }
    }

    /// The role a spelling names.
    pub fn named(name: &str) -> (role: Option<Role>)
        ensures
            role == role_read_as(name@),
    {
        let typed = name.to_owned();
        if typed == "carry".to_owned() {
            Some(Role::Carry)
        } else if typed == "mid".to_owned() {
            Some(Role::Mid)
        } else if typed == "offlane".to_owned() {
            Some(Role::Offlane)
        } else if typed == "roamer".to_owned() {
            Some(Role::Roamer)
        } else if typed == "support".to_owned() {
            Some(Role::Support)
        } else {
            None
        }
    }

    /// The role a number names, counting from one as they are spoken of.
    pub fn of(number: u8) -> (role: Option<Role>)
        ensures
            role is Some <==> 1 <= number <= 5,
            role matches Some(r) ==> role_number(r) == number,
    {
        match number {
            1 => Some(Role::Carry),
            2 => Some(Role::Mid),
            3 => Some(Role::Offlane),
            4 => Some(Role::Roamer),
            5 => Some(Role::Support),
            _ => None,
        }
    }

    /// Its number, counting from one.
    pub fn number(self) -> (n: u8)
        ensures
            n == role_number(self),
    {
        match self {
            Role::Carry => 1,
            Role::Mid => 2,
            Role::Offlane => 3,
            Role::Roamer => 4,
            Role::Support => 5,
        }
    }

    /// Which lane it belongs in, for a side.
    pub fn lane(self, team: Team) -> (which: Which)
        ensures
            which == lane_of(self, team),
    {
        let bottom_is_safe = team == Team::Radiant;
        match self {
            Role::Mid => Which::Mid,
            Role::Carry | Role::Support => {
                if bottom_is_safe {
                    Which::Bottom
                } else {
                    Which::Top
                }
            },
            Role::Offlane | Role::Roamer => {
                if bottom_is_safe {
                    Which::Top
                } else {
                    Which::Bottom
                }
            },
        }
    }
}

/// A role read back from its number is the same role, and two roles never
/// share a number.
pub proof fn a_role_is_its_number(role: Role, other: Role)
    ensures
        1 <= role_number(role) <= 5,
        role_number(role) == role_number(other) ==> role == other,
{
}

/// The side a team plays against: the Radiant and the Dire face each other,
/// and the neutrals face themselves.
pub open spec fn opposed(team: Team) -> Team {
    match team {
        Team::Radiant => Team::Dire,
        Team::Dire => Team::Radiant,
        Team::Neutral => Team::Neutral,
    }
}

/// The side that is not this one.
pub fn other_side(team: Team) -> (foe: Team)
    ensures
        foe == opposed(team),
{
    match team {
        Team::Radiant => Team::Dire,
        Team::Dire => Team::Radiant,
        Team::Neutral => Team::Neutral,
    }
}

/// The other side of the other side is the side itself.
pub proof fn other_side_twice_is_the_side(team: Team)
    ensures
        opposed(opposed(team)) == team,
        opposed(team) != team <==> team != Team::Neutral,
{
}

/// Whether a unit is a side's fountain.
pub open spec fn is_fountain_of(unit: UnitView, team: Team) -> bool {
    unit.team == team && unit.kind == UnitKind::Fountain
}

/// Where the first of a side's fountains in a row of units stands.
pub open spec fn fountain_in(units: Seq<UnitView>, team: Team) -> Option<Vec2> {
    if exists|i: int| 0 <= i < units.len() && is_fountain_of(#[trigger] units[i], team) {
        let i = choose|i: int|
            0 <= i < units.len() && is_fountain_of(#[trigger] units[i], team) && forall|j: int|
                0 <= j < i ==> !is_fountain_of(#[trigger] units[j], team);
        Some(units[i].pos)
    } else {
        None
    }
}

/// The first of a side's fountains, if a row holds any, is one before which
/// there is none.
proof fn lemma_first_fountain(units: Seq<UnitView>, team: Team, i: int)
    requires
        0 <= i < units.len(),
        is_fountain_of(units[i], team),
        forall|j: int| 0 <= j < i ==> !is_fountain_of(#[trigger] units[j], team),
    ensures
        fountain_in(units, team) == Some(units[i].pos),
{
    let k = choose|k: int|
        0 <= k < units.len() && is_fountain_of(#[trigger] units[k], team) && forall|j: int|
            0 <= j < k ==> !is_fountain_of(#[trigger] units[j], team);
    assert(0 <= k < units.len() && is_fountain_of(units[k], team) && forall|j: int|
        0 <= j < k ==> !is_fountain_of(#[trigger] units[j], team)) by {
        assert(0 <= i < units.len() && is_fountain_of(units[i], team) && forall|j: int|
            0 <= j < i ==> !is_fountain_of(#[trigger] units[j], team));
    }
    if k < i {
        assert(!is_fountain_of(units[k], team));
    }
    if i < k {
        assert(!is_fountain_of(units[i], team));
    }
}

/// Where a side's fountain stands.
pub fn fountain(view: &WorldView, team: Team) -> (spot: Option<Vec2>)
    ensures
        spot == fountain_in(view.units@, team),
{
    let mut i: usize = 0;
    while i < view.units.len()
        invariant
            i <= view.units@.len(),
            forall|j: int| 0 <= j < i ==> !is_fountain_of(#[trigger] view.units@[j], team),
        decreases view.units@.len() - i,
    {
        let unit = &view.units[i];
        if unit.team == team && unit.kind == UnitKind::Fountain {
            proof {
                lemma_first_fountain(view.units@, team, i as int);
            }
            return Some(unit.pos);
        }
        i += 1;
    }
    None
}

/// The square of the distance from a spot to a leg running from `a` to `b`,
/// as a numerator over a positive denominator: to the nearer end when the
/// spot falls beyond either end of the leg, or the leg has no length, and
/// straight across to the leg otherwise.
pub open spec fn leg_off(a: Vec2, b: Vec2, p: Vec2) -> (int, int) {
    leg_off_parts(
        b.x.raw - a.x.raw,
        b.y.raw - a.y.raw,
        p.x.raw - a.x.raw,
        p.y.raw - a.y.raw,
        dist2(a, p),
        dist2(b, p),
    )
}

/// [`leg_off`] from the leg's offset `u`, the spot's offset `v` from the
/// leg's start, and the squared distances to the two ends.
pub open spec fn leg_off_parts(ux: int, uy: int, vx: int, vy: int, to_a: int, to_b: int) -> (
    int,
    int,
) {
    let len2 = ux * ux + uy * uy;
    let dot = vx * ux + vy * uy;
    if len2 == 0 || dot <= 0 {
        (to_a, 1)
    } else if dot >= len2 {
        (to_b, 1)
    } else {
        let cross = vx * uy - vy * ux;
        (cross * cross, len2)
    }
}

/// Whether one fraction is strictly smaller than another.
pub open spec fn closer(x: (int, int), y: (int, int)) -> bool {
    x.0 * y.1 < y.0 * x.1
}

/// The smaller of two fractions, the first where they are equal.
pub open spec fn nearer_of(x: (int, int), y: (int, int)) -> (int, int) {
    if closer(y, x) { y } else { x }
}

/// Where the top lane bends: under the Radiant fountain and level with the
/// Dire one.
pub open spec fn top_bend(radiant: Vec2, dire: Vec2) -> Vec2 {
    Vec2 { x: radiant.x, y: dire.y }
}

/// Where the bottom lane bends: under the Dire fountain and level with the
/// Radiant one.
pub open spec fn bottom_bend(radiant: Vec2, dire: Vec2) -> Vec2 {
    Vec2 { x: dire.x, y: radiant.y }
}

/// How far off the rough shape of a lane a spot lies, squared, as a
/// fraction.
pub open spec fn off_lane(which: Which, radiant: Vec2, dire: Vec2, p: Vec2) -> (int, int) {
    match which {
        Which::Mid => leg_off(radiant, dire, p),
        Which::Top => nearer_of(
            leg_off(radiant, top_bend(radiant, dire), p),
            leg_off(top_bend(radiant, dire), dire, p),
        ),
        Which::Bottom => nearer_of(
            leg_off(radiant, bottom_bend(radiant, dire), p),
            leg_off(bottom_bend(radiant, dire), dire, p),
        ),
    }
}

/// The lane whose rough shape a spot lies nearest, the first of top, middle
/// and bottom where two are as near.
pub open spec fn nearest_lane(radiant: Vec2, dire: Vec2, p: Vec2) -> Which {
    let top = off_lane(Which::Top, radiant, dire, p);
    let mid = off_lane(Which::Mid, radiant, dire, p);
    let bottom = off_lane(Which::Bottom, radiant, dire, p);
    let mid_wins = closer(mid, top);
    let best = if mid_wins { mid } else { top };
    if closer(bottom, best) {
        Which::Bottom
    } else if mid_wins {
        Which::Mid
    } else {
        Which::Top
    }
}

/// A fraction stands for a whole number.
pub open spec fn worth(x: (int, int), v: int) -> bool {
    x.1 > 0 && x.0 == v * x.1
}

/// The square of the distance from a spot to a leg that runs along one of
/// the axes, as a whole number.
fn axis_leg_off(a: Vec2, b: Vec2, p: Vec2) -> (v: u128)
    requires
        a.x.raw == b.x.raw || a.y.raw == b.y.raw,
    ensures
        worth(leg_off(a, b, p), v as int),
        v <= 0x2_0000_0000_0000_0000,
{
    let ux = (b.x.raw as i128) - (a.x.raw as i128);
    let uy = (b.y.raw as i128) - (a.y.raw as i128);
    let vx = (p.x.raw as i128) - (a.x.raw as i128);
    let vy = (p.y.raw as i128) - (a.y.raw as i128);
    proof {
        lemma_raw_products(ux as int, uy as int, vx as int, vy as int);
    }
    let len2 = ux * ux + uy * uy;
    let dot = vx * ux + vy * uy;
    assert(leg_off(a, b, p) == leg_off_parts(
        ux as int,
        uy as int,
        vx as int,
        vy as int,
        dist2(a, p),
        dist2(b, p),
    ));
    if len2 == 0 || dot <= 0 {
        let d = a.distance_squared(p);
        proof {
            lemma_dist_bound(a, p);
            assert(leg_off(a, b, p).1 == 1);
            assert(worth(leg_off(a, b, p), d as int)) by (nonlinear_arith)
                requires leg_off(a, b, p).1 == 1, leg_off(a, b, p).0 == d;
        }
        d as u128
    } else if dot >= len2 {
        let d = b.distance_squared(p);
        proof {
            lemma_dist_bound(b, p);
            assert(leg_off(a, b, p).1 == 1);
            assert(worth(leg_off(a, b, p), d as int)) by (nonlinear_arith)
                requires leg_off(a, b, p).1 == 1, leg_off(a, b, p).0 == d;
        }
        d as u128
    } else if ux == 0 {
        proof {
            let cross = vx * uy - vy * ux;
            assert(cross * cross == (vx * vx) * len2) by (nonlinear_arith)
                requires ux == 0, cross == vx * uy - vy * ux, len2 == ux * ux + uy * uy;
            assert(leg_off(a, b, p) == (cross * cross, len2 as int));
            assert(worth(leg_off(a, b, p), vx * vx));
        }
        (vx * vx) as u128
    } else {
        proof {
            let cross = vx * uy - vy * ux;
            assert(uy == 0);
            assert(cross * cross == (vy * vy) * len2) by (nonlinear_arith)
                requires uy == 0, cross == vx * uy - vy * ux, len2 == ux * ux + uy * uy;
        }
        (vy * vy) as u128
    }
}

/// Every product of two differences of raw coordinates is at most two to the
/// sixty-fourth either way.
proof fn lemma_raw_products(ux: int, uy: int, vx: int, vy: int)
    requires
        -0x1_0000_0000 <= ux <= 0x1_0000_0000,
        -0x1_0000_0000 <= uy <= 0x1_0000_0000,
        -0x1_0000_0000 <= vx <= 0x1_0000_0000,
        -0x1_0000_0000 <= vy <= 0x1_0000_0000,
    ensures
        0 <= ux * ux <= 0x1_0000_0000_0000_0000,
        0 <= uy * uy <= 0x1_0000_0000_0000_0000,
        0 <= vx * vx <= 0x1_0000_0000_0000_0000,
        0 <= vy * vy <= 0x1_0000_0000_0000_0000,
        -0x1_0000_0000_0000_0000 <= vx * ux <= 0x1_0000_0000_0000_0000,
        -0x1_0000_0000_0000_0000 <= vy * uy <= 0x1_0000_0000_0000_0000,
        -0x1_0000_0000_0000_0000 <= vx * uy <= 0x1_0000_0000_0000_0000,
        -0x1_0000_0000_0000_0000 <= vy * ux <= 0x1_0000_0000_0000_0000,
{
    let e = 0x1_0000_0000int;
    assert(0 <= ux * ux <= e * e) by (nonlinear_arith)
        requires -e <= ux <= e;
    assert(0 <= uy * uy <= e * e) by (nonlinear_arith)
        requires -e <= uy <= e;
    assert(0 <= vx * vx <= e * e) by (nonlinear_arith)
        requires -e <= vx <= e;
    assert(0 <= vy * vy <= e * e) by (nonlinear_arith)
        requires -e <= vy <= e;
    assert(-e * e <= vx * ux <= e * e) by (nonlinear_arith)
        requires -e <= vx <= e, -e <= ux <= e;
    assert(-e * e <= vy * uy <= e * e) by (nonlinear_arith)
        requires -e <= vy <= e, -e <= uy <= e;
    assert(-e * e <= vx * uy <= e * e) by (nonlinear_arith)
        requires -e <= vx <= e, -e <= uy <= e;
    assert(-e * e <= vy * ux <= e * e) by (nonlinear_arith)
        requires -e <= vy <= e, -e <= ux <= e;
}

/// The square of the distance between any two spots is at most two to the
/// sixty-fifth.
proof fn lemma_dist_bound(a: Vec2, b: Vec2)
    ensures
        0 <= dist2(a, b) <= 0x2_0000_0000_0000_0000,
{
    let dx = a.x.raw - b.x.raw;
    let dy = a.y.raw - b.y.raw;
    lemma_raw_products(dx, dy, dx, dy);
}

/// The square of the distance from a spot to a slanting leg, exactly, as a
/// numerator over a denominator: the numerator given as a number, or as a
/// number to be squared where it would not fit squared.
fn slant_leg_off(a: Vec2, b: Vec2, p: Vec2) -> (off: (u128, bool, u128))
    ensures
        leg_off(a, b, p).0 == if off.1 {
            off.0 * off.0
        } else {
            off.0 as int
        },
        off.2 as int == leg_off(a, b, p).1,
        off.2 > 0,
        off.0 < 0x4_0000_0000_0000_0000,
        off.2 < 0x4_0000_0000_0000_0000,
{
    let ux = (b.x.raw as i128) - (a.x.raw as i128);
    let uy = (b.y.raw as i128) - (a.y.raw as i128);
    let vx = (p.x.raw as i128) - (a.x.raw as i128);
    let vy = (p.y.raw as i128) - (a.y.raw as i128);
    proof {
        lemma_raw_products(ux as int, uy as int, vx as int, vy as int);
    }
    let len2 = ux * ux + uy * uy;
    let dot = vx * ux + vy * uy;
    assert(leg_off(a, b, p) == leg_off_parts(
        ux as int,
        uy as int,
        vx as int,
        vy as int,
        dist2(a, p),
        dist2(b, p),
    ));
    if len2 == 0 || dot <= 0 {
        let d = a.distance_squared(p);
        proof {
            lemma_dist_bound(a, p);
        }
        (d as u128, false, 1)
    } else if dot >= len2 {
        let d = b.distance_squared(p);
        proof {
            lemma_dist_bound(b, p);
        }
        (d as u128, false, 1)
    } else {
        let cross = vx * uy - vy * ux;
        let size: u128 = if cross >= 0 { cross as u128 } else { (-cross) as u128 };
        proof {
            assert(size * size == cross * cross) by (nonlinear_arith)
                requires size == cross || size == -cross;
        }
        (size, true, len2 as u128)
    }
}

/// A product of two numbers below two to the sixty-sixth, as its high and
/// low 128 bits.
fn wide_product(a: u128, b: u128) -> (p: (u128, u128))
    requires
        a < 0x4_0000_0000_0000_0000,
        b < 0x4_0000_0000_0000_0000,
    ensures
        p.0 * 0x1_0000_0000_0000_0000_0000_0000_0000_0000 + p.1 == a * b,
{
    let base: u128 = 0x1_0000_0000_0000_0000;
    let a1 = a / base;
    let a0 = a % base;
    let b1 = b / base;
    let b0 = b % base;
    proof {
        assert(a == a1 * base + a0 && a1 < 4 && a0 < base) by (nonlinear_arith)
            requires a1 == a / base, a0 == a % base, base == 0x1_0000_0000_0000_0000,
                a < 0x4_0000_0000_0000_0000;
        assert(b == b1 * base + b0 && b1 < 4 && b0 < base) by (nonlinear_arith)
            requires b1 == b / base, b0 == b % base, base == 0x1_0000_0000_0000_0000,
                b < 0x4_0000_0000_0000_0000;
        assert(a0 * b0 < base * base) by (nonlinear_arith)
            requires a0 < base, b0 < base, a0 >= 0, b0 >= 0;
        assert(a1 * b0 < 4 * base && a0 * b1 < 4 * base && a1 * b1 < 16) by (nonlinear_arith)
            requires a1 < 4, b1 < 4, a0 < base, b0 < base, a0 >= 0, b0 >= 0, a1 >= 0, b1 >= 0;
    }
    let low = a0 * b0;
    let mid = a1 * b0 + a0 * b1;
    let top = a1 * b1;
    let mid_hi = mid / base;
    let mid_lo = mid % base;
    proof {
        assert(mid == mid_hi * base + mid_lo && mid_lo < base && mid_hi < 8) by (nonlinear_arith)
            requires mid_hi == mid / base, mid_lo == mid % base, base == 0x1_0000_0000_0000_0000,
                mid < 8 * base, mid >= 0;
        assert(mid_lo * base < base * base) by (nonlinear_arith)
            requires mid_lo < base, mid_lo >= 0, base > 0;
        assert(a * b == top * (base * base) + mid * base + low) by (nonlinear_arith)
            requires a == a1 * base + a0, b == b1 * base + b0, top == a1 * b1,
                mid == a1 * b0 + a0 * b1, low == a0 * b0;
    }
    let shifted = mid_lo * base;
    if low <= u128::MAX - shifted {
        (top + mid_hi, low + shifted)
    } else {
        (top + mid_hi + 1, low - (u128::MAX - shifted) - 1)
    }
}

/// Whether one product is smaller than another, for factors below two to
/// the sixty-sixth.
fn products_less(a: u128, b: u128, c: u128, d: u128) -> (less: bool)
    requires
        a < 0x4_0000_0000_0000_0000,
        b < 0x4_0000_0000_0000_0000,
        c < 0x4_0000_0000_0000_0000,
        d < 0x4_0000_0000_0000_0000,
    ensures
        less == (a * b < c * d),
{
    let (h1, l1) = wide_product(a, b);
    let (h2, l2) = wide_product(c, d);
    proof {
        let w = 0x1_0000_0000_0000_0000_0000_0000_0000_0000int;
        assert(h1 < h2 ==> h1 * w + l1 < h2 * w + l2) by (nonlinear_arith)
            requires l1 < w, l2 >= 0, h1 >= 0, h2 >= 0;
        assert(h2 < h1 ==> h2 * w + l2 < h1 * w + l1) by (nonlinear_arith)
            requires l2 < w, l1 >= 0, h1 >= 0, h2 >= 0;
    }
    h1 < h2 || (h1 == h2 && l1 < l2)
}

/// Two fractions that stand for whole numbers compare as those numbers do.
proof fn lemma_closer_wholes(x: (int, int), v: int, y: (int, int), w: int)
    requires
        worth(x, v),
        worth(y, w),
    ensures
        closer(x, y) <==> v < w,
        worth(nearer_of(x, y), if w < v { w } else { v }),
{
    assert(x.0 * y.1 == v * (x.1 * y.1)) by (nonlinear_arith)
        requires x.0 == v * x.1;
    assert(y.0 * x.1 == w * (x.1 * y.1)) by (nonlinear_arith)
        requires y.0 == w * y.1;
    assert(x.1 * y.1 > 0) by (nonlinear_arith)
        requires x.1 > 0, y.1 > 0;
    assert(v * (x.1 * y.1) < w * (x.1 * y.1) <==> v < w) by (nonlinear_arith)
        requires x.1 * y.1 > 0;
    assert(closer(y, x) <==> w < v) by {
        assert(w * (x.1 * y.1) < v * (x.1 * y.1) <==> w < v) by (nonlinear_arith)
            requires x.1 * y.1 > 0;
    }
}

/// A whole number against a fraction.
proof fn lemma_closer_whole_fraction(x: (int, int), v: int, y: (int, int))
    requires
        worth(x, v),
        y.1 > 0,
    ensures
        closer(x, y) <==> v * y.1 < y.0,
        closer(y, x) <==> y.0 < v * y.1,
{
    assert(x.0 * y.1 == (v * y.1) * x.1) by (nonlinear_arith)
        requires x.0 == v * x.1;
    assert((v * y.1) * x.1 < y.0 * x.1 <==> v * y.1 < y.0) by (nonlinear_arith)
        requires x.1 > 0;
    assert(y.0 * x.1 < (v * y.1) * x.1 <==> y.0 < v * y.1) by (nonlinear_arith)
        requires x.1 > 0;
}

/// Which lane's rough shape a spot lies nearest.
fn nearest_lane_of(radiant: Vec2, dire: Vec2, p: Vec2) -> (which: Which)
    ensures
        which == nearest_lane(radiant, dire, p),
{
    let tb = Vec2 { x: radiant.x, y: dire.y };
    let bb = Vec2 { x: dire.x, y: radiant.y };
    let t1 = axis_leg_off(radiant, tb, p);
    let t2 = axis_leg_off(tb, dire, p);
    let top = if t2 < t1 { t2 } else { t1 };
    let b1 = axis_leg_off(radiant, bb, p);
    let b2 = axis_leg_off(bb, dire, p);
    let bottom = if b2 < b1 { b2 } else { b1 };
    let (root, squared, md) = slant_leg_off(radiant, dire, p);
    let other: u128 = if squared { root } else { 1 };
    proof {
        lemma_closer_wholes(leg_off(radiant, tb, p), t1 as int, leg_off(tb, dire, p), t2 as int);
        lemma_closer_wholes(leg_off(tb, dire, p), t2 as int, leg_off(radiant, tb, p), t1 as int);
        lemma_closer_wholes(leg_off(radiant, bb, p), b1 as int, leg_off(bb, dire, p), b2 as int);
        lemma_closer_wholes(leg_off(bb, dire, p), b2 as int, leg_off(radiant, bb, p), b1 as int);
        let topo = off_lane(Which::Top, radiant, dire, p);
        let boto = off_lane(Which::Bottom, radiant, dire, p);
        let mido = off_lane(Which::Mid, radiant, dire, p);
        assert(worth(topo, top as int));
        assert(worth(boto, bottom as int));
        lemma_closer_whole_fraction(topo, top as int, mido);
        lemma_closer_whole_fraction(boto, bottom as int, mido);
        lemma_closer_wholes(boto, bottom as int, topo, top as int);
    }
    let mid_wins = products_less(root, other, top, md);
    if mid_wins {
        if products_less(bottom, md, root, other) {
            Which::Bottom
        } else {
            Which::Mid
        }
    } else if bottom < top {
        Which::Bottom
    } else {
        Which::Top
    }
}

/// The length of a leg that runs along one of the axes.
pub open spec fn axis_len(a: Vec2, b: Vec2) -> int {
    crate::aim::abs(b.x.raw - a.x.raw) + crate::aim::abs(b.y.raw - a.y.raw)
}

/// How far along a leg that runs along one of the axes a spot falls, from its
/// start: the spot taken square onto the leg, and held to the leg's ends.
pub open spec fn axis_reach(a: Vec2, b: Vec2, p: Vec2) -> int {
    let ux = b.x.raw - a.x.raw;
    let uy = b.y.raw - a.y.raw;
    let len = axis_len(a, b);
    let dot = (p.x.raw - a.x.raw) * ux + (p.y.raw - a.y.raw) * uy;
    if len == 0 {
        0
    } else {
        crate::aim::clamped(dot, 0, len * len) / len
    }
}

/// How far along a lane's rough shape a spot falls, from the Radiant end.
///
/// Along a bent lane it is the leg the spot lies nearest, the first where
/// both are as near, walked from its start, after the whole of the legs
/// before it. Along the middle, which is one straight leg, it is the spot
/// taken square onto the leg and held to its ends, counted in the leg's
/// length times itself: a scale that puts spots in the same order as
/// walking would.
pub open spec fn along(which: Which, radiant: Vec2, dire: Vec2, p: Vec2) -> int {
    match which {
        Which::Mid => {
            let ux = dire.x.raw - radiant.x.raw;
            let uy = dire.y.raw - radiant.y.raw;
            let dot = (p.x.raw - radiant.x.raw) * ux + (p.y.raw - radiant.y.raw) * uy;
            crate::aim::clamped(dot, 0, ux * ux + uy * uy)
        },
        Which::Top => {
            let bend = top_bend(radiant, dire);
            if closer(leg_off(bend, dire, p), leg_off(radiant, bend, p)) {
                axis_len(radiant, bend) + axis_reach(bend, dire, p)
            } else {
                axis_reach(radiant, bend, p)
            }
        },
        Which::Bottom => {
            let bend = bottom_bend(radiant, dire);
            if closer(leg_off(bend, dire, p), leg_off(radiant, bend, p)) {
                axis_len(radiant, bend) + axis_reach(bend, dire, p)
            } else {
                axis_reach(radiant, bend, p)
            }
        },
    }
}

/// [`axis_reach`], worked.
fn axis_reach_of(a: Vec2, b: Vec2, p: Vec2) -> (reach: i128)
    requires
        a.x.raw == b.x.raw || a.y.raw == b.y.raw,
    ensures
        reach == axis_reach(a, b, p),
        0 <= reach <= 0x2_0000_0000,
{
    let ux = (b.x.raw as i128) - (a.x.raw as i128);
    let uy = (b.y.raw as i128) - (a.y.raw as i128);
    let vx = (p.x.raw as i128) - (a.x.raw as i128);
    let vy = (p.y.raw as i128) - (a.y.raw as i128);
    proof {
        lemma_raw_products(ux as int, uy as int, vx as int, vy as int);
    }
    let len = (if ux >= 0 { ux } else { -ux }) + (if uy >= 0 { uy } else { -uy });
    if len == 0 {
        return 0;
    }
    let dot = vx * ux + vy * uy;
    proof {
        assert(len * len == ux * ux + uy * uy) by (nonlinear_arith)
            requires len == crate::aim::abs(ux as int) + crate::aim::abs(uy as int),
                ux == 0 || uy == 0;
    }
    let top = len * len;
    let held = if dot < 0 { 0 } else if dot > top { top } else { dot };
    proof {
        assert(held / len <= len) by (nonlinear_arith)
            requires 0 <= held <= len * len, len > 0;
        assert(held / len >= 0) by (nonlinear_arith)
            requires 0 <= held, len > 0;
    }
    held / len
}

/// [`along`], worked.
fn along_of(which: Which, radiant: Vec2, dire: Vec2, p: Vec2) -> (k: i128)
    ensures
        k == along(which, radiant, dire, p),
{
    match which {
        Which::Mid => {
            let ux = (dire.x.raw as i128) - (radiant.x.raw as i128);
            let uy = (dire.y.raw as i128) - (radiant.y.raw as i128);
            let vx = (p.x.raw as i128) - (radiant.x.raw as i128);
            let vy = (p.y.raw as i128) - (radiant.y.raw as i128);
            proof {
                lemma_raw_products(ux as int, uy as int, vx as int, vy as int);
            }
            let dot = vx * ux + vy * uy;
            let len2 = ux * ux + uy * uy;
            if dot < 0 {
                0
            } else if dot > len2 {
                len2
            } else {
                dot
            }
        },
        _ => {
            let bend = if which == Which::Top {
                Vec2 { x: radiant.x, y: dire.y }
            } else {
                Vec2 { x: dire.x, y: radiant.y }
            };
            let first = axis_leg_off(radiant, bend, p);
            let second = axis_leg_off(bend, dire, p);
            proof {
                lemma_closer_wholes(leg_off(bend, dire, p), second as int, leg_off(radiant, bend, p), first as int);
            }
            if second < first {
                let ux = (bend.x.raw as i128) - (radiant.x.raw as i128);
                let uy = (bend.y.raw as i128) - (radiant.y.raw as i128);
                let len = (if ux >= 0 { ux } else { -ux }) + (if uy >= 0 { uy } else { -uy });
                len + axis_reach_of(bend, dire, p)
            } else {
                axis_reach_of(radiant, bend, p)
            }
        },
    }
}

/// A spot put into a row after every spot whose key is no greater, and
/// before the run of spots at the end whose keys are greater.
pub open spec fn insert_by<T>(s: Seq<T>, x: T, key: spec_fn(T) -> int) -> Seq<T>
    decreases s.len(),
{
    if s.len() == 0 {
        seq![x]
    } else if key(s.last()) <= key(x) {
        s.push(x)
    } else {
        insert_by(s.drop_last(), x, key).push(s.last())
    }
}

/// A row put in order of a key, spots with equal keys keeping the order
/// they came in.
pub open spec fn sort_by<T>(s: Seq<T>, key: spec_fn(T) -> int) -> Seq<T>
    decreases s.len(),
{
    if s.len() == 0 {
        s
    } else {
        insert_by(sort_by(s.drop_last(), key), s.last(), key)
    }
}

/// Putting a spot in after the run of greater keys at the end of a row is
/// putting it at the place where that run starts.
pub proof fn lemma_insert_at<T>(s: Seq<T>, x: T, key: spec_fn(T) -> int, j: int)
    requires
        0 <= j <= s.len(),
        forall|k: int| j <= k < s.len() ==> key(#[trigger] s[k]) > key(x),
        j == 0 || key(s[j - 1]) <= key(x),
    ensures
        insert_by(s, x, key) == s.insert(j, x),
    decreases s.len(),
{
    if s.len() == 0 {
        assert(s.insert(j, x) =~= seq![x]);
    } else if j == s.len() {
        assert(key(s.last()) <= key(x));
        assert(s.insert(j, x) =~= s.push(x));
    } else {
        let rest = s.drop_last();
        assert(key(s[s.len() - 1]) > key(x));
        assert forall|k: int| j <= k < rest.len() implies key(#[trigger] rest[k]) > key(x) by {
            assert(rest[k] == s[k]);
        }
        if j > 0 {
            assert(rest[j - 1] == s[j - 1]);
        }
        lemma_insert_at(rest, x, key, j);
        assert(rest.insert(j, x).push(s.last()) =~= s.insert(j, x));
    }
}

/// Whether a row runs in order of a key.
pub open spec fn in_order<T>(s: Seq<T>, key: spec_fn(T) -> int) -> bool {
    forall|i: int, j: int| 0 <= i < j < s.len() ==> key(#[trigger] s[i]) <= key(#[trigger] s[j])
}

/// Putting a spot into a row whose keys are all within a bound, the spot's
/// own too, leaves every key within the bound.
proof fn lemma_insert_bounded<T>(s: Seq<T>, x: T, key: spec_fn(T) -> int, bound: int)
    requires
        forall|k: int| 0 <= k < s.len() ==> key(#[trigger] s[k]) <= bound,
        key(x) <= bound,
    ensures
        insert_by(s, x, key).len() == s.len() + 1,
        forall|k: int|
            0 <= k < insert_by(s, x, key).len() ==> key(#[trigger] insert_by(s, x, key)[k])
                <= bound,
    decreases s.len(),
{
    if s.len() > 0 && key(s.last()) > key(x) {
        let rest = s.drop_last();
        assert forall|k: int| 0 <= k < rest.len() implies key(#[trigger] rest[k]) <= bound by {
            assert(rest[k] == s[k]);
        }
        lemma_insert_bounded(rest, x, key, bound);
    }
}

/// Putting a spot into a row in order leaves it in order.
pub proof fn lemma_insert_in_order<T>(s: Seq<T>, x: T, key: spec_fn(T) -> int)
    requires
        in_order(s, key),
    ensures
        in_order(insert_by(s, x, key), key),
    decreases s.len(),
{
    if s.len() == 0 {
    } else if key(s.last()) <= key(x) {
        let t = s.push(x);
        assert forall|i: int, j: int| 0 <= i < j < t.len() implies key(#[trigger] t[i]) <= key(
            #[trigger] t[j],
        ) by {
            if j == s.len() {
                if i < s.len() - 1 {
                    assert(key(s[i]) <= key(s[s.len() - 1]));
                }
            } else {
                assert(t[i] == s[i] && t[j] == s[j]);
            }
        }
    } else {
        let rest = s.drop_last();
        assert(in_order(rest, key)) by {
            assert forall|i: int, j: int| 0 <= i < j < rest.len() implies key(
                #[trigger] rest[i],
            ) <= key(#[trigger] rest[j]) by {
                assert(rest[i] == s[i] && rest[j] == s[j]);
            }
        }
        lemma_insert_in_order(rest, x, key);
        assert forall|k: int| 0 <= k < rest.len() implies key(#[trigger] rest[k]) <= key(
            s.last(),
        ) by {
            assert(rest[k] == s[k]);
            assert(key(s[k]) <= key(s[s.len() - 1]));
        }
        lemma_insert_bounded(rest, x, key, key(s.last()));
        let inner = insert_by(rest, x, key);
        let t = inner.push(s.last());
        assert forall|i: int, j: int| 0 <= i < j < t.len() implies key(#[trigger] t[i]) <= key(
            #[trigger] t[j],
        ) by {
            if j == inner.len() {
                assert(t[i] == inner[i]);
            } else {
                assert(t[i] == inner[i] && t[j] == inner[j]);
            }
        }
    }
}

/// A row put in order of a key runs in order of it.
pub proof fn lemma_sorted_in_order<T>(s: Seq<T>, key: spec_fn(T) -> int)
    ensures
        in_order(sort_by(s, key), key),
    decreases s.len(),
{
    if s.len() > 0 {
        lemma_sorted_in_order(s.drop_last(), key);
        lemma_insert_in_order(sort_by(s.drop_last(), key), s.last(), key);
    }
}

/// The key that puts spots in order along one lane.
pub open spec fn along_key(which: Which, radiant: Vec2, dire: Vec2) -> spec_fn(Vec2) -> int {
    |p: Vec2| along(which, radiant, dire, p)
}

/// Every spot a row put in order holds stood in the row.
pub proof fn lemma_sorted_keeps_spots<T>(s: Seq<T>, key: spec_fn(T) -> int)
    ensures
        sort_by(s, key).to_multiset() == s.to_multiset(),
    decreases s.len(),
{
    broadcast use vstd::seq_lib::group_seq_properties;
    broadcast use vstd::multiset::group_multiset_axioms;
    if s.len() > 0 {
        lemma_sorted_keeps_spots(s.drop_last(), key);
        lemma_insert_keeps_spots(sort_by(s.drop_last(), key), s.last(), key);
        assert(s =~= s.drop_last().push(s.last()));
    }
}

/// Putting a spot into a row adds that spot and nothing else.
pub proof fn lemma_insert_keeps_spots<T>(s: Seq<T>, x: T, key: spec_fn(T) -> int)
    ensures
        insert_by(s, x, key).to_multiset() == s.to_multiset().insert(x),
    decreases s.len(),
{
    broadcast use vstd::seq_lib::group_seq_properties;
    broadcast use vstd::multiset::group_multiset_axioms;
    if s.len() == 0 {
        assert(seq![x] =~= Seq::<T>::empty().push(x));
    } else if key(s.last()) <= key(x) {
    } else {
        lemma_insert_keeps_spots(s.drop_last(), x, key);
        assert(s =~= s.drop_last().push(s.last()));
    }
}

/// Spots put in order along a lane, equal ones keeping the order they came
/// in.
fn sort_along(spots: Vec<Vec2>, which: Which, radiant: Vec2, dire: Vec2) -> (out: Vec<Vec2>)
    ensures
        out@ == sort_by(spots@, along_key(which, radiant, dire)),
{
    let ghost key = along_key(which, radiant, dire);
    let mut out: Vec<Vec2> = Vec::new();
    let mut i: usize = 0;
    while i < spots.len()
        invariant
            i <= spots@.len(),
            key == along_key(which, radiant, dire),
            out@ == sort_by(spots@.take(i as int), key),
        decreases spots@.len() - i,
    {
        let x = spots[i];
        let kx = along_of(which, radiant, dire, x);
        let mut j: usize = out.len();
        while j > 0 && along_of(which, radiant, dire, out[j - 1]) > kx
            invariant
                j <= out@.len(),
                kx == key(x),
                key == along_key(which, radiant, dire),
                forall|k: int| j <= k < out@.len() ==> key(#[trigger] out@[k]) > key(x),
            decreases j,
        {
            j -= 1;
        }
        proof {
            lemma_insert_at(out@, x, key, j as int);
            assert(spots@.take(i as int + 1).drop_last() =~= spots@.take(i as int));
            assert(spots@.take(i as int + 1).last() == x);
            lemma_insert_keeps_spots(out@, x, key);
        }
        out.insert(j, x);
        i += 1;
    }
    assert(spots@.take(spots@.len() as int) =~= spots@);
    out
}

/// Whether a unit is a standing tower of a side.
pub open spec fn standing_tower(unit: UnitView, team: Team) -> bool {
    unit.kind == UnitKind::Tower && unit.team == team && unit.hp > 0
}

/// One side's standing towers on one lane, in the order the row holds them:
/// a tower belongs to the lane whose rough shape it stands nearest.
pub open spec fn towers_on(
    units: Seq<UnitView>,
    which: Which,
    team: Team,
    radiant: Vec2,
    dire: Vec2,
) -> Seq<Vec2>
    decreases units.len(),
{
    if units.len() == 0 {
        seq![]
    } else {
        let rest = towers_on(units.drop_last(), which, team, radiant, dire);
        let unit = units.last();
        if standing_tower(unit, team) && nearest_lane(radiant, dire, unit.pos) == which {
            rest.push(unit.pos)
        } else {
            rest
        }
    }
}

/// One side's standing towers on one lane.
fn towers_of(view: &WorldView, which: Which, team: Team, radiant: Vec2, dire: Vec2) -> (out: Vec<
    Vec2,
>)
    ensures
        out@ == towers_on(view.units@, which, team, radiant, dire),
{
    let mut out: Vec<Vec2> = Vec::new();
    let mut i: usize = 0;
    while i < view.units.len()
        invariant
            i <= view.units@.len(),
            out@ == towers_on(view.units@.take(i as int), which, team, radiant, dire),
        decreases view.units@.len() - i,
    {
        let unit = &view.units[i];
        proof {
            assert(view.units@.take(i as int + 1).drop_last() =~= view.units@.take(i as int));
            assert(view.units@.take(i as int + 1).last() == *unit);
        }
        if unit.kind == UnitKind::Tower && unit.team == team && unit.hp > 0 {
            proof {
                assert(view.units@[i as int].kind == UnitKind::Tower);
            }
            if nearest_lane_of(radiant, dire, unit.pos) == which {
                out.push(unit.pos);
            }
        }
        i += 1;
    }
    assert(view.units@.take(view.units@.len() as int) =~= view.units@);
    out
}

/// Half a number of raw steps, as whole units, rounded to the nearest and
/// away from nought at the half.
pub open spec fn half_rounded(sum: int) -> int {
    if sum >= 0 {
        (sum + WHOLE) / (2 * WHOLE)
    } else {
        -((-sum + WHOLE) / (2 * WHOLE))
    }
}

/// The spot halfway between two others, on whole units. A half past the
/// last whole unit a raw coordinate can hold wraps round to the far end.
pub open spec fn halfway(one: Vec2, other: Vec2) -> Vec2 {
    Vec2 {
        x: Fixed { raw: (half_rounded(one.x.raw + other.x.raw) * WHOLE) as i32 },
        y: Fixed { raw: (half_rounded(one.y.raw + other.y.raw) * WHOLE) as i32 },
    }
}

/// [`half_rounded`], worked, for a sum of two raw coordinates.
fn half_of(sum: i64) -> (whole: i64)
    requires
        -0x1_0000_0000 <= sum <= 0x1_0000_0000,
    ensures
        whole == half_rounded(sum as int),
        -32769 <= whole <= 32769,
{
    let two = 2 * (WHOLE as i64);
    let w = WHOLE as i64;
    proof {
        assert(w == 65536 && two == 131072);
        if sum >= 0 {
            assert((sum as int + w as int) / (two as int) <= 32769) by (nonlinear_arith)
                requires 0 <= sum <= 0x1_0000_0000, w == 65536, two == 131072;
        } else {
            assert((-(sum as int) + w as int) / (two as int) <= 32769) by (nonlinear_arith)
                requires 0 < -sum <= 0x1_0000_0000, w == 65536, two == 131072;
        }
    }
    if sum >= 0 {
        (sum + w) / two
    } else {
        -((-sum + w) / two)
    }
}

/// The spot halfway between two others, on whole units.
fn halfway_of(one: Vec2, other: Vec2) -> (mid: Vec2)
    ensures
        mid == halfway(one, other),
{
    let x = half_of((one.x.raw as i64) + (other.x.raw as i64));
    let y = half_of((one.y.raw as i64) + (other.y.raw as i64));
    let w = WHOLE as i64;
    Vec2 { x: Fixed { raw: (x * w) as i32 }, y: Fixed { raw: (y * w) as i32 } }
}

/// Where a bent lane turns between the two frontmost towers: of the two spots
/// where legs along the axes out of those towers would meet, the one further
/// from the middle of the map, the first where both are as far. The middle
/// does not bend.
pub open spec fn bend_between(which: Which, mine: Vec2, theirs: Vec2, radiant: Vec2, dire: Vec2) -> Option<Vec2> {
    if which == Which::Mid {
        None
    } else {
        let middle = halfway(radiant, dire);
        let one = Vec2 { x: mine.x, y: theirs.y };
        let other = Vec2 { x: theirs.x, y: mine.y };
        Some(if dist2(one, middle) >= dist2(other, middle) { one } else { other })
    }
}

/// [`bend_between`], worked.
fn corner_of(which: Which, mine: Vec2, theirs: Vec2, radiant: Vec2, dire: Vec2) -> (bend: Option<Vec2>)
    ensures
        bend == bend_between(which, mine, theirs, radiant, dire),
{
    if which == Which::Mid {
        return None;
    }
    let middle = halfway_of(radiant, dire);
    let one = Vec2 { x: mine.x, y: theirs.y };
    let other = Vec2 { x: theirs.x, y: mine.y };
    Some(if one.distance_squared(middle) >= other.distance_squared(middle) { one } else { other })
}

/// A lane as a line, from one side's fountain to the other's.
#[derive(Clone, Debug)]
pub struct Lane {
    /// Which lane this is.
    pub which: Which,
    /// The spots it runs through, the reading side's own end first.
    pub route: Vec<Vec2>,
    /// The frontmost standing tower of the reading side on this lane.
    pub mine: Option<Vec2>,
    /// The frontmost standing tower of the other side on this lane.
    pub theirs: Option<Vec2>,
}

/// One side's standing towers on a lane as the reader lays them out: in
/// order along the lane from the Radiant end, and turned round for a Dire
/// reader, so that they run from the reader's own end.
#[verifier::opaque]
pub open spec fn laid_out(
    units: Seq<UnitView>,
    which: Which,
    side: Team,
    reader: Team,
    radiant: Vec2,
    dire: Vec2,
) -> Seq<Vec2> {
    let sorted = sort_by(towers_on(units, which, side, radiant, dire), along_key(which, radiant, dire));
    if reader == Team::Dire {
        sorted.reverse()
    } else {
        sorted
    }
}

/// A side's own fountain, the Radiant's for the Radiant and the Dire's for
/// anybody else, and the other one.
pub open spec fn ends_of(team: Team, radiant: Vec2, dire: Vec2) -> (Vec2, Vec2) {
    if team == Team::Radiant {
        (radiant, dire)
    } else {
        (dire, radiant)
    }
}

/// The last of a row, or a stand-in for an empty one.
pub open spec fn last_or(s: Seq<Vec2>, none: Vec2) -> Vec2 {
    if s.len() > 0 { s.last() } else { none }
}

/// The first of a row, or a stand-in for an empty one.
pub open spec fn first_or(s: Seq<Vec2>, none: Vec2) -> Vec2 {
    if s.len() > 0 { s[0] } else { none }
}

/// The route of a lane a side reads off the buildings: its own fountain, its
/// own towers out from it, the bend between the frontmost towers for a lane
/// that bends, the other side's towers, and the other fountain.
pub open spec fn route_of(
    units: Seq<UnitView>,
    which: Which,
    team: Team,
    radiant: Vec2,
    dire: Vec2,
) -> Seq<Vec2> {
    let mine = laid_out(units, which, team, team, radiant, dire);
    let theirs = laid_out(units, which, opposed(team), team, radiant, dire);
    let (home, away) = ends_of(team, radiant, dire);
    let bend = bend_between(which, last_or(mine, home), first_or(theirs, away), radiant, dire);
    let middle = match bend {
        Some(c) => seq![c],
        None => Seq::<Vec2>::empty(),
    };
    seq![home] + mine + middle + theirs + seq![away]
}

/// The frontmost of a row laid out from the reader's end.
pub open spec fn frontmost(s: Seq<Vec2>) -> Option<Vec2> {
    if s.len() > 0 { Some(s.last()) } else { None }
}

/// The nearest of a row laid out from the reader's end.
pub open spec fn hindmost(s: Seq<Vec2>) -> Option<Vec2> {
    if s.len() > 0 { Some(s[0]) } else { None }
}

/// Where the two front towers of a lane meet, as one side reads it: halfway
/// between its own frontmost tower and the other side's.
pub open spec fn meeting(units: Seq<UnitView>, which: Which, team: Team, radiant: Vec2, dire: Vec2) -> Option<
    Vec2,
> {
    match (
        frontmost(laid_out(units, which, team, team, radiant, dire)),
        hindmost(laid_out(units, which, opposed(team), team, radiant, dire)),
    ) {
        (Some(m), Some(t)) => Some(halfway(m, t)),
        _ => None,
    }
}

/// A lane reads the same way round from either side: the two front towers
/// one side sees are the two the other sees, turned round, so both sides
/// find the towers meeting at the same spot.
pub proof fn lemma_a_lane_meets_in_one_place(units: Seq<UnitView>, which: Which, radiant: Vec2, dire: Vec2)
    ensures
        frontmost(laid_out(units, which, Team::Dire, Team::Dire, radiant, dire)) == hindmost(
            laid_out(units, which, Team::Dire, Team::Radiant, radiant, dire),
        ),
        hindmost(laid_out(units, which, Team::Radiant, Team::Dire, radiant, dire)) == frontmost(
            laid_out(units, which, Team::Radiant, Team::Radiant, radiant, dire),
        ),
        meeting(units, which, Team::Radiant, radiant, dire) == meeting(
            units,
            which,
            Team::Dire,
            radiant,
            dire,
        ),
{
    reveal(laid_out);
    let key = along_key(which, radiant, dire);
    let ours = sort_by(towers_on(units, which, Team::Radiant, radiant, dire), key);
    let theirs = sort_by(towers_on(units, which, Team::Dire, radiant, dire), key);
    if theirs.len() > 0 {
        assert(theirs.reverse().last() == theirs[0]);
    }
    if ours.len() > 0 {
        assert(ours.reverse()[0] == ours.last());
    }
    if let (Some(m), Some(t)) = (frontmost(ours), hindmost(theirs)) {
        assert(halfway(m, t) == halfway(t, m));
    }
}

/// A row turned round.
fn reversed(spots: Vec<Vec2>) -> (out: Vec<Vec2>)
    ensures
        out@ == spots@.reverse(),
{
    let mut out: Vec<Vec2> = Vec::new();
    let mut i: usize = spots.len();
    while i > 0
        invariant
            i <= spots@.len(),
            out@.len() == spots@.len() - i,
            forall|k: int| 0 <= k < out@.len() ==> out@[k] == spots@[spots@.len() - 1 - k],
        decreases i,
    {
        i -= 1;
        out.push(spots[i]);
    }
    assert(out@ =~= spots@.reverse());
    out
}

/// Everything in one row put after another.
fn push_all(route: &mut Vec<Vec2>, more: &Vec<Vec2>)
    ensures
        final(route)@ == old(route)@ + more@,
{
    let mut i: usize = 0;
    while i < more.len()
        invariant
            i <= more@.len(),
            route@ == old(route)@ + more@.take(i as int),
        decreases more@.len() - i,
    {
        route.push(more[i]);
        i += 1;
        assert(route@ =~= old(route)@ + more@.take(i as int));
    }
    assert(more@.take(more@.len() as int) =~= more@);
}

impl Lane {
    /// Lays out a lane from the buildings a snapshot shows.
    ///
    /// `None` when the snapshot shows no fountain of one side or the other,
    /// which is the state before a match has started.
    pub fn read(view: &WorldView, which: Which, team: Team) -> (lane: Option<Lane>)
        ensures
            lane is Some <==> (fountain_in(view.units@, Team::Radiant) is Some && fountain_in(
                view.units@,
                Team::Dire,
            ) is Some),
            lane matches Some(lane) ==> ({
                let radiant = fountain_in(view.units@, Team::Radiant)->0;
                let dire = fountain_in(view.units@, Team::Dire)->0;
                &&& lane.which == which
                &&& lane.route@ == route_of(view.units@, which, team, radiant, dire)
                &&& lane.mine == frontmost(laid_out(view.units@, which, team, team, radiant, dire))
                &&& lane.theirs == hindmost(
                    laid_out(view.units@, which, opposed(team), team, radiant, dire),
                )
            }),
    {
        let radiant = match fountain(view, Team::Radiant) {
            Some(spot) => spot,
            None => return None,
        };
        let dire = match fountain(view, Team::Dire) {
            Some(spot) => spot,
            None => return None,
        };
        let foe = other_side(team);
        let (home, away) = if team == Team::Radiant {
            (radiant, dire)
        } else {
            (dire, radiant)
        };
        let mine = lay_out(view, which, team, team, radiant, dire);
        let theirs = lay_out(view, which, foe, team, radiant, dire);
        let last_mine = if mine.len() > 0 { mine[mine.len() - 1] } else { home };
        let first_theirs = if theirs.len() > 0 { theirs[0] } else { away };
        let corner = corner_of(which, last_mine, first_theirs, radiant, dire);
        let route = route_through(home, &mine, corner, &theirs, away);
        let front = if mine.len() > 0 { Some(mine[mine.len() - 1]) } else { None };
        let back = if theirs.len() > 0 { Some(theirs[0]) } else { None };
        Some(Lane { which, route, mine: front, theirs: back })
    }

    /// Where the two sides' waves meet while each still holds a tower on the
    /// lane: halfway between the frontmost tower of each, on whole units.
    ///
    /// `None` while either side holds none; where the waves meet then is a
    /// share of the way along the whole route, which is measured in
    /// lengths this library does not work with.
    pub fn meeting_of_towers(&self) -> (spot: Option<Vec2>)
        ensures
            spot == match (self.mine, self.theirs) {
                (Some(m), Some(t)) => Some(halfway(m, t)),
                _ => None,
            },
    {
        match (self.mine, self.theirs) {
            (Some(m), Some(t)) => Some(halfway_of(m, t)),
            _ => None,
        }
    }
}

/// A route through a side's own fountain, its towers, a bend where there is
/// one, the other side's towers and the other fountain.
fn route_through(
    home: Vec2,
    mine: &Vec<Vec2>,
    corner: Option<Vec2>,
    theirs: &Vec<Vec2>,
    away: Vec2,
) -> (route: Vec<Vec2>)
    ensures
        route@ == seq![home] + mine@ + match corner {
            Some(c) => seq![c],
            None => Seq::<Vec2>::empty(),
        } + theirs@ + seq![away],
{
    let mut route: Vec<Vec2> = Vec::new();
    route.push(home);
    push_all(&mut route, mine);
    if let Some(c) = corner {
        route.push(c);
    }
    push_all(&mut route, theirs);
    route.push(away);
    proof {
        let middle = match corner {
            Some(c) => seq![c],
            None => Seq::<Vec2>::empty(),
        };
        assert(route@ =~= seq![home] + mine@ + middle + theirs@ + seq![away]);
    }
    route
}

/// One side's standing towers on a lane, laid out as a reader lays them out.
fn lay_out(
    view: &WorldView,
    which: Which,
    side: Team,
    reader: Team,
    radiant: Vec2,
    dire: Vec2,
) -> (out: Vec<Vec2>)
    ensures
        out@ == laid_out(view.units@, which, side, reader, radiant, dire),
{
    reveal(laid_out);
    let found = towers_of(view, which, side, radiant, dire);
    let sorted = sort_along(found, which, radiant, dire);
    if reader == Team::Dire {
        reversed(sorted)
    } else {
        sorted
    }
}

/// A bent lane's route turns at the far corner: between its own towers and
/// the other side's it passes exactly one spot, level with one frontmost
/// tower and square under the other, and of the two such spots it is one at
/// least as far from halfway between the fountains as the other. The middle
/// lane runs straight from the towers of one side to the other's.
pub proof fn lemma_a_bent_lane_turns_at_the_far_corner(
    units: Seq<UnitView>,
    which: Which,
    team: Team,
    radiant: Vec2,
    dire: Vec2,
)
    ensures
        ({
            let mine = laid_out(units, which, team, team, radiant, dire);
            let theirs = laid_out(units, which, opposed(team), team, radiant, dire);
            let (home, away) = ends_of(team, radiant, dire);
            let m = last_or(mine, home);
            let t = first_or(theirs, away);
            let route = route_of(units, which, team, radiant, dire);
            let middle = halfway(radiant, dire);
            let one = Vec2 { x: m.x, y: t.y };
            let other = Vec2 { x: t.x, y: m.y };
            &&& route.subrange(0, mine.len() + 1int) == seq![home] + mine
            &&& which == Which::Mid ==> route.len() == mine.len() + theirs.len() + 2
                && route.subrange(mine.len() + 1int, route.len() as int) == theirs + seq![away]
            &&& which != Which::Mid ==> {
                let bend = route[mine.len() + 1int];
                &&& route.len() == mine.len() + theirs.len() + 3
                &&& route.subrange(mine.len() + 2int, route.len() as int) == theirs + seq![away]
                &&& bend == one || bend == other
                &&& dist2(bend, middle) >= dist2(one, middle)
                &&& dist2(bend, middle) >= dist2(other, middle)
            }
        }),
{
    let mine = laid_out(units, which, team, team, radiant, dire);
    let theirs = laid_out(units, which, opposed(team), team, radiant, dire);
    let (home, away) = ends_of(team, radiant, dire);
    let route = route_of(units, which, team, radiant, dire);
    assert(route.subrange(0, mine.len() + 1int) =~= seq![home] + mine);
    if which == Which::Mid {
        assert(route.subrange(mine.len() + 1int, route.len() as int) =~= theirs + seq![away]);
    } else {
        assert(route.subrange(mine.len() + 2int, route.len() as int) =~= theirs + seq![away]);
    }
}

} // verus!
