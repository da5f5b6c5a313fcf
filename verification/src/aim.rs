//! Geometry and damage arithmetic the wire does not carry.
//!
//! The server decides which way a body looks, where a raze lands and what a
//! blow is worth after armor. A bot that wants to know before it asks works
//! the same sums here, integer for integer.

use vstd::prelude::*;

use crate::numbers::ARMOR_SCALE;
use crate::proto::{
    dist2, floor_div, lemma_square_bound, saturate, Angle, DamageKind, Fixed, UnitView, Vec2,
    WHOLE,
};

verus! {

/// `r` is the integer square root of `n`, rounded down.
pub open spec fn is_floor_root(n: int, r: int) -> bool {
    0 <= r && r * r <= n && n < (r + 1) * (r + 1)
}

/// One step of Newton's iteration never falls below the root.
proof fn lemma_newton_stays_above(n: int, x: int)
    requires
        0 < x,
        0 < n,
    ensures
        n < ((x + n / x) / 2 + 1) * ((x + n / x) / 2 + 1),
        (x + n / x) / 2 >= 1,
{
    let q = n / x;
    assert(q >= 0 && (x == 1 ==> q == n)) by (nonlinear_arith)
        requires q == n / x, 0 < x, 0 < n;
    let next = (x + q) / 2;
    assert(n < q * x + x) by (nonlinear_arith)
        requires q == n / x, 0 < x, 0 < n;
    assert(2 * (next + 1) >= x + q + 1);
    assert((x + q + 1) * (x + q + 1) > 4 * (q * x + x - 1)) by (nonlinear_arith)
        requires 0 < x;
    assert(4 * (next + 1) * (next + 1) >= (x + q + 1) * (x + q + 1)) by (nonlinear_arith)
        requires 2 * (next + 1) >= x + q + 1, x + q + 1 > 0;
    assert(n < (next + 1) * (next + 1)) by (nonlinear_arith)
        requires
            4 * (next + 1) * (next + 1) >= (x + q + 1) * (x + q + 1),
            (x + q + 1) * (x + q + 1) > 4 * (q * x + x - 1),
            n < q * x + x;
}

/// A step taken from above the root goes down.
proof fn lemma_newton_descends(n: int, x: int)
    requires
        0 < x,
        0 < n,
        n < x * x,
    ensures
        (x + n / x) / 2 < x,
{
    assert(n / x < x) by (nonlinear_arith)
        requires 0 < x, 0 < n, n < x * x;
}

/// The sum a step adds up never passes one more than the number.
proof fn lemma_newton_sum_bounded(n: int, x: int)
    requires
        1 <= x <= n,
    ensures
        x + n / x <= n + 1,
        n / x >= 0,
{
    assert(n <= (n + 1 - x) * x) by (nonlinear_arith)
        requires 1 <= x <= n;
    assert(n / x <= n + 1 - x) by (nonlinear_arith)
        requires 1 <= x <= n, n <= (n + 1 - x) * x;
    assert(n / x >= 0) by (nonlinear_arith)
        requires 1 <= x <= n;
}

/// Integer square root, rounded down. Nought for anything not above nought.
pub fn isqrt(n: i64) -> (root: i64)
    ensures
        n <= 0 ==> root == 0,
        n > 0 ==> is_floor_root(n as int, root as int),
{
    if n <= 0 {
        return 0;
    }
    let mut x = n;
    // The halfway sum is taken a bit wider: at the very top of the range a
    // step's sum is one past what the width holds.
    let mut next = ((x as i128 + 1) / 2) as i64;
    assert(n < (n + 1) * (n + 1)) by (nonlinear_arith)
        requires 0 < n;
    while next < x
        invariant
            0 < n,
            0 < x <= n,
            next == (x + n / x) / 2,
            n < (x + 1) * (x + 1),
        decreases x,
    {
        proof {
            lemma_newton_stays_above(n as int, x as int);
        }
        x = next;
        proof {
            lemma_newton_stays_above(n as int, x as int);
            lemma_newton_sum_bounded(n as int, x as int);
        }
        next = ((x as i128 + (n / x) as i128) / 2) as i64;
    }
    proof {
        if n < x * x {
            lemma_newton_descends(n as int, x as int);
        }
    }
    x
}

/// Division that rounds towards nought, as the machine divides.
pub open spec fn tdiv(a: int, b: int) -> int
    recommends
        b != 0,
{
    if (a >= 0) == (b > 0) {
        abs(a) / abs(b)
    } else {
        -(abs(a) / abs(b))
    }
}

/// The absolute value of an integer.
pub open spec fn abs(a: int) -> int {
    if a >= 0 { a } else { -a }
}

/// The facing from an offset, before it is taken round a whole turn: the
/// octant the offset falls in, and how far into it the slope of the offset
/// reaches, in eighths of a quarter turn of 8192 brads each.
pub open spec fn octant_brads(dx: int, dy: int) -> int {
    let adx = abs(dx);
    let ady = abs(dy);
    let slope = if adx >= ady { (ady * 8192) / adx } else { (adx * 8192) / ady };
    if dx >= 0 && dy >= 0 && adx >= ady {
        slope
    } else if dx >= 0 && dy >= 0 {
        16384 - slope
    } else if dy >= 0 && adx < ady {
        16384 + slope
    } else if dy >= 0 {
        32768 - slope
    } else if dx < 0 && adx >= ady {
        32768 + slope
    } else if dx < 0 {
        49152 - slope
    } else if adx < ady {
        49152 + slope
    } else {
        65536 - slope
    }
}

/// The facing from one spot towards another, in brads.
pub open spec fn facing_between(from: Vec2, to: Vec2) -> int {
    let dx = to.x.raw - from.x.raw;
    let dy = to.y.raw - from.y.raw;
    if dx == 0 && dy == 0 {
        0
    } else {
        octant_brads(dx, dy) % 65536
    }
}

/// The facing from one spot towards another, in brads.
///
/// A piecewise-linear octant approximation, exact on the axes and the
/// diagonals. [`heading_of`] is its inverse.
pub fn facing_towards(from: Vec2, to: Vec2) -> (facing: Angle)
    ensures
        facing.brads == facing_between(from, to),
{
    let dx = (to.x.raw as i64) - (from.x.raw as i64);
    let dy = (to.y.raw as i64) - (from.y.raw as i64);
    if dx == 0 && dy == 0 {
        return Angle { brads: 0 };
    }
    let adx = if dx >= 0 { dx } else { -dx };
    let ady = if dy >= 0 { dy } else { -dy };
    let slope = if adx >= ady {
        proof {
            lemma_slope_at_most_a_quarter(ady as int, adx as int);
        }
        (ady * 8192) / adx
    } else {
        proof {
            lemma_slope_at_most_a_quarter(adx as int, ady as int);
        }
        (adx * 8192) / ady
    };
    let octant: i64 = if dx >= 0 && dy >= 0 && adx >= ady {
        slope
    } else if dx >= 0 && dy >= 0 {
        16384 - slope
    } else if dy >= 0 && adx < ady {
        16384 + slope
    } else if dy >= 0 {
        32768 - slope
    } else if dx < 0 && adx >= ady {
        32768 + slope
    } else if dx < 0 {
        49152 - slope
    } else if adx < ady {
        49152 + slope
    } else {
        65536 - slope
    };
    let brads = if octant == 65536 { 0 } else { octant };
    Angle { brads: brads as u16 }
}

/// A slope of a smaller leg over a larger one is at most a quarter turn's
/// worth of the octant scale.
proof fn lemma_slope_at_most_a_quarter(small: int, large: int)
    requires
        0 <= small <= large,
        0 < large,
        large <= 0x1_0000_0000,
    ensures
        0 <= (small * 8192) / large <= 8192,
        small * 8192 <= 0x1_0000_0000 * 8192,
{
    assert(0 <= (small * 8192) / large <= 8192) by (nonlinear_arith)
        requires 0 <= small <= large, 0 < large;
    assert(small * 8192 <= 0x1_0000_0000 * 8192) by (nonlinear_arith)
        requires 0 <= small <= large, large <= 0x1_0000_0000;
}

/// The offset a facing points along, in whole units, in the octant mapping.
pub open spec fn heading_offset(brads: int) -> (int, int) {
    let slope = brads % 8192;
    let octant = brads / 8192;
    if octant == 0 {
        (8192, slope)
    } else if octant == 1 {
        (8192 - slope, 8192)
    } else if octant == 2 {
        (-slope, 8192)
    } else if octant == 3 {
        (-8192, 8192 - slope)
    } else if octant == 4 {
        (-8192, -slope)
    } else if octant == 5 {
        (-(8192 - slope), -8192)
    } else if octant == 6 {
        (slope, -8192)
    } else {
        (8192, -(8192 - slope))
    }
}

/// An offset pointing where a facing looks, in the octant mapping of
/// [`facing_towards`].
///
/// Direction only: its length is one octant span of world units, never zero.
pub fn heading_of(facing: Angle) -> (offset: Vec2)
    ensures
        offset.x.raw == heading_offset(facing.brads as int).0 * WHOLE,
        offset.y.raw == heading_offset(facing.brads as int).1 * WHOLE,
{
    let brads = facing.brads as i32;
    let slope = brads % 8192;
    let (dx, dy) = match brads / 8192 {
        0 => (8192, slope),
        1 => (8192 - slope, 8192),
        2 => (-slope, 8192),
        3 => (-8192, 8192 - slope),
        4 => (-8192, -slope),
        5 => (-(8192 - slope), -8192),
        6 => (slope, -8192),
        _ => (8192, -(8192 - slope)),
    };
    Vec2::from_ints(dx, dy)
}

/// The shortest signed rotation from one facing to another: the turn that
/// brings `from` round to `to`, taken between a half turn back, not
/// included, and a half turn forward, included.
pub open spec fn rotation(from: int, to: int) -> int {
    let d = if to - from < 0 { to - from + 65536 } else { to - from };
    if d > 32768 { d - 65536 } else { d }
}

/// The shortest signed rotation from one facing to another, in brads.
pub fn angle_delta(from: Angle, to: Angle) -> (turn: i32)
    ensures
        turn == rotation(from.brads as int, to.brads as int),
        -32768 < turn <= 32768,
        (turn - (to.brads - from.brads)) % 65536 == 0,
{
    let diff = (to.brads as i32) - (from.brads as i32);
    let d = if diff < 0 { diff + 65536 } else { diff };
    let turn = if d > 32768 { d - 65536 } else { d };
    assert((turn - diff) == 0 || (turn - diff) == 65536 || (turn - diff) == -65536);
    turn
}

/// How far one facing is from another, in brads, ignoring direction.
pub fn facing_gap(one: Angle, other: Angle) -> (gap: u16)
    ensures
        gap == abs(rotation(one.brads as int, other.brads as int)),
        gap <= 32768,
{
    let turn = angle_delta(one, other);
    let gap = if turn >= 0 { turn } else { -turn };
    gap as u16
}

/// How far two facings are apart does not depend on which is named first,
/// and a facing is no distance from itself.
pub proof fn facing_gap_is_symmetric(one: Angle, other: Angle)
    ensures
        abs(rotation(one.brads as int, other.brads as int)) == abs(
            rotation(other.brads as int, one.brads as int),
        ),
        rotation(one.brads as int, one.brads as int) == 0,
{
}

/// The spot `distance` world units from `from` along the line towards
/// `towards`, each coordinate held inside the raw range, in raw steps:
/// the offset to `towards` scaled to the distance over the rounded-down
/// length of that offset, rounded towards nought.
pub open spec fn along(from: Vec2, towards: Vec2, distance: int, reach: int) -> Vec2 {
    let dx = towards.x.raw - from.x.raw;
    let dy = towards.y.raw - from.y.raw;
    let step = distance * WHOLE;
    Vec2 {
        x: Fixed { raw: saturate(from.x.raw + tdiv(dx * step, reach)) as i32 },
        y: Fixed { raw: saturate(from.y.raw + tdiv(dy * step, reach)) as i32 },
    }
}

/// Whether the offset between two spots is short enough for its squared
/// length to be worked in 64 bits.
pub open spec fn measurable(from: Vec2, towards: Vec2) -> bool {
    dist2(from, towards) < i64::MAX
}

/// The spot `distance` world units from `from` along the line towards
/// `towards`. `from` itself when the two stand on the same spot.
pub fn point_along(from: Vec2, towards: Vec2, distance: i32) -> (spot: Vec2)
    requires
        -32767 <= distance <= 32767,
        measurable(from, towards),
    ensures
        dist2(from, towards) == 0 ==> spot == from,
        dist2(from, towards) > 0 ==> exists|reach: int|
            #![trigger is_floor_root(dist2(from, towards), reach)]
            is_floor_root(dist2(from, towards), reach) && spot == along(
                from,
                towards,
                distance as int,
                reach,
            ),
{
    let dx = (towards.x.raw as i64) - (from.x.raw as i64);
    let dy = (towards.y.raw as i64) - (from.y.raw as i64);
    proof {
        lemma_square_bound(dx as int);
        lemma_square_bound(dy as int);
        assert(dx * dx >= 0 && dy * dy >= 0) by (nonlinear_arith);
        assert(dx * dx + dy * dy == dist2(from, towards)) by (nonlinear_arith)
            requires
                dx == towards.x.raw - from.x.raw,
                dy == towards.y.raw - from.y.raw,
                dist2(from, towards) == (from.x.raw - towards.x.raw) * (from.x.raw - towards.x.raw)
                    + (from.y.raw - towards.y.raw) * (from.y.raw - towards.y.raw);
    }
    let reach = isqrt(dx * dx + dy * dy);
    if reach == 0 {
        proof {
            if dx * dx + dy * dy > 0 {
                assert(false) by (nonlinear_arith)
                    requires dx * dx + dy * dy > 0, dx * dx + dy * dy < 1;
            }
            assert(dx == 0 && dy == 0) by (nonlinear_arith)
                requires dx * dx + dy * dy == 0;
        }
        return from;
    }
    let step = (Fixed::from_int(distance).raw) as i64;
    proof {
        assert(reach <= 3037000499) by (nonlinear_arith)
            requires reach * reach <= dx * dx + dy * dy, dx * dx + dy * dy < i64::MAX, reach > 0;
        lemma_leg_within_root(dx as int, dy as int, reach as int);
        lemma_leg_within_root(dy as int, dx as int, reach as int);
        lemma_scaled_leg(dx as int, step as int, reach as int);
        lemma_scaled_leg(dy as int, step as int, reach as int);
    }
    let qx = dx * step / reach;
    let qy = dy * step / reach;
    assert(qx == tdiv(dx * step, reach as int));
    assert(qy == tdiv(dy * step, reach as int));
    let ox = qx as i32;
    let oy = qy as i32;
    let spot = Vec2 {
        x: Fixed { raw: crate::proto::saturating_sum(from.x.raw as i64, ox as i64) },
        y: Fixed { raw: crate::proto::saturating_sum(from.y.raw as i64, oy as i64) },
    };
    proof {
        assert(is_floor_root(dist2(from, towards), reach as int));
        let want = along(from, towards, distance as int, reach as int);
        assert(step == distance * WHOLE);
        assert(ox == qx);
        assert(spot.x.raw == saturate(from.x.raw + ox));
        assert(dx == towards.x.raw - from.x.raw);
        assert(want.x.raw == saturate(from.x.raw + tdiv(dx * step, reach as int)));
        assert(spot.x.raw == want.x.raw);
        assert(spot.y.raw == want.y.raw);
        assert(spot == want);
    }
    spot
}

/// Neither leg of an offset is longer than the rounded-down length of the
/// whole offset.
proof fn lemma_leg_within_root(one: int, other: int, reach: int)
    requires
        is_floor_root(one * one + other * other, reach),
    ensures
        abs(one) <= reach,
{
    if abs(one) > reach {
        assert(one * one >= (reach + 1) * (reach + 1)) by (nonlinear_arith)
            requires abs(one) > reach, reach >= 0;
        assert(other * other >= 0) by (nonlinear_arith);
    }
}

/// A leg scaled by a step over the whole length stays within the step, and
/// the product it is worked from fits in 64 bits.
proof fn lemma_scaled_leg(leg: int, step: int, reach: int)
    requires
        abs(leg) <= reach,
        0 < reach <= 3037000499,
        -0x8000_0000 <= step < 0x8000_0000,
    ensures
        i64::MIN <= leg * step <= i64::MAX,
        abs(tdiv(leg * step, reach)) <= abs(step),
        i64::MIN <= (leg * step) / reach <= i64::MAX,
{
    assert(abs(leg * step) <= reach * abs(step)) by (nonlinear_arith)
        requires abs(leg) <= reach, reach > 0;
    assert(reach * abs(step) <= 3037000499 * 0x8000_0000) by (nonlinear_arith)
        requires 0 < reach <= 3037000499, abs(step) <= 0x8000_0000;
    assert(abs(leg * step) / reach <= abs(step)) by (nonlinear_arith)
        requires abs(leg * step) <= reach * abs(step), reach > 0;
    assert((leg * step) / reach <= abs(leg * step)) by (nonlinear_arith)
        requires reach > 0;
    assert((leg * step) / reach >= -abs(leg * step) - 1) by (nonlinear_arith)
        requires reach > 0;
}

/// A spot moved by an offset in raw steps, each coordinate held inside the
/// raw range, as [`Vec2::offset_by`] moves it.
pub open spec fn moved(from: Vec2, dx: int, dy: int) -> Vec2 {
    Vec2 {
        x: Fixed { raw: saturate(from.x.raw + dx) as i32 },
        y: Fixed { raw: saturate(from.y.raw + dy) as i32 },
    }
}

/// A whole octant span over itself is one.
proof fn lemma_octant_span_divides(v: int)
    requires
        0 <= v <= 8192,
    ensures
        (v * WHOLE * 8192) / (8192 * WHOLE) == v,
{
    assert((v * WHOLE * 8192) / (8192 * WHOLE) == v) by (nonlinear_arith)
        requires 0 <= v <= 8192;
}

/// Looking from a spot towards the spot a facing's heading points at gives
/// back that facing, wherever the heading does not run off the raw range.
pub proof fn facing_towards_inverts_heading_of(from: Vec2, facing: Angle)
    requires
        i32::MIN <= from.x.raw + heading_offset(facing.brads as int).0 * WHOLE <= i32::MAX,
        i32::MIN <= from.y.raw + heading_offset(facing.brads as int).1 * WHOLE <= i32::MAX,
    ensures
        facing_between(
            from,
            moved(
                from,
                heading_offset(facing.brads as int).0 * WHOLE,
                heading_offset(facing.brads as int).1 * WHOLE,
            ),
        ) == facing.brads,
{
    let b = facing.brads as int;
    let hx = heading_offset(b).0;
    let hy = heading_offset(b).1;
    let s = b % 8192;
    let to = moved(from, hx * WHOLE, hy * WHOLE);
    let dx = to.x.raw - from.x.raw;
    let dy = to.y.raw - from.y.raw;
    assert(dx == hx * WHOLE && dy == hy * WHOLE);
    assert(0 <= s < 8192);
    assert(abs(hx) <= 8192 && abs(hy) <= 8192);
    assert(abs(dx) == abs(hx) * WHOLE) by (nonlinear_arith)
        requires dx == hx * WHOLE;
    assert(abs(dy) == abs(hy) * WHOLE) by (nonlinear_arith)
        requires dy == hy * WHOLE;
    assert(abs(hx) == 8192 || abs(hy) == 8192);
    assert(abs(dx) >= abs(dy) <==> abs(hx) >= abs(hy)) by (nonlinear_arith)
        requires abs(dx) == abs(hx) * WHOLE, abs(dy) == abs(hy) * WHOLE;
    assert(dx >= 0 <==> hx >= 0) by (nonlinear_arith)
        requires dx == hx * WHOLE;
    assert(dy >= 0 <==> hy >= 0) by (nonlinear_arith)
        requires dy == hy * WHOLE;
    assert(dx != 0 || dy != 0);
    if abs(hx) >= abs(hy) {
        assert(abs(hx) == 8192);
        lemma_octant_span_divides(abs(hy));
        assert((abs(dy) * 8192) / abs(dx) == abs(hy));
    } else {
        assert(abs(hy) == 8192);
        lemma_octant_span_divides(abs(hx));
        assert((abs(dx) * 8192) / abs(dy) == abs(hx));
    }
}

/// The floor of the square root of a number that has one.
pub open spec fn floor_root(n: int) -> int {
    choose|r: int| is_floor_root(n, r)
}

/// A number has one floor root at most.
pub proof fn lemma_floor_root_unique(n: int, a: int, b: int)
    requires
        is_floor_root(n, a),
        is_floor_root(n, b),
    ensures
        a == b,
{
    if a < b {
        assert((a + 1) * (a + 1) <= b * b) by (nonlinear_arith)
            requires 0 <= a < b;
    }
    if b < a {
        assert((b + 1) * (b + 1) <= a * a) by (nonlinear_arith)
            requires 0 <= b < a;
    }
}

/// The spot a distance in world units ahead of a body, along the way it
/// looks: along the line from where it stands towards the spot its heading
/// points at, itself when that line has no length.
pub open spec fn ahead_of(unit: UnitView, distance: int) -> Vec2 {
    let h = heading_offset(unit.facing.brads as int);
    let ahead = moved(unit.pos, h.0 * WHOLE, h.1 * WHOLE);
    if dist2(unit.pos, ahead) == 0 {
        unit.pos
    } else {
        along(unit.pos, ahead, distance, floor_root(dist2(unit.pos, ahead)))
    }
}

/// The spot `distance` world units ahead of a body, along the way it looks.
pub fn spot_ahead(unit: &UnitView, distance: i32) -> (spot: Vec2)
    requires
        -32767 <= distance <= 32767,
    ensures
        ({
            let h = heading_offset(unit.facing.brads as int);
            let ahead = moved(unit.pos, h.0 * WHOLE, h.1 * WHOLE);
            &&& dist2(unit.pos, ahead) == 0 ==> spot == unit.pos
            &&& dist2(unit.pos, ahead) > 0 ==> exists|reach: int|
                #![trigger is_floor_root(dist2(unit.pos, ahead), reach)]
                is_floor_root(dist2(unit.pos, ahead), reach) && spot == along(
                    unit.pos,
                    ahead,
                    distance as int,
                    reach,
                )
        }),
        spot == ahead_of(*unit, distance as int),
{
    let heading = heading_of(unit.facing);
    let ahead = unit.pos.offset_by(heading);
    proof {
        let h = heading_offset(unit.facing.brads as int);
        assert(ahead == moved(unit.pos, h.0 * WHOLE, h.1 * WHOLE));
        let dx = ahead.x.raw - unit.pos.x.raw;
        let dy = ahead.y.raw - unit.pos.y.raw;
        assert(abs(dx) <= 8192 * WHOLE && abs(dy) <= 8192 * WHOLE);
        assert(dist2(unit.pos, ahead) <= 2 * (8192 * WHOLE) * (8192 * WHOLE)) by (nonlinear_arith)
            requires
                abs(dx) <= 8192 * WHOLE,
                abs(dy) <= 8192 * WHOLE,
                dist2(unit.pos, ahead) == (unit.pos.x.raw - ahead.x.raw) * (unit.pos.x.raw
                    - ahead.x.raw) + (unit.pos.y.raw - ahead.y.raw) * (unit.pos.y.raw
                    - ahead.y.raw),
                dx == ahead.x.raw - unit.pos.x.raw,
                dy == ahead.y.raw - unit.pos.y.raw;
    }
    let spot = point_along(unit.pos, ahead, distance);
    proof {
        let d = dist2(unit.pos, ahead);
        let ex = unit.pos.x.raw - ahead.x.raw;
        let ey = unit.pos.y.raw - ahead.y.raw;
        assert(d >= 0) by (nonlinear_arith)
            requires
                d == ex * ex + ey * ey,
        ;
        if d > 0 {
            let reach = choose|reach: int|
                #![trigger is_floor_root(d, reach)]
                is_floor_root(d, reach) && spot == along(unit.pos, ahead, distance as int, reach);
            assert(is_floor_root(d, reach));
            assert(is_floor_root(d, floor_root(d)));
            lemma_floor_root_unique(d, reach, floor_root(d));
            assert(spot == along(unit.pos, ahead, distance as int, floor_root(d)));
        } else {
            assert(spot == unit.pos);
        }
        let h = heading_offset(unit.facing.brads as int);
        assert(ahead == moved(unit.pos, h.0 * WHOLE, h.1 * WHOLE));
    }
    spot
}

/// Whether a body stands within `radius` world units of a spot.
pub fn within(unit: &UnitView, spot: Vec2, radius: i32) -> (inside: bool)
    requires
        -32768 <= radius <= 32767,
    ensures
        inside == (dist2(unit.pos, spot) <= (radius * WHOLE) * (radius * WHOLE)),
{
    unit.pos.within(spot, Fixed::from_int(radius))
}

/// A number held between two bounds.
pub open spec fn clamped(v: int, low: int, high: int) -> int {
    if v < low {
        low
    } else if v > high {
        high
    } else {
        v
    }
}

/// What a blow is worth after armor or magic resistance, both counted in
/// raw steps.
///
/// Armor below nought counts as none, and a physical blow keeps a hundred
/// parts in a hundred and six parts a point of armor, rounded towards
/// nought. A spell keeps the share of a whole that the resistance, held
/// between nought and one, leaves over, rounded down. Pure damage keeps all.
pub open spec fn mitigated(amount: int, kind: DamageKind, armor: int, resist: int) -> int {
    match kind {
        DamageKind::Physical => {
            let worn = if armor > 0 { armor } else { 0 };
            tdiv(amount * 100 * WHOLE, 100 * WHOLE + ARMOR_SCALE * worn)
        },
        DamageKind::Magical => {
            let kept = WHOLE - clamped(resist, 0, WHOLE as int);
            floor_div(amount * kept, WHOLE as int)
        },
        DamageKind::Pure => amount,
    }
}

/// What a blow is worth after the target's armor and resistance.
pub fn after_mitigation(amount: i32, kind: DamageKind, target: &UnitView) -> (worth: i32)
    requires
        kind == DamageKind::Magical ==> -32768 <= amount <= 32767,
    ensures
        worth == mitigated(amount as int, kind, target.armor.raw as int, target.magic_resist.raw as int),
{
    match kind {
        DamageKind::Physical => {
            let armor = target.armor.max(Fixed::zero());
            let whole = Fixed::one().raw as i64;
            let den = 100 * whole + (ARMOR_SCALE as i64) * (armor.raw as i64);
            let num = (amount as i64) * 100 * whole;
            let q = num / den;
            proof {
                assert(abs(num as int) <= abs(amount as int) * den) by (nonlinear_arith)
                    requires num == amount * 100 * whole, den >= 100 * whole, whole > 0;
                assert(abs(num as int) / (den as int) <= abs(amount as int)) by (nonlinear_arith)
                    requires abs(num as int) <= abs(amount as int) * den, den > 0;
                assert(q == tdiv(num as int, den as int));
            }
            q as i32
        },
        DamageKind::Magical => {
            let kept = Fixed::one().minus(target.magic_resist.clamp(Fixed::zero(), Fixed::one()));
            let hit = Fixed::from_int(amount);
            proof {
                let k = kept.raw as int;
                assert(0 <= k <= WHOLE);
                assert(hit.raw * k == (amount * k) * WHOLE) by (nonlinear_arith)
                    requires hit.raw == amount * WHOLE;
                assert(floor_div(hit.raw * k, WHOLE as int) == amount * k) by (nonlinear_arith)
                    requires hit.raw * k == (amount * k) * WHOLE;
                assert(-32768 * WHOLE <= amount * k <= 32767 * WHOLE) by (nonlinear_arith)
                    requires -32768 <= amount <= 32767, 0 <= k <= WHOLE;
            }
            hit.times(kept).to_int()
        },
        DamageKind::Pure => amount,
    }
}

} // verus!
