//! The one want a tick, and when it is worth saying again.
//!
//! The server keeps one order per seat per tick and the last one wins, so a
//! want is a single [`Ask`] rather than a queue. Saying the want already
//! standing is not free: an order ends the recovery after a swing and calls
//! the creeps onto whoever gave it. So a want equal to the one in hand waits
//! [`RESEND_TICKS`] before it goes out again, and two walks aimed less than
//! [`RESEND_DRIFT`] apart count as one want.

use vstd::prelude::*;

use crate::ask::Ask;
use crate::numbers::{RESEND_DRIFT, RESEND_TICKS};
use crate::proto::{nearer_than, Order, Target, WHOLE};

verus! {

/// Whether two asks are the same want: for the same unit, and either the
/// same order, or two walks, or two attack-moves, aimed at spots strictly
/// less than [`RESEND_DRIFT`] apart.
pub open spec fn same_want_spec(one: Ask, other: Ask) -> bool {
    one.unit == other.unit && match (one.order, other.order) {
        (Order::Move { target: Target::Pos(here) }, Order::Move { target: Target::Pos(there) }) =>
            nearer_than(here, there, RESEND_DRIFT * WHOLE),
        (Order::Attack { target: Target::Pos(here) }, Order::Attack { target: Target::Pos(there) }) =>
            nearer_than(here, there, RESEND_DRIFT * WHOLE),
        (here, there) => here == there,
    }
}

/// Whether two asks are the same want.
///
/// Two walks or two attack-moves aimed less than [`RESEND_DRIFT`] apart are
/// one want: a wave that moves a little every tick would otherwise be
/// followed by a fresh route every tick, and every route thrown away.
pub fn same_want(one: Ask, other: Ask) -> (same: bool)
    ensures
        same == same_want_spec(one, other),
{
    if one.unit != other.unit {
        return false;
    }
    let drift = RESEND_DRIFT as i128;
    let whole = WHOLE as i128;
    assert(drift == 120 && whole == 65536);
    let drift = drift * whole;
    match (one.order, other.order) {
        (Order::Move { target: Target::Pos(here) }, Order::Move { target: Target::Pos(there) }) => {
            here.distance_squared(there) < drift * drift
        },
        (Order::Attack { target: Target::Pos(here) }, Order::Attack { target: Target::Pos(there) }) => {
            here.distance_squared(there) < drift * drift
        },
        (here, there) => here == there,
    }
}

/// A want is always the same want as itself, and which of two is named first
/// does not matter.
pub proof fn same_want_is_reflexive_and_symmetric(one: Ask, other: Ask)
    ensures
        same_want_spec(one, one),
        same_want_spec(one, other) == same_want_spec(other, one),
{
    assert(crate::proto::dist2(one.order->Move_target->Pos_0, one.order->Move_target->Pos_0) == 0);
    match (one.order, other.order) {
        (Order::Move { target: Target::Pos(here) }, Order::Move { target: Target::Pos(there) }) => {
            lemma_dist2_symmetric(here, there);
        },
        (Order::Attack { target: Target::Pos(here) }, Order::Attack { target: Target::Pos(there) }) => {
            lemma_dist2_symmetric(here, there);
        },
        _ => {},
    }
    match one.order {
        Order::Attack { target: Target::Pos(here) } => {
            assert(crate::proto::dist2(here, here) == 0);
        },
        _ => {},
    }
}

/// Distance does not depend on which end it is measured from.
pub proof fn lemma_dist2_symmetric(one: crate::proto::Vec2, other: crate::proto::Vec2)
    ensures
        crate::proto::dist2(one, other) == crate::proto::dist2(other, one),
{
    let dx = one.x.raw - other.x.raw;
    let dy = one.y.raw - other.y.raw;
    assert(dx * dx == (-dx) * (-dx)) by (nonlinear_arith);
    assert(dy * dy == (-dy) * (-dy)) by (nonlinear_arith);
}

/// The want standing at the moment, and the tick it was last said on.
#[derive(Clone, Copy, Debug, PartialEq, Eq, Structural)]
pub struct Steady {
    /// What was last sent. Absent before anything has been.
    last: Option<Ask>,
    /// The tick it was sent on.
    since: u32,
}

impl View for Steady {
    /// What was last let through, if anything was, and the tick it was let
    /// through on.
    type V = (Option<Ask>, u32);

    closed spec fn view(&self) -> (Option<Ask>, u32) {
        (self.last, self.since)
    }
}

impl Steady {
    /// What was last let through, if anything was.
    pub open spec fn standing(self) -> Option<Ask> {
        self@.0
    }

    /// The tick the standing want was let through on.
    pub open spec fn said_at(self) -> u32 {
        self@.1
    }

    /// Whether an ask would be held back at a tick: the standing want is the
    /// same want, and fewer than [`RESEND_TICKS`] have passed since it was
    /// said, counting a tick before it as none.
    pub open spec fn holds_back(self, tick: u32, ask: Ask) -> bool {
        match self.standing() {
            Some(had) => same_want_spec(had, ask) && (if tick >= self.said_at() {
                tick - self.said_at()
            } else {
                0
            }) < RESEND_TICKS,
            None => false,
        }
    }

    /// A steady that has said nothing yet.
    pub fn new() -> (steady: Steady)
        ensures
            steady.standing() is None,
    {
        Steady { last: None, since: 0 }
    }

    /// Whether an ask is worth putting on the wire this tick.
    ///
    /// Keeps whatever it lets through as the want now standing.
    pub fn worth_sending(&mut self, tick: u32, ask: Ask) -> (send: bool)
        ensures
            send == !old(self).holds_back(tick, ask),
            send ==> final(self).standing() == Some(ask) && final(self).said_at() == tick,
            !send ==> *final(self) == *old(self),
    {
        let standing = match self.last {
            Some(had) => same_want(had, ask) && tick.saturating_sub(self.since) < RESEND_TICKS,
            None => false,
        };
        if standing {
            return false;
        }
        self.last = Some(ask);
        self.since = tick;
        true
    }

    /// Forgets what was standing, so the next ask goes out whatever it is.
    pub fn forget(&mut self)
        ensures
            final(self).standing() is None,
            final(self).said_at() == old(self).said_at(),
    {
        self.last = None;
    }
}

/// Whatever was standing, an ask made after forgetting goes out.
pub proof fn forgetting_lets_anything_out(steady: Steady, tick: u32, ask: Ask)
    requires
        steady.standing() is None,
    ensures
        !steady.holds_back(tick, ask),
{
}

/// A want just let through is held back on the same tick and on every tick
/// until [`RESEND_TICKS`] have passed, and let out again from then on.
pub proof fn a_want_is_held_for_its_ticks(steady: Steady, said: u32, tick: u32, ask: Ask)
    requires
        steady.standing() == Some(ask),
        steady.said_at() == said,
        said <= tick,
    ensures
        steady.holds_back(tick, ask) <==> tick - said < RESEND_TICKS,
{
    same_want_is_reflexive_and_symmetric(ask, ask);
}

} // verus!
