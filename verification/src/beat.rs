//! The attack cycle, and what has been seen of how fast bodies are falling.
//!
//! Neither is on the wire. A snapshot says how long a unit takes between
//! swings but not where in that interval it stands, and it says what a body's
//! health is now but not what it will be when a blow arrives. Both are needed
//! to take a last hit: an order given a second early is a creep somebody else
//! kills.
//!
//! What the wire does carry is every blow that lands. One of the hero's own
//! says the cycle came round a wind-up ago; a run of snapshots says how fast
//! a creep is losing health. What is kept here is that run and those blows;
//! turning them into rates and forecasts is measured elsewhere.

use vstd::prelude::*;

use crate::numbers::{swing_of, swing_spec, Swing, BITTEN_TICKS, HISTORY_TICKS};
use crate::proto::{DamageKind, EntityId, EventKind, HeroId, UnitView, WorldView};

verus! {

/// The recent health of one unit.
#[derive(Clone, Debug)]
pub struct Trace {
    /// Which unit.
    pub id: EntityId,
    /// The last tick it was seen on.
    pub seen: u32,
    /// Its health, tick by tick, oldest first.
    pub samples: Vec<(u32, i32)>,
}

/// What a trace holds, as values.
pub struct TraceView {
    /// Which unit.
    pub id: EntityId,
    /// The last tick it was seen on.
    pub seen: u32,
    /// Its health, tick by tick, oldest first.
    pub samples: Seq<(u32, i32)>,
}

impl Trace {
    /// What the trace holds.
    pub open spec fn view_of(self) -> TraceView {
        TraceView { id: self.id, seen: self.seen, samples: self.samples@ }
    }

    /// A copy of the trace.
    fn clone_trace(&self) -> (copy: Trace)
        ensures
            copy.view_of() == self.view_of(),
    {
        let mut samples: Vec<(u32, i32)> = Vec::new();
        let mut i: usize = 0;
        while i < self.samples.len()
            invariant
                i <= self.samples@.len(),
                samples@ == self.samples@.take(i as int),
            decreases self.samples@.len() - i,
        {
            samples.push(self.samples[i]);
            i += 1;
            assert(samples@ =~= self.samples@.take(i as int));
        }
        assert(self.samples@.take(self.samples@.len() as int) =~= self.samples@);
        Trace { id: self.id, seen: self.seen, samples }
    }
}

/// What a row of traces holds.
pub open spec fn traces_view(traces: Seq<Trace>) -> Seq<TraceView> {
    traces.map_values(|t: Trace| t.view_of())
}

/// The earliest tick still remembered at a tick, for a memory so many ticks
/// long.
pub open spec fn oldest(tick: u32, span: u32) -> u32 {
    if tick >= span {
        (tick - span) as u32
    } else {
        0
    }
}

/// The samples of a run taken at or after a tick.
pub open spec fn since(samples: Seq<(u32, i32)>, from: u32) -> Seq<(u32, i32)> {
    samples.filter(|s: (u32, i32)| s.0 >= from)
}

/// The place of the first trace of a unit.
pub open spec fn trace_of(traces: Seq<TraceView>, id: EntityId) -> Option<int> {
    crate::field::first_where(traces, |t: TraceView| t.id == id)
}

/// One unit seen at a tick: its trace, the first one with its handle, takes
/// the sample and forgets what has aged out; or a trace is begun for it.
pub open spec fn fed_one(traces: Seq<TraceView>, unit: UnitView, tick: u32) -> Seq<TraceView> {
    match trace_of(traces, unit.id) {
        Some(k) => traces.update(
            k,
            TraceView {
                id: traces[k].id,
                seen: tick,
                samples: since(traces[k].samples.push((tick, unit.hp)), oldest(tick, HISTORY_TICKS)),
            },
        ),
        None => traces.push(TraceView { id: unit.id, seen: tick, samples: seq![(tick, unit.hp)] }),
    }
}

/// Every unit of a snapshot seen, one after another.
pub open spec fn fed(traces: Seq<TraceView>, units: Seq<UnitView>, tick: u32) -> Seq<TraceView>
    decreases units.len(),
{
    if units.len() == 0 {
        traces
    } else {
        fed_one(fed(traces, units.drop_last(), tick), units.last(), tick)
    }
}

/// The traces of units seen since a tick.
pub open spec fn seen_since(traces: Seq<TraceView>, from: u32) -> Seq<TraceView> {
    traces.filter(|t: TraceView| t.seen >= from)
}

/// Whether an event is a blow of the hero's own swing, by handle.
pub open spec fn own_swing(event: EventKind, me: EntityId) -> bool {
    match event {
        EventKind::Damaged { source: Some(source), target: _, amount: _, kind, crit: _ } => source
            == me && kind == DamageKind::Physical,
        _ => false,
    }
}

/// The blows a row of events lands on the hero, each as the tick and who
/// struck.
pub open spec fn blows_on(events: Seq<EventKind>, me: EntityId, tick: u32) -> Seq<(u32, EntityId)>
    decreases events.len(),
{
    if events.len() == 0 {
        Seq::empty()
    } else {
        let before = blows_on(events.drop_last(), me, tick);
        match events.last() {
            EventKind::Damaged { source: Some(source), target, amount: _, kind: _, crit: _ } => if target
                == me {
                before.push((tick, source))
            } else {
                before
            },
            _ => before,
        }
    }
}

/// Whether a unit is among those that struck the hero lately.
pub open spec fn struck_by_one(bitten: Seq<(u32, EntityId)>, who: EntityId) -> bool {
    exists|k: int| 0 <= k < bitten.len() && (#[trigger] bitten[k]).1 == who
}

/// The attack cycle and the fall of everything in sight.
#[derive(Clone, Debug)]
pub struct Beat {
    swing: Swing,
    rate: u16,
    struck_at: Option<u32>,
    interval: u32,
    tick: u32,
    traces: Vec<Trace>,
    struck_by: Vec<(u32, EntityId)>,
}

impl Beat {
    /// What the hero's swing is made of.
    pub closed spec fn swing_made(self) -> Swing {
        self.swing
    }

    /// Simulation ticks in a second, never nought.
    pub closed spec fn ticks_a_second(self) -> u16 {
        self.rate
    }

    /// The tick the hero's own swing last landed, if it has.
    pub closed spec fn struck(self) -> Option<u32> {
        self.struck_at
    }

    /// Ticks between one swing of the hero's and the next.
    pub closed spec fn cycle(self) -> u32 {
        self.interval
    }

    /// The tick last seen.
    pub closed spec fn now(self) -> u32 {
        self.tick
    }

    /// The recent health of everything seen lately.
    pub closed spec fn runs(self) -> Seq<TraceView> {
        traces_view(self.traces@)
    }

    /// The blows landed on the hero lately: the tick, and who struck.
    pub closed spec fn bitten(self) -> Seq<(u32, EntityId)> {
        self.struck_by@
    }

    /// A beat for a hero, at a match's tick rate.
    pub fn new(hero: HeroId, tick_rate: u16) -> (beat: Beat)
        ensures
            beat.swing_made() == swing_spec(hero),
            beat.ticks_a_second() == if tick_rate > 1 {
                tick_rate
            } else {
                1
            },
            beat.struck() is None,
            beat.cycle() == 0,
            beat.now() == 0,
            beat.runs() == Seq::<TraceView>::empty(),
            beat.bitten() == Seq::<(u32, EntityId)>::empty(),
    {
        let beat = Beat {
            swing: swing_of(hero),
            rate: if tick_rate > 1 {
                tick_rate
            } else {
                1
            },
            struck_at: None,
            interval: 0,
            tick: 0,
            traces: Vec::new(),
            struck_by: Vec::new(),
        };
        assert(traces_view(beat.traces@) =~= Seq::<TraceView>::empty());
        beat
    }

    /// What the hero's swing is made of.
    pub fn swing(&self) -> (swing: Swing)
        ensures
            swing == self.swing_made(),
    {
        self.swing
    }

    /// The tick the hero's own swing last landed, if it has.
    pub fn struck_at(&self) -> (at: Option<u32>)
        ensures
            at == self.struck(),
    {
        self.struck_at
    }

    /// Ticks between one swing of the hero's and the next.
    pub fn interval(&self) -> (ticks: u32)
        ensures
            ticks == self.cycle(),
    {
        self.interval
    }

    /// The tick last seen.
    pub fn tick(&self) -> (tick: u32)
        ensures
            tick == self.now(),
    {
        self.tick
    }

    /// Simulation ticks in a second.
    pub fn rate(&self) -> (rate: u16)
        ensures
            rate == self.ticks_a_second(),
    {
        self.rate
    }

    /// Whether a unit has struck the hero lately.
    pub fn struck_me(&self, who: EntityId) -> (struck: bool)
        ensures
            struck == struck_by_one(self.bitten(), who),
    {
        let mut k: usize = 0;
        while k < self.struck_by.len()
            invariant
                k <= self.struck_by@.len(),
                forall|j: int| 0 <= j < k ==> (#[trigger] self.struck_by@[j]).1 != who,
            decreases self.struck_by@.len() - k,
        {
            if self.struck_by[k].1 == who {
                assert(self.bitten()[k as int].1 == who);
                return true;
            }
            k += 1;
        }
        false
    }

    /// Ticks before a blow begun at the next chance lands, for a blow that
    /// takes a number of ticks from the start of a swing to arrive: the
    /// cycle comes round an interval after the last blow left, which was a
    /// flight before it landed.
    pub fn lands_after(&self, flight: u32) -> (ticks: u32)
        requires
            self.struck() matches Some(s) ==> oldest(s, flight) + self.cycle() <= u32::MAX,
            oldest(
                match self.struck() {
                    None => self.now(),
                    Some(s) => (oldest(s, flight) + self.cycle()) as u32,
                },
                self.now(),
            ) + flight <= u32::MAX,
        ensures
            ticks == oldest(
                match self.struck() {
                    None => self.now(),
                    Some(s) => (oldest(s, flight) + self.cycle()) as u32,
                },
                self.now(),
            ) + flight,
    {
        let ready = match self.struck_at {
            None => self.tick,
            Some(struck) => struck.saturating_sub(flight) + self.interval,
        };
        ready.saturating_sub(self.tick) + flight
    }

    /// The oldest and the newest sample remembered of a unit, if there is a
    /// trace of it with any.
    pub fn ends_of(&self, id: EntityId) -> (ends: Option<((u32, i32), (u32, i32))>)
        ensures
            match trace_of(self.runs(), id) {
                Some(k) => {
                    let s = self.runs()[k].samples;
                    ends == if s.len() > 0 {
                        Some((s[0], s.last()))
                    } else {
                        None
                    }
                },
                None => ends is None,
            },
    {
        let ghost runs = traces_view(self.traces@);
        let ghost test = |t: TraceView| t.id == id;
        let mut k: usize = 0;
        while k < self.traces.len()
            invariant
                k <= self.traces@.len(),
                runs == traces_view(self.traces@),
                test == (|t: TraceView| t.id == id),
                forall|j: int| 0 <= j < k ==> !test(#[trigger] runs[j]),
            decreases self.traces@.len() - k,
        {
            if self.traces[k].id == id {
                proof {
                    assert(runs[k as int] == self.traces@[k as int].view_of());
                    crate::field::lemma_first_where(runs, test, k as int);
                }
                let samples = &self.traces[k].samples;
                if samples.len() == 0 {
                    return None;
                }
                return Some((samples[0], samples[samples.len() - 1]));
            }
            assert(runs[k as int] == self.traces@[k as int].view_of());
            k += 1;
        }
        proof {
            crate::field::lemma_nowhere(runs, test);
        }
        None
    }

    /// One unit seen at a tick.
    fn feed(&mut self, unit: &UnitView, tick: u32)
        ensures
            final(self).runs() == fed_one(old(self).runs(), *unit, tick),
            final(self).swing_made() == old(self).swing_made(),
            final(self).ticks_a_second() == old(self).ticks_a_second(),
            final(self).struck() == old(self).struck(),
            final(self).cycle() == old(self).cycle(),
            final(self).now() == old(self).now(),
            final(self).bitten() == old(self).bitten(),
    {
        let ghost runs = traces_view(self.traces@);
        let ghost test = |t: TraceView| t.id == unit.id;
        let mut k: usize = 0;
        while k < self.traces.len()
            invariant
                k <= self.traces@.len(),
                runs == traces_view(self.traces@),
                test == (|t: TraceView| t.id == unit.id),
                forall|j: int| 0 <= j < k ==> !test(#[trigger] runs[j]),
            ensures
                k <= self.traces@.len(),
                forall|j: int| 0 <= j < k ==> !test(#[trigger] runs[j]),
                k < self.traces@.len() ==> test(runs[k as int]),
            decreases self.traces@.len() - k,
        {
            assert(runs[k as int] == self.traces@[k as int].view_of());
            if self.traces[k].id == unit.id {
                break;
            }
            k += 1;
        }
        let from = tick.saturating_sub(HISTORY_TICKS);
        if k < self.traces.len() {
            proof {
                crate::field::lemma_first_where(runs, test, k as int);
            }
            let old_samples = &self.traces[k].samples;
            let ghost pushed = old_samples@.push((tick, unit.hp));
            let ghost keep = |s: (u32, i32)| s.0 >= from;
            let mut kept: Vec<(u32, i32)> = Vec::new();
            let mut j: usize = 0;
            while j < old_samples.len()
                invariant
                    j <= old_samples@.len(),
                    keep == (|s: (u32, i32)| s.0 >= from),
                    kept@ == old_samples@.take(j as int).filter(keep),
                decreases old_samples@.len() - j,
            {
                proof {
                    assert(old_samples@.take(j as int + 1) =~= old_samples@.take(j as int).push(
                        old_samples@[j as int],
                    ));
                    old_samples@.take(j as int).lemma_filter_push(old_samples@[j as int], keep);
                }
                if old_samples[j].0 >= from {
                    kept.push(old_samples[j]);
                }
                j += 1;
            }
            proof {
                assert(old_samples@.take(old_samples@.len() as int) =~= old_samples@);
                old_samples@.lemma_filter_push((tick, unit.hp), keep);
            }
            kept.push((tick, unit.hp));
            let id = self.traces[k].id;
            let fresh = Trace { id, seen: tick, samples: kept };
            let ghost before = self.traces@;
            self.traces.set(k, fresh);
            proof {
                assert(traces_view(self.traces@) =~= runs.update(
                    k as int,
                    TraceView { id: runs[k as int].id, seen: tick, samples: since(pushed, from) },
                ));
            }
        } else {
            proof {
                crate::field::lemma_nowhere(runs, test);
            }
            let mut samples: Vec<(u32, i32)> = Vec::new();
            samples.push((tick, unit.hp));
            self.traces.push(Trace { id: unit.id, seen: tick, samples });
            proof {
                assert(traces_view(self.traces@) =~= runs.push(
                    TraceView { id: unit.id, seen: tick, samples: seq![(tick, unit.hp)] },
                ));
            }
        }
    }

    /// Takes one snapshot in: the interval between the hero's swings, and
    /// the health of everything in sight, forgetting what has not been seen
    /// lately.
    pub fn watch(&mut self, view: &WorldView, me: Option<&UnitView>)
        ensures
            final(self).now() == view.tick,
            final(self).cycle() == match me {
                Some(u) => u.attack_interval,
                None => old(self).cycle(),
            },
            final(self).runs() == seen_since(
                fed(old(self).runs(), view.units@, view.tick),
                oldest(view.tick, HISTORY_TICKS),
            ),
            final(self).swing_made() == old(self).swing_made(),
            final(self).ticks_a_second() == old(self).ticks_a_second(),
            final(self).struck() == old(self).struck(),
            final(self).bitten() == old(self).bitten(),
    {
        self.tick = view.tick;
        match me {
            Some(me) => {
                self.interval = me.attack_interval;
            },
            None => {},
        }
        let ghost start = traces_view(self.traces@);
        let ghost cycle = self.interval;
        let mut i: usize = 0;
        assert(view.units@.take(0) =~= Seq::<UnitView>::empty());
        while i < view.units.len()
            invariant
                i <= view.units@.len(),
                traces_view(self.traces@) == fed(start, view.units@.take(i as int), view.tick),
                self.tick == view.tick,
                self.interval == cycle,
                self.swing == old(self).swing,
                self.rate == old(self).rate,
                self.struck_at == old(self).struck_at,
                self.struck_by@ == old(self).struck_by@,
            decreases view.units@.len() - i,
        {
            self.feed(&view.units[i], view.tick);
            proof {
                let t = view.units@.take(i as int + 1);
                assert(t.drop_last() =~= view.units@.take(i as int));
                assert(t.last() == view.units@[i as int]);
            }
            i += 1;
        }
        assert(view.units@.take(view.units@.len() as int) =~= view.units@);
        let from = view.tick.saturating_sub(HISTORY_TICKS);
        let ghost all = traces_view(self.traces@);
        let ghost keep = |t: TraceView| t.seen >= from;
        let mut kept: Vec<Trace> = Vec::new();
        let mut j: usize = 0;
        while j < self.traces.len()
            invariant
                j <= self.traces@.len(),
                all == traces_view(self.traces@),
                keep == (|t: TraceView| t.seen >= from),
                traces_view(kept@) == all.take(j as int).filter(keep),
            decreases self.traces@.len() - j,
        {
            proof {
                assert(all.take(j as int + 1) =~= all.take(j as int).push(all[j as int]));
                all.take(j as int).lemma_filter_push(all[j as int], keep);
                assert(all[j as int] == self.traces@[j as int].view_of());
            }
            if self.traces[j].seen >= from {
                let ghost before = kept@;
                kept.push(self.traces[j].clone_trace());
                proof {
                    assert(traces_view(kept@) =~= traces_view(before).push(all[j as int]));
                }
            }
            j += 1;
        }
        assert(all.take(all.len() as int) =~= all);
        self.traces = kept;
    }

    /// Takes one tick's events in: a blow of the hero's own swing marks
    /// where its cycle stands, and a blow on the hero is remembered with who
    /// struck it, for as long as such blows are remembered. Nothing is taken
    /// in while the seat has no body.
    pub fn saw(&mut self, tick: u32, events: &[EventKind], me: Option<EntityId>)
        ensures
            final(self).swing_made() == old(self).swing_made(),
            final(self).ticks_a_second() == old(self).ticks_a_second(),
            final(self).cycle() == old(self).cycle(),
            final(self).now() == old(self).now(),
            final(self).runs() == old(self).runs(),
            match me {
                None => final(self).struck() == old(self).struck() && final(self).bitten() == old(
                    self,
                ).bitten(),
                Some(me) => {
                    &&& final(self).struck() == if exists|k: int|
                        0 <= k < events@.len() && own_swing(#[trigger] events@[k], me) {
                        Some(tick)
                    } else {
                        old(self).struck()
                    }
                    &&& final(self).bitten() == (old(self).bitten() + blows_on(events@, me, tick)).filter(
                        |b: (u32, EntityId)| b.0 >= oldest(tick, BITTEN_TICKS),
                    )
                },
            },
    {
        let me = match me {
            Some(me) => me,
            None => return,
        };
        let ghost start = self.struck_by@;
        let ghost was = self.struck_at;
        let mut i: usize = 0;
        assert(events@.take(0) =~= Seq::<EventKind>::empty());
        while i < events.len()
            invariant
                i <= events@.len(),
                self.struck_by@ == start + blows_on(events@.take(i as int), me, tick),
                self.struck_at == if exists|k: int|
                    0 <= k < i && own_swing(#[trigger] events@[k], me) {
                    Some(tick)
                } else {
                    was
                },
                self.swing == old(self).swing,
                self.rate == old(self).rate,
                self.interval == old(self).interval,
                self.tick == old(self).tick,
                self.traces@ == old(self).traces@,
            decreases events@.len() - i,
        {
            let ghost before = self.struck_by@;
            proof {
                let t = events@.take(i as int + 1);
                assert(t.drop_last() =~= events@.take(i as int));
                assert(t.last() == events@[i as int]);
            }
            match &events[i] {
                EventKind::Damaged { source: Some(source), target, kind, .. } => {
                    if *source == me && *kind == DamageKind::Physical {
                        self.struck_at = Some(tick);
                    }
                    if *target == me {
                        self.struck_by.push((tick, *source));
                        assert(self.struck_by@ =~= before.push((tick, *source)));
                    }
                },
                _ => {},
            }
            proof {
                assert(self.struck_by@ =~= start + blows_on(events@.take(i as int + 1), me, tick));
                if exists|k: int| 0 <= k < i + 1 && own_swing(#[trigger] events@[k], me) {
                    if !own_swing(events@[i as int], me) {
                        let k = choose|k: int| 0 <= k < i + 1 && own_swing(#[trigger] events@[k], me);
                        assert(k < i);
                    }
                }
            }
            i += 1;
        }
        assert(events@.take(events@.len() as int) =~= events@);
        let from = tick.saturating_sub(BITTEN_TICKS);
        let ghost all = self.struck_by@;
        let ghost keep = |b: (u32, EntityId)| b.0 >= from;
        let mut kept: Vec<(u32, EntityId)> = Vec::new();
        let mut j: usize = 0;
        while j < self.struck_by.len()
            invariant
                j <= self.struck_by@.len(),
                all == self.struck_by@,
                keep == (|b: (u32, EntityId)| b.0 >= from),
                kept@ == all.take(j as int).filter(keep),
            decreases self.struck_by@.len() - j,
        {
            proof {
                assert(all.take(j as int + 1) =~= all.take(j as int).push(all[j as int]));
                all.take(j as int).lemma_filter_push(all[j as int], keep);
            }
            if self.struck_by[j].0 >= from {
                kept.push(self.struck_by[j]);
            }
            j += 1;
        }
        assert(all.take(all.len() as int) =~= all);
        self.struck_by = kept;
    }
}

} // verus!
