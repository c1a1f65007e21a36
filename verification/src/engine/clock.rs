//! The passing of time.
use crate::combat;
use crate::combat::OutcomeRecord;
use crate::engine::events::handle;
use crate::engine::laws_calm::{load, rounds, starts};
use crate::engine::laws_rest::{events, events_run_down, fatigue, teams, whole};
use crate::engine::model::{EngineV, Timed};
use crate::engine::Engine;
use crate::hex::Axial;
use crate::ordmap::{views, Dup};
use crate::rng::{die, PcgRng, Rng};
use crate::rules::at;
use crate::time::{later, tick_sum, Tick};
use crate::types::{State, StateV};
use vstd::prelude::*;

verus! {

/// The clock goes to the first event to come, and the event happens.
pub open spec fn advance(e: EngineV) -> EngineV {
    let first = e.queue[0];
    handle(EngineV { clock: first.t, queue: e.queue.drop_first(), ..e }, first.event)
}

/// The events that are due by `target` happen one after the other, until none is left. Every match
/// comes to rest, so this ends.
pub open spec fn run_until(e: EngineV, target: Tick) -> EngineV
    decreases
            load(e.queue, starts()),
            whole(e.units, teams()),
            load(e.queue, rounds(e.same_hex)),
            whole(e.units, fatigue()),
            load(e.queue, events()),
    when e.units.dom().finite()
    via run_until_ends
{
    if e.queue.len() == 0 || e.queue[0].t > target {
        e
    } else {
        run_until(advance(e), target)
    }
}

#[via_fn]
proof fn run_until_ends(e: EngineV, target: Tick) {
    if e.queue.len() > 0 {
        events_run_down(e);
    }
}

/// `dt` ticks pass.
pub open spec fn step(e: EngineV, dt: Tick) -> EngineV {
    let target = tick_sum(e.clock, dt);
    EngineV { clock: target, ..run_until(e, target) }
}

impl Engine {
    fn pop(&mut self) -> (r: Timed)
        requires
            old(self)@.queue.len() > 0,
        ensures
            r@ == old(self)@.queue[0],
            final(self).became(
                old(self),
                EngineV {
                    clock: old(self)@.queue[0].t,
                    queue: old(self)@.queue.drop_first(),
                    ..old(self)@
                },
            ),
    {
        let ghost q = self.queue@;
        let ev: Timed = self.queue.remove(0);
        proof {
            assert(views(self.queue@) =~= views(q).drop_first());
            assert(views(q)[0] == q[0]@);
        }
        self.state.clock = ev.t;
        ev
    }

    fn next_due(&self) -> (r: Option<Tick>)
        ensures
            match r {
                Some(t) => self@.queue.len() > 0 && t == self@.queue[0].t,
                None => self@.queue.len() == 0,
            },
    {
        if self.queue.len() == 0 {
            proof {
                assert(views(self.queue@).len() == 0);
            }
            None
        } else {
            proof {
                assert(views(self.queue@)[0] == self.queue@[0]@);
            }
            Some(self.queue[0].t)
        }
    }

    /// Lets `dt` ticks pass: every event that comes due happens, and the clock ends `dt` later.
    pub fn step(&mut self, dt: Tick)
        ensures
            final(self).became(old(self), step(old(self)@, dt)),
    {
        let target: Tick = later(self.state.clock, dt);
        let ghost end = run_until(self@, target);
        loop
            invariant
                end == run_until(old(self)@, target),
                run_until(self@, target) == end,
                self.recording() == old(self).recording(),
            ensures
                self@ == end,
                self.recording() == old(self).recording(),
            decreases
                load(self@.queue, starts()),
                whole(self@.units, teams()),
                load(self@.queue, rounds(self@.same_hex)),
                whole(self@.units, fatigue()),
                load(self@.queue, events()),
        {
            proof {
                self.state.units.finite();
            }
            let due: bool = match self.next_due() {
                Some(t) => t <= target,
                None => false,
            };
            if !due {
                break;
            }
            proof {
                events_run_down(self@);
            }
            let ev: Timed = self.pop();
            self.handle(ev.event);
        }
        self.state.clock = target;
    }

    /// Goes to the next event and lets it happen; gives back its tick.
    pub fn advance_to_next_event(&mut self) -> (r: Option<Tick>)
        ensures
            match r {
                Some(t) => old(self)@.queue.len() > 0 && t == old(self)@.queue[0].t
                    && final(self).became(old(self), advance(old(self)@)),
                None => old(self)@.queue.len() == 0 && final(self).became(old(self), old(self)@),
            },
    {
        match self.next_due() {
            Some(t) => {
                let ev: Timed = self.pop();
                self.handle(ev.event);
                Some(t)
            },
            None => None,
        }
    }

    /// The tick of the next event.
    pub fn peek_next_event_time(&self) -> (r: Option<Tick>)
        ensures
            match r {
                Some(t) => self@.queue.len() > 0 && t == self@.queue[0].t,
                None => self@.queue.len() == 0,
            },
    {
        self.next_due()
    }

    /// The clock.
    pub fn clock(&self) -> (r: Tick)
        ensures
            r == self@.clock,
    {
        self.state.clock
    }

    /// Moves the clock forward to `t` without letting anything happen. It never goes back.
    pub fn advance_clock_to(&mut self, t: Tick)
        ensures
            final(self).became(
                old(self),
                EngineV {
                    clock: if t > old(self)@.clock {
                        t
                    } else {
                        old(self)@.clock
                    },
                    ..old(self)@
                },
            ),
            final(self)@.clock >= old(self)@.clock,
    {
        if t > self.state.clock {
            self.state.clock = t;
        }
    }

    /// One die of the engine's generator.
    pub fn roll_d6(&mut self) -> (r: u32)
        ensures
            ({
                let d = die::<PcgRng>(old(self)@.rng);
                r == d.0 && final(self).became(old(self), EngineV { rng: d.1, ..old(self)@ })
            }),
            1 <= r <= 6,
    {
        self.rng.d6()
    }

    /// Where a unit is.
    pub fn pos_of(&self, unit: &str) -> (r: Option<Axial>)
        ensures
            r == (match at(self@.units, unit@) {
                Some(u) => Some(u.pos),
                None => None,
            }),
    {
        match self.state.units.get(&unit.to_owned()) {
            Some(u) => Some(u.pos),
            None => None,
        }
    }

    /// A copy of the whole state.
    pub fn snapshot(&self) -> (r: State)
        ensures
            r@ == (StateV {
                clock: self@.clock,
                units: self@.units,
                control: self@.control,
                facilities: self@.facilities,
                minefields: self@.minefields,
            }),
    {
        self.state.dup()
    }

    // ---------- telemetry ----------

    /// Starts recording adjudications; the match goes on the same.
    pub fn enable_outcome_log(&mut self)
        ensures
            final(self)@ == old(self)@,
            final(self).recording() == Some(old(self)@.shots.len()),
    {
        combat::outcome_log_enable(&mut self.log);
    }

    /// Stops recording adjudications; the match goes on the same.
    pub fn disable_outcome_log(&mut self)
        ensures
            final(self)@ == old(self)@,
            final(self).recording() is None,
    {
        combat::outcome_log_disable(&mut self.log);
    }

    /// Takes out the adjudications recorded since the last time, and goes on recording. The match
    /// goes on the same.
    pub fn drain_outcome_log(&mut self) -> (r: Vec<OutcomeRecord>)
        ensures
            final(self)@ == old(self)@,
            match old(self).recording() {
                Some(since) => views(r@) == old(self)@.shots.skip(since as int)
                    && final(self).recording() == Some(old(self)@.shots.len()),
                None => r@.len() == 0 && final(self).recording() is None,
            },
    {
        combat::outcome_log_drain(&mut self.log)
    }
}

} // verus!
