//! Replays: the seed and the orders of a match, which reproduce it.
use crate::engine::clock::advance;
use crate::engine::laws_calm::{load, rounds, starts};
use crate::engine::laws_rest::{events, events_run_down, fatigue, teams, whole};
use crate::engine::model::EngineV;
use crate::engine::orders::submit;
use crate::engine::setup::{setup_error, started};
use crate::engine::Engine;
use crate::error::{command2, EngineError, ErrV};
use crate::json::Json;
use crate::ordmap::{views, Dup, OrdMap};
use crate::rules::{Rules, Tables};
use crate::text::{debug_quoted, quoted, str_eq};
use crate::time::Tick;
use crate::types::{GameMap, Scenario, SideId, State, StateV};
use vstd::prelude::*;
use vstd::string::*;

verus! {

#[derive(Debug, Clone)]
pub struct Header {
    pub format: String,
    pub version: u32,
    pub red_name: String,
    pub blue_name: String,
    pub map_file: String,
    pub scenario_file: String,
    pub rules_file: Option<String>,
    pub seed: u64,
    pub engine_version: Option<String>,
    pub rules_version: Option<u32>,
    pub created_at: Option<String>,
    /// How long the match lasted, in ticks.
    pub duration: Option<Tick>,
    pub result: Option<MatchResult>,
}

#[derive(Debug, Clone)]
pub struct MatchResult {
    pub winner: String,
    pub reason: Option<String>,
}

/// An order, with the tick and the side that gave it.
#[derive(Debug)]
pub struct CommandEntry {
    pub t: Tick,
    pub side: String,
    pub command: Json,
}

/// The state of a match at a tick.
pub struct Snapshot {
    pub t: Tick,
    pub state: State,
}

/// A snapshot in contracts.
pub struct SnapshotV {
    pub t: Tick,
    pub state: StateV,
}

impl View for Snapshot {
    type V = SnapshotV;

    open spec fn view(&self) -> SnapshotV {
        SnapshotV { t: self.t, state: self.state@ }
    }
}

/// Something that happened, for a viewer.
pub struct EventLog {
    pub t: Tick,
    pub kind: String,
    pub extra: OrdMap<String, Json>,
}

/// A recorded match. The seed and the orders suffice to run it again.
pub struct Replay {
    pub header: Header,
    pub commands: Vec<CommandEntry>,
    pub snapshots: Vec<Snapshot>,
    pub events: Vec<EventLog>,
}

/// What is recorded during a match.
pub struct Recorder {
    pub header: Header,
    pub commands: Vec<CommandEntry>,
    pub snapshots: Vec<Snapshot>,
    pub events: Vec<EventLog>,
}

impl Recorder {
    pub fn new(header: Header) -> (r: Self)
        ensures
            r.header == header,
            r.commands@.len() == 0,
            r.snapshots@.len() == 0,
            r.events@.len() == 0,
    {
        Recorder { header, commands: Vec::new(), snapshots: Vec::new(), events: Vec::new() }
    }

    /// Adds an order.
    pub fn record_command(&mut self, t: Tick, side: &str, command: Json)
        ensures
            final(self).header == old(self).header,
            final(self).snapshots == old(self).snapshots,
            final(self).events == old(self).events,
            final(self).commands@.len() == old(self).commands@.len() + 1,
            final(self).commands@.drop_last() == old(self).commands@,
            final(self).commands@.last().t == t,
            final(self).commands@.last().side@ == side@,
            final(self).commands@.last().command == command,
    {
        self.commands.push(CommandEntry { t, side: side.to_owned(), command });
        proof {
            assert(self.commands@.drop_last() =~= old(self).commands@);
        }
    }

    /// Adds a snapshot.
    pub fn snapshot(&mut self, t: Tick, state: State)
        ensures
            final(self).header == old(self).header,
            final(self).commands == old(self).commands,
            final(self).events == old(self).events,
            final(self).snapshots@ == old(self).snapshots@.push(Snapshot { t, state }),
    {
        self.snapshots.push(Snapshot { t, state });
    }

    /// The replay of what was recorded.
    pub fn finish(self) -> (r: Replay)
        ensures
            r.header == self.header,
            r.commands == self.commands,
            r.snapshots == self.snapshots,
            r.events == self.events,
    {
        Replay {
            header: self.header,
            commands: self.commands,
            snapshots: self.snapshots,
            events: self.events,
        }
    }
}

/// The side that a name stands for.
pub open spec fn side_named(s: Seq<char>) -> Result<SideId, ErrV> {
    if s == "red"@ {
        Ok(SideId::Red)
    } else if s == "blue"@ {
        Ok(SideId::Blue)
    } else {
        Err(EngineError::Command("unknown side "@ + debug_quoted(s)))
    }
}

/// The side that a name stands for.
pub fn side_from_str(s: &str) -> (r: Result<SideId, EngineError>)
    ensures
        crate::error::res(r) == side_named(s@),
{
    if str_eq(s, "red") {
        Ok(SideId::Red)
    } else if str_eq(s, "blue") {
        Ok(SideId::Blue)
    } else {
        Err(command2("unknown side ", quoted(s).as_str()))
    }
}

/// The snapshot of a state.
pub open spec fn snap(e: EngineV) -> SnapshotV {
    SnapshotV {
        t: e.clock,
        state: StateV {
            clock: e.clock,
            units: e.units,
            control: e.control,
            facilities: e.facilities,
            minefields: e.minefields,
        },
    }
}

/// Whether the next event comes before a limit, where there is one.
pub open spec fn due_before(e: EngineV, limit: Option<Tick>) -> bool {
    e.queue.len() > 0 && match limit {
        Some(t) => e.queue[0].t < t,
        None => true,
    }
}

/// The events before a limit happen, until none is left; with a snapshot after each. Every match
/// comes to rest, so this ends.
pub open spec fn drain(e: EngineV, limit: Option<Tick>) -> (EngineV, Seq<SnapshotV>)
    decreases
            load(e.queue, starts()),
            whole(e.units, teams()),
            load(e.queue, rounds(e.same_hex)),
            whole(e.units, fatigue()),
            load(e.queue, events()),
    when e.units.dom().finite()
    via drain_ends
{
    if !due_before(e, limit) {
        (e, Seq::empty())
    } else {
        let e1 = advance(e);
        let rest = drain(e1, limit);
        (rest.0, seq![snap(e1)] + rest.1)
    }
}

#[via_fn]
proof fn drain_ends(e: EngineV, limit: Option<Tick>) {
    if e.queue.len() > 0 {
        events_run_down(e);
    }
}

/// An order is given: the events before its tick happen, the clock goes to its tick, and a snapshot
/// follows the order.
#[verifier::opaque]
pub open spec fn play_one(e: EngineV, c: CommandEntry) -> Result<(EngineV, Seq<SnapshotV>), ErrV> {
    let (e1, before) = drain(e, Some(c.t));
    let e2 = EngineV {
        clock: if c.t > e1.clock {
            c.t
        } else {
            e1.clock
        },
        ..e1
    };
    match side_named(c.side@) {
        Err(x) => Err(x),
        Ok(side) => match submit(e2, side, c.command, c.t) {
            (_, Err(x)) => Err(x),
            (e3, Ok(_)) => Ok((e3, before.push(snap(e3)))),
        },
    }
}

/// The orders from place `i` on are given in turn. A refused order ends the replay.
pub open spec fn play_from(e: EngineV, commands: Seq<CommandEntry>, i: int) -> Result<
    (EngineV, Seq<SnapshotV>),
    ErrV,
>
    decreases commands.len() - i,
{
    if i < 0 || i >= commands.len() {
        Ok((e, Seq::empty()))
    } else {
        match play_one(e, commands[i]) {
            Err(x) => Err(x),
            Ok((e1, first)) => match play_from(e1, commands, i + 1) {
                Err(x) => Err(x),
                Ok((e2, rest)) => Ok((e2, first + rest)),
            },
        }
    }
}

/// The trace of a replay: the match is begun from its seed, the orders are given, and the events
/// that are left happen.
pub open spec fn trace_of(
    seed: u64,
    commands: Seq<CommandEntry>,
    map: GameMap,
    scenario: Scenario,
    rules: Rules,
    tables: Tables,
) -> Result<Seq<SnapshotV>, ErrV> {
    match setup_error(map, scenario, rules) {
        Some(x) => Err(x),
        None => match play_from(started(map, scenario, rules, tables, seed), commands, 0) {
            Err(x) => Err(x),
            Ok((e, trace)) => Ok(trace + drain(e, None).1),
        },
    }
}

/// The snapshot of an engine.
pub fn snapshot_at(engine: &Engine) -> (r: Snapshot)
    ensures
        r@ == snap(engine@),
{
    Snapshot { t: engine.clock(), state: engine.snapshot() }
}

fn drain_events(engine: &mut Engine, limit: Option<Tick>, trace: &mut Vec<Snapshot>)
    ensures
        ({
            let d = drain(old(engine)@, limit);
            final(engine)@ == d.0 && views(final(trace)@) == views(old(trace)@) + d.1
        }),
{
    let ghost e0 = engine@;
    let ghost start = views(trace@);
    let ghost end = drain(e0, limit);
    proof {
        assert(start + end.1 =~= views(trace@) + end.1);
    }
    loop
        invariant
            end == drain(e0, limit),
            drain(engine@, limit).0 == end.0,
            views(trace@) + drain(engine@, limit).1 == start + end.1,
        ensures
            engine@ == end.0,
            views(trace@) == start + end.1,
        decreases
            load(engine@.queue, starts()),
            whole(engine@.units, teams()),
            load(engine@.queue, rounds(engine@.same_hex)),
            whole(engine@.units, fatigue()),
            load(engine@.queue, events()),
    {
        proof {
            engine.state.units.finite();
        }
        let due: bool = match engine.peek_next_event_time() {
            Some(t) => match limit {
                Some(end) => t < end,
                None => true,
            },
            None => false,
        };
        if !due {
            proof {
                assert(views(trace@) + Seq::<SnapshotV>::empty() =~= views(trace@));
            }
            break;
        }
        let ghost was = views(trace@);
        let ghost rest = drain(advance(engine@), limit).1;
        proof {
            events_run_down(engine@);
        }
        let _ = engine.advance_to_next_event();
        let s: Snapshot = snapshot_at(engine);
        trace.push(s);
        proof {
            assert(views(trace@) =~= was.push(s@));
            assert(was + (seq![s@] + rest) =~= views(trace@) + rest);
        }
    }
}

fn give_order(engine: &mut Engine, c: &CommandEntry, trace: &mut Vec<Snapshot>) -> (r: Result<
    (),
    EngineError,
>)
    ensures
        match play_one(old(engine)@, *c) {
            Ok((e, shots)) => r is Ok && final(engine)@ == e && views(final(trace)@) == views(
                old(trace)@,
            ) + shots,
            Err(x) => r is Err && r->Err_0@ == x,
        },
{
    proof {
        reveal(play_one);
    }
    let ghost was = views(trace@);
    let ghost before = drain(engine@, Some(c.t)).1;
    drain_events(engine, Some(c.t), trace);
    engine.advance_clock_to(c.t);
    let side: SideId = match side_from_str(c.side.as_str()) {
        Ok(s) => s,
        Err(x) => return Err(x),
    };
    match engine.submit(side, &c.command, c.t) {
        Ok(_) => {},
        Err(x) => return Err(x),
    }
    let s: Snapshot = snapshot_at(engine);
    let ghost mid = views(trace@);
    trace.push(s);
    proof {
        assert(views(trace@) =~= mid.push(s@));
        assert(was + before.push(s@) =~= views(trace@));
    }
    Ok(())
}

/// Runs a replay on a fresh engine and gives back its trace. The same replay on the same board gives
/// the same trace.
pub fn play(
    replay: &Replay,
    map: GameMap,
    scenario: Scenario,
    rules: Rules,
    tables: Tables,
) -> (r: Result<Vec<Snapshot>, EngineError>)
    ensures
        match trace_of(replay.header.seed, replay.commands@, map, scenario, rules, tables) {
            Ok(trace) => r is Ok && views(r->Ok_0@) == trace,
            Err(x) => r is Err && r->Err_0@ == x,
        },
{
    let mut engine: Engine = match Engine::new(map, scenario, rules, tables, replay.header.seed) {
        Ok(e) => e,
        Err(x) => return Err(x),
    };
    let ghost e0 = engine@;
    let ghost whole = play_from(e0, replay.commands@, 0);
    let mut trace: Vec<Snapshot> = Vec::new();
    let mut i: usize = 0;
    proof {
        assert(views(trace@) =~= Seq::<SnapshotV>::empty());
    }
    while i < replay.commands.len()
        invariant
            i <= replay.commands@.len(),
            whole == play_from(e0, replay.commands@, 0),
            setup_error(map, scenario, rules) is None,
            e0 == started(map, scenario, rules, tables, replay.header.seed),
            match play_from(engine@, replay.commands@, i as int) {
                Ok((e, rest)) => whole == Ok::<(EngineV, Seq<SnapshotV>), ErrV>(
                    (e, views(trace@) + rest),
                ),
                Err(x) => whole == Err::<(EngineV, Seq<SnapshotV>), ErrV>(x),
            },
        decreases replay.commands@.len() - i,
    {
        let ghost was = views(trace@);
        let ghost now = engine@;
        match give_order(&mut engine, &replay.commands[i], &mut trace) {
            Ok(_) => {},
            Err(x) => return Err(x),
        }
        proof {
            let first = play_one(now, replay.commands@[i as int])->Ok_0.1;
            match play_from(engine@, replay.commands@, i + 1) {
                Ok((e, rest)) => {
                    assert(was + (first + rest) =~= views(trace@) + rest);
                },
                Err(x) => {},
            }
        }
        i += 1;
    }
    proof {
        assert(views(trace@) + Seq::<SnapshotV>::empty() =~= views(trace@));
    }
    drain_events(&mut engine, None, &mut trace);
    Ok(trace)
}

} // verus!
