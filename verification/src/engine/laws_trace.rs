//! What the trace of a replay tells.
use crate::engine::clock::advance;
use crate::engine::laws::{at_once, forward, in_order, keeps, none_before, orders_keep};
use crate::engine::laws_calm::{load, rounds, starts};
use crate::engine::laws_rest::{events, events_run_down, fatigue, teams, whole};
use crate::engine::laws_time::{
    advance_keeps, events_keep, order_keeps, replay_keeps, start_in_order,
};
use crate::engine::model as m;
use crate::engine::model::EngineV;
use crate::engine::orders::submit;
use crate::engine::setup::started;
use crate::replay::{
    drain, due_before, play_from, play_one, side_named, snap, trace_of, CommandEntry, SnapshotV,
};
use crate::rules::{Rules, Tables};
use crate::time::Tick;
use crate::types::{GameMap, Scenario};
use vstd::prelude::*;

verus! {

/// Whether a match goes forward: its events are in order, none of them is gone by, and no duration
/// of its rules runs backwards.
pub open spec fn on_time(e: EngineV) -> bool {
    in_order(e.queue) && none_before(e.queue, e.clock) && forward(e.rules)
}

/// The next event moves the clock to its tick, never back.
pub proof fn clock_goes_forward(e: EngineV)
    requires
        on_time(e),
        e.queue.len() > 0,
    ensures
        on_time(advance(e)),
        advance(e).clock == e.queue[0].t,
        advance(e).clock >= e.clock,
        advance(e).rules == e.rules,
{
    let first = e.queue[0];
    let p = EngineV { clock: first.t, queue: e.queue.drop_first(), ..e };
    advance_keeps(e);
    events_keep(p, first.event);
    assert forall|i: int| 0 <= i < p.queue.len() implies (#[trigger] p.queue[i]).t >= p.clock by {
        assert(p.queue[i] == e.queue[i + 1]);
        assert(!m::sooner(e.queue[i + 1], e.queue[0]));
    }
    assert(in_order(p.queue)) by {
        assert forall|i: int, j: int| 0 <= i < j < p.queue.len() implies !m::sooner(
            #[trigger] p.queue[j],
            #[trigger] p.queue[i],
        ) by {
            assert(!m::sooner(e.queue[j + 1], e.queue[i + 1]));
        }
    }
    reveal(at_once);
    reveal(keeps);
}

/// An order of this or a later tick leaves the match going forward.
pub proof fn orders_go_forward(e: EngineV, side: crate::types::SideId, cmd: crate::json::Json, t: Tick)
    requires
        on_time(e),
        e.clock <= t,
    ensures
        on_time(submit(e, side, cmd, t).0),
        submit(e, side, cmd, t).0.clock == e.clock,
        submit(e, side, cmd, t).0.rules == e.rules,
{
    orders_keep(e, side, cmd, t);
    reveal(at_once);
    reveal(keeps);
}

// ---------- snapshots ----------

/// The state after `n` events.
pub open spec fn after(e: EngineV, n: nat) -> EngineV
    decreases n,
{
    if n == 0 {
        e
    } else {
        after(advance(e), (n - 1) as nat)
    }
}

/// Whether snapshots follow each other in time, from tick `a` to tick `b`.
pub open spec fn in_time(trace: Seq<SnapshotV>, a: Tick, b: Tick) -> bool {
    &&& a <= b
    &&& forall|i: int| 0 <= i < trace.len() ==> a <= (#[trigger] trace[i]).t <= b
    &&& forall|i: int, j: int|
        0 <= i < j < trace.len() ==> (#[trigger] trace[i]).t <= (#[trigger] trace[j]).t
}

proof fn in_time_joined(s: Seq<SnapshotV>, t: Seq<SnapshotV>, a: Tick, b: Tick, c: Tick)
    requires
        in_time(s, a, b),
        in_time(t, b, c),
    ensures
        in_time(s + t, a, c),
{
    let r = s + t;
    assert forall|i: int| 0 <= i < r.len() implies a <= (#[trigger] r[i]).t <= c by {
        if i < s.len() {
            assert(r[i] == s[i]);
        } else {
            assert(r[i] == t[i - s.len()]);
        }
    }
    assert forall|i: int, j: int| 0 <= i < j < r.len() implies (#[trigger] r[i]).t
        <= (#[trigger] r[j]).t by {
        if j < s.len() {
            assert(r[i] == s[i] && r[j] == s[j]);
        } else if i < s.len() {
            assert(r[i] == s[i] && r[j] == t[j - s.len()]);
        } else {
            assert(r[i] == t[i - s.len()] && r[j] == t[j - s.len()]);
        }
    }
}

/// Every event has its snapshot: snapshot `i` shows the state after event `i`, and no event before
/// the limit is left out.
pub proof fn every_event_has_its_snapshot(e: EngineV, limit: Option<Tick>)
    requires
        e.units.dom().finite(),
    ensures
        ({
            let (e1, trace) = drain(e, limit);
            &&& e1 == after(e, trace.len())
            &&& forall|i: int|
                0 <= i < trace.len() ==> #[trigger] trace[i] == snap(after(e, (i + 1) as nat))
            &&& !due_before(e1, limit)
        }),
    decreases
            load(e.queue, starts()),
            whole(e.units, teams()),
            load(e.queue, rounds(e.same_hex)),
            whole(e.units, fatigue()),
            load(e.queue, events()),
{
    let (e1, trace) = drain(e, limit);
    if due_before(e, limit) {
        let a = advance(e);
        events_run_down(e);
        every_event_has_its_snapshot(a, limit);
        let rest = drain(a, limit).1;
        assert(trace == seq![snap(a)] + rest);
        assert forall|i: int| 0 <= i < trace.len() implies #[trigger] trace[i] == snap(
            after(e, (i + 1) as nat),
        ) by {
            if i > 0 {
                assert(trace[i] == rest[i - 1]);
                assert(after(e, (i + 1) as nat) == after(a, i as nat));
            } else {
                assert(after(e, 1) == after(a, 0));
            }
        }
        assert(after(e, trace.len()) == after(a, rest.len()));
    }
}

/// The events before a limit happen one after the other, and each before the limit.
pub proof fn events_come_in_time(e: EngineV, limit: Option<Tick>)
    requires
        on_time(e),
        e.units.dom().finite(),
    ensures
        ({
            let (e1, trace) = drain(e, limit);
            &&& on_time(e1)
            &&& e1.rules == e.rules
            &&& in_time(trace, e.clock, e1.clock)
            &&& forall|i: int|
                0 <= i < trace.len() ==> match limit {
                    Some(end) => (#[trigger] trace[i]).t < end,
                    None => true,
                }
            &&& e1.clock == e.clock || match limit {
                Some(end) => e1.clock < end,
                None => true,
            }
        }),
    decreases
            load(e.queue, starts()),
            whole(e.units, teams()),
            load(e.queue, rounds(e.same_hex)),
            whole(e.units, fatigue()),
            load(e.queue, events()),
{
    if due_before(e, limit) {
        let a = advance(e);
        clock_goes_forward(e);
        events_run_down(e);
        events_come_in_time(a, limit);
        let (e1, rest) = drain(a, limit);
        assert(in_time(seq![snap(a)], e.clock, a.clock));
        in_time_joined(seq![snap(a)], rest, e.clock, a.clock, e1.clock);
        let trace = seq![snap(a)] + rest;
        assert forall|i: int| 0 <= i < trace.len() implies match limit {
            Some(end) => (#[trigger] trace[i]).t < end,
            None => true,
        } by {
            if i > 0 {
                assert(trace[i] == rest[i - 1]);
            }
        }
    }
}

// ---------- orders ----------

/// An order at a tick comes after every event that is due before the tick, and before every event
/// that is due at the tick or later; and it has one snapshot, the last.
pub proof fn orders_come_between_events(e: EngineV, c: CommandEntry)
    requires
        on_time(e),
        e.units.dom().finite(),
        e.clock <= c.t,
        play_one(e, c) is Ok,
    ensures
        ({
            let (e1, before) = drain(e, Some(c.t));
            let e2 = EngineV { clock: c.t, ..e1 };
            let e3 = submit(e2, side_named(c.side@)->Ok_0, c.command, c.t).0;
            &&& forall|i: int| 0 <= i < before.len() ==> (#[trigger] before[i]).t < c.t
            &&& none_before(e2.queue, c.t)
            &&& play_one(e, c)->Ok_0.0 == e3
            &&& play_one(e, c)->Ok_0.1 == before.push(snap(e3))
            &&& snap(e3).t == c.t
        }),
{
    reveal(play_one);
    let (e1, before) = drain(e, Some(c.t));
    events_come_in_time(e, Some(c.t));
    every_event_has_its_snapshot(e, Some(c.t));
    let e2 = EngineV { clock: c.t, ..e1 };
    let side = side_named(c.side@)->Ok_0;
    orders_keep(e2, side, c.command, c.t);
    assert(submit(e2, side, c.command, c.t).0.clock == c.t) by {
        reveal(at_once);
    }
    assert(!due_before(e1, Some(c.t)));
    assert forall|i: int| 0 <= i < e2.queue.len() implies (#[trigger] e2.queue[i]).t >= c.t by {
        if i > 0 {
            assert(!m::sooner(e1.queue[i], e1.queue[0]));
        }
    }
}

/// The events that happen while the orders from place `i` on are given.
pub open spec fn events_among(e: EngineV, commands: Seq<CommandEntry>, i: int) -> nat
    decreases commands.len() - i,
{
    if i < 0 || i >= commands.len() {
        0
    } else {
        drain(e, Some(commands[i].t)).1.len() + match play_one(e, commands[i]) {
            Ok((e1, _)) => events_among(e1, commands, i + 1),
            Err(_) => 0,
        }
    }
}

proof fn orders_come_in_time(e: EngineV, commands: Seq<CommandEntry>, i: int)
    requires
        on_time(e),
        0 <= i <= commands.len(),
        i < commands.len() ==> e.clock <= commands[i].t,
        forall|j: int, k: int|
            0 <= j < k < commands.len() ==> (#[trigger] commands[j]).t <= (#[trigger] commands[k]).t,
        e.units.dom().finite(),
        play_from(e, commands, i) is Ok,
    ensures
        ({
            let (e1, trace) = play_from(e, commands, i)->Ok_0;
            &&& on_time(e1)
            &&& in_time(trace, e.clock, e1.clock)
            &&& trace.len() == commands.len() - i + events_among(e, commands, i)
        }),
    decreases commands.len() - i,
{
    if i < commands.len() {
        let c = commands[i];
        orders_come_between_events(e, c);
        order_keeps(e, c);
        events_come_in_time(e, Some(c.t));
        let (e1, before) = drain(e, Some(c.t));
        let e2 = EngineV { clock: c.t, ..e1 };
        orders_go_forward(e2, side_named(c.side@)->Ok_0, c.command, c.t);
        let (e3, first) = play_one(e, c)->Ok_0;
        assert(in_time(seq![snap(e3)], e1.clock, c.t));
        in_time_joined(before, seq![snap(e3)], e.clock, e1.clock, c.t);
        assert(before + seq![snap(e3)] =~= first);
        if i + 1 < commands.len() {
            assert(commands[i].t <= commands[i + 1].t);
        }
        orders_come_in_time(e3, commands, i + 1);
        let (e4, rest) = play_from(e3, commands, i + 1)->Ok_0;
        in_time_joined(first, rest, e.clock, c.t, e4.clock);
    }
}

/// The trace of a replay whose orders are in order of time, under rules whose durations do not run
/// backwards, goes forward in time, and has one snapshot for every order and one for every event.
pub proof fn traces_go_forward(
    seed: u64,
    commands: Seq<CommandEntry>,
    map: GameMap,
    scenario: Scenario,
    rules: Rules,
    tables: Tables,
)
    requires
        trace_of(seed, commands, map, scenario, rules, tables) is Ok,
        forward(rules),
        forall|i: int| 0 <= i < commands.len() ==> (#[trigger] commands[i]).t >= 0,
        forall|j: int, k: int|
            0 <= j < k < commands.len() ==> (#[trigger] commands[j]).t <= (#[trigger] commands[k]).t,
    ensures
        ({
            let trace = trace_of(seed, commands, map, scenario, rules, tables)->Ok_0;
            let e = started(map, scenario, rules, tables, seed);
            let last = play_from(e, commands, 0)->Ok_0.0;
            &&& forall|i: int, j: int|
                0 <= i < j < trace.len() ==> (#[trigger] trace[i]).t <= (#[trigger] trace[j]).t
            &&& trace.len() == commands.len() + events_among(e, commands, 0) + drain(last, None).1.len()
        }),
{
    let e = started(map, scenario, rules, tables, seed);
    start_in_order(map, scenario, rules, tables, seed);
    assert(e.rules == rules) by {
        reveal(keeps);
    }
    orders_come_in_time(e, commands, 0);
    replay_keeps(e, commands, 0);
    let (e1, first) = play_from(e, commands, 0)->Ok_0;
    assert(e1.units.dom().finite()) by {
        reveal(keeps);
    }
    events_come_in_time(e1, None);
    let (e2, rest) = drain(e1, None);
    in_time_joined(first, rest, e.clock, e1.clock, e2.clock);
}

/// The sides by name; any other name is no side.
pub proof fn which_side_a_name_is()
    ensures
        side_named("red"@) == Ok::<crate::types::SideId, crate::error::ErrV>(
            crate::types::SideId::Red,
        ),
        side_named("blue"@) == Ok::<crate::types::SideId, crate::error::ErrV>(
            crate::types::SideId::Blue,
        ),
        side_named("green"@) is Err,
{
    reveal_strlit("red");
    reveal_strlit("blue");
    reveal_strlit("green");
    assert("red"@.len() == 3 && "blue"@.len() == 4 && "green"@.len() == 5);
}

} // verus!
