//! Every match comes to rest: without new orders its events run out.
use crate::combat::pick_target;
use crate::engine::clock::advance;
use crate::engine::events::{arrive, handle, hidden_at, meet_mines, meet_salvos, step_onto, uncover_f};
use crate::engine::laws::{keeps, round_due};
use crate::engine::laws_calm::{
    calm, calm_aside, calm_attack_turn, calm_attack_turns, calm_end_suppression,
    calm_finish_altitude, calm_finish_change, calm_finish_enter, calm_finish_launch,
    calm_finish_lay, calm_finish_mount, calm_finish_spinup, calm_meet_mines, calm_meet_salvos,
    calm_quiet, calm_rest, calm_self, calm_self_destruct, calm_set_weapon, calm_settle,
    calm_uncover, load, load_enqueue, load_less, load_pop, quiet, quiet_both, quiet_each,
    quiet_finish_agg, quiet_finish_exit, quiet_salvo_arrives, quiet_self, quiet_step_onto,
    quiet_trigger, rounds, starts, tired,
};
use crate::engine::laws_stacks::mover_is_there;
use crate::engine::laws_time::{advance_keeps, drain_keeps};
use crate::engine::model as m;
use crate::engine::model::{EngineV, Event, EventV, Id, SameHexState, SAME_HEX_MAX_DRY_ROUNDS};
use crate::engine::moves::{plan_hop, step_ticks};
use crate::hex::{distance_symmetric, hex_distance, line_hex, line_steps, Axial};
use crate::ordmap::{keys_listed, keys_where, sorted_keys};
use crate::replay::drain;
use crate::rng::PcgRng;
use crate::rules::{at, timing_of};
use crate::time::{next_of, tick_sum, Tick};
use crate::types::{UnitV, WeaponState};
use vstd::prelude::*;

verus! {

// ---------- sums over units ----------

/// What the units under several ids come to together.
pub open spec fn total(units: Map<Id, UnitV>, ids: Seq<Id>, f: spec_fn(UnitV) -> nat) -> nat
    decreases ids.len(),
{
    if ids.len() == 0 {
        0
    } else {
        total(units, ids.drop_last(), f) + match at(units, ids.last()) {
            Some(u) => f(u),
            None => 0,
        }
    }
}

/// What all units come to together.
pub open spec fn whole(units: Map<Id, UnitV>, f: spec_fn(UnitV) -> nat) -> nat {
    total(units, sorted_keys::<String>(units.dom()), f)
}

pub open spec fn teams() -> spec_fn(UnitV) -> nat {
    |u: UnitV| u.teams as nat
}

pub open spec fn fatigue() -> spec_fn(UnitV) -> nat {
    |u: UnitV| tired(u)
}

/// A munition's launch weighs two events, any other event one.
pub open spec fn events() -> spec_fn(EventV) -> nat {
    |ev: EventV|
        if ev is LoiteringLaunched {
            2nat
        } else {
            1nat
        }
}

proof fn total_less(
    a: Map<Id, UnitV>,
    b: Map<Id, UnitV>,
    ids: Seq<Id>,
    f: spec_fn(UnitV) -> nat,
)
    requires
        a.dom() == b.dom(),
        forall|k: Id| #[trigger] a.contains_key(k) ==> f(b[k]) <= f(a[k]),
    ensures
        total(b, ids, f) <= total(a, ids, f),
    decreases ids.len(),
{
    if ids.len() > 0 {
        total_less(a, b, ids.drop_last(), f);
        assert(a.dom().contains(ids.last()) == b.dom().contains(ids.last()));
    }
}

proof fn total_drops(
    a: Map<Id, UnitV>,
    b: Map<Id, UnitV>,
    ids: Seq<Id>,
    f: spec_fn(UnitV) -> nat,
    x: Id,
)
    requires
        a.dom() == b.dom(),
        forall|k: Id| #[trigger] a.contains_key(k) ==> f(b[k]) <= f(a[k]),
        ids.contains(x),
        a.contains_key(x),
        f(b[x]) < f(a[x]),
    ensures
        total(b, ids, f) < total(a, ids, f),
    decreases ids.len(),
{
    let rest = ids.drop_last();
    total_less(a, b, rest, f);
    assert(a.dom().contains(ids.last()) == b.dom().contains(ids.last()));
    if ids.last() != x {
        let i = ids.index_of(x);
        assert(rest[i] == x);
        total_drops(a, b, rest, f, x);
    }
}

proof fn whole_less(a: EngineV, b: EngineV)
    requires
        calm(a, b),
    ensures
        whole(b.units, teams()) <= whole(a.units, teams()),
        whole(b.units, fatigue()) <= whole(a.units, fatigue()),
{
    reveal(calm);
    let ids = sorted_keys::<String>(a.units.dom());
    total_less(a.units, b.units, ids, teams());
    total_less(a.units, b.units, ids, fatigue());
}

// ---------- what is left ----------

/// Whether less is left of a match in `b` than in `a`: moves and beginnings count before teams,
/// teams before rounds of fights, rounds before fatigue, and fatigue before any other event.
pub open spec fn less_left(a: EngineV, b: EngineV) -> bool {
    let (s, s1) = (load(a.queue, starts()), load(b.queue, starts()));
    let (t, t1) = (whole(a.units, teams()), whole(b.units, teams()));
    let (r, r1) = (load(a.queue, rounds(a.same_hex)), load(b.queue, rounds(b.same_hex)));
    let (f, f1) = (whole(a.units, fatigue()), whole(b.units, fatigue()));
    let (n, n1) = (load(a.queue, events()), load(b.queue, events()));
    s1 < s || (s1 == s && (t1 < t || (t1 == t && (r1 < r || (r1 == r && (f1 < f || (f1 == f && n1
        < n)))))))
}

/// The state in which the first event is about to happen.
pub open spec fn popped(e: EngineV) -> EngineV {
    EngineV { clock: e.queue[0].t, queue: e.queue.drop_first(), ..e }
}

proof fn popped_loads(e: EngineV)
    requires
        e.queue.len() > 0,
    ensures
        ({
            let p = popped(e);
            let ev = e.queue[0].event;
            &&& load(e.queue, starts()) == starts()(ev) + load(p.queue, starts())
            &&& load(e.queue, rounds(e.same_hex)) == rounds(e.same_hex)(ev) + load(
                p.queue,
                rounds(p.same_hex),
            )
            &&& load(e.queue, events()) == events()(ev) + load(p.queue, events())
        }),
{
    load_pop(e.queue, starts());
    load_pop(e.queue, rounds(e.same_hex));
    load_pop(e.queue, events());
}

/// An event that adds nothing, or less than it takes.
proof fn leaf_done(e: EngineV, b: EngineV)
    requires
        e.queue.len() > 0,
        calm(popped(e), b),
        load(b.queue, events()) < events()(e.queue[0].event) + load(popped(e).queue, events()),
    ensures
        less_left(e, b),
{
    popped_loads(e);
    whole_less(popped(e), b);
    reveal(calm);
}

// ---------- fights ----------

proof fn shot_loses(e: EngineV, attacker: Id, target: Id, t: Tick)
    requires
        e.units.dom().finite(),
        calm(e, m::same_hex_shot(e, attacker, target, t).0),
    ensures
        ({
            let r = m::same_hex_shot(e, attacker, target, t);
            r.1 ==> whole(r.0.units, teams()) < whole(e.units, teams())
        }),
{
    let r = m::same_hex_shot(e, attacker, target, t);
    if r.1 {
        reveal(calm);
        keys_listed::<String>(e.units.dom());
        let ids = sorted_keys::<String>(e.units.dom());
        assert(e.units.dom().contains(target));
        assert(ids.contains(target));
        assert(r.0.units.dom().contains(target));
        total_drops(e.units, r.0.units, ids, teams(), target);
    }
}

proof fn turn_loses(e: EngineV, attacker: Id, hex: Axial, t: Tick)
    requires
        e.units.dom().finite(),
    ensures
        ({
            let r = m::attack_turn((e, false), attacker, hex, t);
            r.1 ==> whole(r.0.units, teams()) < whole(e.units, teams())
        }),
{
    let here = keys_where::<String, UnitV>(e.units, m::ground_at(hex));
    let p = pick_target::<PcgRng>(
        m::units_under(e.units, here),
        e.units[attacker].side,
        e.rng,
    );
    let e1 = EngineV { rng: p.1, ..e };
    if let Some(target) = p.0 {
        crate::engine::laws_calm::calm_same_hex_shot(e1, attacker, target.id, t);
        shot_loses(e1, attacker, target.id, t);
    }
}

/// A round in which somebody was lost leaves fewer teams.
proof fn turns_lose(e: EngineV, ids: Seq<Id>, hex: Axial, t: Tick)
    requires
        e.units.dom().finite(),
    ensures
        ({
            let r = m::attack_turns(e, ids, hex, t);
            r.1 ==> whole(r.0.units, teams()) < whole(e.units, teams())
        }),
    decreases ids.len(),
{
    if ids.len() > 0 {
        let rest = ids.drop_last();
        turns_lose(e, rest, hex, t);
        calm_attack_turns(e, rest, hex, t);
        let s = m::attack_turns(e, rest, hex, t);
        assert(s.0.units.dom().finite()) by {
            reveal(calm);
        }
        whole_less(e, s.0);
        calm_attack_turn(s, ids.last(), hex, t);
        let r = m::attack_turn(s, ids.last(), hex, t);
        whole_less(s.0, r.0);
        turn_loses(s.0, ids.last(), hex, t);
        let q = m::attack_turn((s.0, false), ids.last(), hex, t);
        assert(r.0 == q.0 && (r.1 ==> s.1 || q.1));
    }
}

proof fn round_done(e: EngineV, hex: Axial, gen: u64)
    requires
        e.queue.len() > 0,
        e.units.dom().finite(),
        e.queue[0].event == (Event::<Id>::SameHexEngage { hex, gen }),
    ensures
        less_left(e, m::same_hex_round(popped(e), hex, gen, popped(e).clock)),
{
    let p = popped(e);
    let t = p.clock;
    let b = m::same_hex_round(p, hex, gen, t);
    popped_loads(e);
    if !(p.same_hex.contains_key(hex) && p.same_hex[hex].gen == gen) {
        assert(b == p);
        calm_self(p);
        leaf_done(e, b);
    } else if !m::contested(p.units, hex) {
        load_less(p.queue, rounds(p.same_hex.remove(hex)), rounds(p.same_hex));
    } else {
        let s = p.same_hex[hex];
        let ids = m::attackers(p, hex);
        calm_attack_turns(p, ids, hex, t);
        turns_lose(p, ids, hex, t);
        let (e1, loss) = m::attack_turns(p, ids, hex, t);
        whole_less(p, e1);
        reveal(calm);
        let gone = EngineV { same_hex: e1.same_hex.remove(hex), ..e1 };
        load_less(e1.queue, rounds(gone.same_hex), rounds(e1.same_hex));
        if m::contested(e1.units, hex) && e1.same_hex.contains_key(hex) {
            let s1 = e1.same_hex[hex];
            assert(s1 == s);
            let dry: u32 = if loss {
                0
            } else if s1.dry_rounds == u32::MAX {
                u32::MAX
            } else {
                (s1.dry_rounds + 1) as u32
            };
            if dry < SAME_HEX_MAX_DRY_ROUNDS {
                let s2 = SameHexState { dry_rounds: dry, ..s1 };
                let e2 = EngineV { same_hex: e1.same_hex.insert(hex, s2), ..e1 };
                let x = m::Timed {
                    t: tick_sum(
                        t,
                        match timing_of(e1.rules, "same_hex_engage_interval"@) {
                            Some(n) => n,
                            None => 2500,
                        },
                    ),
                    seq: next_of(e2.seq),
                    event: Event::SameHexEngage { hex, gen },
                };
                load_enqueue(e2.queue, x, starts());
                load_enqueue(e2.queue, x, rounds(e2.same_hex));
                if !loss {
                    load_less(e2.queue, rounds(e2.same_hex), rounds(e1.same_hex));
                }
            }
        }
    }
}

// ---------- fatigue ----------

proof fn rest_done(e: EngineV, id: Id, gen: u64)
    requires
        e.queue.len() > 0,
        e.units.dom().finite(),
        e.queue[0].event == (Event::<Id>::FatigueDecay { unit: id, gen }),
    ensures
        less_left(e, crate::engine::events::rest(popped(e), id, gen)),
{
    let p = popped(e);
    let b = crate::engine::events::rest(p, id, gen);
    popped_loads(e);
    calm_rest(p, id, gen);
    whole_less(p, b);
    if b.queue == p.queue {
        leaf_done(e, b);
    } else {
        reveal(calm);
        assert(p.units.contains_key(id));
        keys_listed::<String>(p.units.dom());
        let ids = sorted_keys::<String>(p.units.dom());
        assert(p.units.dom().contains(id));
        assert(ids.contains(id));
        total_drops(p.units, b.units, ids, fatigue(), id);
    }
}

// ---------- moves ----------

proof fn hop_nearer(e: EngineV, id: Id, gen: u64, target: Axial, now: Tick, to: Axial)
    requires
        e.units.contains_key(id) ==> e.units[id].pos == to,
    ensures
        load(plan_hop(e, id, gen, target, now).queue, starts()) <= load(e.queue, starts())
            + hex_distance(to, target),
{
    broadcast use {quiet_both, calm_quiet};

    distance_symmetric(to, target);
    calm_settle(e, id);
    reveal(quiet);
    if e.units.contains_key(id) {
        let u = e.units[id];
        if u.pos != target {
            line_steps(u.pos, target, 1);
            let next = line_hex(u.pos, target, hex_distance(u.pos, target), 1);
            if let Some(step) = step_ticks(e, id, u.unit_type, u.pos, next) {
                let arrival = tick_sum(
                    now,
                    if step > 1 {
                        step
                    } else {
                        1
                    },
                );
                let e1 = m::set_busy(e, id, arrival);
                let x = m::Timed {
                    t: arrival,
                    seq: next_of(e1.seq),
                    event: Event::MoveArrive { unit: id, gen, to: next, target },
                };
                load_enqueue(e1.queue, x, starts());
            }
        }
    }
}

proof fn move_done(e: EngineV, id: Id, gen: u64, to: Axial, target: Axial)
    requires
        e.queue.len() > 0,
        e.units.dom().finite(),
        e.queue[0].event == (Event::<Id>::MoveArrive { unit: id, gen, to, target }),
    ensures
        less_left(e, arrive(popped(e), id, gen, to, target)),
{
    broadcast use {quiet_both, calm_quiet};

    let p = popped(e);
    popped_loads(e);
    distance_symmetric(to, target);
    quiet_self(p);
    calm_settle(p, id);
    let b = arrive(p, id, gen, to, target);
    if p.units.contains_key(id) {
        let u = p.units[id];
        quiet_step_onto(p, id, to);
        let a1 = step_onto(p, id, u, to);
        calm_meet_salvos(a1, id, to);
        let a2 = meet_salvos(a1, id, to);
        calm_meet_mines(a2, id, to);
        let e1 = meet_mines(a2, id, to);
        mover_is_there(p, id, to, e1.clock);
        let f = uncover_f();
        assert forall|x: EngineV, k: Id| quiet(x, #[trigger] f(x, k)) by {
            calm_uncover(x, k);
        }
        let ids = keys_where::<String, UnitV>(e1.units, hidden_at(e1.facilities, to, u.side));
        quiet_each(e1, ids, f);
        let e2 = m::each(e1, ids, f);
        uncover_clock(e1, ids);
        quiet_trigger(e2, to, e2.clock);
        let e3 = m::trigger_same_hex(e2, to, e2.clock);
        hop_nearer(e3, id, gen, target, e3.clock, to);
        assert(quiet(p, e1) && quiet(p, e3));
    }
    reveal(quiet);
}

proof fn uncover_clock(e: EngineV, ids: Seq<Id>)
    ensures
        m::each(e, ids, uncover_f()).clock == e.clock,
    decreases ids.len(),
{
    if ids.len() > 0 {
        uncover_clock(e, ids.drop_last());
    }
}

// ---------- every event ----------

/// Every event that happens leaves less to come.
pub proof fn events_run_down(e: EngineV)
    requires
        e.queue.len() > 0,
        e.units.dom().finite(),
    ensures
        less_left(e, advance(e)),
        advance(e).units.dom().finite(),
{
    let p = popped(e);
    let ev = e.queue[0].event;
    let b = handle(p, ev);
    assert(b == advance(e));
    advance_keeps(e);
    assert(b.units.dom().finite()) by {
        reveal(keeps);
    }
    popped_loads(e);
    calm_self(p);
    match ev {
        Event::TransitionComplete { unit, to, cover_gen } => {
            calm_finish_change(p, unit, to, cover_gen);
            leaf_done(e, b);
        },
        Event::WeaponReady { unit } => {
            calm_set_weapon(p, unit, WeaponState::Deployed);
            leaf_done(e, b);
        },
        Event::SuppressEnd { unit } => {
            calm_end_suppression(p, unit);
            leaf_done(e, b);
        },
        Event::MoveArrive { unit, gen, to, target } => {
            move_done(e, unit, gen, to, target);
        },
        Event::MountComplete { passenger, gen } => {
            calm_finish_mount(p, passenger, gen);
            leaf_done(e, b);
        },
        Event::IndirectFly { plan } => {
            quiet_salvo_arrives(p, plan, p.clock);
            reveal(quiet);
        },
        Event::IndirectBoomEnd { plan } => {
            calm_aside(p, b);
            leaf_done(e, b);
        },
        Event::LoiteringLaunched { munition } => {
            calm_finish_launch(p, munition);
            launch_adds_one(p, munition);
            leaf_done(e, b);
        },
        Event::LoiteringSelfDestruct { munition } => {
            calm_self_destruct(p, munition);
            leaf_done(e, b);
        },
        Event::RadarReady { vehicle, gen } => {
            calm_finish_spinup(p, vehicle, gen);
            leaf_done(e, b);
        },
        Event::HeliAltReady { heli, to } => {
            calm_finish_altitude(p, heli, to);
            leaf_done(e, b);
        },
        Event::SameHexEngage { hex, gen } => {
            round_done(e, hex, gen);
        },
        Event::FacilityEnterReady { unit, facility, gen } => {
            calm_finish_enter(p, unit, facility, gen);
            leaf_done(e, b);
        },
        Event::FacilityExitReady { unit, gen } => {
            quiet_finish_exit(p, unit, gen);
            reveal(quiet);
        },
        Event::MineLayReady { unit, at, gen } => {
            calm_finish_lay(p, unit, at, gen);
            leaf_done(e, b);
        },
        Event::FatigueDecay { unit, gen } => {
            rest_done(e, unit, gen);
        },
        Event::AggSplitComplete { unit, gen } => {
            quiet_finish_agg(p, unit, gen);
            reveal(quiet);
        },
        Event::CaptureCheck => {
            leaf_done(e, b);
        },
    }
}

proof fn launch_adds_one(e: EngineV, id: Id)
    ensures
        load(crate::engine::events::finish_launch(e, id).queue, events()) <= load(
            e.queue,
            events(),
        ) + 1,
{
    if e.units.contains_key(id) {
        let life = match timing_of(e.rules, "loitering_endurance"@) {
            Some(n) => n,
            None => 0,
        };
        let x = m::Timed {
            t: tick_sum(e.clock, life),
            seq: next_of(e.seq),
            event: Event::LoiteringSelfDestruct { munition: id },
        };
        load_enqueue(e.queue, x, events());
    }
}

/// Every match comes to rest: if no more orders are given, a time comes when no event is left.
pub proof fn comes_to_rest(e: EngineV)
    requires
        e.units.dom().finite(),
    ensures
        drain(e, None).0.queue.len() == 0,
    decreases
            load(e.queue, starts()),
            whole(e.units, teams()),
            load(e.queue, rounds(e.same_hex)),
            whole(e.units, fatigue()),
            load(e.queue, events()),
{
    if e.queue.len() > 0 {
        events_run_down(e);
        comes_to_rest(advance(e));
    }
}

/// Every fight ends: once a match in which every fight has its next round to come is at rest, no
/// fight goes on.
pub proof fn every_fight_ends(e: EngineV)
    requires
        e.units.dom().finite(),
        forall|h: Axial| #[trigger] round_due(e, h),
    ensures
        drain(e, None).0.same_hex.dom() =~= Set::empty(),
{
    let e1 = drain(e, None).0;
    comes_to_rest(e);
    drain_keeps(e, None);
    reveal(keeps);
    assert forall|h: Axial| !e1.same_hex.dom().contains(h) by {
        assert(round_due(e, h));
        assert(round_due(e1, h));
    }
}

} // verus!
