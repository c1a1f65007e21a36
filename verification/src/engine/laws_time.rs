//! What holds of every match as time passes.
use crate::combat::mine_loss;
use crate::engine::actions::{lays_of, without_plans};
use crate::engine::clock::{advance, run_until, step};
use crate::engine::events::{
    arrive, boom_over, child_id, child_of, end_suppression, finish_agg, finish_altitude,
    finish_change, finish_enter, finish_exit, finish_launch, finish_lay, finish_merge, finish_mount,
    finish_spinup, finish_split, handle, hidden_at, meet_mines, meet_salvos, merged_teams,
    mine_outcome, own_boom, rest, rider_of, self_destruct, set_pos, set_pos_f, split_teams,
    step_onto, take_booms, uncover, uncover_f,
};
use crate::engine::laws::{
    at_once, forward, in_order, keeps, keeps_aside, keeps_both, keeps_over, keeps_self, mines_match, none_before, once_apply_fire,
    once_arm_fatigue, once_aside, once_both, once_each, once_end_same_hex, once_lose, once_now,
    once_plan_hop, once_put, once_salvo_arrives, once_same, once_same_hex_round, once_schedule,
    once_self, once_set_busy, once_set_dead, once_set_weapon, once_settle, once_stamp,
    once_take_salvo, once_trigger, orders_keep, round_due, round_follows,
};
use crate::engine::laws_calm::{load, rounds, starts};
use crate::engine::laws_rest::{events, events_run_down, fatigue, teams, whole};
use crate::engine::model as m;
use crate::engine::model::{AggSplitKind, EngineV, Event, EventV, Id, MountKind, PlanV};
use crate::engine::moves::plan_hop;
use crate::engine::setup::{opening, started, trigger_all};
use crate::error::{EngineError, ErrV};
use crate::hex::Axial;
use crate::mechanics::{fatigue_per_hex, stack_room};
use crate::ordmap::{keys_where, views};
use crate::replay::{
    drain, play, play_from, play_one, CommandEntry, Replay, Snapshot, SnapshotV,
};
use crate::rng::{dice, PcgRng};
use crate::rules::{at, timing_of, Rules, Tables};
use crate::time::{next_of, tick_sum, Tick};
use crate::types::{
    with_side, GameMap, HeliAlt, RuntimeMinefield, RuntimeUnit, Scenario, SideSet, UnitState, UnitV,
    WeaponState,
};
use vstd::prelude::*;

verus! {

proof fn once_set_pos(e: EngineV, id: Id, hex: Axial, t: Tick)
    ensures
        at_once(e, set_pos(e, id, hex), t),
{
    once_self(e, t);
    if e.units.contains_key(id) {
        once_put(e, id, RuntimeUnit { pos: hex, ..e.units[id] }, t);
    }
}

proof fn once_step_onto(e: EngineV, id: Id, to: Axial, t: Tick)
    requires
        e.units.contains_key(id),
    ensures
        at_once(e, step_onto(e, id, e.units[id], to), t),
{
    broadcast use {once_both, once_same};

    let u = e.units[id];
    let v = RuntimeUnit {
        pos: to,
        fatigue: tick_sum(u.fatigue, fatigue_per_hex(e.rules, u.state)),
        ..u
    };
    once_put(e, id, v, t);
    let e1 = m::put_unit(e, id, v);
    once_stamp(e1, id, t);
    let e2 = m::stamp_entry(e1, id);
    once_self(e2, t);
    once_end_same_hex(e2, u.pos, t);
    let e3 = if u.pos != to {
        m::end_same_hex(e2, u.pos)
    } else {
        e2
    };
    let f = set_pos_f(to);
    assert forall|x: EngineV, k: Id| at_once(x, #[trigger] f(x, k), t) by {
        once_set_pos(x, k, to, t);
    }
    once_each(e3, keys_where::<String, UnitV>(e3.units, rider_of(id)), f, t);
}

proof fn once_booms(e: EngineV, plans: Map<u64, PlanV>, ids: Seq<u64>, id: Id, t: Tick)
    ensures
        at_once(e, take_booms(e, plans, ids, id), t),
    decreases ids.len(),
{
    broadcast use {once_both, once_same};

    once_self(e, t);
    if ids.len() > 0 {
        once_booms(e, plans, ids.drop_last(), id, t);
        let e1 = take_booms(e, plans, ids.drop_last(), id);
        let p = plans[ids.last()];
        once_take_salvo(e1, id, p.base, p.gun_count, e1.clock);
        once_now(e1, m::take_salvo(e1, id, p.base, p.gun_count, e1.clock), t);
    }
}

proof fn once_meet_salvos(e: EngineV, id: Id, to: Axial, t: Tick)
    ensures
        at_once(e, meet_salvos(e, id, to), t),
{
    broadcast use {once_both, once_same};

    let e1 = EngineV {
        indirect_plans: without_plans(
            e.indirect_plans,
            keys_where::<u64, PlanV>(e.indirect_plans, own_boom(id)),
        ),
        ..e
    };
    once_aside(e, e1, t);
    once_booms(
        e1,
        e1.indirect_plans,
        keys_where::<u64, PlanV>(e1.indirect_plans, boom_over(to)),
        id,
        t,
    );
}

proof fn once_mines_put(e: EngineV, hex: Axial, f: RuntimeMinefield, t: Tick)
    requires
        e.minefields.contains_key(hex) ==> crate::engine::laws::same_mines(e.minefields[hex], f),
        mines_match(e.minefields) ==> f.at == hex,
    ensures
        at_once(e, EngineV { minefields: e.minefields.insert(hex, f), ..e }, t),
{
    reveal(keeps);
    reveal(at_once);
}

proof fn once_meet_mines(e: EngineV, id: Id, to: Axial, t: Tick)
    ensures
        at_once(e, meet_mines(e, id, to), t),
{
    broadcast use {once_both, once_same};

    once_self(e, t);
    if e.minefields.contains_key(to) && e.units.contains_key(id) {
        let f = e.minefields[to];
        let u = e.units[id];
        once_mines_put(
            e,
            to,
            RuntimeMinefield { cleared_by: with_side(f.cleared_by, u.side), ..f },
            t,
        );
        let roll = dice::<PcgRng>(e.rng, 2);
        let e1 = EngineV { rng: roll.1, ..e };
        once_aside(e, e1, t);
        let outcome = mine_outcome(mine_loss(e.tables, u.unit_type, u.armor, roll.0));
        once_apply_fire(e1, id, outcome, e.clock);
        once_now(e1, m::take_fire(e1, id, outcome, e.clock), t);
    }
}

proof fn once_uncover(e: EngineV, id: Id, t: Tick)
    ensures
        at_once(e, uncover(e, id), t),
{
    broadcast use {once_both, once_same};

    once_self(e, t);
    let e1 = if e.units.contains_key(id) {
        let v = RuntimeUnit { inside_facility: None, busy_until: 0, ..e.units[id] };
        once_put(e, id, v, t);
        m::put_unit(e, id, v)
    } else {
        e
    };
    once_aside(e1, EngineV { facility_gen: m::bumped(e1.facility_gen, id), ..e1 }, t);
}

proof fn once_arrive(e: EngineV, id: Id, gen: u64, to: Axial, target: Axial, t: Tick)
    ensures
        at_once(e, arrive(e, id, gen, to, target), t),
{
    broadcast use {once_both, once_same};

    once_self(e, t);
    once_settle(e, id, t);
    if e.units.contains_key(id) {
        let u = e.units[id];
        once_step_onto(e, id, to, t);
        let ea = step_onto(e, id, u, to);
        once_meet_salvos(ea, id, to, t);
        let eb = meet_salvos(ea, id, to);
        once_meet_mines(eb, id, to, t);
        let e1 = meet_mines(eb, id, to);
        if e1.units.contains_key(id) {
            let f = uncover_f();
            assert forall|x: EngineV, k: Id| at_once(x, #[trigger] f(x, k), t) by {
                once_uncover(x, k, t);
            }
            let ids = keys_where::<String, UnitV>(
                e1.units,
                hidden_at(e1.facilities, to, e1.units[id].side),
            );
            once_each(e1, ids, f, t);
            let e2 = m::each(e1, ids, f);
            once_trigger(e2, to, e2.clock);
            let e3 = m::trigger_same_hex(e2, to, e2.clock);
            once_now(e2, e3, t);
            once_plan_hop(e3, id, gen, target, e3.clock);
            once_now(e3, plan_hop(e3, id, gen, target, e3.clock), t);
        }
    }
}

proof fn once_finish_mount(e: EngineV, p: Id, gen: u64, t: Tick)
    ensures
        at_once(e, finish_mount(e, p, gen), t),
{
    broadcast use {once_both, once_same};

    once_self(e, t);
    if e.mount_op.contains_key(p) {
        let op = e.mount_op[p];
        let e1 = EngineV { mount_op: e.mount_op.remove(p), ..e };
        once_aside(e, e1, t);
        let full = match (at(e.units, p), at(e.units, op.vehicle)) {
            (Some(u), Some(v)) => op.kind == MountKind::Dismount && !stack_room(
                e.units,
                u.side,
                v.pos,
                p,
                e.stacking_cap,
            ),
            _ => false,
        };
        let e2 = if e.units.contains_key(p) {
            let u = e.units[p];
            let w = RuntimeUnit {
                busy_until: 0,
                carried_by: if full {
                    u.carried_by
                } else {
                    match op.kind {
                        MountKind::Mount => Some(op.vehicle),
                        MountKind::Dismount => None,
                    }
                },
                pos: match at(e.units, op.vehicle) {
                    Some(v) => if full {
                        u.pos
                    } else {
                        v.pos
                    },
                    None => u.pos,
                },
                ..u
            };
            once_put(e1, p, w, t);
            m::put_unit(e1, p, w)
        } else {
            e1
        };
        once_set_busy(e2, op.vehicle, 0, t);
    }
}

proof fn once_finish_launch(e: EngineV, id: Id, t: Tick)
    ensures
        at_once(e, finish_launch(e, id), t),
{
    broadcast use {once_both, once_same};

    once_self(e, t);
    once_set_busy(e, id, 0, t);
    if e.units.contains_key(id) {
        let u = e.units[id];
        let e1 = match u.carried_by {
            Some(p) => EngineV { loitering_parent: e.loitering_parent.insert(id, p), ..e },
            None => e,
        };
        once_aside(e, e1, t);
        let from = match u.carried_by {
            Some(p) => at(e.units, p),
            None => None,
        };
        let v = RuntimeUnit {
            carried_by: None,
            busy_until: 0,
            pos: match from {
                Some(v) => v.pos,
                None => u.pos,
            },
            ..u
        };
        once_put(e1, id, v, t);
        let e2 = m::put_unit(e1, id, v);
        let life = match timing_of(e2.rules, "loitering_endurance"@) {
            Some(n) => n,
            None => 0,
        };
        once_schedule(
            e2,
            tick_sum(e2.clock, life),
            Event::LoiteringSelfDestruct { munition: id },
            t,
        );
    }
}

proof fn once_self_destruct(e: EngineV, id: Id, t: Tick)
    ensures
        at_once(e, self_destruct(e, id), t),
{
    broadcast use {once_both, once_same};

    let e1 = EngineV {
        loitering_parent: e.loitering_parent.remove(id),
        loitering_target: e.loitering_target.remove(id),
        ..e
    };
    once_aside(e, e1, t);
    once_set_dead(e1, id, t);
}

proof fn once_finish_enter(e: EngineV, id: Id, fac: Id, gen: u64, t: Tick)
    ensures
        at_once(e, finish_enter(e, id, fac, gen), t),
{
    broadcast use {once_both, once_same};

    once_self(e, t);
    once_set_busy(e, id, 0, t);
    if e.units.contains_key(id) {
        let v = RuntimeUnit { inside_facility: Some(fac), ..e.units[id] };
        once_put(e, id, v, t);
        let e0 = m::put_unit(e, id, v);
        once_stamp(e0, id, t);
        once_set_busy(m::stamp_entry(e0, id), id, 0, t);
    }
}

proof fn once_finish_exit(e: EngineV, id: Id, gen: u64, t: Tick)
    ensures
        at_once(e, finish_exit(e, id, gen), t),
{
    broadcast use {once_both, once_same};

    once_self(e, t);
    once_set_busy(e, id, 0, t);
    if e.units.contains_key(id) {
        let u = e.units[id];
        let v = RuntimeUnit { inside_facility: None, busy_until: 0, ..u };
        once_put(e, id, v, t);
        let e0 = m::put_unit(e, id, v);
        once_stamp(e0, id, t);
        let e1 = m::stamp_entry(e0, id);
        once_trigger(e1, u.pos, e1.clock);
        once_now(e1, m::trigger_same_hex(e1, u.pos, e1.clock), t);
    }
}

proof fn once_finish_lay(e: EngineV, id: Id, hex: Axial, gen: u64, t: Tick)
    ensures
        at_once(e, finish_lay(e, id, hex, gen), t),
{
    broadcast use {once_both, once_same};

    let e1 = EngineV { minelay_in_flight: e.minelay_in_flight.remove(id), ..e };
    once_aside(e, e1, t);
    once_set_busy(e1, id, 0, t);
    if e.units.contains_key(id) {
        let u = e.units[id];
        let f = RuntimeMinefield {
            at: hex,
            owner: Some(u.side),
            cleared_by: SideSet { red: false, blue: false },
        };
        let e2 = if e1.minefields.contains_key(hex) {
            e1
        } else {
            once_mines_put(e1, hex, f, t);
            EngineV { minefields: e1.minefields.insert(hex, f), ..e1 }
        };
        once_self(e1, t);
        let n = lays_of(e1, id);
        let e3 = EngineV {
            minelayer_lays: e1.minelayer_lays.insert(
                id,
                if n == u32::MAX {
                    n
                } else {
                    (n + 1) as u32
                },
            ),
            ..e2
        };
        once_aside(e2, e3, t);
        once_set_busy(e3, id, 0, t);
    }
}

proof fn once_rest(e: EngineV, id: Id, gen: u64, t: Tick)
    ensures
        at_once(e, rest(e, id, gen), t),
{
    broadcast use {once_both, once_same};

    once_self(e, t);
    once_arm_fatigue(e, id, t);
    if e.units.contains_key(id) {
        let u = e.units[id];
        let v = RuntimeUnit {
            fatigue: if u.fatigue > 0 {
                (u.fatigue - 1) as i64
            } else {
                u.fatigue
            },
            ..u
        };
        once_put(e, id, v, t);
        once_arm_fatigue(m::put_unit(e, id, v), id, t);
    }
}

proof fn once_finish_merge(e: EngineV, id: Id, other: Id, t: Tick)
    requires
        e.units.contains_key(id),
    ensures
        at_once(e, finish_merge(e, id, other), t),
{
    broadcast use {once_both, once_same};

    once_set_busy(e, id, 0, t);
    once_set_busy(m::set_busy(e, id, 0), other, 0, t);
    if let Some(n) = merged_teams(e, id, other) {
        let v = RuntimeUnit { teams: n, busy_until: 0, ..e.units[id] };
        once_put(e, id, v, t);
        let e1 = m::put_unit(e, id, v);
        once_lose(e1, other, t);
        let e2 = m::lose(e1, other);
        once_aside(e2, EngineV { same_hex_order: e2.same_hex_order.remove(other), ..e2 }, t);
    }
}

proof fn once_new_unit(e: EngineV, id: Id, u: UnitV, t: Tick)
    requires
        !e.units.contains_key(id),
        u.id == id,
    ensures
        at_once(e, m::put_unit(e, id, u), t),
{
    reveal(keeps);
    reveal(at_once);
    assert(m::put_unit(e, id, u).units.dom() =~= e.units.dom().insert(id));
}

proof fn once_finish_split(e: EngineV, id: Id, t: Tick)
    requires
        e.units.contains_key(id),
    ensures
        at_once(e, finish_split(e, id), t),
{
    broadcast use {once_both, once_same};

    once_set_busy(e, id, 0, t);
    let u = e.units[id];
    if let Some((keep, off)) = split_teams(e, id) {
        let n = next_of(e.spawn_ctr);
        let child = child_id(id, n);
        let e1 = EngineV { spawn_ctr: n, ..e };
        once_aside(e, e1, t);
        once_set_busy(e1, id, 0, t);
        if !e1.units.contains_key(child) {
            once_new_unit(e1, child, child_of(u, child, off), t);
            let e2 = m::put_unit(e1, child, child_of(u, child, off));
            let v = RuntimeUnit { teams: keep, busy_until: 0, ..u };
            once_put(e2, id, v, t);
            let e3 = m::put_unit(e2, id, v);
            once_stamp(e3, id, t);
            once_stamp(m::stamp_entry(e3, id), child, t);
            let e4 = m::stamp_entry(m::stamp_entry(e3, id), child);
            once_trigger(e4, u.pos, e4.clock);
            once_now(e4, m::trigger_same_hex(e4, u.pos, e4.clock), t);
        }
    }
}

proof fn once_finish_agg(e: EngineV, id: Id, gen: u64, t: Tick)
    ensures
        at_once(e, finish_agg(e, id, gen), t),
{
    broadcast use {once_both, once_same};

    once_self(e, t);
    if e.aggsplit_op.contains_key(id) {
        let e1 = EngineV { aggsplit_op: e.aggsplit_op.remove(id), ..e };
        once_aside(e, e1, t);
        if e1.units.contains_key(id) {
            once_finish_split(e1, id, t);
            if let AggSplitKind::Aggregate { other } = e.aggsplit_op[id].kind {
                once_finish_merge(e1, id, other, t);
            }
        }
    }
}

proof fn once_finish_change(e: EngineV, id: Id, to: UnitState, cover_gen: Option<u64>, t: Tick)
    ensures
        at_once(e, finish_change(e, id, to, cover_gen), t),
{
    broadcast use {once_both, once_same};

    once_self(e, t);
    let e1 = if cover_gen is Some {
        EngineV { cover_transition: e.cover_transition.remove(id), ..e }
    } else {
        e
    };
    once_aside(e, e1, t);
    if e1.units.contains_key(id) {
        once_put(e1, id, RuntimeUnit { state: to, busy_until: 0, ..e1.units[id] }, t);
    }
}

proof fn once_end_suppression(e: EngineV, id: Id, t: Tick)
    ensures
        at_once(e, end_suppression(e, id), t),
{
    once_self(e, t);
    if e.units.contains_key(id) {
        let u = e.units[id];
        once_put(
            e,
            id,
            RuntimeUnit {
                state: if u.state == UnitState::Suppressed {
                    UnitState::Normal
                } else {
                    u.state
                },
                suppressed_until: 0,
                ..u
            },
            t,
        );
    }
}

proof fn once_finish_spinup(e: EngineV, id: Id, gen: u64, t: Tick)
    ensures
        at_once(e, finish_spinup(e, id, gen), t),
{
    broadcast use {once_both, once_same};

    once_self(e, t);
    let e1 = EngineV { radar_spinup: e.radar_spinup.remove(id), ..e };
    once_aside(e, e1, t);
    let e2 = EngineV { radar_on: e1.radar_on.insert(id, ()), ..e1 };
    once_aside(e1, e2, t);
    once_set_busy(e1, id, 0, t);
    once_set_busy(e2, id, 0, t);
}

proof fn once_finish_altitude(e: EngineV, id: Id, to: HeliAlt, t: Tick)
    ensures
        at_once(e, finish_altitude(e, id, to), t),
{
    once_self(e, t);
    if e.units.contains_key(id) {
        once_put(e, id, RuntimeUnit { heli_alt: to, busy_until: 0, ..e.units[id] }, t);
    }
}

/// Whatever event happens, the match keeps what it keeps: see [`keeps`] and [`at_once`].
pub proof fn events_keep(e: EngineV, event: EventV)
    ensures
        keeps(e, handle(e, event)),
        at_once(e, handle(e, event), e.clock),
{
    assert(at_once(e, handle(e, event), e.clock) ==> keeps(e, handle(e, event))) by {
        reveal(at_once);
    }
    let t = e.clock;
    once_self(e, t);
    match event {
        Event::TransitionComplete { unit, to, cover_gen } => {
            once_finish_change(e, unit, to, cover_gen, t);
        },
        Event::WeaponReady { unit } => {
            once_set_weapon(e, unit, WeaponState::Deployed, t);
        },
        Event::SuppressEnd { unit } => {
            once_end_suppression(e, unit, t);
        },
        Event::MoveArrive { unit, gen, to, target } => {
            once_arrive(e, unit, gen, to, target, t);
        },
        Event::MountComplete { passenger, gen } => {
            once_finish_mount(e, passenger, gen, t);
        },
        Event::IndirectFly { plan } => {
            once_salvo_arrives(e, plan, e.clock);
        },
        Event::IndirectBoomEnd { plan } => {
            once_aside(e, EngineV { indirect_plans: e.indirect_plans.remove(plan), ..e }, t);
        },
        Event::LoiteringLaunched { munition } => {
            once_finish_launch(e, munition, t);
        },
        Event::LoiteringSelfDestruct { munition } => {
            once_self_destruct(e, munition, t);
        },
        Event::RadarReady { vehicle, gen } => {
            once_finish_spinup(e, vehicle, gen, t);
        },
        Event::HeliAltReady { heli, to } => {
            once_finish_altitude(e, heli, to, t);
        },
        Event::SameHexEngage { hex, gen } => {
            once_same_hex_round(e, hex, gen, e.clock);
        },
        Event::FacilityEnterReady { unit, facility, gen } => {
            once_finish_enter(e, unit, facility, gen, t);
        },
        Event::FacilityExitReady { unit, gen } => {
            once_finish_exit(e, unit, gen, t);
        },
        Event::MineLayReady { unit, at, gen } => {
            once_finish_lay(e, unit, at, gen, t);
        },
        Event::FatigueDecay { unit, gen } => {
            once_rest(e, unit, gen, t);
        },
        Event::AggSplitComplete { unit, gen } => {
            once_finish_agg(e, unit, gen, t);
        },
        Event::CaptureCheck => {},
    }
}

/// The fight whose round happens gets its next round or ends; every other has its own still to come.
proof fn rounds_follow(e: EngineV)
    requires
        e.queue.len() > 0,
    ensures
        ({
            let p = EngineV { clock: e.queue[0].t, queue: e.queue.drop_first(), ..e };
            forall|h: Axial| #[trigger]
                round_due(e, h) ==> round_due(p, h) || round_due(advance(e), h)
        }),
{
    let first = e.queue[0];
    let p = EngineV { clock: first.t, queue: e.queue.drop_first(), ..e };
    assert forall|h: Axial| #[trigger] round_due(e, h) implies round_due(p, h) || round_due(
        advance(e),
        h,
    ) by {
        if e.same_hex.contains_key(h) {
            let gen = e.same_hex[h].gen;
            let round: EventV = Event::SameHexEngage { hex: h, gen };
            if first.event == round {
                round_follows(p, h, gen, p.clock);
            } else {
                let i = choose|i: int|
                    0 <= i < e.queue.len() && (#[trigger] e.queue[i]).event == round;
                assert(p.queue[i - 1].event == round);
            }
        }
    }
}

/// The next event keeps what the match keeps, and no event to come is sooner than it.
pub proof fn advance_keeps(e: EngineV)
    requires
        e.queue.len() > 0,
    ensures
        keeps(e, advance(e)),
        in_order(e.queue) ==> forall|i: int|
            0 <= i < e.queue.len() ==> !m::sooner(#[trigger] e.queue[i], e.queue[0]),
{
    let first = e.queue[0];
    let e1 = EngineV { clock: first.t, queue: e.queue.drop_first(), ..e };
    events_keep(e1, first.event);
    rounds_follow(e);
    keeps_over(e, e1, advance(e));
    if in_order(e.queue) {
        assert forall|i: int| 0 <= i < e.queue.len() implies !m::sooner(
            #[trigger] e.queue[i],
            e.queue[0],
        ) by {
            if i > 0 {
                assert(!m::sooner(e.queue[i], e.queue[0]));
            }
        }
    }
}

proof fn run_keeps(e: EngineV, target: Tick)
    requires
        e.units.dom().finite(),
    ensures
        keeps(e, run_until(e, target)),
        run_until(e, target).queue.len() == 0 || run_until(e, target).queue[0].t > target,
    decreases
            load(e.queue, starts()),
            whole(e.units, teams()),
            load(e.queue, rounds(e.same_hex)),
            whole(e.units, fatigue()),
            load(e.queue, events()),
{
    broadcast use keeps_both;

    keeps_self(e);
    if e.queue.len() > 0 && e.queue[0].t <= target {
        advance_keeps(e);
        events_run_down(e);
        run_keeps(advance(e), target);
    }
}

/// However much time passes, the match keeps what it keeps, the clock ends where it should, and the
/// next event to come is due after it.
pub proof fn step_keeps(e: EngineV, dt: Tick)
    requires
        e.units.dom().finite(),
    ensures
        keeps(e, step(e, dt)),
        step(e, dt).clock == tick_sum(e.clock, dt),
        step(e, dt).queue.len() == 0 || step(e, dt).queue[0].t > step(e, dt).clock,
{
    broadcast use keeps_both;

    let target = tick_sum(e.clock, dt);
    let e1 = run_until(e, target);
    run_keeps(e, target);
    keeps_aside(e1, EngineV { clock: target, ..e1 });
}

pub(crate) proof fn drain_keeps(e: EngineV, limit: Option<Tick>)
    requires
        e.units.dom().finite(),
    ensures
        keeps(e, drain(e, limit).0),
        drain(e, limit).0.units.dom().finite(),
    decreases
            load(e.queue, starts()),
            whole(e.units, teams()),
            load(e.queue, rounds(e.same_hex)),
            whole(e.units, fatigue()),
            load(e.queue, events()),
{
    broadcast use keeps_both;

    keeps_self(e);
    if crate::replay::due_before(e, limit) {
        advance_keeps(e);
        events_run_down(e);
        drain_keeps(advance(e), limit);
    }
}

/// A replay keeps, from order to order, what a match keeps.
pub proof fn replay_keeps(e: EngineV, commands: Seq<CommandEntry>, i: int)
    requires
        e.units.dom().finite(),
    ensures
        match play_from(e, commands, i) {
            Ok((e1, _)) => keeps(e, e1),
            Err(_) => true,
        },
    decreases commands.len() - i,
{
    broadcast use keeps_both;

    keeps_self(e);
    if 0 <= i < commands.len() {
        let c = commands[i];
        order_keeps(e, c);
        if let Ok((e1, _)) = play_one(e, c) {
            replay_keeps(e1, commands, i + 1);
        }
    }
}

/// A replay played twice on one board gives one trace, or one error.
pub proof fn replays_agree(
    replay: &Replay,
    map: GameMap,
    scenario: Scenario,
    rules: Rules,
    tables: Tables,
    a: Result<Vec<Snapshot>, EngineError>,
    b: Result<Vec<Snapshot>, EngineError>,
)
    requires
        call_ensures(play, (replay, map, scenario, rules, tables), a),
        call_ensures(play, (replay, map, scenario, rules, tables), b),
    ensures
        match a {
            Ok(x) => b is Ok && views(b->Ok_0@) == views(x@),
            Err(x) => b is Err && b->Err_0@ == x@,
        },
{
}

/// What is ordered later changes nothing of what has happened: the orders up to place `n`, played
/// alone, lead to the state from which the others go on, and their snapshots come first.
pub proof fn later_orders_change_nothing_before(
    e: EngineV,
    commands: Seq<CommandEntry>,
    i: int,
    n: int,
)
    requires
        0 <= i <= n <= commands.len(),
    ensures
        match play_from(e, commands.take(n), i) {
            Err(x) => play_from(e, commands, i) == Err::<(EngineV, Seq<SnapshotV>), ErrV>(x),
            Ok((e1, first)) => play_from(e, commands, i) == match play_from(e1, commands, n) {
                Err(x) => Err::<(EngineV, Seq<SnapshotV>), ErrV>(x),
                Ok((e2, rest)) => Ok((e2, first + rest)),
            },
        },
    decreases n - i,
{
    let head = commands.take(n);
    if i < n {
        assert(head[i] == commands[i]);
        if let Ok((e1, first)) = play_one(e, commands[i]) {
            later_orders_change_nothing_before(e1, commands, i + 1, n);
            if let Ok((e2, mid)) = play_from(e1, head, i + 1) {
                if let Ok((_, rest)) = play_from(e2, commands, n) {
                    assert((first + mid) + rest =~= first + (mid + rest));
                }
            }
        }
    } else if let Ok((_, rest)) = play_from(e, commands, n) {
        assert(Seq::<SnapshotV>::empty() + rest =~= rest);
    }
}

pub(crate) proof fn order_keeps(e: EngineV, c: CommandEntry)
    requires
        e.units.dom().finite(),
    ensures
        match play_one(e, c) {
            Ok((e1, _)) => keeps(e, e1) && e1.units.dom().finite(),
            Err(_) => true,
        },
{
    broadcast use keeps_both;

    reveal(play_one);
    drain_keeps(e, Some(c.t));
    let e1 = drain(e, Some(c.t)).0;
    let e2 = EngineV {
        clock: if c.t > e1.clock {
            c.t
        } else {
            e1.clock
        },
        ..e1
    };
    keeps_aside(e1, e2);
    if let Ok(side) = crate::replay::side_named(c.side@) {
        orders_keep(e2, side, c.command, c.t);
        reveal(keeps);
    }
}

pub(crate) proof fn trigger_all_keeps(e: EngineV, hexes: Seq<Axial>)
    ensures
        at_once(e, trigger_all(e, hexes), 0),
    decreases hexes.len(),
{
    broadcast use once_both;

    once_self(e, 0);
    if hexes.len() > 0 {
        trigger_all_keeps(e, hexes.drop_last());
        once_trigger(trigger_all(e, hexes.drop_last()), hexes.last(), 0);
    }
}

/// A match begins at the first tick with its events in order, none of them gone by, no fight gone on
/// for too long, and every fight with its next round to come; with [`orders_keep`] and
/// [`step_keeps`] it stays so.
pub proof fn start_in_order(
    map: GameMap,
    s: Scenario,
    rules: Rules,
    tables: Tables,
    seed: u64,
)
    ensures
        in_order(started(map, s, rules, tables, seed).queue),
        started(map, s, rules, tables, seed).clock == 0,
        started(map, s, rules, tables, seed).units.dom().finite(),
        forward(rules) ==> none_before(started(map, s, rules, tables, seed).queue, 0),
        crate::engine::laws::fights_bounded(started(map, s, rules, tables, seed).same_hex),
        forall|h: Axial| #[trigger] round_due(started(map, s, rules, tables, seed), h),
        keeps(opening(map, s, rules, tables, seed), started(map, s, rules, tables, seed)),
{
    let e = opening(map, s, rules, tables, seed);
    trigger_all_keeps(
        e,
        crate::ordmap::sorted_keys::<Axial>(crate::engine::setup::occupied(e.units)),
    );
    crate::engine::laws_units::roster_finite(s);
    reveal(at_once);
    reveal(keeps);
    assert forall|h: Axial| #[trigger] round_due(started(map, s, rules, tables, seed), h) by {
        assert(round_due(e, h));
    }
}

} // verus!
