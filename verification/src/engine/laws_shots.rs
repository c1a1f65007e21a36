//! What orders to fire lead to, and which order a name stands for.
use crate::combat::{direct_step, guided_step, loadout_of, noted, strike_step, works_step};
use crate::engine::actions::{
    do_aggregate, do_cancel, do_capture, do_dismount, do_enter, do_exit, do_launch, do_lay, do_mount,
    do_plan, do_radar_on, do_split, do_switch_altitude,
};
use crate::engine::events::{
    arrive, end_suppression, finish_enter, finish_exit, finish_launch, finish_lay, finish_mount,
    finish_spinup, handle, rest, self_destruct,
};
use crate::engine::fire::{
    aa_rules, as_firing, cool, do_aa_fire, do_fire, do_guide_fire, do_strike, fire_at_facility,
    fire_at_unit, fired, guide_barred, guided_at, prepare, shots_fired,
};
use crate::engine::laws::{once_hit_whole, once_same};
use crate::engine::laws_acts::{due_at, pinned, there_for};
use crate::engine::model as m;
use crate::engine::model::{EngineV, Event, Id};
use crate::engine::orders::{
    do_move, do_set_mode, do_stop, fire_order, formation_order, movement_order, submit, support_order,
    text_in, transport_order,
};
use crate::error::ErrV;
use crate::hex::{steps, Axial};
use crate::json::{jget, Json};
use crate::mechanics::observes;
use crate::prob::Outcome;
use crate::rng::PcgRng;
use crate::rules::{setting, timing_of};
use crate::time::{tick_sum, Tick};
use crate::types::{RuntimeUnit, SideId, UnitState, UnitType, UnitV, WeaponState};
use vstd::prelude::*;

verus! {

/// Whether a unit may be fired at by a side: an enemy, alive, in the open, and no satellite.
pub open spec fn open_target(e: EngineV, side: SideId, id: Id) -> bool {
    e.units.contains_key(id) && e.units[id].alive && e.units[id].side != side
        && e.units[id].carried_by is None && e.units[id].inside_facility is None
        && e.units[id].unit_type != UnitType::SpaceRecon
}

/// A unit as it fires: one in cover is out of it.
pub open spec fn out_of_cover(u: UnitV, v: UnitV) -> bool {
    v == (RuntimeUnit { state: v.state, ..u }) && (u.state == UnitState::Cover ==> v.state
        == UnitState::Stopped) && (u.state != UnitState::Cover ==> v.state == u.state)
}

proof fn hits_keep_the_rules(e: EngineV, id: Id, outcome: Outcome, t: Tick)
    requires
        timing_of(e.rules, "suppress_duration"@) is Some,
    ensures
        m::hit_whole(
            e,
            id,
            outcome,
            t,
            timing_of(e.rules, "suppress_duration"@)->0,
        ).rules == e.rules,
        m::apply_fire(e, id, outcome, t) == (
            m::hit_whole(e, id, outcome, t, timing_of(e.rules, "suppress_duration"@)->0),
            Ok::<(), ErrV>(()),
        ),
{
    broadcast use once_same;

    once_hit_whole(e, id, outcome, t, timing_of(e.rules, "suppress_duration"@)->0);
}

/// A weapon cools for the time of the rules and is then ready.
pub proof fn how_a_weapon_cools(e: EngineV, id: Id, t: Tick)
    requires
        timing_of(e.rules, "weapon_cooldown_direct"@) is Some,
    ensures
        ({
            let r = cool(e, id, t);
            let ready = tick_sum(t, timing_of(e.rules, "weapon_cooldown_direct"@)->0);
            &&& r.1 is Ok
            &&& due_at(e, r.0, ready, Event::WeaponReady { unit: id })
            &&& e.units.contains_key(id) ==> r.0.units == e.units.insert(
                id,
                RuntimeUnit { weapon_state: WeaponState::Cooling, ..e.units[id] },
            ) && m::set_weapon(e, id, WeaponState::Deployed).units == e.units.insert(
                id,
                RuntimeUnit { weapon_state: WeaponState::Deployed, ..e.units[id] },
            )
        }),
{
}

proof fn firing_keeps_the_rules(e: EngineV, id: Id)
    ensures
        fired(e, id).rules == e.rules,
{
}

proof fn only_what_is_seen(e: EngineV, v: UnitV, weapon: Seq<char>, target: UnitV)
    ensures
        direct_step::<PcgRng>(
            e.tables,
            e.map,
            e.rng,
            e.rules,
            v,
            weapon,
            target,
        ).0 is Resolved ==> observes(e.rules, e.map, v, target),
{
}

/// Direct fire at a unit is taken exactly if the target may be fired at, it is not in a fight that the
/// firer is out of, and the shot is taken of the firer out of its cover. The target takes what comes
/// of it, and the firer's weapon cools.
pub proof fn what_direct_fire_does(
    e: EngineV,
    side: SideId,
    id: Id,
    weapon: Seq<char>,
    target: Id,
    t: Tick,
    v: UnitV,
)
    requires
        e.units.contains_key(id),
        out_of_cover(e.units[id], v),
        timing_of(e.rules, "suppress_duration"@) is Some,
        timing_of(e.rules, "weapon_cooldown_direct"@) is Some,
    ensures
        ({
            let r = fire_at_unit(e, side, id, weapon, target, t);
            let s = direct_step::<PcgRng>(
                e.tables,
                e.map,
                e.rng,
                e.rules,
                v,
                weapon,
                e.units[target],
            );
            let taken = open_target(e, side, target) && !(e.same_hex.contains_key(
                e.units[target].pos,
            ) && e.units[id].pos != e.units[target].pos) && s.0 is Resolved;
            let shot = fired(EngineV { rng: s.2, shots: noted(e.shots, s.1), ..e }, id);
            let struck = m::hit_whole(
                shot,
                target,
                s.0->Resolved_0,
                t,
                timing_of(e.rules, "suppress_duration"@)->0,
            );
            &&& r.1 is Ok <==> taken
            &&& !taken ==> r.0 == e
            &&& taken ==> r == cool(struck, id, t)
        }),
{
    assert(v == as_firing(e.units[id]));
    only_what_is_seen(e, v, weapon, e.units[target]);
    let s = direct_step::<PcgRng>(
        e.tables,
        e.map,
        e.rng,
        e.rules,
        v,
        weapon,
        e.units[target],
    );
    let shot = fired(EngineV { rng: s.2, shots: noted(e.shots, s.1), ..e }, id);
    firing_keeps_the_rules(EngineV { rng: s.2, shots: noted(e.shots, s.1), ..e }, id);
    if s.0 is Resolved {
        hits_keep_the_rules(shot, target, s.0->Resolved_0, t);
        how_a_weapon_cools(m::apply_fire(shot, target, s.0->Resolved_0, t).0, id, t);
    }
}

/// Who has fired is out of its cover, and a tank also out of any change into cover; nobody else.
pub proof fn what_firing_costs(e: EngineV, id: Id)
    requires
        e.units.contains_key(id),
    ensures
        ({
            let u = e.units[id];
            let r = fired(e, id);
            &&& u.unit_type == UnitType::Tank ==> !r.cover_transition.contains_key(id)
            &&& u.unit_type != UnitType::Tank ==> r.cover_transition == e.cover_transition
            &&& r.units[id].state == (if u.state == UnitState::Cover {
                UnitState::Stopped
            } else {
                u.state
            })
            &&& r.units[id].teams == u.teams && r.units[id].pos == u.pos
            &&& forall|k: Id| k != id && #[trigger] e.units.contains_key(k) ==> r.units[k]
                == e.units[k]
        }),
{
}

/// What a shot at a fortification does: one for vehicles takes it itself, in one for combat those
/// inside take it. A concealed one, one's own and one nobody owns are no targets.
pub proof fn what_fire_at_works_does(
    e: EngineV,
    side: SideId,
    id: Id,
    weapon: Seq<char>,
    fac: Id,
    t: Tick,
    v: UnitV,
    far: i64,
)
    requires
        e.units.contains_key(id),
        out_of_cover(e.units[id], v),
        setting(e.rules.fortification, "exposed_range_hexes"@) == Some(far),
    ensures
        ({
            let r = fire_at_facility(e, side, id, weapon, fac, t);
            let f = e.facilities[fac];
            let vehicles = f.kind == "works_vehicle"@;
            let combat = f.kind == "works_infantry_combat"@;
            let s = works_step::<PcgRng>(
                e.tables,
                e.map,
                e.rng,
                e.rules,
                v,
                weapon,
                f.at,
                f.armor,
                far as int,
            );
            let shot = fired(EngineV { rng: s.2, shots: noted(e.shots, s.1), ..e }, id);
            let taken = e.facilities.contains_key(fac) && f.owner is Some && f.owner != Some(side)
                && (vehicles || combat) && s.0 is Resolved;
            &&& !taken ==> r.1 is Err && r.0 == e
            &&& taken && vehicles ==> r == cool(
                m::vehicle_works_hit(shot, fac, s.0->Resolved_0),
                id,
                t,
            )
            &&& taken && combat && m::personnel_works_hit(
                shot,
                fac,
                s.0->Resolved_0,
                t,
            ).1 is Ok ==> r == cool(
                m::personnel_works_hit(shot, fac, s.0->Resolved_0, t).0,
                id,
                t,
            )
        }),
{
    crate::mechanics_laws::garrisons_by_kind(UnitType::Infantry, far as int);
    assert(v == as_firing(e.units[id]));
}

/// Air defence fires exactly if the firer is a live unit of the side, not carried, suppressed, busy or
/// marching, with its weapon deployed and shots left, and the target is an open one that it observes,
/// in the air and in reach. One shot is spent, the weapon cools for the interval of the rules, and a
/// target that is hit is destroyed.
pub proof fn what_air_defence_does(
    e: EngineV,
    side: SideId,
    cmd: Json,
    id: Id,
    target: Id,
    t: Tick,
    weapon: Seq<char>,
    most: u32,
    pause: Tick,
)
    requires
        text_in(cmd, "unitId"@) == Some(id),
        text_in(cmd, "targetUnit"@) == Some(target),
        aa_rules(e, e.units[id].unit_type) == Ok::<(Seq<char>, u32, Tick), ErrV>(
            (weapon, most, pause),
        ),
        timing_of(e.rules, "suppress_duration"@) is Some,
    ensures
        ({
            let r = do_aa_fire(e, side, cmd, t);
            let (u, v) = (e.units[id], e.units[target]);
            let used = if e.aa_shots.contains_key(id) {
                e.aa_shots[id] as int
            } else {
                0
            };
            let s = crate::combat::aa_salvo::<PcgRng>(
                e.tables,
                e.rng,
                weapon,
                u.teams,
                steps(u.pos, v.pos) as int,
            );
            let flies = v.unit_type == UnitType::Uav || v.unit_type == UnitType::AttackHeli
                || v.unit_type == UnitType::TransportHeli || v.unit_type
                == UnitType::LoiteringMunition;
            let taken = there_for(e, side, id) && u.carried_by is None && !pinned(u, t)
                && u.busy_until <= t && u.state != UnitState::March && u.weapon_state
                == WeaponState::Deployed && used < most && open_target(e, side, target) && observes(
                e.rules,
                e.map,
                u,
                v,
            ) && flies && s.0 is Some;
            let rolled = EngineV { rng: s.1, ..e };
            let struck = if s.0->0.destroyed {
                m::hit_whole(
                    rolled,
                    target,
                    Outcome::Kill,
                    t,
                    timing_of(e.rules, "suppress_duration"@)->0,
                )
            } else {
                rolled
            };
            &&& r.1 is Ok <==> taken
            &&& !taken ==> r.0 == e
            &&& taken ==> due_at(struck, r.0, tick_sum(t, pause), Event::WeaponReady { unit: id })
            &&& taken && shots_fired(struck, id) < u32::MAX ==> r.0.aa_shots.contains_key(id)
                && r.0.aa_shots[id] == shots_fired(struck, id) + 1
            &&& taken && struck.units.contains_key(id) ==> r.0.units == struck.units.insert(
                id,
                RuntimeUnit { weapon_state: WeaponState::Cooling, ..struck.units[id] },
            )
        }),
{
}

/// Who may guide a vehicle: a drone any; infantry and unmanned vehicles, outside and the latter
/// standing still, only the one that they belong to; nobody else.
pub proof fn who_may_guide(g: UnitV, vehicle: Id)
    ensures
        guide_barred(g, vehicle) is None <==> g.unit_type == UnitType::Uav || ((g.unit_type
            == UnitType::Infantry || (g.unit_type == UnitType::Ugv && g.state
            == UnitState::Stopped)) && g.carried_by is None && g.affiliated_to == Some(vehicle)),
{
}

/// Who prepares its next shot is busy and its weapon cools until it is ready.
pub proof fn what_preparing_does(e: EngineV, id: Id, ready: Tick)
    requires
        e.units.contains_key(id),
    ensures
        prepare(e, id, ready).units == e.units.insert(
            id,
            RuntimeUnit {
                weapon_state: WeaponState::Cooling,
                busy_until: ready,
                ..e.units[id]
            },
        ),
        due_at(e, prepare(e, id, ready), ready, Event::WeaponReady { unit: id }),
{
    assert(prepare(e, id, ready).units =~= e.units.insert(
        id,
        RuntimeUnit { weapon_state: WeaponState::Cooling, busy_until: ready, ..e.units[id] },
    ));
}

proof fn only_what_the_guide_sees(e: EngineV, g: UnitV, v: UnitV, weapon: Seq<char>, target: UnitV)
    ensures
        guided_step::<PcgRng>(
            e.tables,
            e.map,
            e.rng,
            e.rules,
            g,
            v,
            weapon,
            target,
        ).0 is Resolved ==> observes(e.rules, e.map, g, target),
{
}

/// A guided shot is the vehicle's, at what its guide observes; afterwards both prepare their next
/// until the time of the rules is over.
pub proof fn what_guided_fire_does(
    e: EngineV,
    side: SideId,
    id: Id,
    guide: Id,
    weapon: Seq<char>,
    target: Id,
    t: Tick,
)
    requires
        timing_of(e.rules, "suppress_duration"@) is Some,
        timing_of(e.rules, "weapon_cooldown_direct"@) is Some,
    ensures
        ({
            let r = guided_at(e, side, id, guide, weapon, target, t);
            let s = guided_step::<PcgRng>(
                e.tables,
                e.map,
                e.rng,
                e.rules,
                e.units[guide],
                e.units[id],
                weapon,
                e.units[target],
            );
            let taken = open_target(e, side, target) && s.0 is Resolved;
            let struck = m::hit_whole(
                EngineV { rng: s.2, shots: noted(e.shots, s.1), ..e },
                target,
                s.0->Resolved_0,
                t,
                timing_of(e.rules, "suppress_duration"@)->0,
            );
            let ready = tick_sum(t, timing_of(e.rules, "weapon_cooldown_direct"@)->0);
            &&& r.1 is Ok <==> taken
            &&& !taken ==> r.0 == e
            &&& taken ==> r.0 == prepare(prepare(struck, id, ready), guide, ready)
        }),
{
    let s = guided_step::<PcgRng>(
        e.tables,
        e.map,
        e.rng,
        e.rules,
        e.units[guide],
        e.units[id],
        weapon,
        e.units[target],
    );
    only_what_the_guide_sees(e, e.units[guide], e.units[id], weapon, e.units[target]);
    if s.0 is Resolved {
        hits_keep_the_rules(
            EngineV { rng: s.2, shots: noted(e.shots, s.1), ..e },
            target,
            s.0->Resolved_0,
            t,
        );
    }
}

/// A munition strikes exactly if it is a live one of the side in the air, and the target an open one
/// that it observes, in reach of its weapon; then it is spent.
pub proof fn what_a_strike_does(e: EngineV, side: SideId, cmd: Json, id: Id, target: Id, t: Tick)
    requires
        text_in(cmd, "unitId"@) == Some(id),
        text_in(cmd, "targetUnit"@) == Some(target),
        loadout_of(e.rules, UnitType::LoiteringMunition).len() > 0,
        timing_of(e.rules, "suppress_duration"@) is Some,
    ensures
        ({
            let r = do_strike(e, side, cmd, t);
            let (u, v) = (e.units[id], e.units[target]);
            let s = strike_step::<PcgRng>(
                e.tables,
                e.map,
                e.rng,
                u,
                loadout_of(e.rules, UnitType::LoiteringMunition)[0],
                v,
            );
            let taken = there_for(e, side, id) && e.loitering_parent.contains_key(id)
                && u.carried_by is None && open_target(e, side, target) && observes(
                e.rules,
                e.map,
                u,
                v,
            ) && s.0 is Resolved;
            let struck = m::hit_whole(
                EngineV { rng: s.2, shots: noted(e.shots, s.1), ..e },
                target,
                s.0->Resolved_0,
                t,
                timing_of(e.rules, "suppress_duration"@)->0,
            );
            &&& r.1 is Ok <==> taken
            &&& !taken ==> r.0 == e
            &&& taken ==> !r.0.loitering_parent.contains_key(id)
            &&& taken && struck.units.contains_key(id) ==> r.0.units == struck.units.insert(
                id,
                RuntimeUnit { alive: false, teams: 0, ..struck.units[id] },
            )
        }),
{
}

// ---------- names ----------

/// Each order does what its name says, for a unit that is in no fortification.
pub proof fn which_order_a_name_stands_for(e: EngineV, side: SideId, cmd: Json, id: Id, op: Seq<char>, t: Tick)
    requires
        text_in(cmd, "op"@) == Some(op),
        text_in(cmd, "unitId"@) == Some(id),
        e.units.contains_key(id) ==> e.units[id].inside_facility is None,
    ensures
        op == "wait"@ ==> submit(e, side, cmd, t) == (e, Ok::<(), ErrV>(())),
        op == "stop"@ ==> submit(e, side, cmd, t) == do_stop(e, side, cmd, t),
        op == "move_to"@ ==> submit(e, side, cmd, t) == do_move(e, side, cmd, t),
        op == "set_mode"@ ==> submit(e, side, cmd, t) == do_set_mode(e, side, cmd, t),
        op == "fire_direct"@ ==> submit(e, side, cmd, t) == do_fire(e, side, cmd, t),
        op == "aa_fire"@ ==> submit(e, side, cmd, t) == do_aa_fire(e, side, cmd, t),
        op == "guide_fire"@ ==> submit(e, side, cmd, t) == do_guide_fire(e, side, cmd, t),
        op == "strike_loitering"@ ==> submit(e, side, cmd, t) == do_strike(e, side, cmd, t),
        op == "switch_altitude"@ ==> submit(e, side, cmd, t) == do_switch_altitude(e, side, cmd, t),
        op == "mount"@ ==> submit(e, side, cmd, t) == do_mount(e, side, cmd, t),
        op == "dismount"@ ==> submit(e, side, cmd, t) == do_dismount(e, side, cmd, t),
        op == "enter_facility"@ ==> submit(e, side, cmd, t) == do_enter(e, side, cmd, t),
        op == "capture"@ ==> submit(e, side, cmd, t) == do_capture(e, side, cmd, t),
        op == "radar_on"@ ==> submit(e, side, cmd, t) == do_radar_on(e, side, cmd, t),
        op == "lay_mines"@ ==> submit(e, side, cmd, t) == do_lay(e, side, cmd, t),
        op == "plan_indirect"@ ==> submit(e, side, cmd, t) == do_plan(e, side, cmd, t),
        op == "cancel_indirect"@ ==> submit(e, side, cmd, t) == do_cancel(e, side, cmd, t),
        op == "aggregate"@ ==> submit(e, side, cmd, t) == do_aggregate(e, side, cmd, t),
        op == "split"@ ==> submit(e, side, cmd, t) == do_split(e, side, cmd, t),
        op == "launch_loitering"@ ==> submit(e, side, cmd, t) == do_launch(e, side, cmd, t),
{
    reveal(movement_order);
    reveal(fire_order);
    reveal(transport_order);
    reveal(support_order);
    reveal(formation_order);
    names_differ();
}

proof fn names_differ()
    ensures
        forall|a: Seq<char>, b: Seq<char>| a.len() != b.len() ==> a != b,
        "wait"@.len() == 4,
        "stop"@.len() == 4,
        "move_to"@.len() == 7,
        "set_mode"@.len() == 8,
        "fire_direct"@.len() == 11,
        "aa_fire"@.len() == 7,
        "guide_fire"@.len() == 10,
        "strike_loitering"@.len() == 16,
        "switch_altitude"@.len() == 15,
        "mount"@.len() == 5,
        "dismount"@.len() == 8,
        "enter_facility"@.len() == 14,
        "exit_facility"@.len() == 13,
        "capture"@.len() == 7,
        "radar_on"@.len() == 8,
        "lay_mines"@.len() == 9,
        "plan_indirect"@.len() == 13,
        "cancel_indirect"@.len() == 15,
        "aggregate"@.len() == 9,
        "split"@.len() == 5,
        "launch_loitering"@.len() == 16,
        "wait"@[0] == 'w' && "stop"@[0] == 's',
        "move_to"@[0] == 'm' && "aa_fire"@[0] == 'a' && "capture"@[0] == 'c',
        "set_mode"@[0] == 's' && "dismount"@[0] == 'd' && "radar_on"@[0] == 'r',
        "strike_loitering"@[0] == 's' && "launch_loitering"@[0] == 'l',
        "switch_altitude"@[0] == 's' && "cancel_indirect"@[0] == 'c',
        "mount"@[0] == 'm' && "split"@[0] == 's',
        "exit_facility"@[0] == 'e' && "plan_indirect"@[0] == 'p',
        "lay_mines"@[0] == 'l' && "aggregate"@[0] == 'a',
{
    reveal_strlit("wait");
    reveal_strlit("stop");
    reveal_strlit("move_to");
    reveal_strlit("set_mode");
    reveal_strlit("fire_direct");
    reveal_strlit("aa_fire");
    reveal_strlit("guide_fire");
    reveal_strlit("strike_loitering");
    reveal_strlit("switch_altitude");
    reveal_strlit("mount");
    reveal_strlit("dismount");
    reveal_strlit("enter_facility");
    reveal_strlit("exit_facility");
    reveal_strlit("capture");
    reveal_strlit("radar_on");
    reveal_strlit("lay_mines");
    reveal_strlit("plan_indirect");
    reveal_strlit("cancel_indirect");
    reveal_strlit("aggregate");
    reveal_strlit("split");
    reveal_strlit("launch_loitering");
}

/// What an order to fire asks first: a live unit of the side that is not carried, not suppressed, and
/// a weapon. With a fortification named, that is the target, else the unit named.
pub proof fn whom_an_order_fires_at(e: EngineV, side: SideId, cmd: Json, id: Id, t: Tick)
    requires
        text_in(cmd, "unitId"@) == Some(id),
    ensures
        ({
            let r = do_fire(e, side, cmd, t);
            let w = text_in(cmd, "weapon"@);
            let f = text_in(cmd, "targetFacility"@);
            let u = text_in(cmd, "targetUnit"@);
            let may = there_for(e, side, id) && e.units[id].carried_by is None && !pinned(
                e.units[id],
                t,
            ) && w is Some && (f is Some || u is Some);
            &&& !may ==> r.1 is Err && r.0 == e
            &&& may && f is Some ==> r == fire_at_facility(e, side, id, w->0, f->0, t)
            &&& may && f is None ==> r == fire_at_unit(e, side, id, w->0, u->0, t)
        }),
{
}

/// What an order to guide asks first: a live vehicle of the side that is not carried, and a live guide
/// of the side in no fortification, not busy nor suppressed, that may guide it.
pub proof fn who_an_order_lets_guide(
    e: EngineV,
    side: SideId,
    cmd: Json,
    id: Id,
    guide: Id,
    weapon: Seq<char>,
    target: Id,
    t: Tick,
)
    requires
        text_in(cmd, "unitId"@) == Some(id),
        text_in(cmd, "guideId"@) == Some(guide),
        text_in(cmd, "weapon"@) == Some(weapon),
        text_in(cmd, "targetUnit"@) == Some(target),
    ensures
        ({
            let r = do_guide_fire(e, side, cmd, t);
            let g = e.units[guide];
            let may = there_for(e, side, id) && e.units[id].carried_by is None && there_for(
                e,
                side,
                guide,
            ) && g.inside_facility is None && g.busy_until <= t && !pinned(g, t) && (g.unit_type
                == UnitType::Uav || ((g.unit_type == UnitType::Infantry || (g.unit_type
                == UnitType::Ugv && g.state == UnitState::Stopped)) && g.carried_by is None
                && g.affiliated_to == Some(id)));
            &&& !may ==> r.1 is Err && r.0 == e
            &&& may ==> r == guided_at(e, side, id, guide, weapon, target, t)
        }),
{
    who_may_guide(e.units[guide], id);
}

/// The weapon, shots and interval of an air-defence unit are those that the rules have for its type.
pub proof fn what_air_defence_has(
    e: EngineV,
    t: UnitType,
    key: Seq<char>,
    weapon: Seq<char>,
    most: u64,
    pause: Tick,
)
    requires
        crate::mechanics_laws::typed_as(t, key),
        crate::json::jtext(
            jget(jget(jget(Some(e.rules.air), "aa"@), key), "weapon"@),
        ) == Some(weapon),
        crate::json::jnat(
            jget(jget(jget(Some(e.rules.air), "aa"@), key), "max_shots"@),
        ) == Some(most),
        most <= u32::MAX,
        e.rules.paces.aa_interval@.contains_key(key),
        e.rules.paces.aa_interval@[key] == pause,
    ensures
        aa_rules(e, t) == Ok::<(Seq<char>, u32, Tick), ErrV>((weapon, most as u32, pause)),
{
}

/// Who is in a fortification may always leave it and wait, and fire out of one for vehicles or for
/// combat.
pub proof fn what_garrisons_may_do(
    e: EngineV,
    side: SideId,
    cmd: Json,
    id: Id,
    op: Seq<char>,
    fac: Id,
    t: Tick,
)
    requires
        text_in(cmd, "op"@) == Some(op),
        text_in(cmd, "unitId"@) == Some(id),
        e.units.contains_key(id),
        e.units[id].inside_facility == Some(fac),
    ensures
        op == "exit_facility"@ ==> submit(e, side, cmd, t) == do_exit(e, side, cmd, t),
        op == "wait"@ ==> submit(e, side, cmd, t) == (e, Ok::<(), ErrV>(())),
        e.facilities.contains_key(fac) && (e.facilities[fac].kind == "works_vehicle"@
            || e.facilities[fac].kind == "works_infantry_combat"@) && op == "fire_direct"@
            ==> submit(e, side, cmd, t) == do_fire(e, side, cmd, t),
        e.facilities.contains_key(fac) && (e.facilities[fac].kind == "works_vehicle"@
            || e.facilities[fac].kind == "works_infantry_combat"@) && op == "aa_fire"@ ==> submit(
            e,
            side,
            cmd,
            t,
        ) == do_aa_fire(e, side, cmd, t),
        e.facilities.contains_key(fac) && e.facilities[fac].kind == "works_infantry_hidden"@
            && e.units[id].side == side && (op == "fire_direct"@ || op == "aa_fire"@) ==> submit(
            e,
            side,
            cmd,
            t,
        ).1 is Err,
{
    crate::mechanics_laws::garrisons_by_kind(UnitType::Infantry, 0);
    reveal(movement_order);
    reveal(fire_order);
    reveal(transport_order);
    reveal(support_order);
    reveal(formation_order);
    names_differ();
}

/// An order without a name, and one of a name that no order has, is refused and changes nothing.
pub proof fn unknown_orders_do_nothing(e: EngineV, side: SideId, cmd: Json, t: Tick)
    ensures
        text_in(cmd, "op"@) is None ==> submit(e, side, cmd, t).1 is Err && submit(
            e,
            side,
            cmd,
            t,
        ).0 == e,
        text_in(cmd, "op"@) == Some("teleport"@) ==> submit(e, side, cmd, t).1 is Err && submit(
            e,
            side,
            cmd,
            t,
        ).0 == e,
{
    reveal_strlit("teleport");
    assert("teleport"@.len() == 8 && "teleport"@[0] == 't');
    reveal(movement_order);
    reveal(fire_order);
    reveal(transport_order);
    reveal(support_order);
    reveal(formation_order);
    names_differ();
}

/// Each event does what it is for.
pub proof fn which_event_does_what(e: EngineV, id: Id, gen: u64, hex: Axial, to: Axial)
    ensures
        handle(e, Event::WeaponReady { unit: id }).units == (if e.units.contains_key(id) {
            e.units.insert(
                id,
                RuntimeUnit { weapon_state: WeaponState::Deployed, ..e.units[id] },
            )
        } else {
            e.units
        }),
        handle(e, Event::SuppressEnd { unit: id }) == end_suppression(e, id),
        handle(e, Event::MoveArrive { unit: id, gen, to: hex, target: to }) == arrive(
            e,
            id,
            gen,
            hex,
            to,
        ),
        handle(e, Event::MountComplete { passenger: id, gen }) == finish_mount(e, id, gen),
        handle(e, Event::IndirectFly { plan: gen }) == m::salvo_arrives(e, gen, e.clock),
        !handle(e, Event::IndirectBoomEnd { plan: gen }).indirect_plans.contains_key(gen),
        handle(e, Event::LoiteringLaunched { munition: id }) == finish_launch(e, id),
        handle(e, Event::LoiteringSelfDestruct { munition: id }) == self_destruct(e, id),
        handle(e, Event::RadarReady { vehicle: id, gen }) == finish_spinup(e, id, gen),
        handle(e, Event::SameHexEngage { hex, gen }) == m::same_hex_round(e, hex, gen, e.clock),
        handle(e, Event::FacilityEnterReady { unit: id, facility: id, gen }) == finish_enter(
            e,
            id,
            id,
            gen,
        ),
        handle(e, Event::FacilityExitReady { unit: id, gen }) == finish_exit(e, id, gen),
        handle(e, Event::MineLayReady { unit: id, at: hex, gen }) == finish_lay(e, id, hex, gen),
        handle(e, Event::FatigueDecay { unit: id, gen }) == rest(e, id, gen),
        handle(e, Event::CaptureCheck) == e,
{
}

} // verus!
