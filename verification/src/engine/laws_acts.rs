//! When orders are accepted, and what they lead to.
use crate::engine::actions::{
    agg_check, belongs_to, do_aggregate, do_capture, do_dismount, do_enter, do_exit, do_launch,
    do_lay, do_mount, do_radar_on, do_split, do_switch_altitude, objective_at, rides_in,
};
use crate::engine::events::{
    end_suppression, finish_altitude, finish_change, finish_enter, finish_exit, finish_launch,
    finish_lay, finish_mount, finish_spinup, self_destruct,
};
use crate::engine::model as m;
use crate::engine::model::{EngineV, Event, Id, MountKind};
use crate::engine::orders::{do_set_mode, do_stop, hex_in, text_in};
use crate::hex::{steps, Axial};
use crate::json::{jget, jnat, Json};
use crate::mechanics::{fort_named, stack_room, FortKind};
use crate::ordmap::{keys_where, keys_where_has, some_entry};
use crate::rules::{setting, timing_of};
use crate::time::{next_of, tick_sum, Tick};
use crate::types::{
    cell_at, ControlPoint, HeliAlt, RuntimeMinefield, RuntimeUnit, SideId, SideSet, Terrain,
    UnitState, UnitType, UnitV,
};
use vstd::prelude::*;

verus! {

// ---------- in common ----------

/// Whether a unit is suppressed at a tick.
pub open spec fn pinned(u: UnitV, t: Tick) -> bool {
    u.suppressed_until > t || u.state == UnitState::Suppressed
}

/// Whether a unit is there for a side: alive and its own.
pub open spec fn there_for(e: EngineV, side: SideId, id: Id) -> bool {
    e.units.contains_key(id) && e.units[id].side == side && e.units[id].alive
}

/// Whether a unit has been held until a tick, with an event due then, and nothing else has been done
/// to the units.
pub open spec fn held_until(a: EngineV, b: EngineV, id: Id, done: Tick, event: m::EventV) -> bool {
    &&& b.units == a.units.insert(id, RuntimeUnit { busy_until: done, ..a.units[id] })
    &&& due_at(a, b, done, event)
}

/// Whether one event more is due.
pub open spec fn due_at(a: EngineV, b: EngineV, t: Tick, event: m::EventV) -> bool {
    b.queue == m::enqueue(a.queue, m::Timed { t, seq: next_of(a.seq), event })
}

/// An event is due after all that are due no later, and before all that are due later.
pub proof fn events_take_their_place(q: Seq<m::TimedV>, x: m::TimedV, i: int)
    requires
        0 <= i < q.len(),
        forall|a: int, b: int| 0 <= a < b < q.len() ==> (#[trigger] q[a]).t <= (#[trigger] q[b]).t,
        forall|a: int| 0 <= a < q.len() ==> (#[trigger] q[a]).seq < x.seq,
    ensures
        q[i].t <= x.t ==> m::enqueue(q, x)[i] == q[i],
        q[i].t > x.t ==> m::enqueue(q, x)[i + 1] == q[i],
        m::enqueue(q, x).len() == q.len() + 1,
    decreases q.len(),
{
    enqueued_len(q, x);
    if m::sooner(x, q.last()) {
        let rest = q.drop_last();
        enqueued_len(rest, x);
        if i < rest.len() {
            events_take_their_place(rest, x, i);
        }
    } else {
        assert(q[i].t <= q[q.len() - 1].t) by {
            if i < q.len() - 1 {
                assert(q[i].t <= q[q.len() - 1].t);
            }
        }
    }
}

proof fn enqueued_len(q: Seq<m::TimedV>, x: m::TimedV)
    ensures
        m::enqueue(q, x).len() == q.len() + 1,
    decreases q.len(),
{
    if !(q.len() == 0 || !m::sooner(x, q.last())) {
        enqueued_len(q.drop_last(), x);
    }
}

// ---------- stopping and changing posture ----------

/// A unit stops after the time of the rules, exactly if it is the side's own, alive, not carried and
/// not busy.
pub proof fn when_a_unit_stops(e: EngineV, side: SideId, cmd: Json, id: Id, t: Tick)
    requires
        text_in(cmd, "unitId"@) == Some(id),
        timing_of(e.rules, "move_to_stop"@) is Some,
    ensures
        ({
            let r = do_stop(e, side, cmd, t);
            let done = tick_sum(t, timing_of(e.rules, "move_to_stop"@)->0);
            let accepted = there_for(e, side, id) && e.units[id].carried_by is None
                && e.units[id].busy_until <= t;
            &&& r.1 is Ok <==> accepted
            &&& !accepted ==> r.0 == e
            &&& accepted ==> held_until(
                e,
                r.0,
                id,
                done,
                Event::TransitionComplete { unit: id, to: UnitState::Stopped, cover_gen: None },
            )
        }),
{
}

/// A unit goes into cover after the time of the rules, exactly if it is the side's own, alive, not
/// carried, not busy and not suppressed.
pub proof fn when_a_unit_takes_cover(e: EngineV, side: SideId, cmd: Json, id: Id, t: Tick)
    requires
        text_in(cmd, "unitId"@) == Some(id),
        text_in(cmd, "mode"@) == Some("cover"@),
        timing_of(e.rules, "move_state_transition"@) is Some,
    ensures
        ({
            let r = do_set_mode(e, side, cmd, t);
            let done = tick_sum(t, timing_of(e.rules, "move_state_transition"@)->0);
            let accepted = there_for(e, side, id) && e.units[id].carried_by is None
                && e.units[id].busy_until <= t && !pinned(e.units[id], t);
            &&& r.1 is Ok <==> accepted
            &&& !accepted ==> r.0 == e
            &&& accepted ==> r.0.cover_transition.contains_key(id) && held_until(
                e,
                r.0,
                id,
                done,
                Event::TransitionComplete {
                    unit: id,
                    to: UnitState::Cover,
                    cover_gen: Some(r.0.cover_transition[id]),
                },
            )
        }),
{
    names_of_modes();
}

proof fn names_of_modes()
    ensures
        crate::engine::orders::mode_named("cover"@) == Ok::<UnitState, crate::error::ErrV>(
            UnitState::Cover,
        ),
        crate::engine::orders::mode_named("march"@) == Ok::<UnitState, crate::error::ErrV>(
            UnitState::March,
        ),
{
    reveal_strlit("normal");
    reveal_strlit("charge1");
    reveal_strlit("charge2");
    reveal_strlit("half");
    reveal_strlit("march");
    reveal_strlit("cover");
    assert("cover"@.len() == 5 && "march"@.len() == 5 && "normal"@.len() == 6 && "charge1"@.len()
        == 7 && "charge2"@.len() == 7 && "half"@.len() == 4);
    assert("cover"@[0] == 'c' && "march"@[0] == 'm');
}

/// A vehicle that is no artillery goes on the march, exactly on a road of a kind that is marched on;
/// it counts as marching at once, and is busy while its weapon is locked and it changes.
pub proof fn when_a_vehicle_marches(e: EngineV, side: SideId, cmd: Json, id: Id, t: Tick)
    requires
        text_in(cmd, "unitId"@) == Some(id),
        text_in(cmd, "mode"@) == Some("march"@),
        timing_of(e.rules, "move_state_transition"@) is Some,
        timing_of(e.rules, "weapon_lock"@) is Some,
    ensures
        ({
            let r = do_set_mode(e, side, cmd, t);
            let u = e.units[id];
            let cell = cell_at(e.map, u.pos);
            let done = tick_sum(
                t,
                tick_sum(
                    timing_of(e.rules, "weapon_lock"@)->0,
                    timing_of(e.rules, "move_state_transition"@)->0,
                ),
            );
            let accepted = there_for(e, side, id) && u.carried_by is None && u.busy_until <= t
                && u.unit_type != UnitType::Infantry && u.unit_type != UnitType::Artillery
                && u.unit_type != UnitType::Uav && u.unit_type != UnitType::AttackHeli
                && u.unit_type != UnitType::TransportHeli && u.unit_type
                != UnitType::LoiteringMunition && cell is Some && cell->0.road is Some
                && e.rules.paces.march@.contains_key(cell->0.road->0.kind@);
            &&& r.1 is Ok <==> accepted
            &&& !accepted ==> r.0 == e
            &&& accepted ==> r.0.units == e.units.insert(
                id,
                RuntimeUnit { busy_until: done, state: UnitState::March, ..u },
            ) && due_at(
                e,
                r.0,
                done,
                Event::TransitionComplete { unit: id, to: UnitState::March, cover_gen: None },
            )
        }),
{
    names_of_modes();
}

/// A change of posture ends in the new posture, with the unit free; a change into cover only if it is
/// still the one under way.
pub proof fn how_a_change_ends(e: EngineV, id: Id, to: UnitState, gen: Option<u64>)
    requires
        e.units.contains_key(id),
    ensures
        ({
            let r = finish_change(e, id, to, gen);
            let off = gen is Some && !(e.cover_transition.contains_key(id)
                && e.cover_transition[id] == gen->0);
            &&& off ==> r == e
            &&& !off ==> r.units == e.units.insert(
                id,
                RuntimeUnit { state: to, busy_until: 0, ..e.units[id] },
            )
            &&& !off && gen is Some ==> !r.cover_transition.contains_key(id)
        }),
{
}

/// Suppression ends when its time is up, unless a later one lasts on; who was in cover is still in it.
pub proof fn how_suppression_ends(e: EngineV, id: Id)
    requires
        e.units.contains_key(id),
    ensures
        ({
            let u = e.units[id];
            let v = end_suppression(e, id).units[id];
            &&& u.suppressed_until > e.clock ==> end_suppression(e, id) == e
            &&& u.suppressed_until <= e.clock ==> v.suppressed_until == 0 && v.teams == u.teams
                && v.pos == u.pos && v.state == (if u.state == UnitState::Suppressed {
                UnitState::Normal
            } else {
                u.state
            })
        }),
{
}

// ---------- control points ----------

proof fn point_found(points: Seq<ControlPoint>, hex: Axial)
    ensures
        match objective_at(points, hex) {
            Some(p) => p.at == hex && points.contains(p),
            None => forall|i: int| 0 <= i < points.len() ==> (#[trigger] points[i]).at != hex,
        },
    decreases points.len(),
{
    if points.len() > 0 {
        let rest = points.drop_first();
        point_found(rest, hex);
        if points[0].at == hex {
            assert(points.contains(points[0]));
        } else {
            if let Some(p) = objective_at(rest, hex) {
                let i = rest.index_of(p);
                assert(points[i + 1] == p);
            }
            assert forall|i: int| 0 <= i < points.len() && objective_at(rest, hex) is None implies (
            #[trigger] points[i]).at != hex by {
                if i > 0 {
                    assert(rest[i - 1] == points[i]);
                }
            }
        }
    }
}

/// A control point is taken at once, exactly by a live unit of the side that is not carried and
/// stands on it, no air unit, artillery or satellite, with no live enemy ground unit on the board
/// within the radius of the rules. It is then the side's, and no other point changes hands.
pub proof fn when_a_point_is_taken(e: EngineV, side: SideId, cmd: Json, id: Id, t: Tick)
    requires
        text_in(cmd, "unitId"@) == Some(id),
        setting(e.rules.control, "capture_no_enemy_radius_hexes"@) is Some,
    ensures
        ({
            let r = do_capture(e, side, cmd, t);
            let u = e.units[id];
            let radius = setting(e.rules.control, "capture_no_enemy_radius_hexes"@)->0;
            let fit = there_for(e, side, id) && u.carried_by is None && u.unit_type
                != UnitType::Artillery && u.unit_type != UnitType::SpaceRecon && u.unit_type
                != UnitType::Uav && u.unit_type != UnitType::AttackHeli && u.unit_type
                != UnitType::TransportHeli && u.unit_type != UnitType::LoiteringMunition;
            let on_point = exists|i: int|
                0 <= i < e.scenario.objectives@.len() && (#[trigger] e.scenario.objectives@[i]).at
                    == u.pos;
            let enemy = exists|k: Id| #[trigger]
                e.units.contains_key(k) && e.units[k].alive && e.units[k].side != side
                    && e.units[k].carried_by is None && e.units[k].inside_facility is None
                    && e.units[k].unit_type != UnitType::SpaceRecon && e.units[k].unit_type
                    != UnitType::Uav && e.units[k].unit_type != UnitType::AttackHeli
                    && e.units[k].unit_type != UnitType::TransportHeli && e.units[k].unit_type
                    != UnitType::LoiteringMunition && steps(u.pos, e.units[k].pos) <= radius;
            &&& r.1 is Ok <==> fit && on_point && !enemy
            &&& r.1 is Err ==> r.0 == e
            &&& r.1 is Ok ==> exists|i: int|
                0 <= i < e.scenario.objectives@.len() && (#[trigger] e.scenario.objectives@[i]).at
                    == u.pos && r.0 == (EngineV {
                    control: e.control.insert(e.scenario.objectives@[i].id@, Some(side)),
                    ..e
                })
        }),
{
    let u = e.units[id];
    let points = e.scenario.objectives@;
    point_found(points, u.pos);
    let radius = setting(e.rules.control, "capture_no_enemy_radius_hexes"@)->0;
    if let Some(cp) = objective_at(points, u.pos) {
        let i = points.index_of(cp);
        assert(points[i].at == u.pos);
        let p = crate::mechanics::contests(side, cp.at, radius);
        if some_entry(e.units, p) {
            let k = choose|k: Id| #[trigger] e.units.contains_key(k) && p(k, e.units[k]);
            assert(e.units.contains_key(k) && p(k, e.units[k]));
        } else {
            assert forall|k: Id| #[trigger] e.units.contains_key(k) implies !p(k, e.units[k]) by {}
        }
    }
}

// ---------- radar and altitude ----------

/// A radar spins up exactly if it is a live radar vehicle of the side that is not carried, stands
/// still, is not suppressed, and is neither on nor spinning up.
pub proof fn when_a_radar_spins_up(e: EngineV, side: SideId, cmd: Json, id: Id, t: Tick)
    requires
        text_in(cmd, "unitId"@) == Some(id),
        timing_of(e.rules, "radar_spinup"@) is Some,
    ensures
        ({
            let r = do_radar_on(e, side, cmd, t);
            let u = e.units[id];
            let done = tick_sum(t, timing_of(e.rules, "radar_spinup"@)->0);
            let accepted = there_for(e, side, id) && u.carried_by is None && u.unit_type
                == UnitType::RadarVehicle && u.state == UnitState::Stopped && !pinned(u, t)
                && !e.radar_on.contains_key(id) && !e.radar_spinup.contains_key(id);
            &&& r.1 is Ok <==> accepted
            &&& !accepted ==> r.0 == e
            &&& accepted ==> r.0.radar_spinup.contains_key(id) && r.0.radar_on == e.radar_on
                && held_until(
                e,
                r.0,
                id,
                done,
                Event::RadarReady { vehicle: id, gen: r.0.radar_spinup[id] },
            )
        }),
{
}

/// A radar whose spin-up was not interrupted is on, if its vehicle lives, and free.
pub proof fn how_a_spinup_ends(e: EngineV, id: Id, gen: u64)
    requires
        e.units.contains_key(id),
    ensures
        ({
            let r = finish_spinup(e, id, gen);
            let good = e.radar_spinup.contains_key(id) && e.radar_spinup[id] == gen;
            &&& !good ==> r == e
            &&& good && e.units[id].alive ==> r.radar_on.contains_key(id)
            &&& good && !e.units[id].alive ==> r.radar_on == e.radar_on
            &&& good ==> !r.radar_spinup.contains_key(id) && r.units == e.units.insert(
                id,
                RuntimeUnit { busy_until: 0, ..e.units[id] },
            )
        }),
{
}

/// A transport helicopter that is the side's own, alive and not busy changes its altitude after the
/// time of the rules, between low and either of the others. To where it is it goes at once.
pub proof fn when_a_helicopter_changes_altitude(
    e: EngineV,
    side: SideId,
    cmd: Json,
    id: Id,
    t: Tick,
    to: HeliAlt,
)
    requires
        text_in(cmd, "unitId"@) == Some(id),
        text_in(cmd, "altitude"@) == Some(
            match to {
                HeliAlt::High => "high"@,
                HeliAlt::Low => "low"@,
                HeliAlt::VeryLow => "very_low"@,
            },
        ),
        timing_of(e.rules, "heli_altitude_switch"@) is Some,
    ensures
        ({
            let r = do_switch_altitude(e, side, cmd, t);
            let u = e.units[id];
            let done = tick_sum(t, timing_of(e.rules, "heli_altitude_switch"@)->0);
            let fit = there_for(e, side, id) && u.busy_until <= t && u.unit_type
                == UnitType::TransportHeli;
            let far = (u.heli_alt == HeliAlt::High && to == HeliAlt::VeryLow) || (u.heli_alt
                == HeliAlt::VeryLow && to == HeliAlt::High);
            &&& r.1 is Ok <==> fit && !far
            &&& r.1 is Err ==> r.0 == e
            &&& fit && u.heli_alt == to ==> r.0 == e
            &&& fit && !far && u.heli_alt != to ==> held_until(
                e,
                r.0,
                id,
                done,
                Event::HeliAltReady { heli: id, to },
            )
            &&& e.units.contains_key(id) ==> finish_altitude(e, id, to).units == e.units.insert(
                id,
                RuntimeUnit { heli_alt: to, busy_until: 0, ..u },
            )
        }),
{
    reveal_strlit("high");
    reveal_strlit("low");
    reveal_strlit("very_low");
    assert("high"@.len() == 4 && "low"@.len() == 3 && "very_low"@.len() == 8);
}

// ---------- boarding ----------

/// Whether a helicopter hovers where people may board and leave it: very low over open ground.
pub open spec fn hovers(e: EngineV, v: UnitV) -> bool {
    v.unit_type == UnitType::TransportHeli ==> v.heli_alt == HeliAlt::VeryLow && cell_at(
        e.map,
        v.pos,
    ) is Some && cell_at(e.map, v.pos)->0.terrain == Terrain::Open
}

/// A squad boards exactly if both are live units of the side, neither is busy nor suppressed, the
/// squad is on foot and in no vehicle, the vehicle carries squads, both stand still in one hex, and
/// the vehicle, if a helicopter, hovers, is empty and has room for all its teams.
pub proof fn when_a_squad_boards(e: EngineV, side: SideId, cmd: Json, id: Id, vehicle: Id, t: Tick)
    requires
        text_in(cmd, "unitId"@) == Some(id),
        text_in(cmd, "vehicleId"@) == Some(vehicle),
        timing_of(e.rules, "mount_dismount"@) is Some,
    ensures
        ({
            let r = do_mount(e, side, cmd, t);
            let (p, v) = (e.units[id], e.units[vehicle]);
            let done = tick_sum(t, timing_of(e.rules, "mount_dismount"@)->0);
            let heli = v.unit_type == UnitType::TransportHeli;
            let rider = exists|k: Id| #[trigger]
                e.units.contains_key(k) && e.units[k].alive && e.units[k].carried_by == Some(vehicle);
            let room = match jnat(jget(Some(e.rules.air), "heli_capacity_squads"@)) {
                Some(n) => n as int,
                None => 0int,
            };
            let accepted = there_for(e, side, id) && there_for(e, side, vehicle) && p.busy_until
                <= t && v.busy_until <= t && !pinned(p, t) && !pinned(v, t) && hovers(e, v)
                && p.carried_by is None && (p.unit_type == UnitType::Infantry || p.unit_type
                == UnitType::AaMissileSquad) && (v.unit_type == UnitType::Ifv || v.unit_type
                == UnitType::Pickup || heli) && p.pos == v.pos && p.state == UnitState::Stopped
                && v.state == UnitState::Stopped && (heli ==> !rider && p.teams <= room);
            &&& r.1 is Ok <==> accepted
            &&& !accepted ==> r.0 == e
            &&& accepted ==> r.0.mount_op.contains_key(id) && r.0.mount_op[id].vehicle == vehicle
                && r.0.mount_op[id].kind == MountKind::Mount && r.0.units[id].busy_until == done
                && r.0.units[vehicle].busy_until == done && due_at(
                e,
                r.0,
                done,
                Event::MountComplete { passenger: id, gen: r.0.mount_op[id].gen },
            )
        }),
{
    let p = rides_in(vehicle);
    if some_entry(e.units, p) {
        let k = choose|k: Id| #[trigger] e.units.contains_key(k) && p(k, e.units[k]);
        assert(e.units.contains_key(k) && p(k, e.units[k]));
    } else {
        assert forall|k: Id| #[trigger] e.units.contains_key(k) implies !p(k, e.units[k]) by {}
    }
}

/// A passenger leaves its vehicle exactly if neither is busy nor suppressed, the vehicle stands still
/// in its hex, hovers if it is a helicopter, and the hex has room.
pub proof fn when_a_passenger_leaves(e: EngineV, side: SideId, cmd: Json, id: Id, vehicle: Id, t: Tick)
    requires
        text_in(cmd, "unitId"@) == Some(id),
        there_for(e, side, id),
        e.units[id].carried_by == Some(vehicle),
        e.units.contains_key(vehicle),
        timing_of(e.rules, "mount_dismount"@) is Some,
    ensures
        ({
            let r = do_dismount(e, side, cmd, t);
            let (p, v) = (e.units[id], e.units[vehicle]);
            let done = tick_sum(t, timing_of(e.rules, "mount_dismount"@)->0);
            let accepted = p.busy_until <= t && v.busy_until <= t && !pinned(p, t) && !pinned(v, t)
                && hovers(e, v) && v.state == UnitState::Stopped && p.pos == v.pos && stack_room(
                e.units,
                p.side,
                v.pos,
                id,
                e.stacking_cap,
            );
            &&& r.1 is Ok <==> accepted
            &&& !accepted ==> r.0 == e
            &&& accepted ==> r.0.mount_op.contains_key(id) && r.0.mount_op[id].vehicle == vehicle
                && r.0.mount_op[id].kind == MountKind::Dismount && r.0.units[id].busy_until == done
                && r.0.units[vehicle].busy_until == done && due_at(
                e,
                r.0,
                done,
                Event::MountComplete { passenger: id, gen: r.0.mount_op[id].gen },
            )
        }),
{
}

/// Who has boarded rides in the vehicle, where the vehicle is; who has left it is out, where the
/// vehicle is, or still inside if the hex has filled up. Both are free.
pub proof fn how_boarding_ends(e: EngineV, p: Id, gen: u64)
    requires
        e.mount_op.contains_key(p),
        e.units.contains_key(p),
        e.units.contains_key(e.mount_op[p].vehicle),
        p != e.mount_op[p].vehicle,
    ensures
        ({
            let op = e.mount_op[p];
            let r = finish_mount(e, p, gen);
            let full = op.kind == MountKind::Dismount && !stack_room(
                e.units,
                e.units[p].side,
                e.units[op.vehicle].pos,
                p,
                e.stacking_cap,
            );
            &&& op.gen != gen ==> r == e
            &&& op.gen == gen ==> !r.mount_op.contains_key(p) && r.units[p].busy_until == 0
                && r.units[op.vehicle] == (RuntimeUnit { busy_until: 0, ..e.units[op.vehicle] })
            &&& op.gen == gen && !full ==> r.units[p].pos == e.units[op.vehicle].pos
            &&& op.gen == gen && op.kind == MountKind::Mount ==> r.units[p].carried_by == Some(
                op.vehicle,
            )
            &&& op.gen == gen && op.kind == MountKind::Dismount && !full
                ==> r.units[p].carried_by is None
            &&& op.gen == gen && full ==> r.units[p].carried_by == e.units[p].carried_by
                && r.units[p].pos == e.units[p].pos
        }),
{
}

// ---------- fortifications ----------

/// A unit enters a fortification exactly if it is a live unit of the side, neither carried, busy,
/// marching, inside one nor suppressed; the fortification is the side's or nobody's, in its hex, and
/// for its class; it stands still; and with those inside its teams are no more than the capacity.
pub proof fn when_a_unit_enters_works(e: EngineV, side: SideId, cmd: Json, id: Id, fac: Id, t: Tick)
    requires
        text_in(cmd, "unitId"@) == Some(id),
        text_in(cmd, "facilityId"@) == Some(fac),
        timing_of(e.rules, "fortification_transition"@) is Some,
    ensures
        ({
            let r = do_enter(e, side, cmd, t);
            let (u, f) = (e.units[id], e.facilities[fac]);
            let done = tick_sum(t, timing_of(e.rules, "fortification_transition"@)->0);
            let foot = u.unit_type == UnitType::Infantry || u.unit_type == UnitType::AaMissileSquad;
            let flies = u.unit_type == UnitType::Uav || u.unit_type == UnitType::AttackHeli
                || u.unit_type == UnitType::TransportHeli || u.unit_type
                == UnitType::LoiteringMunition;
            let fits = match fort_named(f.kind) {
                None => false,
                Some(FortKind::Vehicle) => !foot && !flies,
                Some(_) => foot,
            };
            let inside = m::teams_of(e.units, keys_where::<String, UnitV>(e.units, m::inside(fac)));
            let accepted = there_for(e, side, id) && u.carried_by is None && u.busy_until <= t
                && u.inside_facility is None && !pinned(u, t) && e.facilities.contains_key(fac) && (
            f.owner is None || f.owner == Some(side)) && fits && u.pos == f.at && u.state
                == UnitState::Stopped && inside + u.teams <= f.capacity;
            &&& r.1 is Ok <==> accepted
            &&& !accepted ==> r.0 == e
            &&& accepted ==> r.0.facility_gen.contains_key(id) && held_until(
                e,
                r.0,
                id,
                done,
                Event::FacilityEnterReady {
                    unit: id,
                    facility: fac,
                    gen: r.0.facility_gen[id],
                },
            )
        }),
{
}

/// A unit leaves its fortification exactly if it is a live unit of the side, inside one, not busy,
/// and its hex has room.
pub proof fn when_a_unit_leaves_works(e: EngineV, side: SideId, cmd: Json, id: Id, t: Tick)
    requires
        text_in(cmd, "unitId"@) == Some(id),
        timing_of(e.rules, "fortification_transition"@) is Some,
    ensures
        ({
            let r = do_exit(e, side, cmd, t);
            let u = e.units[id];
            let done = tick_sum(t, timing_of(e.rules, "fortification_transition"@)->0);
            let accepted = there_for(e, side, id) && u.busy_until <= t && u.inside_facility is Some
                && stack_room(e.units, u.side, u.pos, id, e.stacking_cap);
            &&& r.1 is Ok <==> accepted
            &&& !accepted ==> r.0 == e
            &&& accepted ==> r.0.facility_gen.contains_key(id) && held_until(
                e,
                r.0,
                id,
                done,
                Event::FacilityExitReady { unit: id, gen: r.0.facility_gen[id] },
            )
        }),
{
}

/// At the door a unit goes in exactly if it lives, is outside, stands still, is not suppressed, no
/// live enemy is on the board in its hex, and there is still room.
pub proof fn who_goes_in(e: EngineV, id: Id, fac: Id, gen: u64)
    requires
        e.units.contains_key(id),
        e.facility_gen.contains_key(id),
        e.facility_gen[id] == gen,
    ensures
        ({
            let u = e.units[id];
            let v = finish_enter(e, id, fac, gen).units[id];
            let enemy = exists|k: Id| #[trigger]
                e.units.contains_key(k) && e.units[k].alive && e.units[k].side != u.side
                    && e.units[k].pos == u.pos && e.units[k].carried_by is None
                    && e.units[k].inside_facility is None;
            let inside = m::teams_of(e.units, keys_where::<String, UnitV>(e.units, m::inside(fac)));
            let room = if e.facilities.contains_key(fac) {
                e.facilities[fac].capacity as int
            } else {
                0
            };
            let goes = u.alive && u.inside_facility is None && u.state == UnitState::Stopped
                && !pinned(u, e.clock) && !enemy && inside + u.teams <= room;
            &&& goes ==> v == (RuntimeUnit { inside_facility: Some(fac), busy_until: 0, ..u })
            &&& !goes ==> v == (RuntimeUnit { busy_until: 0, ..u })
        }),
{
    let u = e.units[id];
    let p = crate::engine::events::enemy_at(u.pos, u.side);
    if some_entry(e.units, p) {
        let k = choose|k: Id| #[trigger] e.units.contains_key(k) && p(k, e.units[k]);
        assert(e.units.contains_key(k) && p(k, e.units[k]));
    } else {
        assert forall|k: Id| #[trigger] e.units.contains_key(k) implies !p(k, e.units[k]) by {}
    }
}

/// A unit that comes out is out if it lives and its hex has room, and may then have to fight; or else
/// it stays, and is free.
pub proof fn who_comes_out(e: EngineV, id: Id, gen: u64)
    requires
        e.units.contains_key(id),
        e.facility_gen.contains_key(id),
        e.facility_gen[id] == gen,
    ensures
        ({
            let u = e.units[id];
            let r = finish_exit(e, id, gen);
            let comes = u.alive && u.inside_facility is Some && stack_room(
                e.units,
                u.side,
                u.pos,
                id,
                e.stacking_cap,
            );
            let out = m::stamp_entry(
                EngineV {
                    units: e.units.insert(
                        id,
                        RuntimeUnit { inside_facility: None, busy_until: 0, ..u },
                    ),
                    ..e
                },
                id,
            );
            &&& comes ==> r == m::trigger_same_hex(out, u.pos, e.clock)
            &&& !comes ==> r.units == e.units.insert(id, RuntimeUnit { busy_until: 0, ..u })
        }),
{
}

/// Who counts as inside a fortification: the live units that say so.
pub proof fn who_is_inside(units: Map<Id, UnitV>, fac: Id, k: Id)
    requires
        units.dom().finite(),
    ensures
        keys_where::<String, UnitV>(units, m::inside(fac)).contains(k) <==> units.contains_key(k)
            && units[k].alive && units[k].inside_facility == Some(fac),
{
    keys_where_has::<String, UnitV>(units, m::inside(fac), k);
}

// ---------- mines ----------

/// Mines are laid exactly by a live minelayer of the side, neither carried, busy nor suppressed, that
/// stands still and has some left, on a hex of the board within its reach that holds none.
pub proof fn when_mines_are_laid(e: EngineV, side: SideId, cmd: Json, id: Id, t: Tick, hex: Axial)
    requires
        text_in(cmd, "unitId"@) == Some(id),
        hex_in(jget(Some(cmd), "targetHex"@)) == Some(hex),
        timing_of(e.rules, "minefield_lay"@) is Some,
        setting(e.rules.minefield, "lay_range_hexes"@) is Some,
        setting(e.rules.minefield, "max_lays_per_vehicle"@) is Some,
        0 <= setting(e.rules.minefield, "max_lays_per_vehicle"@)->0 <= u32::MAX,
    ensures
        ({
            let r = do_lay(e, side, cmd, t);
            let u = e.units[id];
            let laid = if e.minelayer_lays.contains_key(id) {
                e.minelayer_lays[id] as int
            } else {
                0
            };
            let done = tick_sum(t, timing_of(e.rules, "minefield_lay"@)->0);
            let accepted = there_for(e, side, id) && u.carried_by is None && u.busy_until <= t
                && u.unit_type == UnitType::Minelayer && !pinned(u, t) && u.state
                == UnitState::Stopped && cell_at(e.map, hex) is Some && !e.minefields.contains_key(
                hex,
            ) && steps(u.pos, hex) <= setting(e.rules.minefield, "lay_range_hexes"@)->0 && laid
                < setting(e.rules.minefield, "max_lays_per_vehicle"@)->0;
            &&& r.1 is Ok <==> accepted
            &&& !accepted ==> r.0 == e
            &&& accepted ==> r.0.minelayer_gen.contains_key(id) && r.0.minelay_in_flight.contains_key(
                id,
            ) && r.0.minefields == e.minefields && held_until(
                e,
                r.0,
                id,
                done,
                Event::MineLayReady { unit: id, at: hex, gen: r.0.minelayer_gen[id] },
            )
        }),
{
}

/// The mines are there if the layer lived, stood still and was not suppressed to the end: they are
/// its side's, without a lane, and it has one laying less. Mines that are there already stay as they
/// are.
pub proof fn how_laying_ends(e: EngineV, id: Id, hex: Axial, gen: u64)
    requires
        e.units.contains_key(id),
        e.minelayer_gen.contains_key(id),
        e.minelayer_gen[id] == gen,
        e.units[id].busy_until == e.clock,
    ensures
        ({
            let u = e.units[id];
            let r = finish_lay(e, id, hex, gen);
            let laid = if e.minelayer_lays.contains_key(id) {
                e.minelayer_lays[id] as int
            } else {
                0
            };
            let good = u.alive && u.state == UnitState::Stopped && !pinned(u, e.clock);
            &&& r.units == e.units.insert(id, RuntimeUnit { busy_until: 0, ..u })
            &&& !r.minelay_in_flight.contains_key(id)
            &&& !good ==> r.minefields == e.minefields && r.minelayer_lays == e.minelayer_lays
            &&& good && laid < u32::MAX ==> r.minelayer_lays.contains_key(id)
                && r.minelayer_lays[id] == laid + 1
            &&& good && e.minefields.contains_key(hex) ==> r.minefields == e.minefields
            &&& good && !e.minefields.contains_key(hex) ==> r.minefields == e.minefields.insert(
                hex,
                RuntimeMinefield {
                    at: hex,
                    owner: Some(u.side),
                    cleared_by: SideSet { red: false, blue: false },
                },
            )
        }),
{
}

// ---------- merging and splitting ----------

/// Whether a unit may be merged or split: a live ground unit of the side that is no artillery, in the
/// open, not busy nor suppressed, standing still, in no fight, with nobody aboard and no munition of
/// its own in the air.
pub open spec fn may_regroup(e: EngineV, side: SideId, id: Id, t: Tick) -> bool {
    let u = e.units[id];
    there_for(e, side, id) && u.carried_by is None && u.inside_facility is None && u.busy_until <= t
        && !pinned(u, t) && u.unit_type != UnitType::Artillery && u.unit_type != UnitType::Uav
        && u.unit_type != UnitType::AttackHeli && u.unit_type != UnitType::TransportHeli
        && u.unit_type != UnitType::LoiteringMunition && u.state == UnitState::Stopped
        && !e.same_hex.contains_key(u.pos) && (forall|k: Id| #[trigger]
        e.units.contains_key(k) ==> !(e.units[k].alive && e.units[k].carried_by == Some(id))) && (
    forall|k: Id| #[trigger] e.loitering_parent.contains_key(k) ==> e.loitering_parent[k] != id)
}

proof fn regroups(e: EngineV, side: SideId, id: Id, t: Tick)
    ensures
        agg_check(e, side, id, t) is Ok <==> may_regroup(e, side, id, t),
        agg_check(e, side, id, t) is Ok ==> agg_check(e, side, id, t)->Ok_0 == (
            e.units[id].unit_type,
            e.units[id].pos,
            e.units[id].teams,
        ),
{
    let p = rides_in(id);
    let q = m::launched_from(id);
    if some_entry(e.units, p) {
        let k = choose|k: Id| #[trigger] e.units.contains_key(k) && p(k, e.units[k]);
        assert(e.units.contains_key(k) && p(k, e.units[k]));
    } else {
        assert forall|k: Id| #[trigger] e.units.contains_key(k) implies !p(k, e.units[k]) by {}
    }
    if some_entry(e.loitering_parent, q) {
        let k = choose|k: Id| #[trigger]
            e.loitering_parent.contains_key(k) && q(k, e.loitering_parent[k]);
        assert(e.loitering_parent.contains_key(k) && q(k, e.loitering_parent[k]));
    } else {
        assert forall|k: Id| #[trigger] e.loitering_parent.contains_key(k) implies !q(
            k,
            e.loitering_parent[k],
        ) by {}
    }
}

/// Two units merge exactly if both may be regrouped, are different units of one type in one hex,
/// nobody belongs to the one that goes, and both have teams, together no more than the rules allow.
pub proof fn when_units_merge(e: EngineV, side: SideId, cmd: Json, id: Id, other: Id, t: Tick, cap: i64)
    requires
        text_in(cmd, "unitId"@) == Some(id),
        text_in(cmd, "targetUnit"@) == Some(other),
        timing_of(e.rules, "aggregate_split"@) is Some,
        setting(e.rules.control, "max_squads_per_unit"@) == Some(cap),
        0 <= cap <= 255,
    ensures
        ({
            let r = do_aggregate(e, side, cmd, t);
            let (a, b) = (e.units[id], e.units[other]);
            let done = tick_sum(t, timing_of(e.rules, "aggregate_split"@)->0);
            let accepted = id != other && may_regroup(e, side, id, t) && may_regroup(
                e,
                side,
                other,
                t,
            ) && a.unit_type == b.unit_type && a.pos == b.pos && (forall|k: Id| #[trigger]
                e.units.contains_key(k) ==> !(e.units[k].alive && e.units[k].affiliated_to == Some(
                    other,
                ))) && a.teams > 0 && b.teams > 0 && a.teams + b.teams <= cap;
            &&& r.1 is Ok <==> accepted
            &&& !accepted ==> r.0 == e
            &&& accepted ==> r.0.units[id].busy_until == done && r.0.units[other].busy_until == done
                && r.0.aggsplit_op.contains_key(id) && r.0.aggsplit_op[id].kind == (
            m::AggSplitKind::Aggregate { other }) && due_at(
                e,
                r.0,
                done,
                Event::AggSplitComplete { unit: id, gen: r.0.aggsplit_op[id].gen },
            )
        }),
{
    regroups(e, side, id, t);
    regroups(e, side, other, t);
    let p = belongs_to(other);
    if some_entry(e.units, p) {
        let k = choose|k: Id| #[trigger] e.units.contains_key(k) && p(k, e.units[k]);
        assert(e.units.contains_key(k) && p(k, e.units[k]));
    } else {
        assert forall|k: Id| #[trigger] e.units.contains_key(k) implies !p(k, e.units[k]) by {}
    }
}

/// A unit splits exactly if it may be regrouped, has at least two teams and no more than the rules
/// allow, and its hex has room for one more.
pub proof fn when_a_unit_splits(e: EngineV, side: SideId, cmd: Json, id: Id, t: Tick, cap: i64)
    requires
        text_in(cmd, "unitId"@) == Some(id),
        timing_of(e.rules, "aggregate_split"@) is Some,
        setting(e.rules.control, "max_squads_per_unit"@) == Some(cap),
        0 <= cap <= 255,
    ensures
        ({
            let r = do_split(e, side, cmd, t);
            let u = e.units[id];
            let done = tick_sum(t, timing_of(e.rules, "aggregate_split"@)->0);
            let accepted = may_regroup(e, side, id, t) && 2 <= u.teams <= cap && stack_room(
                e.units,
                side,
                u.pos,
                "#probe"@,
                e.stacking_cap,
            );
            &&& r.1 is Ok <==> accepted
            &&& !accepted ==> r.0 == e
            &&& accepted ==> r.0.aggsplit_op.contains_key(id) && r.0.aggsplit_op[id].kind
                == m::AggSplitKind::<Id>::Split && held_until(
                e,
                r.0,
                id,
                done,
                Event::AggSplitComplete { unit: id, gen: r.0.aggsplit_op[id].gen },
            )
        }),
{
    regroups(e, side, id, t);
}

// ---------- loitering munitions ----------

/// A munition is launched exactly if it is a live one of the side, loaded on a vehicle that does not
/// march, not busy, for a hex of the board, while no other of the vehicle is in the air or leaving.
pub proof fn when_a_munition_is_launched(e: EngineV, side: SideId, cmd: Json, id: Id, t: Tick, hex: Axial)
    requires
        text_in(cmd, "unitId"@) == Some(id),
        hex_in(jget(Some(cmd), "targetArea"@)) == Some(hex),
        timing_of(e.rules, "loitering_launch"@) is Some,
        timing_of(e.rules, "loitering_endurance"@) is Some,
    ensures
        ({
            let r = do_launch(e, side, cmd, t);
            let u = e.units[id];
            let carrier = u.carried_by->0;
            let done = tick_sum(t, timing_of(e.rules, "loitering_launch"@)->0);
            let accepted = there_for(e, side, id) && u.unit_type == UnitType::LoiteringMunition
                && u.carried_by is Some && !(e.units.contains_key(carrier)
                && e.units[carrier].state == UnitState::March) && u.busy_until <= t && cell_at(
                e.map,
                hex,
            ) is Some && (forall|k: Id| #[trigger]
                e.loitering_parent.contains_key(k) ==> e.loitering_parent[k] != carrier) && (
            forall|k: Id| #[trigger]
                e.units.contains_key(k) ==> !(e.units[k].id != id && e.units[k].carried_by == Some(
                    carrier,
                ) && e.units[k].unit_type == UnitType::LoiteringMunition && e.units[k].busy_until
                    > t));
            &&& r.1 is Ok <==> accepted
            &&& !accepted ==> r.0 == e
            &&& accepted ==> r.0.loitering_target.contains_key(id) && r.0.loitering_target[id] == hex
                && held_until(e, r.0, id, done, Event::LoiteringLaunched { munition: id })
        }),
{
    if e.units.contains_key(id) && e.units[id].carried_by is Some {
        let carrier = e.units[id].carried_by->0;
        let p = crate::engine::actions::launching(id, carrier, t);
        let q = m::launched_from(carrier);
        if some_entry(e.units, p) {
            let k = choose|k: Id| #[trigger] e.units.contains_key(k) && p(k, e.units[k]);
            assert(e.units.contains_key(k) && p(k, e.units[k]));
        } else {
            assert forall|k: Id| #[trigger] e.units.contains_key(k) implies !p(k, e.units[k]) by {}
        }
        if some_entry(e.loitering_parent, q) {
            let k = choose|k: Id| #[trigger]
                e.loitering_parent.contains_key(k) && q(k, e.loitering_parent[k]);
            assert(e.loitering_parent.contains_key(k) && q(k, e.loitering_parent[k]));
        } else {
            assert forall|k: Id| #[trigger] e.loitering_parent.contains_key(k) implies !q(
                k,
                e.loitering_parent[k],
            ) by {}
        }
    }
}

/// A munition that leaves its vehicle starts from where the vehicle is, flies on its own, knows its
/// vehicle, and destroys itself after the time of the rules. It stays loaded if another of the
/// vehicle is in the air.
pub proof fn how_a_launch_ends(e: EngineV, id: Id, carrier: Id)
    requires
        e.units.contains_key(id),
        e.units[id].alive,
        e.units[id].carried_by == Some(carrier),
        e.units.contains_key(carrier),
        timing_of(e.rules, "loitering_endurance"@) is Some,
    ensures
        ({
            let r = finish_launch(e, id);
            let taken = exists|k: Id| #[trigger]
                e.loitering_parent.contains_key(k) && e.loitering_parent[k] == carrier;
            let end = tick_sum(e.clock, timing_of(e.rules, "loitering_endurance"@)->0);
            &&& taken ==> r.units == e.units.insert(
                id,
                RuntimeUnit { busy_until: 0, ..e.units[id] },
            ) && r.loitering_parent == e.loitering_parent && r.queue == e.queue
            &&& !taken ==> r.units == e.units.insert(
                id,
                RuntimeUnit {
                    carried_by: None,
                    busy_until: 0,
                    pos: e.units[carrier].pos,
                    ..e.units[id]
                },
            ) && r.loitering_parent == e.loitering_parent.insert(id, carrier) && due_at(
                e,
                r,
                end,
                Event::LoiteringSelfDestruct { munition: id },
            )
            &&& !self_destruct(e, id).units[id].alive && self_destruct(e, id).units[id].teams == 0
            &&& !self_destruct(e, id).loitering_parent.contains_key(id)
        }),
{
    let q = m::launched_from(carrier);
    if some_entry(e.loitering_parent, q) {
        let k = choose|k: Id| #[trigger]
            e.loitering_parent.contains_key(k) && q(k, e.loitering_parent[k]);
        assert(e.loitering_parent.contains_key(k) && q(k, e.loitering_parent[k]));
    } else {
        assert forall|k: Id| #[trigger] e.loitering_parent.contains_key(k) implies !q(
            k,
            e.loitering_parent[k],
        ) by {}
    }
}

/// A unit that is not on the march goes back to normal movement after the time of the rules.
pub proof fn when_a_unit_moves_normally(e: EngineV, side: SideId, cmd: Json, id: Id, t: Tick)
    requires
        text_in(cmd, "unitId"@) == Some(id),
        text_in(cmd, "mode"@) == Some("normal"@),
        timing_of(e.rules, "move_state_transition"@) is Some,
    ensures
        ({
            let r = do_set_mode(e, side, cmd, t);
            let done = tick_sum(t, timing_of(e.rules, "move_state_transition"@)->0);
            let accepted = there_for(e, side, id) && e.units[id].carried_by is None
                && e.units[id].busy_until <= t;
            &&& r.1 is Ok <==> accepted
            &&& !accepted ==> r.0 == e
            &&& accepted ==> held_until(
                e,
                r.0,
                id,
                done,
                Event::TransitionComplete { unit: id, to: UnitState::Normal, cover_gen: None },
            )
        }),
{
}

} // verus!
