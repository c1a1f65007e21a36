//! Which orders are given in vain.
use crate::combat::{direct_step, guided_step, posture_fires, works_step};
use crate::engine::actions::{
    count_setting, do_aggregate, do_capture, do_enter, do_launch, do_lay, do_plan, do_radar_on,
    do_split, launching, lays_of, objective_at,
};
use crate::engine::fire::{
    aa_rules, as_firing, do_aa_fire, do_fire, do_guide_fire, do_strike, fire_at_facility,
    fire_at_unit, guided_at, shots_fired, target_of, works_target,
};
use crate::engine::model as m;
use crate::engine::model::{Done, EngineV, Id};
use crate::engine::moves::{on_route, plan_hop, roadblocked};
use crate::engine::orders::{
    do_move, do_set_mode, do_stop, fires_out, garrison_error, mode_named, mounted, submit, text_in,
};
use crate::error::ErrV;
use crate::hex::{hex_distance, line_hex, steps, Axial};
use crate::json::Json;
use crate::mechanics::{air, contests, fort_range, ground};
use crate::ordmap::{keys_where, some_entry};
use crate::prob::Outcome;
use crate::rng::PcgRng;
use crate::rules::setting;
use crate::time::Tick;
use crate::types::{on_board, RuntimeFacility, SideId, UnitState, UnitType, UnitV, WeaponState};
use vstd::prelude::*;

verus! {

/// Whether an order was refused and nothing has changed.
pub open spec fn in_vain(e: EngineV, d: Done) -> bool {
    d.0 == e && d.1 is Err
}

/// A suppressed unit does not fire, from cover or not.
pub proof fn suppressed_units_do_not_fire(e: EngineV, side: SideId, cmd: Json, id: Id, t: Tick)
    requires
        text_in(cmd, "unitId"@) == Some(id),
        m::suppressed(e.units, id, t),
    ensures
        in_vain(e, do_fire(e, side, cmd, t)),
        in_vain(e, do_aa_fire(e, side, cmd, t)),
{
}

proof fn marching_shot(e: EngineV, side: SideId, id: Id, weapon: Seq<char>, target: Id, t: Tick)
    requires
        e.units[id].state == UnitState::March,
    ensures
        in_vain(e, fire_at_unit(e, side, id, weapon, target, t)),
{
    if let Some(v) = target_of(e, side, target) {
        let u = as_firing(e.units[id]);
        assert(!posture_fires(u, weapon));
        assert(direct_step::<PcgRng>(
            e.tables,
            e.map,
            e.rng,
            e.rules,
            u,
            weapon,
            v,
        ).0 is Rejected);
    }
}

proof fn marching_shot_at_works(
    e: EngineV,
    side: SideId,
    id: Id,
    weapon: Seq<char>,
    fac: Id,
    t: Tick,
)
    requires
        e.units[id].state == UnitState::March,
    ensures
        in_vain(e, fire_at_facility(e, side, id, weapon, fac, t)),
{
    if let Some((f, kind)) = works_target(e, side, fac) {
        let u = as_firing(e.units[id]);
        let exposed = match setting(e.rules.fortification, "exposed_range_hexes"@) {
            Some(n) => n as int,
            None => 0,
        };
        assert(!posture_fires(u, weapon));
        assert(works_step::<PcgRng>(
            e.tables,
            e.map,
            e.rng,
            e.rules,
            u,
            weapon,
            f.at,
            f.armor,
            fort_range(kind, exposed),
        ).0 is Rejected);
    }
}

proof fn marching_missile(
    e: EngineV,
    side: SideId,
    id: Id,
    guide: Id,
    weapon: Seq<char>,
    target: Id,
    t: Tick,
)
    requires
        e.units[id].state == UnitState::March,
    ensures
        in_vain(e, guided_at(e, side, id, guide, weapon, target, t)),
{
    if let Some(v) = target_of(e, side, target) {
        assert(guided_step::<PcgRng>(
            e.tables,
            e.map,
            e.rng,
            e.rules,
            e.units[guide],
            e.units[id],
            weapon,
            v,
        ).0 is Rejected);
    }
}

/// A unit on the march does not fire.
pub proof fn marching_units_do_not_fire(e: EngineV, side: SideId, cmd: Json, id: Id, t: Tick)
    requires
        text_in(cmd, "unitId"@) == Some(id),
        e.units.contains_key(id),
        e.units[id].state == UnitState::March,
    ensures
        in_vain(e, do_fire(e, side, cmd, t)),
        in_vain(e, do_aa_fire(e, side, cmd, t)),
        in_vain(e, do_guide_fire(e, side, cmd, t)),
{
    if let Some(w) = text_in(cmd, "weapon"@) {
        if let Some(target) = text_in(cmd, "targetUnit"@) {
            marching_shot(e, side, id, w, target, t);
            if let Some(guide) = text_in(cmd, "guideId"@) {
                marching_missile(e, side, id, guide, w, target, t);
            }
        }
        if let Some(fac) = text_in(cmd, "targetFacility"@) {
            marching_shot_at_works(e, side, id, w, fac, t);
        }
    }
}

/// A weapon that cools does not fire.
pub proof fn cooling_weapons_do_not_fire(e: EngineV, side: SideId, cmd: Json, id: Id, t: Tick)
    requires
        text_in(cmd, "unitId"@) == Some(id),
        e.units.contains_key(id),
        e.units[id].weapon_state != WeaponState::Deployed,
    ensures
        in_vain(e, do_fire(e, side, cmd, t)),
        in_vain(e, do_aa_fire(e, side, cmd, t)),
        in_vain(e, do_guide_fire(e, side, cmd, t)),
{
}

/// A unit inside a vehicle neither moves nor fires nor acts.
pub proof fn passengers_do_not_act(e: EngineV, side: SideId, cmd: Json, id: Id, t: Tick)
    requires
        text_in(cmd, "unitId"@) == Some(id),
        mounted(e, id),
    ensures
        in_vain(e, do_stop(e, side, cmd, t)),
        in_vain(e, do_move(e, side, cmd, t)),
        in_vain(e, do_set_mode(e, side, cmd, t)),
        in_vain(e, do_fire(e, side, cmd, t)),
        in_vain(e, do_aa_fire(e, side, cmd, t)),
        in_vain(e, do_guide_fire(e, side, cmd, t)),
        in_vain(e, do_capture(e, side, cmd, t)),
        in_vain(e, do_radar_on(e, side, cmd, t)),
        in_vain(e, do_enter(e, side, cmd, t)),
        in_vain(e, do_lay(e, side, cmd, t)),
        in_vain(e, do_plan(e, side, cmd, t)),
        in_vain(e, do_aggregate(e, side, cmd, t)),
        in_vain(e, do_split(e, side, cmd, t)),
{
}

/// A unit inside a fortification may leave it or wait. Any other order for it is refused, unless
/// the fortification can be fired out of and the order is to fire.
pub proof fn garrisons_stay(e: EngineV, side: SideId, cmd: Json, op: Seq<char>, id: Id, fac: Id, t: Tick)
    requires
        text_in(cmd, "op"@) == Some(op),
        text_in(cmd, "unitId"@) == Some(id),
        op != "exit_facility"@,
        op != "wait"@,
        e.units.contains_key(id),
        e.units[id].side == side,
        e.units[id].inside_facility == Some(fac),
        fires_out(e, fac) ==> op != "fire_direct"@ && op != "aa_fire"@,
    ensures
        submit(e, side, cmd, t) == (e, Err::<(), ErrV>(garrison_error(id))),
{
}

/// A control point is taken only by a unit that stands on it, with no enemy ground unit within the
/// radius of the rules; and no other control point changes hands.
pub proof fn captures_are_uncontested(e: EngineV, side: SideId, cmd: Json, id: Id, t: Tick, k: Id)
    requires
        text_in(cmd, "unitId"@) == Some(id),
        do_capture(e, side, cmd, t).1 is Ok,
        e.units.contains_key(k),
    ensures
        ({
            let at_hex = objective_at(e.scenario.objectives@, e.units[id].pos);
            let u = e.units[k];
            let radius = setting(
                e.rules.control,
                "capture_no_enemy_radius_hexes"@,
            );
            &&& at_hex is Some
            &&& do_capture(e, side, cmd, t).0 == (EngineV {
                control: e.control.insert(at_hex->0.id@, Some(side)),
                ..e
            })
            &&& u.alive && u.side != side && ground(u.unit_type) && u.unit_type
                != UnitType::SpaceRecon && on_board(u) ==> steps(at_hex->0.at, u.pos) > radius->0
        }),
{
    let cp = objective_at(e.scenario.objectives@, e.units[id].pos)->0;
    let radius = setting(e.rules.control, "capture_no_enemy_radius_hexes"@)->0;
    assert(contests(side, cp.at, radius)(k, e.units[k]) ==> some_entry(
        e.units,
        contests(side, cp.at, radius),
    ));
}

// ---------- what nobody does ----------

/// A target that cannot be one: fire at it is refused, whoever fires and whatever with.
proof fn no_target(e: EngineV, side: SideId, cmd: Json, id: Id, t: Tick)
    requires
        text_in(cmd, "targetFacility"@) is None,
        text_in(cmd, "targetUnit"@) == Some(id),
        target_of(e, side, id) is None,
    ensures
        in_vain(e, do_fire(e, side, cmd, t)),
        in_vain(e, do_aa_fire(e, side, cmd, t)),
        in_vain(e, do_guide_fire(e, side, cmd, t)),
        in_vain(e, do_strike(e, side, cmd, t)),
{
}

/// Nobody fires at a satellite.
pub proof fn satellites_are_not_fired_at(e: EngineV, side: SideId, cmd: Json, id: Id, t: Tick)
    requires
        text_in(cmd, "targetFacility"@) is None,
        text_in(cmd, "targetUnit"@) == Some(id),
        e.units.contains_key(id),
        e.units[id].unit_type == UnitType::SpaceRecon,
    ensures
        in_vain(e, do_fire(e, side, cmd, t)),
        in_vain(e, do_aa_fire(e, side, cmd, t)),
        in_vain(e, do_guide_fire(e, side, cmd, t)),
        in_vain(e, do_strike(e, side, cmd, t)),
{
    no_target(e, side, cmd, id, t);
}

/// Nobody fires at a unit of its own side, at a dead one, or at one that rides in a vehicle or
/// hides in a fortification.
pub proof fn friends_and_hidden_units_are_not_fired_at(
    e: EngineV,
    side: SideId,
    cmd: Json,
    id: Id,
    t: Tick,
)
    requires
        text_in(cmd, "targetFacility"@) is None,
        text_in(cmd, "targetUnit"@) == Some(id),
        e.units.contains_key(id),
        e.units[id].side == side || !e.units[id].alive || e.units[id].carried_by is Some
            || e.units[id].inside_facility is Some,
    ensures
        in_vain(e, do_fire(e, side, cmd, t)),
        in_vain(e, do_aa_fire(e, side, cmd, t)),
        in_vain(e, do_guide_fire(e, side, cmd, t)),
        in_vain(e, do_strike(e, side, cmd, t)),
{
    no_target(e, side, cmd, id, t);
}

/// A carrier has at most one munition in the air: while one is aloft, or leaves, no other is
/// launched.
pub proof fn one_munition_at_a_time(
    e: EngineV,
    side: SideId,
    cmd: Json,
    id: Id,
    vehicle: Id,
    other: Id,
    t: Tick,
)
    requires
        text_in(cmd, "unitId"@) == Some(id),
        e.units.contains_key(id),
        e.units[id].carried_by == Some(vehicle),
        e.loitering_parent.contains_key(other) && e.loitering_parent[other] == vehicle
            || e.units.contains_key(other) && launching(id, vehicle, t)(other, e.units[other]),
    ensures
        in_vain(e, do_launch(e, side, cmd, t)),
{
    if e.loitering_parent.contains_key(other) && e.loitering_parent[other] == vehicle {
        assert(m::launched_from(vehicle)(other, e.loitering_parent[other]));
        assert(some_entry(e.loitering_parent, m::launched_from(vehicle)));
    } else {
        assert(some_entry(e.units, launching(id, vehicle, t)));
    }
}

/// A minelayer lays no more minefields than the rules allow it.
pub proof fn minelayers_run_out(e: EngineV, side: SideId, cmd: Json, id: Id, t: Tick)
    requires
        text_in(cmd, "unitId"@) == Some(id),
        lays_of(e, id) >= count_setting(setting(e.rules.minefield, "max_lays_per_vehicle"@)),
    ensures
        in_vain(e, do_lay(e, side, cmd, t)),
{
}

/// An air-defence unit fires no more often than the rules allow it.
pub proof fn air_defence_runs_out(e: EngineV, side: SideId, cmd: Json, id: Id, t: Tick)
    requires
        text_in(cmd, "unitId"@) == Some(id),
        match aa_rules(e, e.units[id].unit_type) {
            Ok((_, max_shots, _)) => shots_fired(e, id) >= max_shots,
            Err(_) => true,
        },
    ensures
        in_vain(e, do_aa_fire(e, side, cmd, t)),
{
}

/// Half speed and the charges are ways to move, not postures: no unit is set to them.
pub proof fn speeds_are_no_postures(e: EngineV, side: SideId, cmd: Json, t: Tick)
    requires
        text_in(cmd, "mode"@) == Some("half"@) || text_in(cmd, "mode"@) == Some("charge1"@)
            || text_in(cmd, "mode"@) == Some("charge2"@),
    ensures
        in_vain(e, do_set_mode(e, side, cmd, t)),
{
    reveal_strlit("normal");
    reveal_strlit("charge1");
    reveal_strlit("charge2");
    reveal_strlit("half");
    assert("half"@.len() == 4 && "normal"@.len() == 6 && "charge1"@.len() == 7 && "charge2"@.len()
        == 7);
    assert("charge1"@[6] == '1' && "charge2"@[6] == '2');
    let mode = text_in(cmd, "mode"@)->0;
    let to = mode_named(mode);
    assert(to is Ok && (to->Ok_0 == UnitState::Half || to->Ok_0 == UnitState::Charge1 || to->Ok_0
        == UnitState::Charge2));
}

/// A ground unit whose next hex holds a roadblock, and a marching one whose next hex its road does
/// not lead to, plans no step: it halts where it is.
pub proof fn roads_and_roadblocks_are_kept_to(
    e: EngineV,
    id: Id,
    gen: u64,
    target: Axial,
    now: Tick,
)
    requires
        e.units.contains_key(id),
        ({
            let u = e.units[id];
            let next = line_hex(u.pos, target, hex_distance(u.pos, target), 1);
            !air(u.unit_type) && roadblocked(e.scenario, next) || u.state == UnitState::March
                && !on_route(e.map, u.pos, next)
        }),
    ensures
        plan_hop(e, id, gen, target, now) == e || plan_hop(e, id, gen, target, now)
            == m::settle_stopped(e, id),
{
}

/// The teams that a hit takes from a fortification for vehicles.
pub open spec fn works_loss(outcome: Outcome) -> int {
    match outcome {
        Outcome::Destroyed(n) => n as int,
        Outcome::Kill => 255,
        _ => 0,
    }
}

/// Fire at a fortification for vehicles costs the vehicles inside nothing, as long as it still
/// holds them; and with every hit it holds fewer.
pub proof fn works_shield_their_vehicles(e: EngineV, fac: Id, outcome: Outcome)
    requires
        e.facilities.contains_key(fac),
        m::teams_of(e.units, keys_where::<String, UnitV>(e.units, m::inside(fac)))
            <= e.facilities[fac].capacity - works_loss(outcome),
    ensures
        m::vehicle_works_hit(e, fac, outcome).units == e.units,
        m::vehicle_works_hit(e, fac, outcome).facilities[fac].capacity == e.facilities[fac].capacity
            - works_loss(outcome),
{
    let inside = keys_where::<String, UnitV>(e.units, m::inside(fac));
    teams_counted(e.units, inside);
    let loss = works_loss(outcome);
    if loss > 0 {
        let left = (e.facilities[fac].capacity - loss) as u8;
        let f = RuntimeFacility { capacity: left, ..e.facilities[fac] };
        assert(m::vehicle_works_hit(e, fac, outcome) == EngineV {
            facilities: e.facilities.insert(fac, f),
            ..e
        });
    }
}

proof fn teams_counted(units: Map<Id, UnitV>, ids: Seq<Id>)
    ensures
        m::teams_of(units, ids) >= 0,
    decreases ids.len(),
{
    if ids.len() > 0 {
        teams_counted(units, ids.drop_last());
    }
}

} // verus!
