//! How units move, and what they meet.
use crate::combat::mine_loss;
use crate::engine::events::{
    arrive, hidden_at, meet_mines, meet_salvos, rest, rider_of, step_onto, uncover, uncover_f,
};
use crate::engine::model as m;
use crate::engine::model::{EngineV, Event, Id};
use crate::engine::moves::{on_route, plan_hop, roadblocked, step_ticks};
use crate::engine::orders::{do_move, leave_hex, set_out, speed_barred, speed_in, text_in};
use crate::hex::{direction, hex_distance, line_hex, line_steps, Axial};
use crate::json::{jget, jint_or, Json};
use crate::mechanics::{fatigue_interval, halts_march, stack_room, stacked_at};
use crate::mechanics_laws::{alike_but_at, on_wheels, paced_as, typed_as};
use crate::ordmap::{keys_where, keys_where_has, some_entry};
use crate::prob::Outcome;
use crate::rng::{dice, PcgRng};
use crate::rules::at;
use crate::time::{next_of, seconds_in_ticks, tick_sum, Tick};
use crate::types::{
    cell_at, GameMap, HeliAlt, RuntimeMinefield, RuntimeUnit, SideId, Terrain, UnitState, UnitType,
    UnitV,
};
use vstd::prelude::*;

verus! {

// ---------- one step ----------

/// Whether a unit type walks: infantry.
pub open spec fn walks(t: UnitType) -> bool {
    t == UnitType::Infantry
}

/// Whether a unit type flies.
pub open spec fn flies(t: UnitType) -> bool {
    t == UnitType::Uav || t == UnitType::AttackHeli || t == UnitType::TransportHeli || t
        == UnitType::LoiteringMunition
}

/// A vehicle that does not march takes for a step the time of the hex that it enters: what grows in
/// the hex that it leaves changes nothing.
pub proof fn steps_by_the_ground_entered(e: EngineV, e2: EngineV, id: Id, t: UnitType, from: Axial, to: Axial)
    requires
        e2 == (EngineV { map: e2.map, ..e }),
        alike_but_at(e.map, e2.map, from),
        from != to,
        e.units.contains_key(id),
        e.units[id].state != UnitState::March,
    ensures
        step_ticks(e, id, t, from, to) == step_ticks(e2, id, t, from, to),
{
    assert(cell_at(e.map, to) == cell_at(e2.map, to));
}

/// The time of a vehicle's step that is no march, over open country: that of the rules for its type,
/// the terrain of the hex that it enters and the levels between the two hexes, at the pace of its
/// mode. A road or rail hex is entered at the pace of the road. A hex with a roadblock is not
/// entered, nor one that is too steep, nor one off the board.
pub proof fn steps_of_vehicles(
    e: EngineV,
    id: Id,
    t: UnitType,
    key: Seq<char>,
    from: Axial,
    to: Axial,
    name: Seq<char>,
)
    requires
        typed_as(t, key),
        !flies(t),
        !walks(t),
        e.units.contains_key(id),
        e.units[id].state != UnitState::March,
        cell_at(e.map, from) is Some,
        cell_at(e.map, to) is Some,
        paced_as(cell_at(e.map, to)->0.terrain, name),
    ensures
        ({
            let ticks = step_ticks(e, id, t, from, to);
            let a = cell_at(e.map, from)->0;
            let b = cell_at(e.map, to)->0;
            let half = e.units[id].state == UnitState::Half;
            let climb = if b.elevation > a.elevation {
                b.elevation - a.elevation
            } else {
                a.elevation - b.elevation
            };
            let most = jint_or(
                jget(jget(Some(e.rules.movement), "slope_rule"@), "impassable_above_level"@),
                5,
            );
            let paces = e.rules.paces.ground@;
            let paved = b.terrain == Terrain::Road || b.terrain == Terrain::Rail;
            &&& roadblocked(e.scenario, to) ==> ticks is None
            &&& !paces.contains_key(key) ==> ticks is None
            &&& !roadblocked(e.scenario, to) && paces.contains_key(key) && paved ==> ticks == (if half {
                paces[key].road.half
            } else {
                paces[key].road.normal
            })
            &&& !paved && climb > most ==> ticks is None
            &&& !roadblocked(e.scenario, to) && paces.contains_key(key) && !paved && climb <= most
                && climb <= 1 && paces[key].off_road@.contains_key(name)
                && paces[key].off_road@[name].len() > 0 ==> ticks == (if half {
                paces[key].off_road@[name][0].half
            } else {
                paces[key].off_road@[name][0].normal
            })
            &&& !roadblocked(e.scenario, to) && paces.contains_key(key) && !paved && climb <= most
                && 1 < climb <= paces[key].off_road@[name].len()
                && paces[key].off_road@.contains_key(name) ==> ticks == (if half {
                paces[key].off_road@[name][climb - 1].half
            } else {
                paces[key].off_road@[name][climb - 1].normal
            })
        }),
{
    let a = cell_at(e.map, from)->0;
    let b = cell_at(e.map, to)->0;
    on_wheels(
        e.rules,
        t,
        key,
        b.terrain,
        name,
        a.elevation,
        b.elevation,
        e.units[id].state,
    );
}

/// Infantry takes the same time over any ground, by the mode that it walks in, and the slow pace
/// where the two hexes differ too much in height; it enters no roadblock.
pub proof fn steps_on_foot(e: EngineV, id: Id, from: Axial, to: Axial)
    requires
        e.units.contains_key(id),
        e.units[id].state != UnitState::March,
        cell_at(e.map, from) is Some,
        cell_at(e.map, to) is Some,
        e.map.elevation_unit_meters is Some,
        0 <= e.map.elevation_unit_meters->0 <= i32::MAX,
    ensures
        ({
            let ticks = step_ticks(e, id, UnitType::Infantry, from, to);
            let d = cell_at(e.map, to)->0.elevation - cell_at(e.map, from)->0.elevation;
            let metres = (if d < 0 {
                -d
            } else {
                d
            }) * e.map.elevation_unit_meters->0;
            let pace = if metres > jint_or(
                jget(Some(e.rules.movement), "infantry_highdiff_meters_halfspeed"@),
                60,
            ) {
                e.rules.paces.foot_steep
            } else {
                e.rules.paces.foot
            };
            &&& roadblocked(e.scenario, to) ==> ticks is None
            &&& !roadblocked(e.scenario, to) ==> match e.units[id].state {
                UnitState::Normal | UnitState::Moving => ticks == pace.normal,
                UnitState::Half => ticks == pace.half,
                UnitState::Charge1 => ticks == pace.charge1,
                UnitState::Charge2 => ticks == pace.charge2,
                UnitState::Cover | UnitState::Stopped | UnitState::Suppressed => ticks is None,
                UnitState::March => true,
            }
        }),
{
}

/// A unit on the march keeps to the road of the hex that it leaves: it goes at that road's speed, and
/// nowhere without a road.
pub proof fn steps_on_the_march(e: EngineV, id: Id, t: UnitType, from: Axial, to: Axial)
    requires
        !flies(t),
        e.units.contains_key(id),
        e.units[id].state == UnitState::March,
        cell_at(e.map, from) is Some,
        cell_at(e.map, to) is Some,
        !roadblocked(e.scenario, to),
    ensures
        match cell_at(e.map, from)->0.road {
            None => step_ticks(e, id, t, from, to) is None,
            Some(road) => if e.rules.paces.march@.contains_key(road.kind@) {
                step_ticks(e, id, t, from, to) == Some(e.rules.paces.march@[road.kind@])
            } else {
                step_ticks(e, id, t, from, to) is None
            },
        },
{
}

/// An air unit flies over any ground and any roadblock at the pace of its type, a transport
/// helicopter at very low altitude at the slow one.
pub proof fn steps_through_the_air(e: EngineV, id: Id, t: UnitType, key: Seq<char>, from: Axial, to: Axial)
    requires
        flies(t),
        typed_as(t, key),
        e.units.contains_key(id),
        cell_at(e.map, from) is Some,
        cell_at(e.map, to) is Some,
    ensures
        ({
            let ticks = step_ticks(e, id, t, from, to);
            let slow = t == UnitType::TransportHeli && e.units[id].heli_alt == HeliAlt::VeryLow;
            &&& !e.rules.paces.flight@.contains_key(key) ==> ticks is None
            &&& e.rules.paces.flight@.contains_key(key) && slow ==> ticks == Some(
                e.rules.paces.flight@[key].very_low,
            )
            &&& e.rules.paces.flight@.contains_key(key) && !slow ==> ticks == Some(
                e.rules.paces.flight@[key].normal,
            )
        }),
{
}

/// Nobody steps off the board or from off it.
pub proof fn no_step_off_the_board(e: EngineV, id: Id, t: UnitType, from: Axial, to: Axial)
    requires
        cell_at(e.map, from) is None || cell_at(e.map, to) is None,
    ensures
        step_ticks(e, id, t, from, to) is None,
{
}

/// A hex is blocked by the scenario's roadblocks and nothing else.
pub proof fn what_blocks_a_road(e: EngineV, hex: Axial, i: int)
    requires
        0 <= i < e.scenario.facilities@.len(),
        e.scenario.facilities@[i].at == hex,
        e.scenario.facilities@[i].kind@ == "roadblock"@,
    ensures
        roadblocked(e.scenario, hex),
{
}

/// A road runs from a hex to the next exactly if it leaves the one towards the other and the other
/// towards the one.
pub proof fn where_a_road_runs(map: GameMap, from: Axial, to: Axial, d: u8)
    requires
        d < 6,
        to.q - from.q == direction(d as int).0,
        to.r - from.r == direction(d as int).1,
        cell_at(map, from) is Some,
        cell_at(map, to) is Some,
    ensures
        on_route(map, from, to) <==> cell_at(map, from)->0.road is Some && cell_at(
            map,
            to,
        )->0.road is Some && cell_at(map, from)->0.road->0.connects@.contains(d) && cell_at(
            map,
            to,
        )->0.road->0.connects@.contains(((d + 3) % 6) as u8),
{
}

// ---------- room in a hex ----------

/// Who takes room in a hex: the live ground units of the side on the board there, other than the one
/// that comes. There is room as long as they are fewer than the rules allow.
pub proof fn who_takes_room(
    units: Map<Id, UnitV>,
    side: SideId,
    hex: Axial,
    mover: Id,
    cap: i64,
    k: Id,
)
    requires
        units.dom().finite(),
    ensures
        ({
            let there = keys_where::<String, UnitV>(units, stacked_at(side, hex, mover));
            &&& stack_room(units, side, hex, mover, cap) <==> there.len() < cap
            &&& there.contains(k) <==> units.contains_key(k) && units[k].alive && units[k].side
                == side && !flies(units[k].unit_type) && units[k].unit_type != UnitType::SpaceRecon
                && units[k].carried_by is None && units[k].inside_facility is None && units[k].pos
                == hex && units[k].id != mover
        }),
{
    keys_where_has::<String, UnitV>(units, stacked_at(side, hex, mover), k);
}

// ---------- on the way ----------

/// A unit on its way plans the next hex of the straight line to its target: one step on, and one step
/// nearer. It is there after the time of the step, at least one tick, and busy until then.
pub proof fn how_a_hop_is_planned(e: EngineV, id: Id, gen: u64, target: Axial, now: Tick)
    requires
        e.units.contains_key(id),
        e.units[id].alive,
        e.units[id].pos != target,
        e.move_gen.contains_key(id),
        e.move_gen[id] == gen,
    ensures
        ({
            let u = e.units[id];
            let r = plan_hop(e, id, gen, target, now);
            exists|next: Axial|
                hex_distance(u.pos, next) == 1 && hex_distance(next, target) == hex_distance(
                    u.pos,
                    target,
                ) - 1 && ({
                    let step = #[trigger] step_ticks(e, id, u.unit_type, u.pos, next);
                    let tired = u.unit_type == UnitType::Infantry && ((u.fatigue >= 2 && u.state
                        != UnitState::Cover && u.state != UnitState::Stopped && u.state
                        != UnitState::Suppressed) || (u.fatigue >= 1 && u.state
                        == UnitState::Charge2));
                    let column = u.state == UnitState::March && (!on_route(e.map, u.pos, next)
                        || exists|k: Id| #[trigger]
                        e.units.contains_key(k) && e.units[k].alive && e.units[k].pos == next
                            && e.units[k].carried_by is None && e.units[k].inside_facility is None
                            && e.units[k].state != UnitState::March);
                    let goes = !tired && !column && step is Some && stack_room(
                        e.units,
                        u.side,
                        next,
                        id,
                        e.stacking_cap,
                    );
                    let arrival = tick_sum(
                        now,
                        if step->0 > 1 {
                            step->0
                        } else {
                            1
                        },
                    );
                    &&& !goes ==> r == m::settle_stopped(e, id)
                    &&& goes ==> r.units == e.units.insert(
                        id,
                        RuntimeUnit { busy_until: arrival, ..u },
                    ) && r.queue == m::enqueue(
                        e.queue,
                        m::Timed {
                            t: arrival,
                            seq: next_of(e.seq),
                            event: Event::MoveArrive { unit: id, gen, to: next, target },
                        },
                    )
                })
        }),
{
    let u = e.units[id];
    let next = line_hex(u.pos, target, hex_distance(u.pos, target), 1);
    let n = hex_distance(u.pos, target);
    assert(n >= 1) by {
        if n == 0 {
            assert(u.pos.q == target.q && u.pos.r == target.r);
        }
    }
    line_steps(u.pos, target, 1);
    assert(crate::hex::line(u.pos, target)[1] == next);
    let p = halts_march(next);
    if some_entry(e.units, p) {
        let k = choose|k: Id| #[trigger] e.units.contains_key(k) && p(k, e.units[k]);
        assert(e.units.contains_key(k) && p(k, e.units[k]));
    }
    if exists|k: Id| #[trigger]
        e.units.contains_key(k) && e.units[k].alive && e.units[k].pos == next
            && e.units[k].carried_by is None && e.units[k].inside_facility is None
            && e.units[k].state != UnitState::March {
        let k = choose|k: Id| #[trigger]
            e.units.contains_key(k) && e.units[k].alive && e.units[k].pos == next
                && e.units[k].carried_by is None && e.units[k].inside_facility is None
                && e.units[k].state != UnitState::March;
        assert(p(k, e.units[k]));
    }
    let step = step_ticks(e, id, u.unit_type, u.pos, next);
    assert(hex_distance(u.pos, next) == 1);
}

/// A unit that has arrived, a dead one and one under a newer order plan no step: the first halts, the
/// others are left alone.
pub proof fn when_no_hop_is_planned(e: EngineV, id: Id, gen: u64, target: Axial, now: Tick)
    ensures
        !e.units.contains_key(id) || !e.units[id].alive || !e.move_gen.contains_key(id)
            || e.move_gen[id] != gen ==> plan_hop(e, id, gen, target, now) == e,
        e.units.contains_key(id) && e.units[id].alive && e.move_gen.contains_key(id)
            && e.move_gen[id] == gen && e.units[id].pos == target ==> plan_hop(
            e,
            id,
            gen,
            target,
            now,
        ) == m::settle_stopped(e, id),
{
}

/// A unit that halts stops, or goes on marching if it was; it is free; and if it is tired, its next
/// point of fatigue goes after the interval of the rules.
pub proof fn what_halting_does(e: EngineV, id: Id)
    requires
        e.units.contains_key(id),
    ensures
        ({
            let u = e.units[id];
            let r = m::settle_stopped(e, id);
            &&& r.units == e.units.insert(
                id,
                RuntimeUnit {
                    state: if u.state == UnitState::March {
                        UnitState::March
                    } else {
                        UnitState::Stopped
                    },
                    busy_until: 0,
                    ..u
                },
            )
            &&& u.fatigue <= 0 ==> r.queue == e.queue
            &&& u.fatigue > 0 ==> r.queue == m::enqueue(
                e.queue,
                m::Timed {
                    t: tick_sum(e.clock, seconds_in_ticks(fatigue_interval(e.rules)) as i64),
                    seq: next_of(e.seq),
                    event: Event::FatigueDecay { unit: id, gen: r.fatigue_gen[id] },
                },
            )
        }),
{
}

/// An undisturbed rest takes one point of fatigue, down to none; a disturbed one takes none.
pub proof fn what_a_rest_takes(e: EngineV, id: Id, gen: u64)
    requires
        e.units.contains_key(id),
    ensures
        !e.fatigue_gen.contains_key(id) || e.fatigue_gen[id] != gen ==> rest(e, id, gen) == e,
        e.fatigue_gen.contains_key(id) && e.fatigue_gen[id] == gen ==> rest(e, id, gen).units
            == e.units.insert(
            id,
            RuntimeUnit {
                fatigue: if e.units[id].fatigue > 0 {
                    (e.units[id].fatigue - 1) as i64
                } else {
                    e.units[id].fatigue
                },
                ..e.units[id]
            },
        ),
{
}

/// A unit that sets out takes up the speed that was ordered, or plain movement; on the march it goes
/// on marching. Earlier orders and rests no longer count.
pub proof fn what_setting_out_does(e: EngineV, id: Id, speed: Option<UnitState>, target: Axial, t: Tick)
    requires
        e.units.contains_key(id),
    ensures
        ({
            let u = e.units[id];
            let gen = m::fresh(e.move_gen, id);
            let moved = RuntimeUnit {
                state: if u.state == UnitState::March {
                    UnitState::March
                } else if speed is Some {
                    speed->0
                } else {
                    UnitState::Moving
                },
                ..u
            };
            set_out(e, id, speed, target, t) == plan_hop(
                EngineV {
                    move_gen: e.move_gen.insert(id, gen),
                    fatigue_gen: e.fatigue_gen.insert(id, m::fresh(e.fatigue_gen, id)),
                    units: e.units.insert(id, moved),
                    ..e
                },
                id,
                gen,
                target,
                t,
            )
        }),
{
}

/// The speeds that an order may name, and who may move at them: only infantry charges, a tired one
/// not at the second speed, and a very tired one moves at none.
pub proof fn who_moves_at_which_speed(u: UnitV, cmd: Json)
    ensures
        text_in(cmd, "mode"@) is None ==> speed_in(cmd) == Ok::<
            Option<UnitState>,
            crate::error::ErrV,
        >(None),
        text_in(cmd, "mode"@) == Some("half"@) ==> speed_in(cmd) == Ok::<
            Option<UnitState>,
            crate::error::ErrV,
        >(Some(UnitState::Half)),
        text_in(cmd, "mode"@) == Some("charge1"@) ==> speed_in(cmd) == Ok::<
            Option<UnitState>,
            crate::error::ErrV,
        >(Some(UnitState::Charge1)),
        text_in(cmd, "mode"@) == Some("charge2"@) ==> speed_in(cmd) == Ok::<
            Option<UnitState>,
            crate::error::ErrV,
        >(Some(UnitState::Charge2)),
        text_in(cmd, "mode"@) == Some("march"@) || text_in(cmd, "mode"@) == Some("cover"@)
            ==> speed_in(cmd) is Err,
        u.unit_type != UnitType::Infantry ==> (speed_barred(u, Some(UnitState::Charge1)) is Some
            && speed_barred(u, Some(UnitState::Charge2)) is Some && speed_barred(u, None) is None
            && speed_barred(u, Some(UnitState::Half)) is None),
        u.unit_type == UnitType::Infantry ==> {
            &&& speed_barred(u, Some(UnitState::Charge1)) is None <==> u.fatigue < 2
            &&& speed_barred(u, Some(UnitState::Charge2)) is None <==> u.fatigue < 1
            &&& speed_barred(u, Some(UnitState::Half)) is None <==> u.fatigue < 2
            &&& speed_barred(u, None) is None <==> u.fatigue < 2
        },
{
    reveal_strlit("normal");
    reveal_strlit("half");
    reveal_strlit("charge1");
    reveal_strlit("charge2");
    reveal_strlit("march");
    reveal_strlit("cover");
    assert("normal"@.len() == 6 && "half"@.len() == 4 && "charge1"@.len() == 7 && "charge2"@.len()
        == 7 && "march"@.len() == 5 && "cover"@.len() == 5);
    assert("charge1"@[6] == '1' && "charge2"@[6] == '2');
}

/// Leaving its hex, a unit turns its radar off; out of a fight it is fired at.
pub proof fn what_leaving_costs(e: EngineV, id: Id, t: Tick)
    requires
        e.units.contains_key(id),
    ensures
        ({
            let off = EngineV { radar_on: e.radar_on.remove(id), ..e };
            leave_hex(e, id, t) == if e.same_hex.contains_key(e.units[id].pos) {
                m::punish(off, id, e.units[id].pos, t)
            } else {
                off
            }
        }),
{
}

// ---------- arriving ----------

/// A unit that is alive and under its last order arrives, unless the hex has no room or it marches
/// and somebody there does not: then it halts where it is. Having entered, it meets the salvos and
/// then the mines there; if it lives, hidden enemies are found, a fight may begin, and it goes on.
pub proof fn how_a_unit_arrives(e: EngineV, id: Id, gen: u64, to: Axial, target: Axial)
    requires
        e.units.contains_key(id),
    ensures
        ({
            let u = e.units[id];
            let r = arrive(e, id, gen, to, target);
            let stale = !u.alive || !e.move_gen.contains_key(id) || e.move_gen[id] != gen;
            let blocked = u.state == UnitState::March && exists|k: Id| #[trigger]
                e.units.contains_key(k) && e.units[k].alive && e.units[k].pos == to
                    && e.units[k].carried_by is None && e.units[k].inside_facility is None
                    && e.units[k].state != UnitState::March;
            let enters = !blocked && stack_room(e.units, u.side, to, id, e.stacking_cap);
            let entered = step_onto(e, id, u, to);
            let met = meet_mines(meet_salvos(entered, id, to), id, to);
            &&& stale ==> r == e
            &&& !stale && !enters ==> r == m::settle_stopped(e, id)
            &&& !stale && enters && (!met.units.contains_key(id) || !met.units[id].alive) ==> r == met
            &&& !stale && enters && met.units.contains_key(id) && met.units[id].alive ==> ({
                let found = m::each(
                    met,
                    keys_where::<String, UnitV>(
                        met.units,
                        hidden_at(met.facilities, to, met.units[id].side),
                    ),
                    |x: EngineV, k: Id| uncover(x, k),
                );
                let fought = m::trigger_same_hex(found, to, found.clock);
                r == plan_hop(fought, id, gen, target, fought.clock)
            })
        }),
{
    let p = halts_march(to);
    if some_entry(e.units, p) {
        let k = choose|k: Id| #[trigger] e.units.contains_key(k) && p(k, e.units[k]);
        assert(e.units.contains_key(k) && p(k, e.units[k]));
    }
    if exists|k: Id| #[trigger]
        e.units.contains_key(k) && e.units[k].alive && e.units[k].pos == to
            && e.units[k].carried_by is None && e.units[k].inside_facility is None
            && e.units[k].state != UnitState::March {
        let k = choose|k: Id| #[trigger]
            e.units.contains_key(k) && e.units[k].alive && e.units[k].pos == to
                && e.units[k].carried_by is None && e.units[k].inside_facility is None
                && e.units[k].state != UnitState::March;
        assert(p(k, e.units[k]));
    }
    let f = |x: EngineV, k: Id| uncover(x, k);
    assert(f =~= uncover_f());
}

/// A charging unit tires by what the rules say per hex of its charge; at any other speed it does not.
pub proof fn who_tires_on_the_way(e: EngineV, id: Id, to: Axial)
    requires
        e.units.contains_key(id),
        e.units[id].carried_by is None,
    ensures
        ({
            let u = e.units[id];
            let v = step_onto(e, id, u, to).units[id];
            let charge = |name: Seq<char>|
                jint_or(
                    jget(
                        jget(jget(Some(e.rules.movement), "infantry_charge"@), name),
                        "fatigue_per_hex"@,
                    ),
                    0,
                );
            &&& v.pos == to && v.teams == u.teams && v.state == u.state && v.alive == u.alive
            &&& u.state == UnitState::Charge1 ==> v.fatigue == tick_sum(
                u.fatigue,
                charge("charge1"@) as i64,
            )
            &&& u.state == UnitState::Charge2 ==> v.fatigue == tick_sum(
                u.fatigue,
                charge("charge2"@) as i64,
            )
            &&& u.state != UnitState::Charge1 && u.state != UnitState::Charge2 ==> v.fatigue
                == u.fatigue
        }),
{
    let u = e.units[id];
    let v = RuntimeUnit {
        pos: to,
        fatigue: tick_sum(u.fatigue, crate::mechanics::fatigue_per_hex(e.rules, u.state)),
        ..u
    };
    let e2 = m::stamp_entry(m::put_unit(e, id, v), id);
    let e3 = if u.pos != to {
        m::end_same_hex(e2, u.pos)
    } else {
        e2
    };
    assert(e3.units[id] == v);
    let ids = keys_where::<String, UnitV>(e3.units, rider_of(id));
    only_places_change(e3, ids, to, id);
}

proof fn only_places_change(e: EngineV, ids: Seq<Id>, to: Axial, id: Id)
    requires
        e.units.contains_key(id),
        e.units[id].pos == to,
    ensures
        m::each(e, ids, crate::engine::events::set_pos_f(to)).units.contains_key(id),
        m::each(e, ids, crate::engine::events::set_pos_f(to)).units[id] == e.units[id],
    decreases ids.len(),
{
    if ids.len() > 0 {
        only_places_change(e, ids.drop_last(), to, id);
    }
}

/// Whether a unit passes a minefield unharmed: it flies, or its side has a lane there and it is on
/// foot or at half speed, or it opens one, which a tank and a minesweeper do at half speed.
pub open spec fn passes_mines(f: RuntimeMinefield, u: UnitV) -> bool {
    let lane = if u.side == SideId::Red {
        f.cleared_by.red
    } else {
        f.cleared_by.blue
    };
    flies(u.unit_type) || (lane && (u.unit_type == UnitType::Infantry || u.unit_type
        == UnitType::AaMissileSquad || u.state == UnitState::Half)) || (!lane && u.state
        == UnitState::Half && (u.unit_type == UnitType::Tank || u.unit_type
        == UnitType::Minesweeper))
}

/// What a minefield does to a live unit that enters it, of whatever side: nothing where it passes
/// unharmed, and else what the table of mines says for its class, its armor and two dice. Who opens a
/// lane opens it for its own side and no other.
pub proof fn what_mines_do(e: EngineV, id: Id, to: Axial)
    requires
        e.units.contains_key(id),
        e.units[id].alive,
    ensures
        ({
            let u = e.units[id];
            let f = e.minefields[to];
            let r = meet_mines(e, id, to);
            let roll = dice::<PcgRng>(e.rng, 2);
            let loss = mine_loss(e.tables, u.unit_type, u.armor, roll.0);
            &&& !e.minefields.contains_key(to) ==> r == e
            &&& e.minefields.contains_key(to) && passes_mines(f, u) ==> r.units == e.units && r.rng
                == e.rng
            &&& e.minefields.contains_key(to) && !passes_mines(f, u) ==> r == m::take_fire(
                EngineV { rng: roll.1, ..e },
                id,
                if loss <= 0 {
                    Outcome::NoEffect
                } else if loss < 255 {
                    Outcome::Destroyed(loss as u8)
                } else {
                    Outcome::Destroyed(255)
                },
                e.clock,
            )
            &&& e.minefields.contains_key(to) && (u.unit_type == UnitType::Tank || u.unit_type
                == UnitType::Minesweeper) && u.state == UnitState::Half ==> ({
                let g = r.minefields[to];
                &&& u.side == SideId::Red ==> g.cleared_by.red && g.cleared_by.blue
                    == f.cleared_by.blue
                &&& u.side == SideId::Blue ==> g.cleared_by.blue && g.cleared_by.red
                    == f.cleared_by.red
                &&& g.owner == f.owner && g.at == f.at
            })
        }),
{
}

/// Who is found when an enemy enters its hex: the live units of the other side in a concealed
/// fortification there, and nobody else.
pub proof fn who_is_found(e: EngineV, to: Axial, side: SideId, k: Id)
    requires
        e.units.dom().finite(),
    ensures
        keys_where::<String, UnitV>(e.units, hidden_at(e.facilities, to, side)).contains(k)
            <==> e.units.contains_key(k) && e.units[k].alive && e.units[k].side != side
            && e.units[k].pos == to && e.units[k].inside_facility is Some
            && e.facilities.contains_key(e.units[k].inside_facility->0)
            && e.facilities[e.units[k].inside_facility->0].kind == "works_infantry_hidden"@,
{
    crate::mechanics_laws::garrisons_by_kind(UnitType::Infantry, 0);
    keys_where_has::<String, UnitV>(e.units, hidden_at(e.facilities, to, side), k);
}

/// Who rides in a vehicle comes along: it is where the vehicle is. Nobody else moves.
pub proof fn riders_come_along(e: EngineV, id: Id, to: Axial, k: Id)
    requires
        e.units.dom().finite(),
        e.units.contains_key(id),
        e.units.contains_key(k),
        k != id,
    ensures
        ({
            let v = step_onto(e, id, e.units[id], to).units[k];
            &&& e.units[k].carried_by == Some(id) ==> v == (RuntimeUnit { pos: to, ..e.units[k] })
            &&& e.units[k].carried_by != Some(id) ==> v == e.units[k]
        }),
{
    let u = e.units[id];
    let v = RuntimeUnit {
        pos: to,
        fatigue: tick_sum(u.fatigue, crate::mechanics::fatigue_per_hex(e.rules, u.state)),
        ..u
    };
    let e2 = m::stamp_entry(m::put_unit(e, id, v), id);
    let e3 = if u.pos != to {
        m::end_same_hex(e2, u.pos)
    } else {
        e2
    };
    assert(e3.units.dom() =~= e.units.dom());
    let ids = keys_where::<String, UnitV>(e3.units, rider_of(id));
    keys_where_has::<String, UnitV>(e3.units, rider_of(id), k);
    placed(e3, ids, to, k);
}

proof fn placed(e: EngineV, ids: Seq<Id>, to: Axial, k: Id)
    requires
        e.units.contains_key(k),
    ensures
        ({
            let r = m::each(e, ids, crate::engine::events::set_pos_f(to)).units;
            &&& r.contains_key(k)
            &&& ids.contains(k) ==> r[k] == (RuntimeUnit { pos: to, ..e.units[k] })
            &&& !ids.contains(k) ==> r[k] == e.units[k]
        }),
    decreases ids.len(),
{
    if ids.len() > 0 {
        let rest = ids.drop_last();
        placed(e, rest, to, k);
        assert(ids[ids.len() - 1] == ids.last());
        if rest.contains(k) {
            assert(ids[rest.index_of(k)] == k);
        } else if ids.contains(k) {
            let i = ids.index_of(k);
            if i < rest.len() {
                assert(rest[i] == k);
            }
        }
    }
}

/// A unit that enters a hex is the last to enter it, and a fight in the hex that it has left ends if
/// its side is gone from there.
pub proof fn what_entering_does(e: EngineV, id: Id, to: Axial)
    requires
        e.units.contains_key(id),
        e.entry_seq < u64::MAX,
        e.units[id].pos != to,
    ensures
        ({
            let r = step_onto(e, id, e.units[id], to);
            let from = e.units[id].pos;
            &&& r.same_hex_order.contains_key(id) && r.same_hex_order[id] == e.entry_seq + 1
                && r.entry_seq == e.entry_seq + 1
            &&& r.same_hex.contains_key(from) ==> e.same_hex.contains_key(from)
        }),
{
    let u = e.units[id];
    let v = RuntimeUnit {
        pos: to,
        fatigue: tick_sum(u.fatigue, crate::mechanics::fatigue_per_hex(e.rules, u.state)),
        ..u
    };
    let e3 = m::end_same_hex(m::stamp_entry(m::put_unit(e, id, v), id), u.pos);
    order_kept(e3, keys_where::<String, UnitV>(e3.units, rider_of(id)), to);
}

proof fn order_kept(e: EngineV, ids: Seq<Id>, to: Axial)
    ensures
        ({
            let r = m::each(e, ids, crate::engine::events::set_pos_f(to));
            r.same_hex_order == e.same_hex_order && r.entry_seq == e.entry_seq && r.same_hex
                == e.same_hex
        }),
    decreases ids.len(),
{
    if ids.len() > 0 {
        order_kept(e, ids.drop_last(), to);
    }
}

/// A unit meets the salvos that detonate over a hex one after the other, each with its own result and
/// guns.
pub proof fn salvo_after_salvo(
    e: EngineV,
    plans: Map<u64, crate::engine::model::PlanV>,
    ids: Seq<u64>,
    k: u64,
    id: Id,
)
    ensures
        crate::engine::events::take_booms(e, plans, Seq::empty(), id) == e,
        ({
            let before = crate::engine::events::take_booms(e, plans, ids, id);
            crate::engine::events::take_booms(e, plans, ids.push(k), id) == m::take_salvo(
                before,
                id,
                plans[k].base,
                plans[k].gun_count,
                before.clock,
            )
        }),
{
    assert(ids.push(k).drop_last() =~= ids);
}

/// An order to move is accepted exactly from a live unit of the side that is not carried and not busy,
/// for a hex of the board, at a speed that it may move at; it then leaves its hex and sets out. To
/// where it is it need not go, and who dies leaving does not go on.
pub proof fn when_a_unit_sets_out(
    e: EngineV,
    side: SideId,
    cmd: Json,
    id: Id,
    t: Tick,
    target: Axial,
    speed: Option<UnitState>,
)
    requires
        text_in(cmd, "unitId"@) == Some(id),
        crate::engine::orders::hex_in(jget(Some(cmd), "target"@)) == Some(target),
        speed_in(cmd) == Ok::<Option<UnitState>, crate::error::ErrV>(speed),
    ensures
        ({
            let r = do_move(e, side, cmd, t);
            let u = e.units[id];
            let left = leave_hex(e, id, t);
            let may = e.units.contains_key(id) && u.side == side && u.alive && u.carried_by is None
                && u.busy_until <= t && cell_at(e.map, target) is Some;
            let gone = !left.units.contains_key(id) || !left.units[id].alive;
            &&& !may ==> r.1 is Err && r.0 == e
            &&& may && u.pos == target ==> r.1 is Ok && r.0 == e
            &&& may && u.pos != target && gone ==> r.1 is Ok && r.0 == left
            &&& may && u.pos != target && !gone ==> (r.1 is Ok <==> speed_barred(
                left.units[id],
                speed,
            ) is None)
            &&& may && u.pos != target && !gone && speed_barred(left.units[id], speed) is None ==> r.0
                == set_out(left, id, speed, target, t)
        }),
{
}

/// A hex in an order is the two whole numbers that it names.
pub proof fn what_hex_an_order_names(o: Option<Json>, q: i64, r: i64)
    requires
        crate::json::jint(jget(o, "q"@)) == Some(q),
        crate::json::jint(jget(o, "r"@)) == Some(r),
    ensures
        i32::MIN <= q <= i32::MAX && i32::MIN <= r <= i32::MAX ==> crate::engine::orders::hex_in(o)
            is Some && crate::engine::orders::hex_in(o)->0.q == q && crate::engine::orders::hex_in(
            o,
        )->0.r == r,
        !(i32::MIN <= q <= i32::MAX && i32::MIN <= r <= i32::MAX) ==> crate::engine::orders::hex_in(
            o,
        ) is None,
{
}

} // verus!
