//! What becomes of indirect fire.
use crate::combat::{salvo, salvo_effect, GunClass, IndirectBase, IndirectSpotting, Scatter};
use crate::combat_laws::ground_is;
use crate::engine::actions::{do_cancel, do_plan, without_plans};
use crate::engine::events::{meet_salvos, take_booms};
use crate::engine::model as m;
use crate::engine::model::{EngineV, Event, Id, IndirectPlan, PlanV};
use crate::engine::orders::{hex_in, own, text_in};
use crate::hex::{direction, hex_distance, steps, Axial};
use crate::json::{jget, Json};
use crate::mechanics::{in_sight, observes};
use crate::ordmap::{keys_where, keys_where_has, some_entry};
use crate::rng::PcgRng;
use crate::rules::timing_of;
use crate::time::{next_of, tick_sum, Tick};
use crate::types::{cell_at, SideId, UnitState, UnitType, UnitV};
use vstd::prelude::*;

verus! {

// ---------- where it lands ----------

/// Whether a hex is far enough from the ends of the coordinates.
pub open spec fn inland(hex: Axial) -> bool {
    -0x2000_0000 <= hex.q <= 0x2000_0000 && -0x2000_0000 <= hex.r <= 0x2000_0000
}

/// The six directions lead to the six neighbours, each to another.
pub proof fn six_directions(a: int, b: int)
    requires
        0 <= a < 6,
        0 <= b < 6,
    ensures
        ({
            let (q, r) = direction(a);
            &&& -1 <= q <= 1 && -1 <= r <= 1 && -1 <= q + r <= 1 && (q != 0 || r != 0)
            &&& a != b ==> direction(a) != direction(b)
            &&& b == (a + 3) % 6 ==> direction(b) == (-q, -r)
            &&& direction(0) == (1int, 0int) && direction(1) == (1int, -1int) && direction(2) == (
                0int,
                -1int,
            )
        }),
{
}

/// A salvo that scatters by `n` hexes lands `n` hexes from where it was meant to, on the straight way
/// in the direction that was drawn.
pub proof fn scattered_salvos_land_apart(hex: Axial, dir: int, n: int)
    requires
        0 <= dir < 6,
        0 <= n <= 0x2000_0000,
        inland(hex),
    ensures
        ({
            let impact = m::offset_hex(hex, dir, n);
            &&& hex_distance(hex, impact) == n
            &&& impact.q - hex.q == direction(dir).0 * n
            &&& impact.r - hex.r == direction(dir).1 * n
        }),
{
    let (q, r) = direction(dir);
    assert(q * n == 0 || q * n == n || q * n == -n) by (nonlinear_arith)
        requires
            q == 0 || q == 1 || q == -1,
    ;
    assert(r * n == 0 || r * n == n || r * n == -n) by (nonlinear_arith)
        requires
            r == 0 || r == 1 || r == -1,
    ;
    assert((q == 0 ==> q * n == 0) && (q == 1 ==> q * n == n) && (q == -1 ==> q * n == -n))
        by (nonlinear_arith);
    assert((r == 0 ==> r * n == 0) && (r == 1 ==> r * n == n) && (r == -1 ==> r * n == -n))
        by (nonlinear_arith);
}

/// Where a salvo of a plan lands: where it was aimed, or, if it scatters by a number of hexes, so far
/// from there in the direction drawn.
pub open spec fn lands(plan_hex: Axial, scatter: Scatter, dir: int, impact: Axial) -> bool {
    match scatter {
        Scatter::Hexes(n) => inland(plan_hex) && n <= 0x2000_0000 && 0 <= dir < 6 ==> hex_distance(
            plan_hex,
            impact,
        ) == n && impact.q - plan_hex.q == direction(dir).0 * n && impact.r - plan_hex.r
            == direction(dir).1 * n,
        _ => impact == plan_hex,
    }
}

/// When the flight of a salvo ends, it is drawn by how well the gun's side sees the hex that it was
/// aimed at, the distance from the gun to that hex, and medium guns; then a direction is drawn. It
/// strikes the hex where it lands with the gun's teams, and detonates there for the time of the
/// rules. If the gun is gone, nothing happens.
pub proof fn how_a_salvo_lands(e: EngineV, plan_id: u64, t: Tick)
    requires
        e.indirect_plans.contains_key(plan_id),
    ensures
        ({
            let plan = e.indirect_plans[plan_id];
            let gun = e.units[plan.artillery];
            let r = salvo::<PcgRng>(
                e.tables,
                e.rng,
                m::spotting(e, plan.plan_hex, gun.side),
                steps(gun.pos, plan.plan_hex) as int,
                GunClass::Medium,
            );
            let d = crate::rng::pcg_below(r.2, 6);
            let after = m::salvo_arrives(e, plan_id, t);
            if !e.units.contains_key(plan.artillery) || !gun.alive {
                after == (EngineV { indirect_plans: e.indirect_plans.remove(plan_id), ..e })
            } else {
                exists|impact: Axial| #[trigger]
                    lands(plan.plan_hex, r.0, d.0 as int, impact) && ({
                        let struck = m::salvo_lands(
                            EngineV {
                                rng: d.1,
                                indirect_plans: e.indirect_plans.insert(
                                    plan_id,
                                    IndirectPlan {
                                        impact: Some(impact),
                                        base: r.1,
                                        gun_count: gun.teams,
                                        ..plan
                                    },
                                ),
                                ..e
                            },
                            impact,
                            r.1,
                            gun.teams,
                            t,
                        );
                        after == m::schedule(
                            struck,
                            tick_sum(
                                t,
                                match timing_of(struck.rules, "indirect_boom"@) {
                                    Some(b) => b,
                                    None => 0,
                                },
                            ),
                            Event::IndirectBoomEnd { plan: plan_id },
                        )
                    })
            }
        }),
{
    let plan = e.indirect_plans[plan_id];
    if e.units.contains_key(plan.artillery) && e.units[plan.artillery].alive {
        let gun = e.units[plan.artillery];
        let r = salvo::<PcgRng>(
            e.tables,
            e.rng,
            m::spotting(e, plan.plan_hex, gun.side),
            steps(gun.pos, plan.plan_hex) as int,
            GunClass::Medium,
        );
        let d = crate::rng::pcg_below(r.2, 6);
        let impact = match r.0 {
            Scatter::Hexes(n) => m::offset_hex(plan.plan_hex, d.0 as int, n as int),
            _ => plan.plan_hex,
        };
        if let Scatter::Hexes(n) = r.0 {
            if inland(plan.plan_hex) && n <= 0x2000_0000 && 0 <= d.0 < 6 {
                scattered_salvos_land_apart(plan.plan_hex, d.0 as int, n as int);
            }
        }
        assert(lands(plan.plan_hex, r.0, d.0 as int, impact));
    }
}

// ---------- who sees the aim ----------

/// Whether a unit may spot for the guns of a side: a live one of it on the board, on the ground or a
/// drone.
pub open spec fn may_spot(u: UnitV, side: SideId) -> bool {
    u.alive && u.side == side && u.carried_by is None && u.inside_facility is None && u.unit_type
        != UnitType::AttackHeli && u.unit_type != UnitType::TransportHeli && u.unit_type
        != UnitType::LoiteringMunition
}

/// The target of a salvo is seen exactly if a unit that may spot observes a live enemy on the board
/// in the hex.
pub proof fn when_the_target_is_spotted(e: EngineV, hex: Axial, side: SideId)
    ensures
        m::spotting(e, hex, side) == IndirectSpotting::Target <==> exists|s: Id, u: Id|
            #![trigger e.units.contains_key(s), e.units.contains_key(u)]
            e.units.contains_key(s) && may_spot(e.units[s], side) && e.units.contains_key(u)
                && e.units[u].alive && e.units[u].side != side && e.units[u].carried_by is None
                && e.units[u].inside_facility is None && e.units[u].pos == hex && observes(
                e.rules,
                e.map,
                e.units[s],
                e.units[u],
            ),
{
    let p = m::spots_target(e, hex, side);
    if some_entry(e.units, p) {
        let s = choose|k: Id| #[trigger] e.units.contains_key(k) && p(k, e.units[k]);
        assert(e.units.contains_key(s) && p(s, e.units[s]));
        let q = m::observed_at(e, hex, side, e.units[s]);
        let u = choose|k: Id| #[trigger] e.units.contains_key(k) && q(k, e.units[k]);
        assert(e.units.contains_key(u) && q(u, e.units[u]));
    }
    if exists|s: Id, u: Id|
        #![trigger e.units.contains_key(s), e.units.contains_key(u)]
        e.units.contains_key(s) && may_spot(e.units[s], side) && e.units.contains_key(u)
            && e.units[u].alive && e.units[u].side != side && e.units[u].carried_by is None
            && e.units[u].inside_facility is None && e.units[u].pos == hex && observes(
            e.rules,
            e.map,
            e.units[s],
            e.units[u],
        ) {
        let (s, u) = choose|s: Id, u: Id|
            #![trigger e.units.contains_key(s), e.units.contains_key(u)]
            e.units.contains_key(s) && may_spot(e.units[s], side) && e.units.contains_key(u)
                && e.units[u].alive && e.units[u].side != side && e.units[u].carried_by is None
                && e.units[u].inside_facility is None && e.units[u].pos == hex && observes(
                e.rules,
                e.map,
                e.units[s],
                e.units[u],
            );
        let q = m::observed_at(e, hex, side, e.units[s]);
        assert(q(u, e.units[u]));
        assert(some_entry(e.units, q));
        assert(p(s, e.units[s]));
    }
}

/// Where the target is not seen, the hex is exactly if a unit that may spot has a line of sight to
/// it, or a live radar of the side is on and not suppressed; otherwise the salvo flies blind.
pub proof fn when_the_hex_is_spotted(e: EngineV, hex: Axial, side: SideId)
    requires
        m::spotting(e, hex, side) != IndirectSpotting::Target,
    ensures
        m::spotting(e, hex, side) == IndirectSpotting::InHex <==> (exists|s: Id| #[trigger]
            e.units.contains_key(s) && may_spot(e.units[s], side) && in_sight(
                e.map,
                e.units[s].pos,
                hex,
                0,
                0,
            )) || (exists|v: Id| #[trigger]
            e.radar_on.contains_key(v) && e.units.contains_key(v) && e.units[v].alive
                && e.units[v].side == side && e.units[v].suppressed_until <= e.clock
                && e.units[v].state != UnitState::Suppressed),
        m::spotting(e, hex, side) == IndirectSpotting::InHex || m::spotting(e, hex, side)
            == IndirectSpotting::Unspotted,
{
    let p = m::spots_hex(e, hex, side);
    let r = m::radar_works(e, side);
    if some_entry(e.units, p) {
        let s = choose|k: Id| #[trigger] e.units.contains_key(k) && p(k, e.units[k]);
        assert(e.units.contains_key(s) && p(s, e.units[s]));
    }
    if some_entry(e.radar_on, r) {
        let v = choose|k: Id| #[trigger] e.radar_on.contains_key(k) && r(k, e.radar_on[k]);
        assert(e.radar_on.contains_key(v) && r(v, e.radar_on[v]));
    }
    if exists|s: Id| #[trigger]
        e.units.contains_key(s) && may_spot(e.units[s], side) && in_sight(
            e.map,
            e.units[s].pos,
            hex,
            0,
            0,
        ) {
        let s = choose|s: Id| #[trigger]
            e.units.contains_key(s) && may_spot(e.units[s], side) && in_sight(
                e.map,
                e.units[s].pos,
                hex,
                0,
                0,
            );
        assert(p(s, e.units[s]));
    }
    if exists|v: Id| #[trigger]
        e.radar_on.contains_key(v) && e.units.contains_key(v) && e.units[v].alive
            && e.units[v].side == side && e.units[v].suppressed_until <= e.clock && e.units[v].state
            != UnitState::Suppressed {
        let v = choose|v: Id| #[trigger]
            e.radar_on.contains_key(v) && e.units.contains_key(v) && e.units[v].alive
                && e.units[v].side == side && e.units[v].suppressed_until <= e.clock
                && e.units[v].state != UnitState::Suppressed;
        assert(r(v, e.radar_on[v]));
    }
}

// ---------- whom it strikes ----------

/// A salvo that lands strikes every live unit on the board in the hex that can be fired upon, of
/// either side, one after the other by id, and nobody else; a fortification there that can be fired
/// upon only after them.
pub proof fn whom_a_salvo_strikes(e: EngineV, hex: Axial, base: IndirectBase, guns: u8, t: Tick, k: Id)
    requires
        e.units.dom().finite(),
    ensures
        ({
            let ids = keys_where::<String, UnitV>(e.units, m::exposed_at(hex));
            let struck = m::each(
                e,
                ids,
                |x: EngineV, id: Id| m::take_salvo(x, id, base, guns, t),
            );
            &&& ids.contains(k) <==> e.units.contains_key(k) && e.units[k].alive && e.units[k].pos
                == hex && e.units[k].carried_by is None && e.units[k].inside_facility is None
                && e.units[k].unit_type != UnitType::SpaceRecon
            &&& keys_where::<String, crate::types::FacilityV>(
                struck.facilities,
                m::works_at(hex),
            ).len() == 0 ==> m::salvo_lands(e, hex, base, guns, t) == struck
        }),
{
    keys_where_has::<String, UnitV>(e.units, m::exposed_at(hex), k);
    let f = |x: EngineV, id: Id| m::take_salvo(x, id, base, guns, t);
    assert(f =~= m::take_salvo_f(base, guns, t));
}

/// What a unit takes of a salvo is drawn with its own circumstances: the terrain that it stands in,
/// its cover, its movement if it is infantry, its march, its armor, whether another ground unit
/// stands in its hex, and the guns of the salvo.
pub proof fn what_a_unit_takes_of_a_salvo(e: EngineV, id: Id, base: IndirectBase, guns: u8, t: Tick)
    requires
        e.units.contains_key(id),
    ensures
        ({
            let u = e.units[id];
            let c = m::salvo_mods(e, u, guns);
            let r = salvo_effect::<PcgRng>(e.tables, e.rng, base, c);
            &&& m::take_salvo(e, id, base, guns, t) == m::take_fire(
                EngineV { rng: r.1, ..e },
                id,
                r.0,
                t,
            )
            &&& ground_is(e.map, u.pos, c.target_terrain)
            &&& c.target_cover <==> u.state == UnitState::Cover
            &&& c.target_moving_personnel <==> u.unit_type == UnitType::Infantry && (u.state
                == UnitState::Moving || u.state == UnitState::March || u.state == UnitState::Charge1
                || u.state == UnitState::Charge2)
            &&& c.target_march <==> u.state == UnitState::March
            &&& c.armor == u.armor
            &&& c.gun_count == guns
            &&& c.target_stacked <==> keys_where::<String, UnitV>(
                e.units,
                m::stands_at(u.pos),
            ).len() >= 2
        }),
{
}

/// Who counts for the crowd in a hex: the live ground units on the board there, of either side.
pub proof fn who_counts_for_the_crowd(units: Map<Id, UnitV>, hex: Axial, k: Id)
    requires
        units.dom().finite(),
    ensures
        keys_where::<String, UnitV>(units, m::stands_at(hex)).contains(k) <==> units.contains_key(k)
            && units[k].alive && units[k].pos == hex && units[k].carried_by is None
            && units[k].inside_facility is None && units[k].unit_type != UnitType::Uav
            && units[k].unit_type != UnitType::AttackHeli && units[k].unit_type
            != UnitType::TransportHeli && units[k].unit_type != UnitType::LoiteringMunition,
{
    keys_where_has::<String, UnitV>(units, m::stands_at(hex), k);
}

// ---------- planning ----------

/// A plan is accepted exactly from a live artillery unit of the side that is not carried, not
/// suppressed and has cooled down, for a hex of the board. Its salvo then flies for the time of the
/// rules, and the gun cools for theirs.
pub proof fn when_a_salvo_is_planned(e: EngineV, side: SideId, cmd: Json, id: Id, t: Tick)
    requires
        text_in(cmd, "unitId"@) == Some(id),
        timing_of(e.rules, "indirect_fly"@) is Some,
        timing_of(e.rules, "indirect_cooldown"@) is Some,
    ensures
        ({
            let r = do_plan(e, side, cmd, t);
            let u = e.units[id];
            let hex = hex_in(jget(Some(cmd), "targetHex"@));
            let plan = next_of(e.indirect_plan_ctr);
            let accepted = e.units.contains_key(id) && u.side == side && u.alive && u.carried_by is None
                && u.unit_type == UnitType::Artillery && u.suppressed_until <= t && u.state
                != UnitState::Suppressed && hex is Some && cell_at(e.map, hex->0) is Some && (
            e.indirect_cd.contains_key(id) ==> e.indirect_cd[id] <= t) && (!e.indirect_cd.contains_key(
                id,
            ) ==> 0 <= t);
            &&& r.1 is Ok <==> accepted
            &&& !accepted ==> r.0 == e
            &&& accepted ==> {
                &&& r.0.indirect_cd == e.indirect_cd.insert(
                    id,
                    tick_sum(t, timing_of(e.rules, "indirect_cooldown"@)->0),
                )
                &&& r.0.indirect_plans.dom() == e.indirect_plans.dom().insert(plan)
                &&& r.0.indirect_plans[plan].artillery == id && r.0.indirect_plans[plan].plan_hex
                    == hex->0 && r.0.indirect_plans[plan].impact is None
                &&& r.0.queue == m::enqueue(
                    e.queue,
                    m::Timed {
                        t: tick_sum(t, timing_of(e.rules, "indirect_fly"@)->0),
                        seq: next_of(e.seq),
                        event: Event::IndirectFly { plan },
                    },
                )
                &&& r.0.units == e.units
            }
        }),
{
    let r = do_plan(e, side, cmd, t);
    if r.1 is Ok {
        assert(r.0.indirect_plans.dom() =~= e.indirect_plans.dom().insert(
            next_of(e.indirect_plan_ctr),
        ));
    }
}

proof fn plans_without(plans: Map<u64, PlanV>, ids: Seq<u64>, k: u64)
    ensures
        without_plans(plans, ids).contains_key(k) <==> plans.contains_key(k) && !ids.contains(k),
        without_plans(plans, ids).contains_key(k) ==> without_plans(plans, ids)[k] == plans[k],
    decreases ids.len(),
{
    if ids.len() > 0 {
        let rest = ids.drop_last();
        plans_without(plans, rest, k);
        if rest.contains(k) {
            let i = rest.index_of(k);
            assert(ids[i] == k);
        } else if ids.contains(k) {
            let i = ids.index_of(k);
            if i < rest.len() {
                assert(rest[i] == k);
            }
        }
        assert(ids[ids.len() - 1] == ids.last());
    }
}

/// Calling off takes back exactly the unit's own salvos that are still in flight, and lets it plan
/// again; without one there is nothing to call off.
pub proof fn what_calling_off_takes_back(e: EngineV, side: SideId, cmd: Json, id: Id, t: Tick, k: u64)
    requires
        e.indirect_plans.dom().finite(),
        text_in(cmd, "unitId"@) == Some(id),
        own(e, side, id),
    ensures
        ({
            let r = do_cancel(e, side, cmd, t);
            let flies = |p: u64|
                e.indirect_plans.contains_key(p) && e.indirect_plans[p].artillery == id
                    && e.indirect_plans[p].impact is None;
            &&& flies(k) ==> r.1 is Ok
            &&& r.1 is Ok ==> (r.0.indirect_plans.contains_key(k) <==> e.indirect_plans.contains_key(
                k,
            ) && !flies(k)) && !r.0.indirect_cd.contains_key(id) && r.0.units == e.units
            &&& r.1 is Err ==> r.0 == e
        }),
{
    let p = crate::engine::actions::in_flight(id);
    let ids = keys_where::<u64, PlanV>(e.indirect_plans, p);
    keys_where_has::<u64, PlanV>(e.indirect_plans, p, k);
    plans_without(e.indirect_plans, ids, k);
    if ids.contains(k) {
        assert(ids.len() > 0);
    }
}

/// A unit that enters a hex meets exactly the salvos that detonate over it. A gun that moves calls
/// off those of its own that detonate.
pub proof fn which_salvos_are_met(e: EngineV, id: Id, to: Axial, k: u64)
    requires
        e.indirect_plans.dom().finite(),
    ensures
        ({
            let left = without_plans(
                e.indirect_plans,
                keys_where::<u64, PlanV>(e.indirect_plans, crate::engine::events::own_boom(id)),
            );
            let over = keys_where::<u64, PlanV>(left, crate::engine::events::boom_over(to));
            &&& left.contains_key(k) <==> e.indirect_plans.contains_key(k) && !(
            e.indirect_plans[k].artillery == id && e.indirect_plans[k].impact is Some)
            &&& meet_salvos(e, id, to) == take_booms(
                EngineV { indirect_plans: left, ..e },
                left,
                over,
                id,
            )
            &&& left.dom().finite() ==> (over.contains(k) <==> left.contains_key(k)
                && e.indirect_plans[k].impact == Some(to))
        }),
{
    let ids = keys_where::<u64, PlanV>(e.indirect_plans, crate::engine::events::own_boom(id));
    keys_where_has::<u64, PlanV>(e.indirect_plans, crate::engine::events::own_boom(id), k);
    plans_without(e.indirect_plans, ids, k);
    let left = without_plans(e.indirect_plans, ids);
    if left.dom().finite() {
        keys_where_has::<u64, PlanV>(left, crate::engine::events::boom_over(to), k);
    }
}

} // verus!
