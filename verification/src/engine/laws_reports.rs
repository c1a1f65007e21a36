//! What a side is told.
use crate::engine::model as m;
use crate::engine::model::{EngineV, Id};
use crate::engine::observe::{
    contact_list, enemy_works, enemy_works_list, known_mines, mine_list, mine_range_at,
    objective_list, observed_ids, observer_of, own_list, own_view, seen_by, spots_mines,
    tracked_ids, usable_by, works_list, works_range, Contact, EnemyWorks,
};
use crate::hex::{steps, Axial};
use crate::mechanics::{altitude_levels, in_sight, observes, space_track};
use crate::mechanics_laws::grown_over;
use crate::ordmap::{keys_where, keys_where_has, some_entry};
use crate::rules::setting;
use crate::types::{cell_at, live_of, FacilityV, RuntimeMinefield, SideId, UnitType, UnitV};
use vstd::prelude::*;

verus! {

proof fn listed<T>(ids: Seq<Id>, f: spec_fn(Id) -> T, x: T)
    ensures
        ids.map_values(f).contains(x) <==> exists|k: Id| #[trigger] ids.contains(k) && f(k) == x,
{
    let s = ids.map_values(f);
    if s.contains(x) {
        let i = s.index_of(x);
        assert(ids.contains(ids[i]) && f(ids[i]) == x);
    }
    if exists|k: Id| #[trigger] ids.contains(k) && f(k) == x {
        let k = choose|k: Id| #[trigger] ids.contains(k) && f(k) == x;
        let i = ids.index_of(k);
        assert(s[i] == x);
    }
}

// ---------- its own ----------

/// A side is told of each of its live units, wherever it is, and of no other: what it is, where it
/// is, its teams and postures; how many ticks it is still busy; what it rides in or hides in; a
/// transport helicopter's altitude; and any fatigue.
pub proof fn a_side_knows_its_own(e: EngineV, side: SideId, k: Id)
    requires
        e.units.dom().finite(),
        e.units.contains_key(k),
        e.units[k].alive,
        e.units[k].side == side,
    ensures
        exists|i: int|
            0 <= i < own_list(e, side).len() && ({
                let v = #[trigger] own_list(e, side)[i];
                let u = e.units[k];
                &&& v.id == u.id && v.unit_type == u.unit_type && v.at == u.pos && v.teams == u.teams
                    && v.facing == u.facing && v.state == u.state && v.weapon_state
                    == u.weapon_state && v.mounted_in == u.carried_by && v.inside_facility
                    == u.inside_facility
                &&& u.busy_until <= e.clock ==> v.busy_for == 0
                &&& u.busy_until > e.clock && u.busy_until - e.clock <= i64::MAX ==> v.busy_for
                    == u.busy_until - e.clock
                &&& u.unit_type == UnitType::TransportHeli ==> v.altitude == Some(u.heli_alt)
                &&& u.unit_type != UnitType::TransportHeli ==> v.altitude is None
                &&& u.fatigue > 0 ==> v.fatigue == Some(u.fatigue)
                &&& u.fatigue <= 0 ==> v.fatigue is None
            }),
{
    let ids = keys_where::<String, UnitV>(e.units, live_of(side));
    keys_where_has::<String, UnitV>(e.units, live_of(side), k);
    let i = ids.index_of(k);
    assert(own_list(e, side)[i] == own_view(e.units[k], e.clock));
}

/// Nothing in a side's list of its own is anything but one of its live units.
pub proof fn a_side_counts_only_its_own(e: EngineV, side: SideId, i: int)
    requires
        e.units.dom().finite(),
        0 <= i < own_list(e, side).len(),
    ensures
        exists|k: Id| #[trigger]
            e.units.contains_key(k) && e.units[k].alive && e.units[k].side == side && own_list(
                e,
                side,
            )[i].id == e.units[k].id && own_list(e, side)[i].at == e.units[k].pos,
{
    let ids = keys_where::<String, UnitV>(e.units, live_of(side));
    keys_where_has::<String, UnitV>(e.units, live_of(side), ids[i]);
    assert(ids.contains(ids[i]));
    assert(e.units.contains_key(ids[i]));
}

// ---------- enemies ----------

/// Whether a unit keeps watch for its side: alive, and in the open or in a fortification for vehicles
/// or for combat.
pub open spec fn keeps_watch(e: EngineV, o: UnitV, side: SideId) -> bool {
    o.alive && o.side == side && ((o.carried_by is None && o.inside_facility is None) || (
    o.inside_facility is Some && e.facilities.contains_key(o.inside_facility->0) && (
    e.facilities[o.inside_facility->0].kind == "works_vehicle"@
        || e.facilities[o.inside_facility->0].kind == "works_infantry_combat"@)))
}

proof fn watchers(e: EngineV, o: UnitV, side: SideId)
    ensures
        keeps_watch(e, o, side) <==> o.side == side && o.alive && crate::engine::observe::looks_out(
            e,
            o,
        ),
{
    crate::mechanics_laws::garrisons_by_kind(UnitType::Infantry, 0);
}

/// A live enemy on the board is told as observed exactly if one of the side that keeps watch observes
/// it.
pub proof fn which_enemies_are_observed(e: EngineV, side: SideId, k: Id)
    requires
        e.units.dom().finite(),
    ensures
        observed_ids(e, side).contains(k) <==> e.units.contains_key(k) && e.units[k].alive
            && e.units[k].side != side && e.units[k].carried_by is None
            && e.units[k].inside_facility is None && exists|o: Id| #[trigger]
            e.units.contains_key(o) && keeps_watch(e, e.units[o], side) && observes(
                e.rules,
                e.map,
                e.units[o],
                e.units[k],
            ),
{
    keys_where_has::<String, UnitV>(e.units, seen_by(e, side), k);
    if e.units.contains_key(k) {
        let p = observer_of(e, side, e.units[k]);
        if some_entry(e.units, p) {
            let o = choose|o: Id| #[trigger] e.units.contains_key(o) && p(o, e.units[o]);
            assert(e.units.contains_key(o) && p(o, e.units[o]));
            watchers(e, e.units[o], side);
        } else {
            assert forall|o: Id| #[trigger] e.units.contains_key(o) implies !(keeps_watch(
                e,
                e.units[o],
                side,
            ) && observes(e.rules, e.map, e.units[o], e.units[k])) by {
                watchers(e, e.units[o], side);
                assert(!p(o, e.units[o]));
            }
        }
    }
}

/// An enemy is told as tracked from space exactly if it is tracked and not observed.
pub proof fn which_enemies_are_tracked(e: EngineV, side: SideId, k: Id)
    requires
        e.units.dom().finite(),
    ensures
        tracked_ids(e, side).contains(k) <==> space_track(e.units, side).contains(k)
            && !observed_ids(e, side).contains(k),
{
    let s = space_track(e.units, side);
    let q = |x: Id| !seen_by(e, side)(x, e.units[x]);
    keys_where_has::<String, UnitV>(e.units, seen_by(e, side), k);
    crate::mechanics_laws::who_is_tracked(e.units, side, k);
    kept(s, q, k);
}

proof fn kept(s: Seq<Id>, q: spec_fn(Id) -> bool, x: Id)
    ensures
        s.filter(q).contains(x) <==> s.contains(x) && q(x),
    decreases s.len(),
{
    reveal(Seq::filter);
    if s.len() > 0 {
        let rest = s.drop_last();
        kept(rest, q, x);
        let f = rest.filter(q);
        if rest.contains(x) {
            assert(s[rest.index_of(x)] == x);
        }
        if s.contains(x) && x != s.last() {
            assert(rest[s.index_of(x)] == x);
        }
        assert(s[s.len() - 1] == s.last());
        if q(s.last()) {
            let g = f.push(s.last());
            if f.contains(x) {
                assert(g[f.index_of(x)] == x);
            }
            if g.contains(x) && x != s.last() {
                assert(f[g.index_of(x)] == x);
            }
            assert(g[f.len() as int] == s.last());
        }
    }
}

/// Of an enemy a side is told its id, its type and its place, and whether it is only tracked; of
/// those that it observes first.
pub proof fn what_is_told_of_enemies(e: EngineV, side: SideId, i: int)
    requires
        0 <= i < contact_list(e, side).len(),
    ensures
        contact_list(e, side).len() == observed_ids(e, side).len() + tracked_ids(e, side).len(),
        ({
            let c = contact_list(e, side)[i];
            let n = observed_ids(e, side).len();
            let k = if i < n {
                observed_ids(e, side)[i]
            } else {
                tracked_ids(e, side)[i - n]
            };
            c == Contact::<Id> {
                id: e.units[k].id,
                unit_type: e.units[k].unit_type,
                at: e.units[k].pos,
                space_track: i >= n,
            }
        }),
{
}

// ---------- places ----------

/// Every control point is told with its present owner, in the scenario's order.
pub proof fn what_is_told_of_points(e: EngineV, i: int)
    requires
        0 <= i < e.scenario.objectives@.len(),
    ensures
        objective_list(e).len() == e.scenario.objectives@.len(),
        ({
            let cp = e.scenario.objectives@[i];
            let o = objective_list(e)[i];
            o.id == cp.id@ && o.at == cp.at && (e.control.contains_key(cp.id@) ==> o.owner
                == e.control[cp.id@]) && (!e.control.contains_key(cp.id@) ==> o.owner is None) && (
            cp.priority is None ==> o.priority is None) && (cp.priority is Some ==> o.priority
                == Some(cp.priority->0@))
        }),
{
}

/// A side is told of the fortifications that are its own or nobody's, with their capacity and the
/// teams of its own that are inside, and of no one else's.
pub proof fn what_is_told_of_own_works(e: EngineV, side: SideId, k: Id)
    requires
        e.facilities.dom().finite(),
    ensures
        ({
            let ids = keys_where::<String, FacilityV>(e.facilities, usable_by(side));
            &&& ids.contains(k) <==> e.facilities.contains_key(k) && (e.facilities[k].owner is None
                || e.facilities[k].owner == Some(side))
            &&& works_list(e, side).len() == ids.len()
            &&& forall|i: int|
                0 <= i < ids.len() ==> ({
                    let v = #[trigger] works_list(e, side)[i];
                    let f = e.facilities[ids[i]];
                    let own = m::teams_of(
                        e.units,
                        keys_where::<String, UnitV>(
                            e.units,
                            crate::engine::observe::own_inside(f.id, side),
                        ),
                    );
                    v.id == f.id && v.kind == f.kind && v.at == f.at && v.capacity == f.capacity && (
                    0 <= own <= u32::MAX ==> v.occupant_squads == own)
                })
        }),
{
    keys_where_has::<String, FacilityV>(e.facilities, usable_by(side), k);
}

/// Whose teams a side is told of inside a fortification: those of its own live units there.
pub proof fn whose_teams_are_told(e: EngineV, side: SideId, fac: Id, k: Id)
    requires
        e.units.dom().finite(),
    ensures
        keys_where::<String, UnitV>(
            e.units,
            crate::engine::observe::own_inside(fac, side),
        ).contains(k) <==> e.units.contains_key(k) && e.units[k].alive && e.units[k].side == side
            && e.units[k].inside_facility == Some(fac),
{
    keys_where_has::<String, UnitV>(e.units, crate::engine::observe::own_inside(fac, side), k);
}

/// An enemy fortification is told exactly if it is one for vehicles or for combat and a unit of the
/// side that keeps watch has it in sight within the distance of exposure; and only its id, kind and
/// place.
pub proof fn which_enemy_works_are_told(e: EngineV, side: SideId, k: Id, far: i64)
    requires
        e.facilities.dom().finite(),
        setting(e.rules.fortification, "exposed_range_hexes"@) == Some(far),
    ensures
        ({
            let ids = keys_where::<String, FacilityV>(e.facilities, enemy_works(e, side));
            let f = e.facilities[k];
            &&& ids.contains(k) <==> e.facilities.contains_key(k) && f.owner is Some && f.owner
                != Some(side) && (f.kind == "works_vehicle"@ || f.kind == "works_infantry_combat"@)
                && far > 0 && exists|o: Id| #[trigger]
                e.units.contains_key(o) && keeps_watch(e, e.units[o], side) && steps(
                    e.units[o].pos,
                    f.at,
                ) <= far && in_sight(
                    e.map,
                    e.units[o].pos,
                    f.at,
                    altitude_levels(e.rules, e.map, e.units[o]),
                    0,
                )
            &&& enemy_works_list(e, side).len() == ids.len()
            &&& forall|i: int|
                0 <= i < ids.len() ==> #[trigger] enemy_works_list(e, side)[i] == (EnemyWorks::<Id> {
                    id: e.facilities[ids[i]].id,
                    kind: e.facilities[ids[i]].kind,
                    at: e.facilities[ids[i]].at,
                })
        }),
{
    keys_where_has::<String, FacilityV>(e.facilities, enemy_works(e, side), k);
    crate::mechanics_laws::garrisons_by_kind(UnitType::Infantry, far as int);
    if e.facilities.contains_key(k) {
        let f = e.facilities[k];
        let range = works_range(e, f);
        let p = crate::engine::observe::sees_within(e, side, f.at, range);
        if some_entry(e.units, p) {
            let o = choose|o: Id| #[trigger] e.units.contains_key(o) && p(o, e.units[o]);
            assert(e.units.contains_key(o) && p(o, e.units[o]));
            watchers(e, e.units[o], side);
        } else {
            assert forall|o: Id| #[trigger] e.units.contains_key(o) implies !(keeps_watch(
                e,
                e.units[o],
                side,
            ) && steps(e.units[o].pos, f.at) <= range && in_sight(
                e.map,
                e.units[o].pos,
                f.at,
                altitude_levels(e.rules, e.map, e.units[o]),
                0,
            )) by {
                watchers(e, e.units[o], side);
                assert(!p(o, e.units[o]));
            }
        }
    }
}

/// A minefield is told exactly if the side laid it, or a live ground unit of the side on the board has
/// it in sight within the distance of the rules, or, in a town or a wood, within half of it. Only its
/// hex is told.
pub proof fn which_mines_are_told(e: EngineV, side: SideId, h: Axial, far: i64)
    requires
        e.minefields.dom().finite(),
        setting(e.rules.minefield, "observe_range_hexes"@) == Some(far),
        far > 0,
    ensures
        ({
            let ids = keys_where::<Axial, RuntimeMinefield>(e.minefields, known_mines(e, side));
            let f = e.minefields[h];
            let grown = cell_at(e.map, f.at) is Some && grown_over(cell_at(e.map, f.at)->0);
            &&& ids.contains(h) <==> e.minefields.contains_key(h) && (f.owner == Some(side)
                || exists|o: Id| #[trigger]
                e.units.contains_key(o) && e.units[o].alive && e.units[o].side == side
                    && e.units[o].carried_by is None && e.units[o].inside_facility is None
                    && e.units[o].unit_type != UnitType::Uav && e.units[o].unit_type
                    != UnitType::AttackHeli && e.units[o].unit_type != UnitType::TransportHeli
                    && e.units[o].unit_type != UnitType::LoiteringMunition && (if grown {
                    2 * steps(e.units[o].pos, f.at) <= far
                } else {
                    steps(e.units[o].pos, f.at) <= far
                }) && in_sight(e.map, e.units[o].pos, f.at, 0, 0))
            &&& mine_list(e, side).len() == ids.len()
            &&& forall|i: int|
                0 <= i < ids.len() ==> #[trigger] mine_list(e, side)[i] == e.minefields[ids[i]].at
        }),
{
    keys_where_has::<Axial, RuntimeMinefield>(e.minefields, known_mines(e, side), h);
    if e.minefields.contains_key(h) {
        let f = e.minefields[h];
        let p = spots_mines(e, side, f.at, mine_range_at(e, f.at));
        if some_entry(e.units, p) {
            let o = choose|o: Id| #[trigger] e.units.contains_key(o) && p(o, e.units[o]);
            assert(e.units.contains_key(o) && p(o, e.units[o]));
        } else {
            assert forall|o: Id| #[trigger] e.units.contains_key(o) implies !p(o, e.units[o]) by {}
        }
    }
}

} // verus!
