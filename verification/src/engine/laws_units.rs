//! What happens to units: death with a vehicle, suppression, and a sound beginning.
use crate::engine::events::child_id;
use crate::engine::model as m;
use crate::engine::model::{AggSplitKind, AggSplitV, EngineV, Id, MountV};
use crate::engine::setup::{
    affiliation_check, carriage_check, enlist, enlisted, first_error, id_check, manned, placing,
    posture_check, roster, setup_error,
};
use crate::error::ErrV;
use crate::mechanics::{mode_allowed, vehicle};
use crate::ordmap::{keys_listed, keys_where, keys_where_has, sorted_keys};
use crate::prob::Outcome;
use crate::rules::Rules;
use crate::text::{dec, digit_char};
use crate::time::Tick;
use crate::types::{
    altitudes_adjacent, cell_at, GameMap, HeliAlt, RuntimeUnit, Scenario, ScenarioUnit, SideId,
    UnitState, UnitType, UnitV,
};
use vstd::prelude::*;

verus! {

// ---------- death ----------

/// Whether a unit is as it was, or has died or been freed. One that dies loses all its teams, one
/// that lives none.
pub open spec fn at_most_died(u: UnitV, v: UnitV) -> bool {
    &&& v == (RuntimeUnit { alive: v.alive, teams: v.teams, busy_until: v.busy_until, ..u })
    &&& v.alive ==> u.alive && v.teams == u.teams
    &&& u.alive && !v.alive ==> v.teams == 0
    &&& v.teams == u.teams || v.teams == 0
}

/// Whether from `a` to `b` units have at most died or been freed.
pub open spec fn only_deaths(a: EngineV, b: EngineV) -> bool {
    &&& a.units.dom() == b.units.dom()
    &&& forall|k: Id| #[trigger] a.units.contains_key(k) ==> at_most_died(a.units[k], b.units[k])
}

proof fn deaths_trans(a: EngineV, b: EngineV, c: EngineV)
    requires
        only_deaths(a, b),
        only_deaths(b, c),
    ensures
        only_deaths(a, c),
{
    assert forall|k: Id| #[trigger] a.units.contains_key(k) implies at_most_died(
        a.units[k],
        c.units[k],
    ) by {
        assert(b.units.dom().contains(k));
        assert(b.units.contains_key(k));
    }
}

proof fn deaths_lose(e: EngineV, id: Id)
    ensures
        only_deaths(e, m::lose(e, id)),
        e.units.contains_key(id) ==> !m::lose(e, id).units[id].alive,
        only_deaths(e, m::expend(e, id)),
        e.units.contains_key(id) ==> !m::expend(e, id).units[id].alive,
        only_deaths(e, m::drop_mount(e, id)),
        only_deaths(e, m::lose_affiliate(e, id)),
        e.units.contains_key(id) ==> !m::lose_affiliate(e, id).units[id].alive,
{
    assert(m::lose(e, id).units.dom() =~= e.units.dom());
    assert(m::expend(e, id).units.dom() =~= e.units.dom());
    assert(m::drop_mount(e, id).units.dom() =~= e.units.dom());
    assert(m::lose_affiliate(e, id).units.dom() =~= e.units.dom());
}

proof fn deaths_each(e: EngineV, ids: Seq<Id>, f: spec_fn(EngineV, Id) -> EngineV)
    requires
        forall|x: EngineV, k: Id| only_deaths(x, #[trigger] f(x, k)),
    ensures
        only_deaths(e, m::each(e, ids, f)),
    decreases ids.len(),
{
    if ids.len() > 0 {
        deaths_each(e, ids.drop_last(), f);
        deaths_trans(e, m::each(e, ids.drop_last(), f), m::each(e, ids, f));
    }
}

proof fn deaths_all(e: EngineV, ids: Seq<Id>, f: spec_fn(EngineV, Id) -> EngineV)
    requires
        forall|x: EngineV, k: Id| only_deaths(x, #[trigger] f(x, k)),
        forall|x: EngineV, k: Id|
            x.units.contains_key(k) ==> !(#[trigger] f(x, k)).units[k].alive,
    ensures
        forall|i: int|
            0 <= i < ids.len() && e.units.contains_key(#[trigger] ids[i]) ==> !m::each(
                e,
                ids,
                f,
            ).units[ids[i]].alive,
    decreases ids.len(),
{
    if ids.len() > 0 {
        let rest = ids.drop_last();
        let e1 = m::each(e, rest, f);
        deaths_all(e, rest, f);
        deaths_each(e, rest, f);
        assert forall|i: int| 0 <= i < ids.len() && e.units.contains_key(#[trigger] ids[i]) implies !m::each(
            e,
            ids,
            f,
        ).units[ids[i]].alive by {
            assert(e1.units.dom().contains(ids[i]));
            assert(e1.units.contains_key(ids[i]));
            if i < rest.len() {
                assert(rest[i] == ids[i]);
                assert(only_deaths(e1, f(e1, ids.last())));
            }
        }
    }
}

/// The death of a vehicle does nothing to other units but kill or free them.
pub proof fn carrier_death_only_kills(e: EngineV, vehicle: Id)
    ensures
        only_deaths(e, m::carrier_death(e, vehicle)),
{
    deadly_effects();
    let e1 = m::each(
        e,
        keys_where::<String, MountV>(e.mount_op, m::mounts_on(vehicle)),
        m::drop_mount_f(),
    );
    deaths_each(e, keys_where::<String, MountV>(e.mount_op, m::mounts_on(vehicle)), m::drop_mount_f());
    let i2 = keys_where::<String, UnitV>(e1.units, m::aboard(vehicle));
    let e2 = m::each(e1, i2, m::lose_f());
    deaths_each(e1, i2, m::lose_f());
    let i3 = keys_where::<String, Id>(e2.loitering_parent, m::launched_from(vehicle));
    let e3 = m::each(e2, i3, m::expend_f());
    deaths_each(e2, i3, m::expend_f());
    let i4 = keys_where::<String, UnitV>(e3.units, m::affiliate_of(vehicle));
    deaths_each(e3, i4, m::lose_affiliate_f());
    deaths_trans(e, e1, e2);
    deaths_trans(e, e2, e3);
    deaths_trans(e, e3, m::each(e3, i4, m::lose_affiliate_f()));
}

proof fn deadly_effects()
    ensures
        forall|x: EngineV, j: Id| only_deaths(x, #[trigger] m::drop_mount_f()(x, j)),
        forall|x: EngineV, j: Id|
            only_deaths(x, #[trigger] m::lose_f()(x, j)) && (x.units.contains_key(j)
                ==> !m::lose_f()(x, j).units[j].alive),
        forall|x: EngineV, j: Id|
            only_deaths(x, #[trigger] m::expend_f()(x, j)) && (x.units.contains_key(j)
                ==> !m::expend_f()(x, j).units[j].alive),
        forall|x: EngineV, j: Id|
            only_deaths(x, #[trigger] m::lose_affiliate_f()(x, j)) && (x.units.contains_key(j)
                ==> !m::lose_affiliate_f()(x, j).units[j].alive),
{
    assert forall|x: EngineV, j: Id| only_deaths(x, #[trigger] m::drop_mount_f()(x, j)) by {
        deaths_lose(x, j);
    }
    assert forall|x: EngineV, j: Id|
        only_deaths(x, #[trigger] m::lose_f()(x, j)) && (x.units.contains_key(j)
            ==> !m::lose_f()(x, j).units[j].alive) by {
        deaths_lose(x, j);
    }
    assert forall|x: EngineV, j: Id|
        only_deaths(x, #[trigger] m::expend_f()(x, j)) && (x.units.contains_key(j)
            ==> !m::expend_f()(x, j).units[j].alive) by {
        deaths_lose(x, j);
    }
    assert forall|x: EngineV, j: Id|
        only_deaths(x, #[trigger] m::lose_affiliate_f()(x, j)) && (x.units.contains_key(j)
            ==> !m::lose_affiliate_f()(x, j).units[j].alive) by {
        deaths_lose(x, j);
    }
}

proof fn launches_stay(e: EngineV, ids: Seq<Id>, f: spec_fn(EngineV, Id) -> EngineV)
    requires
        forall|x: EngineV, k: Id|
            (#[trigger] f(x, k)).loitering_parent == x.loitering_parent,
    ensures
        m::each(e, ids, f).loitering_parent == e.loitering_parent,
    decreases ids.len(),
{
    if ids.len() > 0 {
        launches_stay(e, ids.drop_last(), f);
    }
}

/// The death of a vehicle takes with it all that ride in it and the unmanned vehicles that belong to
/// it.
pub proof fn death_takes_passengers(e: EngineV, vehicle: Id, k: Id)
    requires
        e.units.dom().finite(),
        e.units.contains_key(k),
    ensures
        ({
            let u = m::carrier_death(e, vehicle).units[k];
            &&& e.units[k].carried_by == Some(vehicle) ==> !u.alive
            &&& e.units[k].unit_type == UnitType::Ugv && e.units[k].affiliated_to == Some(vehicle)
                ==> !u.alive
        }),
{
    death_takes(e, vehicle, k);
}

/// The death of a vehicle takes with it the munitions that it has launched.
pub proof fn death_takes_munitions(e: EngineV, vehicle: Id, k: Id)
    requires
        e.units.dom().finite(),
        e.loitering_parent.dom().finite(),
        e.units.contains_key(k),
        e.loitering_parent.contains_key(k),
        e.loitering_parent[k] == vehicle,
    ensures
        !m::carrier_death(e, vehicle).units[k].alive,
{
    death_takes(e, vehicle, k);
}

proof fn death_takes(e: EngineV, vehicle: Id, k: Id)
    requires
        e.units.dom().finite(),
        e.units.contains_key(k),
    ensures
        ({
            let u = m::carrier_death(e, vehicle).units[k];
            &&& e.units[k].carried_by == Some(vehicle) ==> !u.alive
            &&& e.loitering_parent.dom().finite() && e.loitering_parent.contains_key(k)
                && e.loitering_parent[k] == vehicle ==> !u.alive
            &&& e.units[k].unit_type == UnitType::Ugv && e.units[k].affiliated_to == Some(vehicle)
                ==> !u.alive
        }),
{
    deadly_effects();
    let i1 = keys_where::<String, MountV>(e.mount_op, m::mounts_on(vehicle));
    let e1 = m::each(e, i1, m::drop_mount_f());
    deaths_each(e, i1, m::drop_mount_f());
    let i2 = keys_where::<String, UnitV>(e1.units, m::aboard(vehicle));
    let e2 = m::each(e1, i2, m::lose_f());
    deaths_each(e1, i2, m::lose_f());
    deaths_all(e1, i2, m::lose_f());
    let i3 = keys_where::<String, Id>(e2.loitering_parent, m::launched_from(vehicle));
    let e3 = m::each(e2, i3, m::expend_f());
    deaths_each(e2, i3, m::expend_f());
    deaths_all(e2, i3, m::expend_f());
    launches_stay(e, i1, m::drop_mount_f());
    launches_stay(e1, i2, m::lose_f());
    let i4 = keys_where::<String, UnitV>(e3.units, m::affiliate_of(vehicle));
    let e4 = m::each(e3, i4, m::lose_affiliate_f());
    deaths_each(e3, i4, m::lose_affiliate_f());
    deaths_all(e3, i4, m::lose_affiliate_f());
    deaths_trans(e, e1, e2);
    deaths_trans(e, e2, e3);
    deaths_trans(e, e3, e4);
    assert(e1.units.dom().contains(k) && e2.units.dom().contains(k) && e3.units.dom().contains(k));
    assert(e1.units.contains_key(k) && e2.units.contains_key(k) && e3.units.contains_key(k));
    deaths_trans(e2, e3, e4);
    if e.units[k].carried_by == Some(vehicle) && e1.units[k].alive {
        keys_where_has::<String, UnitV>(e1.units, m::aboard(vehicle), k);
        let i = i2.index_of(k);
        assert(!e2.units[i2[i]].alive);
    }
    if e.loitering_parent.dom().finite() && e.loitering_parent.contains_key(k)
        && e.loitering_parent[k] == vehicle {
        keys_where_has::<String, Id>(e2.loitering_parent, m::launched_from(vehicle), k);
        let i = i3.index_of(k);
        assert(!e3.units[i3[i]].alive);
    }
    if e.units[k].unit_type == UnitType::Ugv && e.units[k].affiliated_to == Some(vehicle)
        && e3.units[k].alive {
        keys_where_has::<String, UnitV>(e3.units, m::affiliate_of(vehicle), k);
        let i = i4.index_of(k);
        assert(!e4.units[i4[i]].alive);
    }
}

/// When a shot kills a unit, nobody is left alive inside it.
pub proof fn no_live_passenger_in_a_wreck(
    e: EngineV,
    id: Id,
    outcome: Outcome,
    t: Tick,
    ticks: Tick,
    k: Id,
)
    requires
        e.units.dom().finite(),
        e.units.contains_key(id),
        e.units.contains_key(k),
        m::kills(e.units[id], outcome),
        e.units[k].carried_by == Some(id),
    ensures
        !m::hit(e, id, outcome, t, ticks).units[id].alive,
        !m::hit(e, id, outcome, t, ticks).units[k].alive,
{
    let dead = RuntimeUnit { teams: 0, alive: false, ..e.units[id] };
    let e0 = m::put_unit(e, id, dead);
    assert(e0.units.dom() =~= e.units.dom());
    death_takes_passengers(e0, id, k);
    carrier_death_only_kills(e0, id);
    assert(e0.units.dom().contains(id));
}

// ---------- suppression ----------

/// Whether from `a` to `b` units have changed in nothing but until when they are busy.
pub open spec fn only_freed(a: EngineV, b: EngineV) -> bool {
    &&& a.units.dom() == b.units.dom()
    &&& forall|k: Id| #[trigger]
        a.units.contains_key(k) ==> b.units[k] == (RuntimeUnit {
            busy_until: b.units[k].busy_until,
            ..a.units[k]
        })
}

proof fn freed_trans(a: EngineV, b: EngineV, c: EngineV)
    requires
        only_freed(a, b),
        only_freed(b, c),
    ensures
        only_freed(a, c),
{
    assert forall|k: Id| #[trigger] a.units.contains_key(k) implies c.units[k] == (RuntimeUnit {
        busy_until: c.units[k].busy_until,
        ..a.units[k]
    }) by {
        assert(b.units.dom().contains(k));
        assert(b.units.contains_key(k));
    }
}

proof fn freed_busy(e: EngineV, id: Id, t: Tick)
    ensures
        only_freed(e, m::set_busy(e, id, t)),
{
    assert(m::set_busy(e, id, t).units.dom() =~= e.units.dom());
}

proof fn freed_each(e: EngineV, ids: Seq<Id>, f: spec_fn(EngineV, Id) -> EngineV)
    requires
        forall|x: EngineV, k: Id| only_freed(x, #[trigger] f(x, k)),
    ensures
        only_freed(e, m::each(e, ids, f)),
    decreases ids.len(),
{
    if ids.len() > 0 {
        freed_each(e, ids.drop_last(), f);
        freed_trans(e, m::each(e, ids.drop_last(), f), m::each(e, ids, f));
    }
}

proof fn freed_abort_agg(e: EngineV, init: Id)
    ensures
        only_freed(e, m::abort_agg(e, init)),
{
    if e.aggsplit_op.contains_key(init) {
        let e1 = EngineV {
            aggsplit_op: e.aggsplit_op.remove(init),
            aggsplit_gen: m::bumped(e.aggsplit_gen, init),
            ..e
        };
        let e2 = m::set_busy(e1, init, 0);
        freed_busy(e1, init, 0);
        freed_trans(e, e1, e2);
        if let AggSplitKind::Aggregate { other } = e.aggsplit_op[init].kind {
            freed_busy(e2, other, 0);
            freed_trans(e, e2, m::set_busy(e2, other, 0));
        }
    }
}

proof fn freed_abort_mount(e: EngineV, p: Id)
    ensures
        only_freed(e, m::abort_mount(e, p)),
{
    if e.mount_op.contains_key(p) {
        let e1 = EngineV { mount_op: e.mount_op.remove(p), ..e };
        let e2 = m::set_busy(e1, p, 0);
        freed_busy(e1, p, 0);
        freed_trans(e, e1, e2);
        freed_busy(e2, e.mount_op[p].vehicle, 0);
        freed_trans(e, e2, m::set_busy(e2, e.mount_op[p].vehicle, 0));
    }
}

/// Interrupting a unit frees units and does nothing else to any.
pub proof fn interruption_frees(e: EngineV, id: Id)
    ensures
        only_freed(e, m::interrupt_cover(e, id)),
        only_freed(e, m::interrupt_mounts(e, id)),
{
    freed_busy(EngineV { cover_transition: e.cover_transition.remove(id), ..e }, id, 0);
    let f = m::abort_mount_f();
    assert forall|x: EngineV, k: Id| only_freed(x, #[trigger] f(x, k)) by {
        freed_abort_mount(x, k);
    }
    let ids = keys_where::<String, MountV>(e.mount_op, m::mount_involves(id));
    let e1 = m::each(e, ids, f);
    freed_each(e, ids, f);
    let e2 = m::abort_minelay(e1, id);
    freed_busy(
        EngineV {
            minelay_in_flight: e1.minelay_in_flight.remove(id),
            minelayer_gen: m::bumped(e1.minelayer_gen, id),
            ..e1
        },
        id,
        0,
    );
    freed_trans(e, e1, e2);
    let g = m::abort_agg_f();
    assert forall|x: EngineV, k: Id| only_freed(x, #[trigger] g(x, k)) by {
        freed_abort_agg(x, k);
    }
    let more = keys_where::<String, AggSplitV>(e2.aggsplit_op, m::agg_involves(id));
    freed_each(e2, more, g);
    freed_trans(e, e2, m::each(e2, more, g));
}

/// Suppression ends what a unit was doing and marks it until `until`. It does not lift cover that
/// has been taken; any other posture gives way. No other unit changes but by becoming free.
pub proof fn suppression_keeps_cover(e: EngineV, id: Id, until: Tick, k: Id)
    requires
        e.units.contains_key(id),
        e.units.contains_key(k),
    ensures
        ({
            let b = m::suppress(e, id, until);
            let (u, v) = (e.units[id], b.units[id]);
            &&& v.suppressed_until == until
            &&& v.state == if u.state == UnitState::Cover {
                UnitState::Cover
            } else {
                UnitState::Suppressed
            }
            &&& v.alive == u.alive && v.teams == u.teams && v.pos == u.pos
            &&& !b.cover_transition.contains_key(id) && !b.radar_spinup.contains_key(id)
            &&& k != id ==> b.units[k] == (RuntimeUnit {
                busy_until: b.units[k].busy_until,
                ..e.units[k]
            })
        }),
{
    let e0 = m::interrupt_cover(e, id);
    interruption_frees(e, id);
    interruption_frees(e0, id);
    let e1 = m::interrupt_mounts(e0, id);
    freed_trans(e, e0, e1);
    mounts_leave_cover(e0, id);
    let r = EngineV { radar_spinup: e1.radar_spinup.remove(id), ..e1 };
    freed_busy(r, id, 0);
    let e2 = if e1.radar_spinup.contains_key(id) {
        m::set_busy(r, id, 0)
    } else {
        e1
    };
    freed_trans(e, e1, e2);
    assert(e2.units.dom().contains(id) && e2.units.dom().contains(k));
    assert(e2.units.contains_key(id));
}

proof fn cover_each(e: EngineV, ids: Seq<Id>, f: spec_fn(EngineV, Id) -> EngineV)
    requires
        forall|x: EngineV, k: Id| (#[trigger] f(x, k)).cover_transition == x.cover_transition,
    ensures
        m::each(e, ids, f).cover_transition == e.cover_transition,
    decreases ids.len(),
{
    if ids.len() > 0 {
        cover_each(e, ids.drop_last(), f);
    }
}

proof fn mounts_leave_cover(e: EngineV, id: Id)
    ensures
        m::interrupt_mounts(e, id).cover_transition == e.cover_transition,
{
    let ids = keys_where::<String, MountV>(e.mount_op, m::mount_involves(id));
    cover_each(e, ids, m::abort_mount_f());
    let e1 = m::each(e, ids, m::abort_mount_f());
    let e2 = m::abort_minelay(e1, id);
    cover_each(
        e2,
        keys_where::<String, AggSplitV>(e2.aggsplit_op, m::agg_involves(id)),
        m::abort_agg_f(),
    );
}

// ---------- small laws ----------

/// Altitudes are neighbours of each other, never of themselves, and high and very low are not.
pub proof fn altitude_neighbours(a: HeliAlt, b: HeliAlt)
    ensures
        altitudes_adjacent(a, b) == altitudes_adjacent(b, a),
        !altitudes_adjacent(a, a),
        !altitudes_adjacent(HeliAlt::High, HeliAlt::VeryLow),
{
}

/// A posture that fatigue bars stays barred as fatigue grows; without fatigue none is.
pub proof fn fatigue_bars_more_and_more(mode: UnitState, fatigue: i64, more: i64)
    requires
        fatigue <= more,
    ensures
        mode_allowed(mode, more) ==> mode_allowed(mode, fatigue),
        mode_allowed(mode, 0),
{
}

/// The id of a unit that is split off holds the mark that no scenario's id may hold.
pub proof fn child_ids_are_marked(parent: Id, n: u64)
    ensures
        child_id(parent, n).contains('#'),
{
    reveal_strlit("#");
    let c = child_id(parent, n);
    assert("#"@[0] == '#');
    assert((parent + "#"@)[parent.len() as int] == '#');
    assert(c[parent.len() as int] == '#');
}

proof fn digits_only(n: nat)
    ensures
        dec(n).len() > 0,
        dec(n).len() == 1 <==> n < 10,
        forall|i: int| 0 <= i < dec(n).len() ==> #[trigger] dec(n)[i] != '#',
    decreases n,
{
    if n >= 10 {
        digits_only(n / 10);
    }
}

proof fn digits_tell(a: nat, b: nat)
    requires
        dec(a) == dec(b),
    ensures
        a == b,
    decreases a,
{
    digits_only(a);
    digits_only(b);
    if a >= 10 {
        digits_only(a / 10);
        digits_only(b / 10);
        assert(dec(a).drop_last() =~= dec(a / 10));
        assert(dec(b).drop_last() =~= dec(b / 10));
        digits_tell(a / 10, b / 10);
        assert(dec(a).last() == digit_char((a % 10) as int));
        assert(dec(b).last() == digit_char((b % 10) as int));
        assert(digit_char((a % 10) as int) as u32 == 48 + a % 10);
        assert(digit_char((b % 10) as int) as u32 == 48 + b % 10);
    } else {
        assert(dec(a)[0] as u32 == 48 + a);
        assert(dec(b)[0] as u32 == 48 + b);
    }
}

proof fn mark_is_last(parent: Id, n: u64)
    ensures
        ({
            let c = child_id(parent, n);
            &&& c.len() > parent.len()
            &&& c[parent.len() as int] == '#'
            &&& c.take(parent.len() as int) == parent
            &&& c.skip(parent.len() as int + 1) == dec(n as nat)
            &&& forall|i: int| parent.len() < i < c.len() ==> #[trigger] c[i] != '#'
        }),
{
    reveal_strlit("#");
    let c = child_id(parent, n);
    digits_only(n as nat);
    assert((parent + "#"@)[parent.len() as int] == '#');
    assert(c.take(parent.len() as int) =~= parent);
    assert(c.skip(parent.len() as int + 1) =~= dec(n as nat));
    assert forall|i: int| parent.len() < i < c.len() implies #[trigger] c[i] != '#' by {
        assert(c[i] == dec(n as nat)[i - parent.len() - 1]);
    }
}

/// Two units that are split off under different numbers, or off different units, have different
/// ids.
pub proof fn child_ids_differ(a: Id, m: u64, b: Id, n: u64)
    ensures
        child_id(a, m) == child_id(b, n) ==> a == b && m == n,
{
    if child_id(a, m) == child_id(b, n) {
        mark_is_last(a, m);
        mark_is_last(b, n);
        digits_tell(m as nat, n as nat);
    }
}

// ---------- a sound beginning ----------

proof fn no_error(check: spec_fn(int) -> Option<ErrV>, i: int, n: int, j: int)
    requires
        first_error(check, i, n) is None,
        i <= j < n,
    ensures
        check(j) is None,
    decreases n - i,
{
    if i < j {
        no_error(check, i + 1, n, j);
    }
}

proof fn enlisted_from(units: Map<Id, UnitV>, list: Seq<ScenarioUnit>, side: SideId, k: Id)
    requires
        enlist(units, list, side).contains_key(k),
    ensures
        units.contains_key(k) && enlist(units, list, side)[k] == units[k] || exists|i: int|
            0 <= i < list.len() && (#[trigger] list[i]).id@ == k && enlist(units, list, side)[k]
                == enlisted(list[i], side),
    decreases list.len(),
{
    if list.len() > 0 {
        let rest = list.drop_last();
        if list.last().id@ == k {
            assert(list[list.len() - 1].id@ == k);
        } else {
            enlisted_from(units, rest, side, k);
            if !(units.contains_key(k) && enlist(units, rest, side)[k] == units[k]) {
                let i = choose|i: int|
                    0 <= i < rest.len() && (#[trigger] rest[i]).id@ == k && enlist(
                        units,
                        rest,
                        side,
                    )[k] == enlisted(rest[i], side);
                assert(list[i] == rest[i]);
            }
        }
    }
}

proof fn enlist_finite(units: Map<Id, UnitV>, list: Seq<ScenarioUnit>, side: SideId)
    requires
        units.dom().finite(),
    ensures
        enlist(units, list, side).dom().finite(),
    decreases list.len(),
{
    if list.len() > 0 {
        enlist_finite(units, list.drop_last(), side);
    }
}

/// A match begins with finitely many units.
pub proof fn roster_finite(s: Scenario)
    ensures
        roster(s).dom().finite(),
{
    let first = enlist(Map::empty(), s.sides.red.units@, SideId::Red);
    enlist_finite(Map::<Id, UnitV>::empty(), s.sides.red.units@, SideId::Red);
    enlist_finite(first, s.sides.blue.units@, SideId::Blue);
}

/// In a match that begins every unit is kept under its id and stands on the board; no id holds the
/// mark of split-off units; only vehicles march; what a unit belongs to is a manned vehicle of its
/// side, and what carries it another unit of its side.
pub proof fn accepted_setup_is_sound(map: GameMap, s: Scenario, rules: Rules, k: Id)
    requires
        setup_error(map, s, rules) is None,
        roster(s).contains_key(k),
    ensures
        ({
            let u = roster(s)[k];
            &&& roster(s).dom().finite()
            &&& u.id == k && u.alive && cell_at(map, u.pos) is Some
            &&& u.inside_facility is None
            &&& !u.id.contains('#')
            &&& u.state == UnitState::March ==> vehicle(u.unit_type)
            &&& u.state != UnitState::Half && u.state != UnitState::Charge1 && u.state
                != UnitState::Charge2
            &&& u.unit_type == UnitType::Ugv ==> u.affiliated_to is Some
            &&& match u.affiliated_to {
                Some(p) => p != k && roster(s).contains_key(p) && roster(s)[p].side == u.side
                    && manned(roster(s)[p].unit_type),
                None => true,
            }
            &&& match u.carried_by {
                Some(c) => c != k && roster(s).contains_key(c) && roster(s)[c].side == u.side,
                None => true,
            }
        }),
{
    let (red, blue) = (s.sides.red.units@, s.sides.blue.units@);
    let units = roster(s);
    let first = enlist(Map::<Id, UnitV>::empty(), red, SideId::Red);
    let u = units[k];
    enlisted_from(first, blue, SideId::Blue, k);
    if exists|i: int|
        0 <= i < blue.len() && (#[trigger] blue[i]).id@ == k && u == enlisted(
            blue[i],
            SideId::Blue,
        ) {
        let i = choose|i: int|
            0 <= i < blue.len() && (#[trigger] blue[i]).id@ == k && u == enlisted(
                blue[i],
                SideId::Blue,
            );
        no_error(placing(map, blue), 0, blue.len() as int, i);
    } else {
        enlisted_from(Map::<Id, UnitV>::empty(), red, SideId::Red, k);
        let i = choose|i: int|
            0 <= i < red.len() && (#[trigger] red[i]).id@ == k && first[k] == enlisted(
                red[i],
                SideId::Red,
            );
        no_error(placing(map, red), 0, red.len() as int, i);
    }
    roster_finite(s);
    keys_listed::<String>(units.dom());
    let ks = sorted_keys::<String>(units.dom());
    assert(units.dom().contains(k));
    assert(ks.contains(k));
    let j = ks.index_of(k);
    let n = ks.len() as int;
    no_error(id_check(units), 0, n, j);
    no_error(posture_check(units), 0, n, j);
    no_error(affiliation_check(units), 0, n, j);
    no_error(carriage_check(units), 0, n, j);
}

/// Nobody else dies with a vehicle: who neither rides in it, nor belongs to it, nor was launched from
/// it lives on with all its teams. Who was still boarding stays behind, free.
pub proof fn who_outlives_a_vehicle(e: EngineV, vehicle: Id, k: Id)
    requires
        e.units.dom().finite(),
        e.mount_op.dom().finite(),
        e.loitering_parent.dom().finite(),
        e.units.contains_key(k),
        e.units[k].alive,
        e.units[k].carried_by != Some(vehicle),
        !(e.units[k].unit_type == UnitType::Ugv && e.units[k].affiliated_to == Some(vehicle)),
        !(e.loitering_parent.contains_key(k) && e.loitering_parent[k] == vehicle),
    ensures
        m::carrier_death(e, vehicle).units[k].alive,
        m::carrier_death(e, vehicle).units[k].teams == e.units[k].teams,
        m::carrier_death(e, vehicle).units[k].pos == e.units[k].pos,
{
    deadly_effects();
    let i1 = keys_where::<String, MountV>(e.mount_op, m::mounts_on(vehicle));
    let e1 = m::each(e, i1, m::drop_mount_f());
    deaths_each(e, i1, m::drop_mount_f());
    dropping_spares(e, i1, k);
    launches_stay(e, i1, m::drop_mount_f());
    assert(e1.units.dom().contains(k));
    let i2 = keys_where::<String, UnitV>(e1.units, m::aboard(vehicle));
    let e2 = m::each(e1, i2, m::lose_f());
    keys_where_has::<String, UnitV>(e1.units, m::aboard(vehicle), k);
    losing_spares(e1, i2, k);
    launches_stay(e1, i2, m::lose_f());
    deaths_each(e1, i2, m::lose_f());
    assert(e2.units.dom().contains(k));
    let i3 = keys_where::<String, Id>(e2.loitering_parent, m::launched_from(vehicle));
    let e3 = m::each(e2, i3, m::expend_f());
    keys_where_has::<String, Id>(e2.loitering_parent, m::launched_from(vehicle), k);
    expending_spares(e2, i3, k);
    deaths_each(e2, i3, m::expend_f());
    assert(e3.units.dom().contains(k));
    let i4 = keys_where::<String, UnitV>(e3.units, m::affiliate_of(vehicle));
    deaths_trans(e, e1, e2);
    deaths_trans(e, e2, e3);
    keys_where_has::<String, UnitV>(e3.units, m::affiliate_of(vehicle), k);
    affiliates_spare(e3, i4, k);
}

proof fn dropping_spares(e: EngineV, ids: Seq<Id>, k: Id)
    requires
        e.units.contains_key(k),
    ensures
        ({
            let r = m::each(e, ids, m::drop_mount_f()).units;
            r.contains_key(k) && r[k] == (RuntimeUnit { busy_until: r[k].busy_until, ..e.units[k] })
        }),
    decreases ids.len(),
{
    if ids.len() > 0 {
        dropping_spares(e, ids.drop_last(), k);
    }
}

proof fn losing_spares(e: EngineV, ids: Seq<Id>, k: Id)
    requires
        e.units.contains_key(k),
        !ids.contains(k),
    ensures
        m::each(e, ids, m::lose_f()).units.contains_key(k),
        m::each(e, ids, m::lose_f()).units[k] == e.units[k],
    decreases ids.len(),
{
    if ids.len() > 0 {
        let rest = ids.drop_last();
        assert(ids[ids.len() - 1] == ids.last());
        if rest.contains(k) {
            assert(ids[rest.index_of(k)] == k);
        }
        losing_spares(e, rest, k);
    }
}

proof fn expending_spares(e: EngineV, ids: Seq<Id>, k: Id)
    requires
        e.units.contains_key(k),
        !ids.contains(k),
    ensures
        m::each(e, ids, m::expend_f()).units.contains_key(k),
        m::each(e, ids, m::expend_f()).units[k] == e.units[k],
    decreases ids.len(),
{
    if ids.len() > 0 {
        let rest = ids.drop_last();
        assert(ids[ids.len() - 1] == ids.last());
        if rest.contains(k) {
            assert(ids[rest.index_of(k)] == k);
        }
        expending_spares(e, rest, k);
    }
}

proof fn affiliates_spare(e: EngineV, ids: Seq<Id>, k: Id)
    requires
        e.units.contains_key(k),
        !ids.contains(k),
    ensures
        m::each(e, ids, m::lose_affiliate_f()).units.contains_key(k),
        m::each(e, ids, m::lose_affiliate_f()).units[k] == e.units[k],
    decreases ids.len(),
{
    if ids.len() > 0 {
        let rest = ids.drop_last();
        assert(ids[ids.len() - 1] == ids.last());
        if rest.contains(k) {
            assert(ids[rest.index_of(k)] == k);
        }
        affiliates_spare(e, rest, k);
    }
}

/// What is split off a unit is like it: of its side, type, armor, facing and affiliation, in its hex,
/// alive and standing still in the open, with its weapon ready, neither busy, suppressed nor tired.
pub proof fn what_is_split_off(u: UnitV, id: Id, teams: u8)
    ensures
        ({
            let c = crate::engine::events::child_of(u, id, teams);
            &&& c.id == id && c.teams == teams && c.side == u.side && c.unit_type == u.unit_type
                && c.armor == u.armor && c.facing == u.facing && c.affiliated_to == u.affiliated_to
                && c.pos == u.pos
            &&& c.alive && c.state == UnitState::Stopped && c.weapon_state
                == crate::types::WeaponState::Deployed && c.busy_until == 0 && c.suppressed_until == 0
                && c.fatigue == 0 && c.carried_by is None && c.inside_facility is None
        }),
{
}

} // verus!
