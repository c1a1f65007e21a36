//! What hits do to fortifications, and what they interrupt.
use crate::combat::{salvo_effect, IndirectBase, TargetTerrain};
use crate::engine::laws_orders::works_loss;
use crate::engine::laws_units::interruption_frees;
use crate::engine::model as m;
use crate::engine::model::{AggSplitKind, AggSplitV, EngineV, Id, MountKind, MountV};
use crate::hex::Axial;
use crate::ordmap::{keys_where, keys_where_has};
use crate::prob::Outcome;
use crate::rng::PcgRng;
use crate::rules::{at, timing_of};
use crate::time::Tick;
use crate::types::{FacilityV, RuntimeFacility, RuntimeUnit, UnitType, UnitV, WeaponState};
use vstd::prelude::*;

verus! {

// ---------- fortifications for vehicles ----------

/// A hit takes from the capacity of a fortification for vehicles what it destroys, down to nothing.
/// If those inside then have more teams than it holds, all of them are out in the open at once, which
/// may begin a fight; else nobody is touched.
pub proof fn what_a_hit_takes_from_works(e: EngineV, fac: Id, outcome: Outcome)
    requires
        e.facilities.contains_key(fac),
    ensures
        ({
            let f = e.facilities[fac];
            let loss = works_loss(outcome);
            let left = if f.capacity > loss {
                f.capacity - loss
            } else {
                0
            };
            let ids = keys_where::<String, UnitV>(e.units, m::inside(fac));
            let hurt = EngineV {
                facilities: e.facilities.insert(
                    fac,
                    RuntimeFacility { capacity: left as u8, ..f },
                ),
                ..e
            };
            let r = m::vehicle_works_hit(e, fac, outcome);
            &&& loss == 0 ==> r == e
            &&& loss > 0 && m::teams_of(e.units, ids) <= left ==> r == hurt
            &&& loss > 0 && m::teams_of(e.units, ids) > left ==> ({
                let out = m::each(hurt, ids, |x: EngineV, k: Id| m::expel(x, k));
                r == m::trigger_same_hex(out, e.units[ids.last()].pos, out.clock)
            })
        }),
{
    let f = |x: EngineV, k: Id| m::expel(x, k);
    assert(f =~= m::expel_f());
}

/// Who is put out is in the open and free where it was, and loses nothing.
pub proof fn what_putting_out_does(e: EngineV, id: Id)
    requires
        e.units.contains_key(id),
    ensures
        m::expel(e, id).units == e.units.insert(
            id,
            RuntimeUnit { inside_facility: None, busy_until: 0, ..e.units[id] },
        ),
        m::expel(e, id).same_hex_order.contains_key(id),
        e.same_hex_order.contains_key(id) ==> m::expel(e, id).same_hex_order == e.same_hex_order,
{
}

/// The teams of several units are the sum of theirs.
pub proof fn teams_add_up(units: Map<Id, UnitV>, ids: Seq<Id>, id: Id)
    requires
        units.contains_key(id),
    ensures
        m::teams_of(units, ids.push(id)) == m::teams_of(units, ids) + units[id].teams,
        m::teams_of(units, Seq::empty()) == 0,
{
    assert(ids.push(id).drop_last() =~= ids);
}

// ---------- fortifications for personnel ----------

/// Those inside a fortification for combat take what hits it. A loss goes through them by id, from
/// each as much as is left of it and as it has teams, until nothing is left; anything else hits each
/// of them; no effect touches nobody.
pub proof fn what_a_garrison_takes(e: EngineV, fac: Id, outcome: Outcome, t: Tick, ticks: Tick)
    requires
        timing_of(e.rules, "suppress_duration"@) == Some(ticks),
    ensures
        ({
            let ids = keys_where::<String, UnitV>(e.units, m::inside(fac));
            let r = m::personnel_works_hit(e, fac, outcome, t);
            &&& r.1 is Ok
            &&& outcome == Outcome::NoEffect ==> r.0 == e
            &&& outcome is Destroyed ==> r.0 == m::garrison_losses(
                e,
                ids,
                outcome->Destroyed_0,
                t,
                ticks,
            ).0
            &&& outcome == Outcome::Suppress || outcome == Outcome::Kill ==> r.0 == m::each(
                e,
                ids,
                |x: EngineV, k: Id| m::hit_whole(x, k, outcome, t, ticks),
            )
        }),
{
    let f = |x: EngineV, k: Id| m::hit_whole(x, k, outcome, t, ticks);
    assert(f =~= m::hit_whole_f(outcome, t, ticks));
}

/// The next of a garrison takes of a loss as many teams as it has, or as are left to take; and so much
/// less is left for the others.
pub proof fn how_a_loss_goes_through(e: EngineV, ids: Seq<Id>, id: Id, n: u8, t: Tick, ticks: Tick)
    ensures
        ({
            let before = m::garrison_losses(e, ids, n, t, ticks);
            let after = m::garrison_losses(e, ids.push(id), n, t, ticks);
            let has = if before.0.units.contains_key(id) {
                before.0.units[id].teams
            } else {
                0
            };
            let takes = if has < before.1 {
                has
            } else {
                before.1
            };
            &&& after.1 == before.1 - takes
            &&& takes == 0 ==> after.0 == before.0
            &&& takes > 0 ==> after.0 == m::hit_whole(
                before.0,
                id,
                Outcome::Destroyed(takes),
                t,
                ticks,
            )
            &&& m::garrison_losses(e, Seq::empty(), n, t, ticks) == (e, n)
        }),
{
    assert(ids.push(id).drop_last() =~= ids);
}

/// A salvo on a fortification counts the guns, its own armor and its walls, and no posture.
pub proof fn salvos_on_works(armor: crate::types::Armor, guns: u8)
    ensures
        ({
            let c = m::works_salvo_mods(armor, guns);
            c.target_terrain == TargetTerrain::UrbanOrWorks && c.armor == armor && c.gun_count == guns
                && !c.target_cover && !c.target_moving_personnel && !c.target_stacked
                && !c.target_march
        }),
{
}

/// A salvo that finds a fortification in its hex, after the units there, strikes the first one that
/// can be fired upon: one for vehicles itself, one for combat those inside.
pub proof fn which_works_a_salvo_strikes(e: EngineV, hex: Axial, base: IndirectBase, guns: u8, t: Tick)
    ensures
        ({
            let units = m::each(
                e,
                keys_where::<String, UnitV>(e.units, m::exposed_at(hex)),
                m::take_salvo_f(base, guns, t),
            );
            let works = keys_where::<String, FacilityV>(units.facilities, m::works_at(hex));
            let f = units.facilities[works[0]];
            let r = salvo_effect::<PcgRng>(
                units.tables,
                units.rng,
                base,
                m::works_salvo_mods(f.armor, guns),
            );
            let drawn = EngineV { rng: r.1, ..units };
            &&& works.len() > 0 && f.kind == "works_vehicle"@ ==> m::salvo_lands(
                e,
                hex,
                base,
                guns,
                t,
            ) == m::vehicle_works_hit(drawn, works[0], r.0)
            &&& works.len() > 0 && f.kind == "works_infantry_combat"@ ==> m::salvo_lands(
                e,
                hex,
                base,
                guns,
                t,
            ) == m::personnel_works_hit(drawn, works[0], r.0, t).0
        }),
{
    crate::mechanics_laws::garrisons_by_kind(UnitType::Infantry, 0);
}

/// Which fortifications a salvo can strike in a hex: those there for vehicles and for combat.
pub proof fn works_open_to_salvos(works: Map<Id, FacilityV>, hex: Axial, k: Id)
    requires
        works.dom().finite(),
    ensures
        keys_where::<String, FacilityV>(works, m::works_at(hex)).contains(k) <==> works.contains_key(
            k,
        ) && works[k].at == hex && (works[k].kind == "works_vehicle"@ || works[k].kind
            == "works_infantry_combat"@),
{
    crate::mechanics_laws::garrisons_by_kind(UnitType::Infantry, 0);
    keys_where_has::<String, FacilityV>(works, m::works_at(hex), k);
}

// ---------- interruptions ----------

/// What the suppression of a unit calls off: of boardings, those with it as passenger or vehicle; of
/// leavings, those from it; of merges and splits, those that it takes part in.
pub proof fn what_suppression_calls_off(e: EngineV, id: Id, p: Id, q: Id)
    requires
        e.mount_op.dom().finite(),
        e.aggsplit_op.dom().finite(),
    ensures
        keys_where::<String, MountV>(e.mount_op, m::mount_involves(id)).contains(p)
            <==> e.mount_op.contains_key(p) && (e.mount_op[p].vehicle == id || (p == id
            && e.mount_op[p].kind == MountKind::Mount)),
        keys_where::<String, AggSplitV>(e.aggsplit_op, m::agg_involves(id)).contains(q)
            <==> e.aggsplit_op.contains_key(q) && (q == id || e.aggsplit_op[q].kind == (
        AggSplitKind::Aggregate { other: id })),
{
    keys_where_has::<String, MountV>(e.mount_op, m::mount_involves(id), p);
    keys_where_has::<String, AggSplitV>(e.aggsplit_op, m::agg_involves(id), q);
}

/// A boarding that is called off leaves passenger and vehicle free where they are.
pub proof fn what_calling_off_a_boarding_does(e: EngineV, p: Id)
    requires
        e.mount_op.contains_key(p),
        e.units.contains_key(p),
        e.units.contains_key(e.mount_op[p].vehicle),
        p != e.mount_op[p].vehicle,
    ensures
        ({
            let v = e.mount_op[p].vehicle;
            let r = m::abort_mount(e, p);
            &&& !r.mount_op.contains_key(p)
            &&& r.units[p] == (RuntimeUnit { busy_until: 0, ..e.units[p] })
            &&& r.units[v] == (RuntimeUnit { busy_until: 0, ..e.units[v] })
        }),
{
}

/// A merge or split that is called off leaves its units free as they are, and its end will find
/// nothing to do.
pub proof fn what_calling_off_a_regrouping_does(e: EngineV, id: Id)
    requires
        e.aggsplit_op.contains_key(id),
        e.units.contains_key(id),
    ensures
        ({
            let r = m::abort_agg(e, id);
            &&& !r.aggsplit_op.contains_key(id)
            &&& r.units[id] == (RuntimeUnit { busy_until: 0, ..e.units[id] })
            &&& match e.aggsplit_op[id].kind {
                AggSplitKind::Aggregate { other } => e.units.contains_key(other) ==> r.units[other]
                    == (RuntimeUnit { busy_until: 0, ..e.units[other] }),
                AggSplitKind::Split => true,
            }
        }),
{
}

/// Mines that are being laid when their layer is suppressed are not laid; nor is a change into cover
/// completed.
pub proof fn what_else_is_called_off(e: EngineV, id: Id, gen: u64)
    requires
        e.units.contains_key(id),
    ensures
        !m::abort_minelay(e, id).minelay_in_flight.contains_key(id),
        m::abort_minelay(e, id).minefields == e.minefields,
        e.minelay_in_flight.contains_key(id) ==> m::abort_minelay(e, id).units[id] == (
        RuntimeUnit { busy_until: 0, ..e.units[id] }),
        e.minelay_in_flight.contains_key(id) && m::number_of(e.minelayer_gen, id) == gen && gen
            < u64::MAX ==> m::abort_minelay(e, id).minelayer_gen[id] != gen,
        !m::interrupt_cover(e, id).cover_transition.contains_key(id),
        e.cover_transition.contains_key(id) ==> m::interrupt_cover(e, id).units[id] == (
        RuntimeUnit { busy_until: 0, ..e.units[id] }),
        !e.cover_transition.contains_key(id) ==> m::interrupt_cover(e, id) == e,
{
}

/// Who is drawn into a fight can fire: a cooling weapon is ready. What it was doing is off.
pub proof fn what_being_drawn_in_does(e: EngineV, id: Id)
    requires
        e.units.contains_key(id),
    ensures
        ({
            let off = m::interrupt_mounts(m::interrupt_cover(e, id), id);
            let r = m::drawn_in(e, id);
            &&& !r.radar_spinup.contains_key(id)
            &&& e.units[id].weapon_state == WeaponState::Cooling ==> r.units[id].weapon_state
                == WeaponState::Deployed
            &&& e.units[id].weapon_state != WeaponState::Cooling ==> r.units[id].weapon_state
                == e.units[id].weapon_state
            &&& r.units[id].teams == e.units[id].teams && r.units[id].pos == e.units[id].pos
                && r.units[id].alive == e.units[id].alive && r.units[id].state == e.units[id].state
        }),
{
    interruption_frees(e, id);
    let e1 = m::interrupt_cover(e, id);
    interruption_frees(e1, id);
    let e2 = m::interrupt_mounts(e1, id);
    assert(e.units.dom().contains(id));
    assert(e1.units.dom().contains(id) && e1.units.contains_key(id));
    assert(e2.units.dom().contains(id) && e2.units.contains_key(id));
}

} // verus!
