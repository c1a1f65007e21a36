//! Hexes hold no more of a side than the rules allow, as far as units enter them.
use crate::combat::{
    loadout_of, mine_loss, noted, pick_target, salvo_effect, same_hex_fire, IndirectBase,
};
use crate::engine::actions::without_plans;
use crate::engine::events::{
    arrive, boom_over, child_id, child_of, finish_exit, finish_mount, finish_split, hidden_at,
    meet_mines, meet_salvos, mine_outcome, own_boom, rider_of, set_pos_f, split_teams, step_onto,
    take_booms, uncover_f,
};
use crate::engine::laws::ids_match;
use crate::engine::laws_units::{
    carrier_death_only_kills, interruption_frees, only_deaths, only_freed,
};
use crate::engine::model as m;
use crate::engine::model::{EngineV, Id, MountKind, PlanV, SameHexState};
use crate::engine::moves::{plan_hop, step_ticks};
use crate::hex::{hex_distance, line_hex, Axial};
use crate::mechanics::{fatigue_per_hex, ground, halts_march, stack_room, stacked_at};
use crate::ordmap::{keys_listed, keys_where, keys_where_has, some_entry, sorted_keys, MapKey};
use crate::prob::Outcome;
use crate::rng::{dice, PcgRng};
use crate::rules::at;
use crate::time::{next_of, tick_sum, Tick};
use crate::types::{on_board, RuntimeUnit, SideId, UnitState, UnitType, UnitV, WeaponState};
use vstd::prelude::*;

verus! {

/// A live ground unit of a side on the board at `hex`.
pub open spec fn counted(side: SideId, hex: Axial) -> spec_fn(Id, UnitV) -> bool {
    |k: Id, u: UnitV|
        u.alive && u.side == side && ground(u.unit_type) && u.unit_type != UnitType::SpaceRecon
            && on_board(u) && u.pos == hex
}

/// How many ground units of a side a hex holds.
pub open spec fn stack(units: Map<Id, UnitV>, side: SideId, hex: Axial) -> nat {
    keys_where::<String, UnitV>(units, counted(side, hex)).len()
}

// ---------- who stays where it is ----------

/// Whether a unit of `side` counts at most where it did, and any unit still belongs to whom it did.
pub open spec fn no_further(u: UnitV, v: UnitV, side: SideId) -> bool {
    &&& v.side == u.side && v.id == u.id && v.unit_type == u.unit_type && v.affiliated_to
        == u.affiliated_to && v.carried_by == u.carried_by
    &&& u.side == side ==> v.pos == u.pos && (v.alive ==> u.alive) && v.inside_facility
        == u.inside_facility
}

/// Whether no unit of `side` has come to count anywhere.
#[verifier::opaque]
pub open spec fn stays(a: Map<Id, UnitV>, b: Map<Id, UnitV>, side: SideId) -> bool {
    &&& a.dom() == b.dom()
    &&& forall|k: Id| #[trigger] a.contains_key(k) ==> no_further(a[k], b[k], side)
}

pub(crate) broadcast proof fn stays_both(a: Map<Id, UnitV>, b: Map<Id, UnitV>, c: Map<Id, UnitV>, side: SideId)
    requires
        #[trigger] stays(a, b, side),
        #[trigger] stays(b, c, side),
    ensures
        stays(a, c, side),
{
    reveal(stays);
    assert forall|k: Id| #[trigger] a.contains_key(k) implies no_further(a[k], c[k], side) by {
        assert(b.dom().contains(k));
        assert(b.contains_key(k));
    }
}

pub(crate) broadcast proof fn stays_self(a: Map<Id, UnitV>, side: SideId)
    ensures
        #[trigger] stays(a, a, side),
{
    reveal(stays);
}

proof fn stays_put(e: EngineV, id: Id, v: UnitV, side: SideId)
    requires
        e.units.contains_key(id),
        no_further(e.units[id], v, side),
    ensures
        stays(e.units, m::put_unit(e, id, v).units, side),
{
    reveal(stays);
    assert(m::put_unit(e, id, v).units.dom() =~= e.units.dom());
}

proof fn stays_small(e: EngineV, id: Id, t: Tick, w: WeaponState, side: SideId)
    ensures
        stays(e.units, m::set_busy(e, id, t).units, side),
        stays(e.units, m::set_weapon(e, id, w).units, side),
{
    reveal(stays);
    assert(m::set_busy(e, id, t).units.dom() =~= e.units.dom());
    assert(m::set_weapon(e, id, w).units.dom() =~= e.units.dom());
}

proof fn stays_deaths(a: EngineV, b: EngineV, side: SideId)
    requires
        only_deaths(a, b) || only_freed(a, b),
    ensures
        stays(a.units, b.units, side),
{
    reveal(stays);
}

proof fn stays_each(e: EngineV, ids: Seq<Id>, f: spec_fn(EngineV, Id) -> EngineV, side: SideId)
    requires
        forall|x: EngineV, k: Id| stays(x.units, (#[trigger] f(x, k)).units, side),
    ensures
        stays(e.units, m::each(e, ids, f).units, side),
    decreases ids.len(),
{
    broadcast use {stays_both, stays_self};

    if ids.len() > 0 {
        stays_each(e, ids.drop_last(), f, side);
        assert(stays(
            m::each(e, ids.drop_last(), f).units,
            f(m::each(e, ids.drop_last(), f), ids.last()).units,
            side,
        ));
    }
}

// ---------- fire ----------

proof fn stays_suppress(e: EngineV, id: Id, until: Tick, side: SideId)
    ensures
        stays(e.units, m::suppress(e, id, until).units, side),
{
    broadcast use {stays_both, stays_self};

    let e0 = m::interrupt_cover(e, id);
    interruption_frees(e, id);
    stays_deaths(e, e0, side);
    interruption_frees(e0, id);
    let e1 = m::interrupt_mounts(e0, id);
    stays_deaths(e0, e1, side);
    let r = EngineV { radar_spinup: e1.radar_spinup.remove(id), ..e1 };
    stays_small(r, id, 0, WeaponState::Cooling, side);
    let e2 = if e1.radar_spinup.contains_key(id) {
        m::set_busy(r, id, 0)
    } else {
        e1
    };
    if e2.units.contains_key(id) {
        let u = e2.units[id];
        stays_put(
            e2,
            id,
            RuntimeUnit {
                suppressed_until: until,
                state: if u.state == UnitState::Cover {
                    u.state
                } else {
                    UnitState::Suppressed
                },
                ..u
            },
            side,
        );
    }
}

proof fn stays_hit(e: EngineV, id: Id, outcome: Outcome, t: Tick, ticks: Tick, side: SideId)
    ensures
        stays(e.units, m::hit(e, id, outcome, t, ticks).units, side),
{
    broadcast use {stays_both, stays_self};

    if e.units.contains_key(id) {
        let u = e.units[id];
        let dead = RuntimeUnit { teams: 0, alive: false, ..u };
        stays_put(e, id, dead, side);
        let e0 = m::put_unit(e, id, dead);
        carrier_death_only_kills(e0, id);
        stays_deaths(e0, m::carrier_death(e0, id), side);
        let left = RuntimeUnit { teams: m::teams_left(u, outcome), ..u };
        stays_put(e, id, left, side);
        stays_suppress(m::put_unit(e, id, left), id, tick_sum(t, ticks), side);
    }
}

proof fn stays_fire(e: EngineV, id: Id, outcome: Outcome, t: Tick, side: SideId)
    ensures
        stays(e.units, m::take_fire(e, id, outcome, t).units, side),
{
    broadcast use {stays_both, stays_self};

    match m::need(e, "suppress_duration"@) {
        Ok(ticks) => {
            stays_hit(e, id, outcome, t, ticks, side);
            let e1 = m::hit(e, id, outcome, t, ticks);
            let f = m::hit_f(outcome, t, ticks);
            assert forall|x: EngineV, k: Id| stays(x.units, (#[trigger] f(x, k)).units, side) by {
                stays_hit(x, k, outcome, t, ticks, side);
            }
            stays_each(e1, keys_where::<String, UnitV>(e1.units, m::cargo_of(id)), f, side);
        },
        Err(_) => {},
    }
}

proof fn stays_salvo(e: EngineV, id: Id, base: IndirectBase, guns: u8, t: Tick, side: SideId)
    ensures
        stays(e.units, m::take_salvo(e, id, base, guns, t).units, side),
{
    broadcast use {stays_both, stays_self};

    if e.units.contains_key(id) {
        let u = e.units[id];
        let r = salvo_effect::<PcgRng>(e.tables, e.rng, base, m::salvo_mods(e, u, guns));
        stays_fire(EngineV { rng: r.1, ..e }, id, r.0, t, side);
    }
}

proof fn stays_booms(e: EngineV, plans: Map<u64, PlanV>, ids: Seq<u64>, id: Id, side: SideId)
    ensures
        stays(e.units, take_booms(e, plans, ids, id).units, side),
    decreases ids.len(),
{
    broadcast use {stays_both, stays_self};

    if ids.len() > 0 {
        stays_booms(e, plans, ids.drop_last(), id, side);
        let e1 = take_booms(e, plans, ids.drop_last(), id);
        let p = plans[ids.last()];
        stays_salvo(e1, id, p.base, p.gun_count, e1.clock, side);
    }
}

proof fn stays_met(e: EngineV, id: Id, to: Axial, side: SideId)
    ensures
        stays(e.units, meet_salvos(e, id, to).units, side),
        stays(e.units, meet_mines(e, id, to).units, side),
{
    broadcast use {stays_both, stays_self};

    let e1 = EngineV {
        indirect_plans: without_plans(
            e.indirect_plans,
            keys_where::<u64, PlanV>(e.indirect_plans, own_boom(id)),
        ),
        ..e
    };
    stays_booms(
        e1,
        e1.indirect_plans,
        keys_where::<u64, PlanV>(e1.indirect_plans, boom_over(to)),
        id,
        side,
    );
    if e.units.contains_key(id) {
        let u = e.units[id];
        let roll = dice::<PcgRng>(e.rng, 2);
        stays_fire(
            EngineV { rng: roll.1, ..e },
            id,
            mine_outcome(mine_loss(e.tables, u.unit_type, u.armor, roll.0)),
            e.clock,
            side,
        );
    }
}

// ---------- fights within a hex ----------

proof fn stays_shot(e: EngineV, attacker: Id, target: Id, t: Tick, side: SideId)
    ensures
        stays(e.units, m::same_hex_shot(e, attacker, target, t).0.units, side),
{
    broadcast use {stays_both, stays_self};

    if e.units.contains_key(attacker) && e.units.contains_key(target) {
        let (a, u) = (e.units[attacker], e.units[target]);
        let r = same_hex_fire::<PcgRng>(
            e.tables,
            e.map,
            e.rng,
            loadout_of(e.rules, a.unit_type),
            a,
            u,
        );
        let e1 = EngineV { rng: r.2, shots: noted(e.shots, r.1), ..e };
        stays_fire(e1, target, r.0, t, side);
        stays_small(m::take_fire(e1, target, r.0, t), attacker, 0, WeaponState::Cooling, side);
    }
}

proof fn stays_turns(e: EngineV, ids: Seq<Id>, hex: Axial, t: Tick, side: SideId)
    ensures
        stays(e.units, m::attack_turns(e, ids, hex, t).0.units, side),
    decreases ids.len(),
{
    broadcast use {stays_both, stays_self};

    if ids.len() > 0 {
        stays_turns(e, ids.drop_last(), hex, t, side);
        let e1 = m::attack_turns(e, ids.drop_last(), hex, t).0;
        let here = keys_where::<String, UnitV>(e1.units, m::ground_at(hex));
        let p = pick_target::<PcgRng>(
            m::units_under(e1.units, here),
            e1.units[ids.last()].side,
            e1.rng,
        );
        if let Some(target) = p.0 {
            stays_shot(EngineV { rng: p.1, ..e1 }, ids.last(), target.id, t, side);
        }
    }
}

proof fn stays_drawn_in(e: EngineV, id: Id, side: SideId)
    ensures
        stays(e.units, m::drawn_in(e, id).units, side),
{
    broadcast use {stays_both, stays_self};

    let e0 = m::interrupt_cover(e, id);
    interruption_frees(e, id);
    stays_deaths(e, e0, side);
    interruption_frees(e0, id);
    let e1 = m::interrupt_mounts(e0, id);
    stays_deaths(e0, e1, side);
    stays_small(
        EngineV { radar_spinup: e1.radar_spinup.remove(id), ..e1 },
        id,
        0,
        WeaponState::Deployed,
        side,
    );
}

pub(crate) proof fn stays_trigger(e: EngineV, hex: Axial, t: Tick, side: SideId)
    ensures
        stays(e.units, m::trigger_same_hex(e, hex, t).units, side),
{
    broadcast use {stays_both, stays_self};

    let gen = next_of(e.same_hex_ctr);
    let e1 = EngineV {
        same_hex_ctr: gen,
        same_hex: e.same_hex.insert(hex, SameHexState { gen, dry_rounds: 0 }),
        ..e
    };
    let ids = keys_where::<String, UnitV>(e1.units, m::live_at(hex));
    let f = m::drawn_in_f();
    assert forall|x: EngineV, k: Id| stays(x.units, (#[trigger] f(x, k)).units, side) by {
        stays_drawn_in(x, k, side);
    }
    stays_each(e1, ids, f, side);
    let e2 = m::each(e1, ids, f);
    stays_turns(e2, m::attackers(e2, hex), hex, t, side);
}

// ---------- the way on ----------

proof fn stays_settle(e: EngineV, id: Id, side: SideId)
    ensures
        stays(e.units, m::settle_stopped(e, id).units, side),
{
    broadcast use stays_self;

    if e.units.contains_key(id) {
        let u = e.units[id];
        stays_put(
            e,
            id,
            RuntimeUnit {
                state: if u.state == UnitState::March {
                    u.state
                } else {
                    UnitState::Stopped
                },
                busy_until: 0,
                ..u
            },
            side,
        );
    }
}

proof fn stays_plan_hop(e: EngineV, id: Id, gen: u64, target: Axial, now: Tick, side: SideId)
    ensures
        stays(e.units, plan_hop(e, id, gen, target, now).units, side),
{
    broadcast use {stays_both, stays_self};

    stays_settle(e, id, side);
    if e.units.contains_key(id) {
        let u = e.units[id];
        let next = line_hex(u.pos, target, hex_distance(u.pos, target), 1);
        if let Some(step) = step_ticks(e, id, u.unit_type, u.pos, next) {
            let arrival = tick_sum(
                now,
                if step > 1 {
                    step
                } else {
                    1
                },
            );
            stays_small(e, id, arrival, WeaponState::Cooling, side);
        }
    }
}

proof fn stays_uncovered(e: EngineV, ids: Seq<Id>, side: SideId)
    requires
        forall|i: int|
            0 <= i < ids.len() ==> e.units.contains_key(#[trigger] ids[i]) && e.units[ids[i]].side
                != side,
    ensures
        stays(e.units, m::each(e, ids, uncover_f()).units, side),
    decreases ids.len(),
{
    broadcast use {stays_both, stays_self};

    if ids.len() > 0 {
        let rest = ids.drop_last();
        assert forall|i: int| 0 <= i < rest.len() implies e.units.contains_key(#[trigger] rest[i])
            && e.units[rest[i]].side != side by {
            assert(rest[i] == ids[i]);
        }
        stays_uncovered(e, rest, side);
        let e1 = m::each(e, rest, uncover_f());
        let id = ids[ids.len() - 1];
        assert(e1.units.contains_key(id) && e1.units[id].side != side) by {
            reveal(stays);
            assert(e.units.contains_key(id));
            assert(e1.units.dom().contains(id));
        }
        let u = e1.units[id];
        stays_put(e1, id, RuntimeUnit { inside_facility: None, busy_until: 0, ..u }, side);
    }
}

// ---------- counting ----------

proof fn fewer<A>(s: Seq<A>, a: spec_fn(A) -> bool, b: spec_fn(A) -> bool)
    requires
        forall|i: int| 0 <= i < s.len() && b(#[trigger] s[i]) ==> a(s[i]),
    ensures
        s.filter(b).len() <= s.filter(a).len(),
    decreases s.len(),
{
    reveal(Seq::filter);
    if s.len() > 0 {
        let t = s.drop_last();
        assert forall|i: int| 0 <= i < t.len() && b(#[trigger] t[i]) implies a(t[i]) by {
            assert(t[i] == s[i]);
        }
        fewer(t, a, b);
        assert(s[s.len() - 1] == s.last());
    }
}

proof fn fewer_but_one<A>(s: Seq<A>, a: spec_fn(A) -> bool, b: spec_fn(A) -> bool, x: A)
    requires
        s.no_duplicates(),
        forall|i: int| 0 <= i < s.len() && s[i] != x && b(#[trigger] s[i]) ==> a(s[i]),
    ensures
        s.filter(b).len() <= s.filter(a).len() + 1,
    decreases s.len(),
{
    reveal(Seq::filter);
    if s.len() > 0 {
        let t = s.drop_last();
        if s.last() == x {
            assert forall|i: int| 0 <= i < t.len() && b(#[trigger] t[i]) implies a(t[i]) by {
                assert(t[i] == s[i]);
                assert(s[i] != s[s.len() - 1]);
            }
            fewer(t, a, b);
        } else {
            assert forall|i: int| 0 <= i < t.len() && t[i] != x && b(#[trigger] t[i]) implies a(
                t[i],
            ) by {
                assert(t[i] == s[i]);
            }
            fewer_but_one(t, a, b, x);
            assert(s[s.len() - 1] == s.last());
        }
    }
}

/// A hex holds no more of a side than before, where no unit of it has come to count there.
proof fn stack_shrinks(a: Map<Id, UnitV>, b: Map<Id, UnitV>, side: SideId, hex: Axial)
    requires
        stays(a, b, side),
        a.dom().finite(),
    ensures
        stack(b, side, hex) <= stack(a, side, hex),
{
    reveal(stays);
    keys_listed::<String>(a.dom());
    let s = sorted_keys::<String>(a.dom());
    let p = |k: Id| counted(side, hex)(k, a[k]);
    let q = |k: Id| counted(side, hex)(k, b[k]);
    assert forall|i: int| 0 <= i < s.len() && q(#[trigger] s[i]) implies p(s[i]) by {
        assert(s.contains(s[i]));
        assert(a.dom().contains(s[i]));
        assert(a.contains_key(s[i]));
    }
    fewer(s, p, q);
}

/// A hex with room for one more holds no more than the rules allow when one unit has entered it.
proof fn one_more_fits(
    a: Map<Id, UnitV>,
    b: Map<Id, UnitV>,
    side: SideId,
    hex: Axial,
    id: Id,
    cap: i64,
)
    requires
        a.dom().finite(),
        a.dom() == b.dom(),
        ids_match(a),
        stack_room(a, side, hex, id, cap),
        forall|k: Id| #[trigger]
            a.contains_key(k) && k != id && counted(side, hex)(k, b[k]) ==> counted(side, hex)(
                k,
                a[k],
            ),
    ensures
        stack(b, side, hex) <= cap,
{
    keys_listed::<String>(a.dom());
    let s = sorted_keys::<String>(a.dom());
    let p = |k: Id| stacked_at(side, hex, id)(k, a[k]);
    let q = |k: Id| counted(side, hex)(k, b[k]);
    listed_distinct(a.dom());
    assert forall|i: int| 0 <= i < s.len() && s[i] != id && q(#[trigger] s[i]) implies p(
        s[i],
    ) by {
        assert(s.contains(s[i]));
        assert(a.dom().contains(s[i]));
        assert(a.contains_key(s[i]));
    }
    fewer_but_one(s, p, q, id);
}

// ---------- entering ----------

proof fn riders_follow(e: EngineV, ids: Seq<Id>, vehicle: Id, to: Axial)
    requires
        forall|i: int|
            0 <= i < ids.len() ==> e.units.contains_key(#[trigger] ids[i])
                && e.units[ids[i]].carried_by == Some(vehicle),
    ensures
        ({
            let b = m::each(e, ids, set_pos_f(to)).units;
            &&& b.dom() == e.units.dom()
            &&& forall|k: Id| #[trigger]
                e.units.contains_key(k) ==> b[k] == (RuntimeUnit { pos: b[k].pos, ..e.units[k] })
                    && (b[k].pos == e.units[k].pos || (b[k].pos == to && e.units[k].carried_by
                    == Some(vehicle)))
        }),
    decreases ids.len(),
{
    if ids.len() > 0 {
        let rest = ids.drop_last();
        assert forall|i: int| 0 <= i < rest.len() implies e.units.contains_key(#[trigger] rest[i])
            && e.units[rest[i]].carried_by == Some(vehicle) by {
            assert(rest[i] == ids[i]);
        }
        riders_follow(e, rest, vehicle, to);
        let e1 = m::each(e, rest, set_pos_f(to));
        let id = ids[ids.len() - 1];
        assert(e.units.contains_key(id));
        assert(e1.units.dom().contains(id));
        assert(m::each(e, ids, set_pos_f(to)).units.dom() =~= e.units.dom());
    }
}

/// A unit that steps onto a hex changes where no other unit counts.
proof fn others_stay(e: EngineV, id: Id, to: Axial)
    requires
        e.units.dom().finite(),
        e.units.contains_key(id),
    ensures
        ({
            let b = step_onto(e, id, e.units[id], to).units;
            &&& b.dom() == e.units.dom()
            &&& b[id].side == e.units[id].side
            &&& b[id].pos == to
            &&& forall|k: Id, side: SideId, hex: Axial|
                e.units.contains_key(k) && k != id && #[trigger] counted(side, hex)(k, b[k])
                    ==> counted(side, hex)(k, e.units[k])
        }),
{
    let u = e.units[id];
    let v = RuntimeUnit {
        pos: to,
        fatigue: tick_sum(u.fatigue, fatigue_per_hex(e.rules, u.state)),
        ..u
    };
    let e1 = m::put_unit(e, id, v);
    let e2 = m::stamp_entry(e1, id);
    let e3 = if u.pos != to {
        m::end_same_hex(e2, u.pos)
    } else {
        e2
    };
    assert(e3.units.dom() =~= e.units.dom());
    let ids = keys_where::<String, UnitV>(e3.units, rider_of(id));
    assert forall|i: int| 0 <= i < ids.len() implies e3.units.contains_key(#[trigger] ids[i])
        && e3.units[ids[i]].carried_by == Some(id) by {
        assert(ids.contains(ids[i]));
        keys_where_has::<String, UnitV>(e3.units, rider_of(id), ids[i]);
    }
    riders_follow(e3, ids, id, to);
    let b = step_onto(e, id, u, to).units;
    assert forall|k: Id, side: SideId, hex: Axial|
        e.units.contains_key(k) && k != id && #[trigger] counted(side, hex)(
            k,
            b[k],
        ) implies counted(side, hex)(k, e.units[k]) by {
        assert(e3.units.contains_key(k));
        assert(e3.units[k] == e.units[k]);
    }
    assert(e3.units.contains_key(id));
}

/// A unit that has arrived somewhere and lives is there when it plans its way on.
pub(crate) proof fn mover_is_there(e: EngineV, id: Id, to: Axial, t: Tick)
    requires
        e.units.dom().finite(),
        e.units.contains_key(id),
    ensures
        ({
            let a1 = step_onto(e, id, e.units[id], to);
            let e1 = meet_mines(meet_salvos(a1, id, to), id, to);
            let side = e.units[id].side;
            let e2 = m::each(
                e1,
                keys_where::<String, UnitV>(e1.units, hidden_at(e1.facilities, to, side)),
                uncover_f(),
            );
            let e3 = m::trigger_same_hex(e2, to, t);
            &&& e1.units.contains_key(id) && e1.units[id].side == side
            &&& e3.units.contains_key(id) && e3.units[id].pos == to
        }),
{
    broadcast use {stays_both, stays_self};

    let side = e.units[id].side;
    let a1 = step_onto(e, id, e.units[id], to);
    let a2 = meet_salvos(a1, id, to);
    let e1 = meet_mines(a2, id, to);
    stays_met(a1, id, to, side);
    stays_met(a2, id, to, side);
    others_stay(e, id, to);
    let found = keys_where::<String, UnitV>(e1.units, hidden_at(e1.facilities, to, side));
    assert(e1.units.dom().finite()) by {
        reveal(stays);
    }
    assert forall|i: int| 0 <= i < found.len() implies e1.units.contains_key(#[trigger] found[i])
        && e1.units[found[i]].side != side by {
        assert(found.contains(found[i]));
        keys_where_has::<String, UnitV>(e1.units, hidden_at(e1.facilities, to, side), found[i]);
    }
    stays_uncovered(e1, found, side);
    let e2 = m::each(e1, found, uncover_f());
    stays_trigger(e2, to, t, side);
    let e3 = m::trigger_same_hex(e2, to, t);
    assert(stays(a1.units, e1.units, side) && stays(a1.units, e3.units, side));
    assert(a1.units.dom().contains(id));
    assert(a1.units.contains_key(id));
    reveal(stays);
    assert(e1.units.dom().contains(id) && e3.units.dom().contains(id));
}

/// Moving overfills no hex: when a unit arrives, no hex holds more ground units of its side than
/// the rules allow, unless it did so before.
pub proof fn arriving_keeps_the_cap(e: EngineV, id: Id, gen: u64, to: Axial, target: Axial, hex: Axial)
    requires
        e.units.dom().finite(),
        ids_match(e.units),
        e.units.contains_key(id),
    ensures
        ({
            let side = e.units[id].side;
            let n = stack(arrive(e, id, gen, to, target).units, side, hex);
            n <= e.stacking_cap || n <= stack(e.units, side, hex)
        }),
{
    broadcast use {stays_both, stays_self};

    let u = e.units[id];
    let side = u.side;
    stays_settle(e, id, side);
    let a1 = step_onto(e, id, u, to);
    let a2 = meet_salvos(a1, id, to);
    let e1 = meet_mines(a2, id, to);
    stays_met(a1, id, to, side);
    stays_met(a2, id, to, side);
    others_stay(e, id, to);
    assert(stays(a1.units, e1.units, side));
    let end = arrive(e, id, gen, to, target);
    let moved = at(e.move_gen, id) == Some(gen) && u.alive && stack_room(
        e.units,
        side,
        to,
        id,
        e.stacking_cap,
    ) && !(u.state == UnitState::March && some_entry(
        e.units,
        halts_march(to),
    ));
    if !moved {
        assert(stays(e.units, end.units, side));
        stack_shrinks(e.units, end.units, side, hex);
    } else {
        if e1.units.contains_key(id) && e1.units[id].alive {
            let v = e1.units[id];
            assert(v.side == side) by {
                reveal(stays);
                assert(a1.units.dom().contains(id));
                assert(a1.units.contains_key(id));
            }
            let found = keys_where::<String, UnitV>(e1.units, hidden_at(e1.facilities, to, v.side));
            assert(e1.units.dom().finite()) by {
                reveal(stays);
            }
            assert forall|i: int| 0 <= i < found.len() implies e1.units.contains_key(
                #[trigger] found[i],
            ) && e1.units[found[i]].side != side by {
                assert(found.contains(found[i]));
                keys_where_has::<String, UnitV>(
                    e1.units,
                    hidden_at(e1.facilities, to, v.side),
                    found[i],
                );
            }
            stays_uncovered(e1, found, side);
            let e2 = m::each(e1, found, uncover_f());
            stays_trigger(e2, to, e2.clock, side);
            let e3 = m::trigger_same_hex(e2, to, e2.clock);
            stays_plan_hop(e3, id, gen, target, e3.clock, side);
        }
        assert(stays(a1.units, end.units, side));
        stack_shrinks(a1.units, end.units, side, hex);
        if hex == to {
            one_more_fits(e.units, a1.units, side, to, id, e.stacking_cap);
        } else {
            keys_listed::<String>(e.units.dom());
            let s = sorted_keys::<String>(e.units.dom());
            let p = |k: Id| counted(side, hex)(k, e.units[k]);
            let q = |k: Id| counted(side, hex)(k, a1.units[k]);
            assert forall|i: int| 0 <= i < s.len() && q(#[trigger] s[i]) implies p(s[i]) by {
                assert(s.contains(s[i]));
                assert(e.units.dom().contains(s[i]));
                assert(e.units.contains_key(s[i]));
            }
            fewer(s, p, q);
        }
    }
}

/// Leaving a vehicle or a fortification overfills no hex either.
pub proof fn leaving_keeps_the_cap(e: EngineV, id: Id, gen: u64, hex: Axial)
    requires
        e.units.dom().finite(),
        ids_match(e.units),
        e.units.contains_key(id),
    ensures
        ({
            let side = e.units[id].side;
            let n = stack(finish_mount(e, id, gen).units, side, hex);
            let k = stack(finish_exit(e, id, gen).units, side, hex);
            &&& e.mount_op.contains_key(id) && e.units.contains_key(e.mount_op[id].vehicle) ==> n
                <= e.stacking_cap || n <= stack(e.units, side, hex)
            &&& k <= e.stacking_cap || k <= stack(e.units, side, hex)
        }),
{
    broadcast use {stays_both, stays_self};

    let u = e.units[id];
    let side = u.side;
    if e.mount_op.contains_key(id) && e.units.contains_key(e.mount_op[id].vehicle) {
        let op = e.mount_op[id];
        let v = e.units[op.vehicle];
        let full = op.kind == MountKind::Dismount && !stack_room(
            e.units,
            side,
            v.pos,
            id,
            e.stacking_cap,
        );
        let w = RuntimeUnit {
            busy_until: 0,
            carried_by: if full {
                u.carried_by
            } else {
                match op.kind {
                    MountKind::Mount => Some(op.vehicle),
                    MountKind::Dismount => None,
                }
            },
            pos: if full {
                u.pos
            } else {
                v.pos
            },
            ..u
        };
        let e1 = EngineV { mount_op: e.mount_op.remove(id), ..e };
        let e2 = m::put_unit(e1, id, w);
        stays_small(e2, op.vehicle, 0, WeaponState::Cooling, side);
        assert(e2.units.dom() =~= e.units.dom());
        let end = finish_mount(e, id, gen);
        if op.gen == gen {
            assert(end == m::set_busy(e2, op.vehicle, 0));
            stack_shrinks(e2.units, end.units, side, hex);
            if op.kind == MountKind::Dismount && !full && hex == v.pos {
                one_more_fits(e.units, e2.units, side, hex, id, e.stacking_cap);
            } else {
                keys_listed::<String>(e.units.dom());
                let s = sorted_keys::<String>(e.units.dom());
                let p = |k: Id| counted(side, hex)(k, e.units[k]);
                let q = |k: Id| counted(side, hex)(k, e2.units[k]);
                fewer(s, p, q);
            }
        } else {
            assert(end == e);
        }
    }
    stays_small(e, id, 0, WeaponState::Cooling, side);
    let e1 = m::put_unit(e, id, RuntimeUnit { inside_facility: None, busy_until: 0, ..u });
    let e2 = m::stamp_entry(e1, id);
    assert(e2.units.dom() =~= e.units.dom());
    stays_trigger(e2, u.pos, e2.clock, side);
    let end = finish_exit(e, id, gen);
    if at(e.facility_gen, id) == Some(gen) && u.alive && u.inside_facility is Some && stack_room(
        e.units,
        side,
        u.pos,
        id,
        e.stacking_cap,
    ) {
        stack_shrinks(e2.units, end.units, side, hex);
        if hex == u.pos {
            one_more_fits(e.units, e2.units, side, hex, id, e.stacking_cap);
        } else {
            keys_listed::<String>(e.units.dom());
            let s = sorted_keys::<String>(e.units.dom());
            let p = |k: Id| counted(side, hex)(k, e.units[k]);
            let q = |k: Id| counted(side, hex)(k, e2.units[k]);
            fewer(s, p, q);
        }
    } else {
        assert(stays(e.units, end.units, side));
        stack_shrinks(e.units, end.units, side, hex);
    }
}

// ---------- splitting ----------

/// The keys whose entries satisfy `p`.
spec fn hits(a: Map<Id, UnitV>, p: spec_fn(Id, UnitV) -> bool) -> Set<Id> {
    Set::new(|k: Id| a.contains_key(k) && p(k, a[k]))
}

proof fn filter_distinct<A>(s: Seq<A>, q: spec_fn(A) -> bool)
    requires
        s.no_duplicates(),
    ensures
        s.filter(q).no_duplicates(),
        forall|x: A| #[trigger] s.filter(q).contains(x) ==> s.contains(x),
    decreases s.len(),
{
    reveal(Seq::filter);
    if s.len() > 0 {
        let t = s.drop_last();
        filter_distinct(t, q);
        let f = t.filter(q);
        assert forall|x: A| #[trigger] s.filter(q).contains(x) implies s.contains(x) by {
            if f.contains(x) {
                let i = t.index_of(x);
                assert(s[i] == x);
            } else {
                let i = s.filter(q).index_of(x);
                if q(s.last()) {
                    let g = f.push(s.last());
                    if i < f.len() {
                        assert(f[i] == x);
                    }
                    assert(s[s.len() - 1] == x);
                } else {
                    assert(f[i] == x);
                }
            }
        }
        if q(s.last()) && f.contains(s.last()) {
            let i = t.index_of(s.last());
            assert(s[i] == s[s.len() - 1]);
        }
    }
}

proof fn listed_distinct(dom: Set<Id>)
    requires
        dom.finite(),
    ensures
        sorted_keys::<String>(dom).no_duplicates(),
{
    keys_listed::<String>(dom);
    let s = sorted_keys::<String>(dom);
    <String as MapKey>::order_laws();
    assert forall|i: int, j: int| 0 <= i < s.len() && 0 <= j < s.len() && i != j implies s[i]
        != s[j] by {
        if i < j {
            assert(<String as MapKey>::precedes(s[i], s[j]));
        } else {
            assert(<String as MapKey>::precedes(s[j], s[i]));
        }
    }
}

proof fn counted_once(a: Map<Id, UnitV>, p: spec_fn(Id, UnitV) -> bool)
    requires
        a.dom().finite(),
    ensures
        hits(a, p).finite(),
        keys_where::<String, UnitV>(a, p).len() == hits(a, p).len(),
{
    listed_distinct(a.dom());
    let f = keys_where::<String, UnitV>(a, p);
    filter_distinct(sorted_keys::<String>(a.dom()), |k: Id| p(k, a[k]));
    f.unique_seq_to_set();
    assert forall|k: Id| f.to_set().contains(k) == hits(a, p).contains(k) by {
        keys_where_has::<String, UnitV>(a, p, k);
    }
    assert(f.to_set() =~= hits(a, p));
}

/// Splitting a unit overfills no hex.
pub proof fn splitting_keeps_the_cap(e: EngineV, id: Id, hex: Axial)
    requires
        e.units.dom().finite(),
        ids_match(e.units),
        e.units.contains_key(id),
        !e.units.contains_key("#probe"@),
    ensures
        ({
            let side = e.units[id].side;
            let n = stack(finish_split(e, id).units, side, hex);
            n <= e.stacking_cap || n <= stack(e.units, side, hex)
        }),
{
    broadcast use {stays_both, stays_self};

    let u = e.units[id];
    let side = u.side;
    let n = next_of(e.spawn_ctr);
    let child = child_id(id, n);
    let e1 = EngineV { spawn_ctr: n, ..e };
    let end = finish_split(e, id);
    match split_teams(e, id) {
        None => {
            stays_small(e, id, 0, WeaponState::Cooling, side);
            stack_shrinks(e.units, end.units, side, hex);
        },
        Some((keep, off)) => if e1.units.contains_key(child) {
            stays_small(e1, id, 0, WeaponState::Cooling, side);
            stack_shrinks(e.units, end.units, side, hex);
        } else {
            let e2 = m::put_unit(e1, child, child_of(u, child, off));
            let e3 = m::put_unit(e2, id, RuntimeUnit { teams: keep, busy_until: 0, ..u });
            let e4 = m::stamp_entry(m::stamp_entry(e3, id), child);
            stays_trigger(e4, u.pos, e4.clock, side);
            assert(e4.units.dom() =~= e.units.dom().insert(child));
            stack_shrinks(e4.units, end.units, side, hex);
            let p = counted(side, hex);
            let q = stacked_at(side, hex, "#probe"@);
            counted_once(e4.units, p);
            counted_once(e.units, p);
            counted_once(e.units, q);
            assert(hits(e.units, p) =~= hits(e.units, q));
            if hex == u.pos {
                assert(hits(e4.units, p).subset_of(hits(e.units, p).insert(child)));
                vstd::set_lib::lemma_len_subset(hits(e4.units, p), hits(e.units, p).insert(child));
            } else {
                assert(hits(e4.units, p).subset_of(hits(e.units, p)));
                vstd::set_lib::lemma_len_subset(hits(e4.units, p), hits(e.units, p));
            }
        },
    }
}

} // verus!
