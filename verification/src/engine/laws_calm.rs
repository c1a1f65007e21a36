//! How much is still to come of a match, and what does not add to it.
use crate::combat::{
    loadout_of, mine_loss, noted, pick_target, salvo, salvo_effect, same_hex_fire, GunClass,
    IndirectBase, RecV, Scatter,
};
use crate::engine::actions::{lays_of, without_plans};
use crate::engine::events::{
    boom_over, child_id, child_of, end_suppression, finish_agg, finish_altitude, finish_change,
    finish_enter, finish_exit, finish_launch, finish_lay, finish_merge, finish_mount, finish_spinup,
    finish_split, meet_mines, meet_salvos, merged_teams, mine_outcome, own_boom, rest, rider_of,
    self_destruct, set_pos, set_pos_f, split_teams, step_onto, take_booms, uncover,
};
use crate::engine::model as m;
use crate::engine::model::{
    AggSplitKind, EngineV, Event, EventV, Id, MountKind, PlanV, SameHexState, TimedV,
    SAME_HEX_MAX_DRY_ROUNDS,
};
use crate::hex::{hex_distance, steps, Axial};
use crate::mechanics::{fatigue_interval, fatigue_per_hex, stack_room};
use crate::ordmap::keys_where;
use crate::prob::Outcome;
use crate::rng::{dice, pcg_below, PcgRng};
use crate::rules::{at, timing_of};
use crate::time::{next_of, seconds_in_ticks, tick_sum, Tick};
use crate::types::{
    with_side, FacilityV, HeliAlt, RuntimeFacility, RuntimeMinefield, RuntimeUnit, SideSet,
    UnitState, UnitV, WeaponState,
};
use vstd::prelude::*;

verus! {

// ---------- what is to come ----------

/// What the events of a queue weigh together.
pub open spec fn load(q: Seq<TimedV>, w: spec_fn(EventV) -> nat) -> nat
    decreases q.len(),
{
    if q.len() == 0 {
        0
    } else {
        load(q.drop_last(), w) + w(q.last().event)
    }
}

/// The weight of an event that may begin a fight or go on with a move: a move counts with every hex
/// that it has left.
pub open spec fn starts() -> spec_fn(EventV) -> nat {
    |ev: EventV|
        match ev {
            Event::MoveArrive { unit, gen, to, target } => (1 + hex_distance(to, target)) as nat,
            Event::IndirectFly { plan } => 1nat,
            Event::FacilityExitReady { unit, gen } => 1nat,
            Event::AggSplitComplete { unit, gen } => 1nat,
            _ => 0nat,
        }
}

/// The weight of a round of a fight: the rounds that it has left without a loss.
pub open spec fn rounds(fights: Map<Axial, SameHexState>) -> spec_fn(EventV) -> nat {
    |ev: EventV|
        match ev {
            Event::SameHexEngage { hex, gen } => if fights.contains_key(hex) && fights[hex].gen
                == gen {
                if fights[hex].dry_rounds < SAME_HEX_MAX_DRY_ROUNDS {
                    (1 + SAME_HEX_MAX_DRY_ROUNDS - fights[hex].dry_rounds) as nat
                } else {
                    1nat
                }
            } else {
                0nat
            },
            _ => 0nat,
        }
}

/// The fatigue that a unit still has to lose.
pub open spec fn tired(u: UnitV) -> nat {
    if u.fatigue > 0 {
        u.fatigue as nat
    } else {
        0
    }
}

/// One event more weighs what it weighs.
pub proof fn load_enqueue(q: Seq<TimedV>, x: TimedV, w: spec_fn(EventV) -> nat)
    ensures
        load(m::enqueue(q, x), w) == load(q, w) + w(x.event),
    decreases q.len(),
{
    if q.len() == 0 || !m::sooner(x, q.last()) {
        assert(q.push(x).drop_last() =~= q);
    } else {
        load_enqueue(q.drop_last(), x, w);
        let r = m::enqueue(q.drop_last(), x);
        assert(r.push(q.last()).drop_last() =~= r);
    }
}

/// Without its first event a queue weighs that much less.
pub proof fn load_pop(q: Seq<TimedV>, w: spec_fn(EventV) -> nat)
    requires
        q.len() > 0,
    ensures
        load(q, w) == w(q[0].event) + load(q.drop_first(), w),
    decreases q.len(),
{
    if q.len() == 1 {
        assert(q.drop_last() =~= Seq::<TimedV>::empty());
        assert(q.drop_first() =~= Seq::<TimedV>::empty());
    } else {
        load_pop(q.drop_last(), w);
        assert(q.drop_first().drop_last() =~= q.drop_last().drop_first());
        assert(q.drop_first().last() == q.last());
        assert(q.drop_last()[0] == q[0]);
    }
}

/// A queue weighs no more where no event does.
pub proof fn load_less(q: Seq<TimedV>, w: spec_fn(EventV) -> nat, v: spec_fn(EventV) -> nat)
    requires
        forall|ev: EventV| #[trigger] w(ev) <= v(ev),
    ensures
        load(q, w) <= load(q, v),
    decreases q.len(),
{
    if q.len() > 0 {
        load_less(q.drop_last(), w, v);
    }
}

// ---------- nothing new begins ----------

/// Whether from `a` to `b` nothing has been added that may begin a fight or go on with a move.
#[verifier::opaque]
pub open spec fn quiet(a: EngineV, b: EngineV) -> bool {
    load(b.queue, starts()) == load(a.queue, starts())
}

/// Whether from `a` to `b` nothing has been added to what is to come but events that end by
/// themselves: no unit has more teams or fatigue, no fight has begun or got longer, and who holds
/// what, and what is built, are the same.
#[verifier::opaque]
pub open spec fn calm(a: EngineV, b: EngineV) -> bool {
    &&& load(b.queue, starts()) == load(a.queue, starts())
    &&& a.control == b.control && a.facilities == b.facilities
    &&& a.units.dom() == b.units.dom()
    &&& forall|k: Id| #[trigger]
        a.units.contains_key(k) ==> b.units[k].teams <= a.units[k].teams && tired(b.units[k])
            <= tired(a.units[k])
    &&& forall|h: Axial| #[trigger]
        b.same_hex.contains_key(h) ==> a.same_hex.contains_key(h) && a.same_hex[h] == b.same_hex[h]
    &&& load(b.queue, rounds(b.same_hex)) <= load(a.queue, rounds(a.same_hex))
}

pub(crate) broadcast proof fn calm_quiet(a: EngineV, b: EngineV)
    requires
        #[trigger] calm(a, b),
    ensures
        quiet(a, b),
{
    reveal(calm);
    reveal(quiet);
}

pub(crate) broadcast proof fn calm_both(a: EngineV, b: EngineV, c: EngineV)
    requires
        #[trigger] calm(a, b),
        #[trigger] calm(b, c),
    ensures
        calm(a, c),
{
    reveal(calm);
    assert forall|k: Id| #[trigger] a.units.contains_key(k) implies c.units[k].teams
        <= a.units[k].teams && tired(c.units[k]) <= tired(a.units[k]) by {
        assert(b.units.dom().contains(k));
        assert(b.units.contains_key(k));
    }
    assert forall|h: Axial| #[trigger] c.same_hex.contains_key(h) implies a.same_hex.contains_key(h)
        && a.same_hex[h] == c.same_hex[h] by {
        assert(b.same_hex.contains_key(h));
    }
}

pub(crate) proof fn calm_self(a: EngineV)
    ensures
        calm(a, a),
{
    reveal(calm);
}

pub(crate) proof fn calm_aside(a: EngineV, b: EngineV)
    requires
        a.control == b.control,
        a.facilities == b.facilities,
        a.units == b.units,
        a.queue == b.queue,
        a.same_hex == b.same_hex,
    ensures
        calm(a, b),
{
    reveal(calm);
}

pub(crate) proof fn calm_put(e: EngineV, id: Id, u: UnitV)
    requires
        e.units.contains_key(id),
        u.teams <= e.units[id].teams,
        tired(u) <= tired(e.units[id]),
    ensures
        calm(e, m::put_unit(e, id, u)),
{
    reveal(calm);
    assert(m::put_unit(e, id, u).units.dom() =~= e.units.dom());
}

pub(crate) proof fn calm_schedule(e: EngineV, t: Tick, event: EventV)
    requires
        starts()(event) == 0,
        !(event is SameHexEngage),
    ensures
        calm(e, m::schedule(e, t, event)),
{
    reveal(calm);
    let x = m::Timed { t, seq: next_of(e.seq), event };
    load_enqueue(e.queue, x, starts());
    load_enqueue(e.queue, x, rounds(e.same_hex));
}

pub(crate) proof fn calm_each(e: EngineV, ids: Seq<Id>, f: spec_fn(EngineV, Id) -> EngineV)
    requires
        forall|x: EngineV, id: Id| calm(x, #[trigger] f(x, id)),
    ensures
        calm(e, m::each(e, ids, f)),
    decreases ids.len(),
{
    broadcast use calm_both;

    calm_self(e);
    if ids.len() > 0 {
        calm_each(e, ids.drop_last(), f);
    }
}

proof fn calm_fight_removed(e: EngineV, hex: Axial)
    ensures
        calm(e, EngineV { same_hex: e.same_hex.remove(hex), ..e }),
{
    reveal(calm);
    load_less(e.queue, rounds(e.same_hex.remove(hex)), rounds(e.same_hex));
}

proof fn calm_noted(e: EngineV, rng: u128, rec: Option<RecV>)
    ensures
        calm(e, EngineV { rng, shots: noted(e.shots, rec), ..e }),
{
    calm_aside(e, EngineV { rng, shots: noted(e.shots, rec), ..e });
}

proof fn calm_mines_put(e: EngineV, hex: Axial, f: RuntimeMinefield)
    ensures
        calm(e, EngineV { minefields: e.minefields.insert(hex, f), ..e }),
{
    calm_aside(e, EngineV { minefields: e.minefields.insert(hex, f), ..e });
}

pub(crate) proof fn calm_set_busy(e: EngineV, id: Id, t: Tick)
    ensures
        calm(e, m::set_busy(e, id, t)),
{
    calm_self(e);
    if e.units.contains_key(id) {
        calm_put(e, id, RuntimeUnit { busy_until: t, ..e.units[id] });
    }
}

pub(crate) proof fn calm_set_weapon(e: EngineV, id: Id, w: WeaponState)
    ensures
        calm(e, m::set_weapon(e, id, w)),
{
    calm_self(e);
    if e.units.contains_key(id) {
        calm_put(e, id, RuntimeUnit { weapon_state: w, ..e.units[id] });
    }
}

pub(crate) proof fn calm_set_dead(e: EngineV, id: Id)
    ensures
        calm(e, m::set_dead(e, id)),
{
    calm_self(e);
    if e.units.contains_key(id) {
        calm_put(e, id, RuntimeUnit { alive: false, teams: 0, ..e.units[id] });
    }
}

pub(crate) proof fn calm_stamp(e: EngineV, id: Id)
    ensures
        calm(e, m::stamp_entry(e, id)),
{
    calm_aside(e, m::stamp_entry(e, id));
}

pub(crate) proof fn calm_abort_agg(e: EngineV, init: Id)
    ensures
        calm(e, m::abort_agg(e, init)),
{
    broadcast use calm_both;

    calm_self(e);
    if e.aggsplit_op.contains_key(init) {
        let e1 = EngineV {
            aggsplit_op: e.aggsplit_op.remove(init),
            aggsplit_gen: m::bumped(e.aggsplit_gen, init),
            ..e
        };
        calm_aside(e, e1);
        calm_set_busy(e1, init, 0);
        let e2 = m::set_busy(e1, init, 0);
        match e.aggsplit_op[init].kind {
            m::AggSplitKind::Aggregate { other } => {
                calm_set_busy(e2, other, 0);
            },
            m::AggSplitKind::Split => {},
        }
    }
}

pub(crate) proof fn calm_interrupt_aggsplit(e: EngineV, id: Id)
    ensures
        calm(e, m::interrupt_aggsplit(e, id)),
{
    let f = m::abort_agg_f();
    assert forall|x: EngineV, k: Id| calm(x, #[trigger] f(x, k)) by {
        calm_abort_agg(x, k);
    }
    calm_each(
        e,
        keys_where::<String, m::AggSplitV>(e.aggsplit_op, m::agg_involves(id)),
        f,
    );
}

pub(crate) proof fn calm_interrupt_cover(e: EngineV, id: Id)
    ensures
        calm(e, m::interrupt_cover(e, id)),
{
    broadcast use calm_both;

    calm_self(e);
    let e1 = EngineV { cover_transition: e.cover_transition.remove(id), ..e };
    calm_aside(e, e1);
    calm_set_busy(e1, id, 0);
}

pub(crate) proof fn calm_abort_mount(e: EngineV, p: Id)
    ensures
        calm(e, m::abort_mount(e, p)),
{
    broadcast use calm_both;

    calm_self(e);
    if e.mount_op.contains_key(p) {
        let e1 = EngineV { mount_op: e.mount_op.remove(p), ..e };
        calm_aside(e, e1);
        calm_set_busy(e1, p, 0);
        calm_set_busy(m::set_busy(e1, p, 0), e.mount_op[p].vehicle, 0);
    }
}

pub(crate) proof fn calm_abort_minelay(e: EngineV, id: Id)
    ensures
        calm(e, m::abort_minelay(e, id)),
{
    broadcast use calm_both;

    calm_self(e);
    let e1 = EngineV {
        minelay_in_flight: e.minelay_in_flight.remove(id),
        minelayer_gen: m::bumped(e.minelayer_gen, id),
        ..e
    };
    calm_aside(e, e1);
    calm_set_busy(e1, id, 0);
}

pub(crate) proof fn calm_interrupt_mounts(e: EngineV, id: Id)
    ensures
        calm(e, m::interrupt_mounts(e, id)),
{
    broadcast use calm_both;

    let f = m::abort_mount_f();
    assert forall|x: EngineV, k: Id| calm(x, #[trigger] f(x, k)) by {
        calm_abort_mount(x, k);
    }
    let ids = keys_where::<String, m::MountV>(e.mount_op, m::mount_involves(id));
    calm_each(e, ids, f);
    let e1 = m::each(e, ids, f);
    calm_abort_minelay(e1, id);
    calm_interrupt_aggsplit(m::abort_minelay(e1, id), id);
}

pub(crate) proof fn calm_arm_fatigue(e: EngineV, id: Id)
    ensures
        calm(e, m::arm_fatigue_decay(e, id)),
{
    broadcast use calm_both;

    calm_self(e);
    let e1 = EngineV { fatigue_gen: m::bumped(e.fatigue_gen, id), ..e };
    calm_aside(e, e1);
    calm_schedule(
        e1,
        tick_sum(
            e.clock,
            seconds_in_ticks(fatigue_interval(e.rules)) as i64,
        ),
        Event::FatigueDecay { unit: id, gen: m::fresh(e.fatigue_gen, id) },
    );
}

pub(crate) proof fn calm_settle(e: EngineV, id: Id)
    ensures
        calm(e, m::settle_stopped(e, id)),
{
    broadcast use calm_both;

    calm_arm_fatigue(e, id);
    if e.units.contains_key(id) {
        let u = e.units[id];
        let v = RuntimeUnit {
            state: if u.state == UnitState::March {
                u.state
            } else {
                UnitState::Stopped
            },
            busy_until: 0,
            ..u
        };
        calm_put(e, id, v);
        calm_arm_fatigue(m::put_unit(e, id, v), id);
    }
}

pub(crate) proof fn calm_end_same_hex(e: EngineV, hex: Axial)
    ensures
        calm(e, m::end_same_hex(e, hex)),
{
    calm_self(e);
    calm_fight_removed(e, hex);
}

pub(crate) proof fn calm_drop_mount(e: EngineV, p: Id)
    ensures
        calm(e, m::drop_mount(e, p)),
{
    broadcast use calm_both;

    let e1 = EngineV { mount_op: e.mount_op.remove(p), ..e };
    calm_aside(e, e1);
    calm_set_busy(e1, p, 0);
}

pub(crate) proof fn calm_lose(e: EngineV, id: Id)
    ensures
        calm(e, m::lose(e, id)),
{
    broadcast use calm_both;

    calm_set_dead(e, id);
    calm_set_busy(m::set_dead(e, id), id, 0);
}

pub(crate) proof fn calm_expend(e: EngineV, id: Id)
    ensures
        calm(e, m::expend(e, id)),
{
    broadcast use calm_both;

    let e1 = EngineV {
        loitering_parent: e.loitering_parent.remove(id),
        loitering_target: e.loitering_target.remove(id),
        ..e
    };
    calm_aside(e, e1);
    calm_set_dead(e1, id);
}

pub(crate) proof fn calm_lose_affiliate(e: EngineV, id: Id)
    ensures
        calm(e, m::lose_affiliate(e, id)),
{
    broadcast use calm_both;

    calm_self(e);
    if e.units.contains_key(id) {
        calm_lose(e, id);
        calm_end_same_hex(m::lose(e, id), e.units[id].pos);
    }
}

pub(crate) proof fn calm_carrier_death(e: EngineV, vehicle: Id)
    ensures
        calm(e, m::carrier_death(e, vehicle)),
{
    broadcast use calm_both;

    let f1 = m::drop_mount_f();
    assert forall|x: EngineV, k: Id| calm(x, #[trigger] f1(x, k)) by {
        calm_drop_mount(x, k);
    }
    let f2 = m::lose_f();
    assert forall|x: EngineV, k: Id| calm(x, #[trigger] f2(x, k)) by {
        calm_lose(x, k);
    }
    let f3 = m::expend_f();
    assert forall|x: EngineV, k: Id| calm(x, #[trigger] f3(x, k)) by {
        calm_expend(x, k);
    }
    let f4 = m::lose_affiliate_f();
    assert forall|x: EngineV, k: Id| calm(x, #[trigger] f4(x, k)) by {
        calm_lose_affiliate(x, k);
    }
    let i1 = keys_where::<String, m::MountV>(e.mount_op, m::mounts_on(vehicle));
    let e1 = m::each(e, i1, f1);
    let i2 = keys_where::<String, UnitV>(e1.units, m::aboard(vehicle));
    let e2 = m::each(e1, i2, f2);
    let i3 = keys_where::<String, Id>(e2.loitering_parent, m::launched_from(vehicle));
    let e3 = m::each(e2, i3, f3);
    let i4 = keys_where::<String, UnitV>(e3.units, m::affiliate_of(vehicle));
    calm_each(e, i1, f1);
    calm_each(e1, i2, f2);
    calm_each(e2, i3, f3);
    calm_each(e3, i4, f4);
}

pub(crate) proof fn calm_suppress(e: EngineV, id: Id, until: Tick)
    ensures
        calm(e, m::suppress(e, id, until)),
{
    broadcast use calm_both;

    calm_interrupt_cover(e, id);
    let e0 = m::interrupt_cover(e, id);
    calm_interrupt_mounts(e0, id);
    let e1 = m::interrupt_mounts(e0, id);
    calm_self(e1);
    let r = EngineV { radar_spinup: e1.radar_spinup.remove(id), ..e1 };
    calm_aside(e1, r);
    calm_set_busy(r, id, 0);
    let e2 = if e1.radar_spinup.contains_key(id) {
        m::set_busy(r, id, 0)
    } else {
        e1
    };
    calm_self(e2);
    let e3 = if e2.units.contains_key(id) {
        let u = e2.units[id];
        let v = RuntimeUnit {
            suppressed_until: until,
            state: if u.state == UnitState::Cover {
                u.state
            } else {
                UnitState::Suppressed
            },
            ..u
        };
        calm_put(e2, id, v);
        m::put_unit(e2, id, v)
    } else {
        e2
    };
    calm_schedule(e3, until, Event::SuppressEnd { unit: id });
}

pub(crate) proof fn calm_hit(e: EngineV, id: Id, outcome: Outcome, t: Tick, ticks: Tick)
    ensures
        calm(e, m::hit(e, id, outcome, t, ticks)),
{
    broadcast use calm_both;

    calm_self(e);
    if e.units.contains_key(id) {
        let u = e.units[id];
        let dead = RuntimeUnit { teams: 0, alive: false, ..u };
        calm_put(e, id, dead);
        let e0 = m::put_unit(e, id, dead);
        calm_carrier_death(e0, id);
        let e1 = m::carrier_death(e0, id);
        if e1.units.contains_key(id) {
            calm_end_same_hex(e1, e1.units[id].pos);
        }
        let hurt = RuntimeUnit { teams: m::teams_left(u, outcome), ..u };
        calm_put(e, id, hurt);
        calm_suppress(m::put_unit(e, id, hurt), id, tick_sum(t, ticks));
    }
}

pub(crate) proof fn calm_hit_whole(e: EngineV, id: Id, outcome: Outcome, t: Tick, ticks: Tick)
    ensures
        calm(e, m::hit_whole(e, id, outcome, t, ticks)),
{
    broadcast use calm_both;

    calm_hit(e, id, outcome, t, ticks);
    let e1 = m::hit(e, id, outcome, t, ticks);
    let f = m::hit_f(outcome, t, ticks);
    assert forall|x: EngineV, k: Id| calm(x, #[trigger] f(x, k)) by {
        calm_hit(x, k, outcome, t, ticks);
    }
    calm_each(e1, keys_where::<String, UnitV>(e1.units, m::cargo_of(id)), f);
}

pub(crate) proof fn calm_apply_fire(e: EngineV, id: Id, outcome: Outcome, t: Tick)
    ensures
        calm(e, m::apply_fire(e, id, outcome, t).0),
        calm(e, m::take_fire(e, id, outcome, t)),
{
    calm_self(e);
    match m::need(e, "suppress_duration"@) {
        Ok(ticks) => {
            calm_hit_whole(e, id, outcome, t, ticks);
        },
        Err(_) => {},
    }
}

pub(crate) proof fn calm_same_hex_shot(e: EngineV, attacker: Id, target: Id, t: Tick)
    ensures
        calm(e, m::same_hex_shot(e, attacker, target, t).0),
{
    broadcast use calm_both;

    calm_self(e);
    if e.units.contains_key(attacker) && e.units.contains_key(target) {
        let (a, u) = (e.units[attacker], e.units[target]);
        let r = same_hex_fire::<PcgRng>(
            e.tables,
            e.map,
            e.rng,
            loadout_of(e.rules, a.unit_type),
            a,
            u,
        );
        calm_noted(e, r.2, r.1);
        let e1 = EngineV { rng: r.2, shots: noted(e.shots, r.1), ..e };
        calm_apply_fire(e1, target, r.0, t);
        let e2 = m::take_fire(e1, target, r.0, t);
        calm_set_weapon(e2, attacker, WeaponState::Cooling);
        let e3 = m::set_weapon(e2, attacker, WeaponState::Cooling);
        match timing_of(e2.rules, "weapon_cooldown_direct"@) {
            Some(cd) => {
                calm_schedule(
                    e3,
                    tick_sum(t, cd),
                    Event::WeaponReady { unit: attacker },
                );
            },
            None => {},
        }
    }
}

pub(crate) proof fn calm_attack_turn(s: (EngineV, bool), attacker: Id, hex: Axial, t: Tick)
    ensures
        calm(s.0, m::attack_turn(s, attacker, hex, t).0),
{
    broadcast use calm_both;

    let e = s.0;
    calm_self(e);
    let here = keys_where::<String, UnitV>(e.units, m::ground_at(hex));
    let p = pick_target::<PcgRng>(
        m::units_under(e.units, here),
        e.units[attacker].side,
        e.rng,
    );
    let e1 = EngineV { rng: p.1, ..e };
    calm_aside(e, e1);
    if let Some(target) = p.0 {
        calm_same_hex_shot(e1, attacker, target.id, t);
    }
}

pub(crate) proof fn calm_attack_turns(e: EngineV, ids: Seq<Id>, hex: Axial, t: Tick)
    ensures
        calm(e, m::attack_turns(e, ids, hex, t).0),
    decreases ids.len(),
{
    broadcast use calm_both;

    calm_self(e);
    if ids.len() > 0 {
        calm_attack_turns(e, ids.drop_last(), hex, t);
        calm_attack_turn(m::attack_turns(e, ids.drop_last(), hex, t), ids.last(), hex, t);
    }
}

pub(crate) proof fn calm_drawn_in(e: EngineV, id: Id)
    ensures
        calm(e, m::drawn_in(e, id)),
{
    broadcast use calm_both;

    calm_interrupt_cover(e, id);
    let e0 = m::interrupt_cover(e, id);
    calm_interrupt_mounts(e0, id);
    let e1 = m::interrupt_mounts(e0, id);
    let e2 = EngineV { radar_spinup: e1.radar_spinup.remove(id), ..e1 };
    calm_aside(e1, e2);
    calm_set_weapon(e2, id, WeaponState::Deployed);
}

pub(crate) proof fn calm_take_salvo(e: EngineV, id: Id, base: IndirectBase, guns: u8, t: Tick)
    ensures
        calm(e, m::take_salvo(e, id, base, guns, t)),
{
    broadcast use calm_both;

    calm_self(e);
    if e.units.contains_key(id) {
        let r = salvo_effect::<PcgRng>(
            e.tables,
            e.rng,
            base,
            m::salvo_mods(e, e.units[id], guns),
        );
        let e1 = EngineV { rng: r.1, ..e };
        calm_aside(e, e1);
        calm_apply_fire(e1, id, r.0, t);
    }
}

pub(crate) proof fn calm_garrison_losses(e: EngineV, ids: Seq<Id>, n: u8, t: Tick, ticks: Tick)
    ensures
        calm(e, m::garrison_losses(e, ids, n, t, ticks).0),
    decreases ids.len(),
{
    broadcast use calm_both;

    calm_self(e);
    if ids.len() > 0 {
        calm_garrison_losses(e, ids.drop_last(), n, t, ticks);
        let (e1, left) = m::garrison_losses(e, ids.drop_last(), n, t, ticks);
        let teams = match at(e1.units, ids.last()) {
            Some(u) => u.teams,
            None => 0,
        };
        let k = if left < teams {
            left
        } else {
            teams
        };
        calm_hit_whole(e1, ids.last(), Outcome::Destroyed(k), t, ticks);
    }
}

pub(crate) proof fn calm_personnel_works(e: EngineV, fac: Id, outcome: Outcome, t: Tick)
    ensures
        calm(e, m::personnel_works_hit(e, fac, outcome, t).0),
{
    calm_self(e);
    let ids = keys_where::<String, UnitV>(e.units, m::inside(fac));
    match m::need(e, "suppress_duration"@) {
        Ok(ticks) => {
            if let Outcome::Destroyed(n) = outcome {
                calm_garrison_losses(e, ids, n, t, ticks);
            }
            let f = m::hit_whole_f(outcome, t, ticks);
            assert forall|x: EngineV, k: Id| calm(x, #[trigger] f(x, k)) by {
                calm_hit_whole(x, k, outcome, t, ticks);
            }
            calm_each(e, ids, f);
        },
        Err(_) => {},
    }
}

pub(crate) proof fn calm_expel(e: EngineV, id: Id)
    ensures
        calm(e, m::expel(e, id)),
{
    broadcast use calm_both;

    calm_self(e);
    let e1 = if e.units.contains_key(id) {
        let v = RuntimeUnit { inside_facility: None, busy_until: 0, ..e.units[id] };
        calm_put(e, id, v);
        m::put_unit(e, id, v)
    } else {
        e
    };
    let e2 = EngineV { facility_gen: m::bumped(e1.facility_gen, id), ..e1 };
    calm_aside(e1, e2);
    calm_stamp(e2, id);
}

pub(crate) proof fn calm_booms(e: EngineV, plans: Map<u64, PlanV>, ids: Seq<u64>, id: Id)
    ensures
        calm(e, take_booms(e, plans, ids, id)),
    decreases ids.len(),
{
    broadcast use calm_both;

    calm_self(e);
    if ids.len() > 0 {
        calm_booms(e, plans, ids.drop_last(), id);
        let e1 = take_booms(e, plans, ids.drop_last(), id);
        let p = plans[ids.last()];
        calm_take_salvo(e1, id, p.base, p.gun_count, e1.clock);
    }
}

pub(crate) proof fn calm_meet_salvos(e: EngineV, id: Id, to: Axial)
    ensures
        calm(e, meet_salvos(e, id, to)),
{
    broadcast use calm_both;

    let e1 = EngineV {
        indirect_plans: without_plans(
            e.indirect_plans,
            keys_where::<u64, PlanV>(e.indirect_plans, own_boom(id)),
        ),
        ..e
    };
    calm_aside(e, e1);
    calm_booms(
        e1,
        e1.indirect_plans,
        keys_where::<u64, PlanV>(e1.indirect_plans, boom_over(to)),
        id,
    );
}

pub(crate) proof fn calm_meet_mines(e: EngineV, id: Id, to: Axial)
    ensures
        calm(e, meet_mines(e, id, to)),
{
    broadcast use calm_both;

    calm_self(e);
    if e.minefields.contains_key(to) && e.units.contains_key(id) {
        let f = e.minefields[to];
        let u = e.units[id];
        calm_mines_put(
            e,
            to,
            RuntimeMinefield { cleared_by: with_side(f.cleared_by, u.side), ..f },
        );
        let roll = dice::<PcgRng>(e.rng, 2);
        let e1 = EngineV { rng: roll.1, ..e };
        calm_aside(e, e1);
        calm_apply_fire(
            e1,
            id,
            mine_outcome(mine_loss(e.tables, u.unit_type, u.armor, roll.0)),
            e.clock,
        );
    }
}

pub(crate) proof fn calm_uncover(e: EngineV, id: Id)
    ensures
        calm(e, uncover(e, id)),
{
    broadcast use calm_both;

    calm_self(e);
    let e1 = if e.units.contains_key(id) {
        let v = RuntimeUnit { inside_facility: None, busy_until: 0, ..e.units[id] };
        calm_put(e, id, v);
        m::put_unit(e, id, v)
    } else {
        e
    };
    calm_aside(e1, EngineV { facility_gen: m::bumped(e1.facility_gen, id), ..e1 });
}

pub(crate) proof fn calm_finish_mount(e: EngineV, p: Id, gen: u64)
    ensures
        calm(e, finish_mount(e, p, gen)),
{
    broadcast use calm_both;

    calm_self(e);
    if e.mount_op.contains_key(p) {
        let op = e.mount_op[p];
        let e1 = EngineV { mount_op: e.mount_op.remove(p), ..e };
        calm_aside(e, e1);
        let full = match (at(e.units, p), at(e.units, op.vehicle)) {
            (Some(u), Some(v)) => op.kind == MountKind::Dismount && !stack_room(
                e.units,
                u.side,
                v.pos,
                p,
                e.stacking_cap,
            ),
            _ => false,
        };
        let e2 = if e.units.contains_key(p) {
            let u = e.units[p];
            let w = RuntimeUnit {
                busy_until: 0,
                carried_by: if full {
                    u.carried_by
                } else {
                    match op.kind {
                        MountKind::Mount => Some(op.vehicle),
                        MountKind::Dismount => None,
                    }
                },
                pos: match at(e.units, op.vehicle) {
                    Some(v) => if full {
                        u.pos
                    } else {
                        v.pos
                    },
                    None => u.pos,
                },
                ..u
            };
            calm_put(e1, p, w);
            m::put_unit(e1, p, w)
        } else {
            e1
        };
        calm_set_busy(e2, op.vehicle, 0);
    }
}

pub(crate) proof fn calm_finish_launch(e: EngineV, id: Id)
    ensures
        calm(e, finish_launch(e, id)),
{
    broadcast use calm_both;

    calm_self(e);
    calm_set_busy(e, id, 0);
    if e.units.contains_key(id) {
        let u = e.units[id];
        let e1 = match u.carried_by {
            Some(p) => EngineV { loitering_parent: e.loitering_parent.insert(id, p), ..e },
            None => e,
        };
        calm_aside(e, e1);
        let from = match u.carried_by {
            Some(p) => at(e.units, p),
            None => None,
        };
        let v = RuntimeUnit {
            carried_by: None,
            busy_until: 0,
            pos: match from {
                Some(v) => v.pos,
                None => u.pos,
            },
            ..u
        };
        calm_put(e1, id, v);
        let e2 = m::put_unit(e1, id, v);
        let life = match timing_of(e2.rules, "loitering_endurance"@) {
            Some(n) => n,
            None => 0,
        };
        calm_schedule(
            e2,
            tick_sum(e2.clock, life),
            Event::LoiteringSelfDestruct { munition: id },
        );
    }
}

pub(crate) proof fn calm_self_destruct(e: EngineV, id: Id)
    ensures
        calm(e, self_destruct(e, id)),
{
    broadcast use calm_both;

    let e1 = EngineV {
        loitering_parent: e.loitering_parent.remove(id),
        loitering_target: e.loitering_target.remove(id),
        ..e
    };
    calm_aside(e, e1);
    calm_set_dead(e1, id);
}

pub(crate) proof fn calm_finish_enter(e: EngineV, id: Id, fac: Id, gen: u64)
    ensures
        calm(e, finish_enter(e, id, fac, gen)),
{
    broadcast use calm_both;

    calm_self(e);
    calm_set_busy(e, id, 0);
    if e.units.contains_key(id) {
        let v = RuntimeUnit { inside_facility: Some(fac), ..e.units[id] };
        calm_put(e, id, v);
        let e0 = m::put_unit(e, id, v);
        calm_stamp(e0, id);
        calm_set_busy(m::stamp_entry(e0, id), id, 0);
    }
}

pub(crate) proof fn calm_finish_lay(e: EngineV, id: Id, hex: Axial, gen: u64)
    ensures
        calm(e, finish_lay(e, id, hex, gen)),
{
    broadcast use calm_both;

    let e1 = EngineV { minelay_in_flight: e.minelay_in_flight.remove(id), ..e };
    calm_aside(e, e1);
    calm_set_busy(e1, id, 0);
    if e.units.contains_key(id) {
        let u = e.units[id];
        let f = RuntimeMinefield {
            at: hex,
            owner: Some(u.side),
            cleared_by: SideSet { red: false, blue: false },
        };
        let e2 = if e1.minefields.contains_key(hex) {
            e1
        } else {
            calm_mines_put(e1, hex, f);
            EngineV { minefields: e1.minefields.insert(hex, f), ..e1 }
        };
        calm_self(e1);
        let n = lays_of(e1, id);
        let e3 = EngineV {
            minelayer_lays: e1.minelayer_lays.insert(
                id,
                if n == u32::MAX {
                    n
                } else {
                    (n + 1) as u32
                },
            ),
            ..e2
        };
        calm_aside(e2, e3);
        calm_set_busy(e3, id, 0);
    }
}

pub(crate) proof fn calm_rest(e: EngineV, id: Id, gen: u64)
    ensures
        calm(e, rest(e, id, gen)),
{
    broadcast use calm_both;

    calm_self(e);
    calm_arm_fatigue(e, id);
    if e.units.contains_key(id) {
        let u = e.units[id];
        let v = RuntimeUnit {
            fatigue: if u.fatigue > 0 {
                (u.fatigue - 1) as i64
            } else {
                u.fatigue
            },
            ..u
        };
        calm_put(e, id, v);
        calm_arm_fatigue(m::put_unit(e, id, v), id);
    }
}

pub(crate) proof fn calm_finish_change(e: EngineV, id: Id, to: UnitState, cover_gen: Option<u64>)
    ensures
        calm(e, finish_change(e, id, to, cover_gen)),
{
    broadcast use calm_both;

    calm_self(e);
    let e1 = if cover_gen is Some {
        EngineV { cover_transition: e.cover_transition.remove(id), ..e }
    } else {
        e
    };
    calm_aside(e, e1);
    if e1.units.contains_key(id) {
        calm_put(e1, id, RuntimeUnit { state: to, busy_until: 0, ..e1.units[id] });
    }
}

pub(crate) proof fn calm_end_suppression(e: EngineV, id: Id)
    ensures
        calm(e, end_suppression(e, id)),
{
    calm_self(e);
    if e.units.contains_key(id) {
        let u = e.units[id];
        calm_put(
            e,
            id,
            RuntimeUnit {
                state: if u.state == UnitState::Suppressed {
                    UnitState::Normal
                } else {
                    u.state
                },
                suppressed_until: 0,
                ..u
            },
        );
    }
}

pub(crate) proof fn calm_finish_spinup(e: EngineV, id: Id, gen: u64)
    ensures
        calm(e, finish_spinup(e, id, gen)),
{
    broadcast use calm_both;

    calm_self(e);
    let e1 = EngineV { radar_spinup: e.radar_spinup.remove(id), ..e };
    calm_aside(e, e1);
    let e2 = EngineV { radar_on: e1.radar_on.insert(id, ()), ..e1 };
    calm_aside(e1, e2);
    calm_set_busy(e1, id, 0);
    calm_set_busy(e2, id, 0);
}

pub(crate) proof fn calm_finish_altitude(e: EngineV, id: Id, to: HeliAlt)
    ensures
        calm(e, finish_altitude(e, id, to)),
{
    calm_self(e);
    if e.units.contains_key(id) {
        calm_put(e, id, RuntimeUnit { heli_alt: to, busy_until: 0, ..e.units[id] });
    }
}

// ---------- what may begin fights, but nothing else ----------

pub(crate) broadcast proof fn quiet_both(a: EngineV, b: EngineV, c: EngineV)
    requires
        #[trigger] quiet(a, b),
        #[trigger] quiet(b, c),
    ensures
        quiet(a, c),
{
    reveal(quiet);
}

pub(crate) proof fn quiet_self(a: EngineV)
    ensures
        quiet(a, a),
{
    reveal(quiet);
}

pub(crate) proof fn quiet_aside(a: EngineV, b: EngineV)
    requires
        a.queue == b.queue,
    ensures
        quiet(a, b),
{
    reveal(quiet);
}

proof fn quiet_put(e: EngineV, id: Id, u: UnitV)
    ensures
        quiet(e, m::put_unit(e, id, u)),
{
    reveal(quiet);
}

proof fn quiet_schedule(e: EngineV, t: Tick, event: EventV)
    requires
        starts()(event) == 0,
    ensures
        quiet(e, m::schedule(e, t, event)),
{
    reveal(quiet);
    load_enqueue(e.queue, m::Timed { t, seq: next_of(e.seq), event }, starts());
}

pub(crate) proof fn quiet_each(e: EngineV, ids: Seq<Id>, f: spec_fn(EngineV, Id) -> EngineV)
    requires
        forall|x: EngineV, id: Id| quiet(x, #[trigger] f(x, id)),
    ensures
        quiet(e, m::each(e, ids, f)),
    decreases ids.len(),
{
    broadcast use quiet_both;

    quiet_self(e);
    if ids.len() > 0 {
        quiet_each(e, ids.drop_last(), f);
    }
}

proof fn quiet_fight_removed(e: EngineV, hex: Axial)
    ensures
        quiet(e, EngineV { same_hex: e.same_hex.remove(hex), ..e }),
{
    reveal(quiet);
}

proof fn quiet_fight_put(e: EngineV, hex: Axial, s: SameHexState)
    ensures
        quiet(e, EngineV { same_hex: e.same_hex.insert(hex, s), ..e }),
{
    reveal(quiet);
}

proof fn quiet_new_unit(e: EngineV, id: Id, u: UnitV)
    ensures
        quiet(e, m::put_unit(e, id, u)),
{
    reveal(quiet);
}

proof fn quiet_works_shrunk(e: EngineV, fac: Id, left: u8)
    ensures
        quiet(
            e,
            EngineV {
                facilities: e.facilities.insert(
                    fac,
                    RuntimeFacility { capacity: left, ..e.facilities[fac] },
                ),
                ..e
            },
        ),
{
    reveal(quiet);
}

pub(crate) proof fn quiet_same_hex_round(e: EngineV, hex: Axial, gen: u64, t: Tick)
    ensures
        quiet(e, m::same_hex_round(e, hex, gen, t)),
{
    broadcast use {quiet_both, calm_quiet};

    quiet_self(e);
    quiet_fight_removed(e, hex);
    let ids = m::attackers(e, hex);
    calm_attack_turns(e, ids, hex, t);
    let (e1, loss) = m::attack_turns(e, ids, hex, t);
    quiet_fight_removed(e1, hex);
    if e1.same_hex.contains_key(hex) {
        let s1 = e1.same_hex[hex];
        let dry: u32 = if loss {
            0
        } else if s1.dry_rounds == u32::MAX {
            u32::MAX
        } else {
            (s1.dry_rounds + 1) as u32
        };
        if dry < SAME_HEX_MAX_DRY_ROUNDS {
            let s2 = SameHexState { dry_rounds: dry, ..s1 };
            quiet_fight_put(e1, hex, s2);
            let pause = match timing_of(e1.rules, "same_hex_engage_interval"@) {
                Some(n) => n,
                None => 2500,
            };
            quiet_schedule(
                EngineV { same_hex: e1.same_hex.insert(hex, s2), ..e1 },
                tick_sum(t, pause),
                Event::SameHexEngage { hex, gen },
            );
        }
    }
}

pub(crate) proof fn quiet_trigger(e: EngineV, hex: Axial, t: Tick)
    ensures
        quiet(e, m::trigger_same_hex(e, hex, t)),
{
    broadcast use {quiet_both, calm_quiet};

    quiet_self(e);
    let gen = next_of(e.same_hex_ctr);
    let s = SameHexState { gen, dry_rounds: 0 };
    let e0 = EngineV { same_hex_ctr: gen, ..e };
    quiet_aside(e, e0);
    quiet_fight_put(e0, hex, s);
    let e1 = EngineV { same_hex_ctr: gen, same_hex: e.same_hex.insert(hex, s), ..e };
    assert(e1 == EngineV { same_hex: e0.same_hex.insert(hex, s), ..e0 });
    let f = m::drawn_in_f();
    assert forall|x: EngineV, k: Id| quiet(x, #[trigger] f(x, k)) by {
        calm_drawn_in(x, k);
    }
    let ids = keys_where::<String, UnitV>(e1.units, m::live_at(hex));
    quiet_each(e1, ids, f);
    quiet_same_hex_round(m::each(e1, ids, f), hex, gen, t);
}

pub(crate) proof fn quiet_vehicle_works(e: EngineV, fac: Id, outcome: Outcome)
    ensures
        quiet(e, m::vehicle_works_hit(e, fac, outcome)),
{
    broadcast use {quiet_both, calm_quiet};

    quiet_self(e);
    let loss: int = match outcome {
        Outcome::Destroyed(n) => n as int,
        Outcome::Kill => 255,
        _ => 0,
    };
    if loss != 0 {
        let e1 = if e.facilities.contains_key(fac) {
            let f = e.facilities[fac];
            let left: u8 = if f.capacity > loss {
                (f.capacity - loss) as u8
            } else {
                0
            };
            quiet_works_shrunk(e, fac, left);
            EngineV {
                facilities: e.facilities.insert(fac, RuntimeFacility { capacity: left, ..f }),
                ..e
            }
        } else {
            e
        };
        let ids = keys_where::<String, UnitV>(e1.units, m::inside(fac));
        let f = m::expel_f();
        assert forall|x: EngineV, k: Id| quiet(x, #[trigger] f(x, k)) by {
            calm_expel(x, k);
        }
        quiet_each(e1, ids, f);
        let e2 = m::each(e1, ids, f);
        quiet_trigger(e2, e1.units[ids.last()].pos, e2.clock);
    }
}

pub(crate) proof fn quiet_salvo_lands(e: EngineV, hex: Axial, base: IndirectBase, guns: u8, t: Tick)
    ensures
        quiet(e, m::salvo_lands(e, hex, base, guns, t)),
{
    broadcast use {quiet_both, calm_quiet};

    let f = m::take_salvo_f(base, guns, t);
    assert forall|x: EngineV, k: Id| quiet(x, #[trigger] f(x, k)) by {
        calm_take_salvo(x, k, base, guns, t);
    }
    let ids = keys_where::<String, UnitV>(e.units, m::exposed_at(hex));
    quiet_each(e, ids, f);
    let e1 = m::each(e, ids, f);
    let works = keys_where::<String, FacilityV>(e1.facilities, m::works_at(hex));
    if works.len() > 0 {
        let w = e1.facilities[works[0]];
        let r = salvo_effect::<PcgRng>(
            e1.tables,
            e1.rng,
            base,
            m::works_salvo_mods(w.armor, guns),
        );
        let e2 = EngineV { rng: r.1, ..e1 };
        quiet_aside(e1, e2);
        quiet_vehicle_works(e2, works[0], r.0);
        calm_personnel_works(e2, works[0], r.0, t);
    }
}

pub(crate) proof fn quiet_salvo_arrives(e: EngineV, plan_id: u64, t: Tick)
    ensures
        quiet(e, m::salvo_arrives(e, plan_id, t)),
{
    broadcast use {quiet_both, calm_quiet};

    quiet_self(e);
    quiet_aside(e, EngineV { indirect_plans: e.indirect_plans.remove(plan_id), ..e });
    if e.indirect_plans.contains_key(plan_id) {
        let plan = e.indirect_plans[plan_id];
        if e.units.contains_key(plan.artillery) {
            let u = e.units[plan.artillery];
            let r = salvo::<PcgRng>(
                e.tables,
                e.rng,
                m::spotting(e, plan.plan_hex, u.side),
                steps(u.pos, plan.plan_hex) as int,
                GunClass::Medium,
            );
            let d = pcg_below(r.2, 6);
            let impact = match r.0 {
                Scatter::Hexes(n) => m::offset_hex(
                    plan.plan_hex,
                    d.0 as int,
                    n as int,
                ),
                _ => plan.plan_hex,
            };
            let e1 = EngineV {
                rng: d.1,
                indirect_plans: e.indirect_plans.insert(
                    plan_id,
                    m::IndirectPlan {
                        impact: Some(impact),
                        base: r.1,
                        gun_count: u.teams,
                        ..plan
                    },
                ),
                ..e
            };
            quiet_aside(e, e1);
            quiet_salvo_lands(e1, impact, r.1, u.teams, t);
            let e2 = m::salvo_lands(e1, impact, r.1, u.teams, t);
            let boom = match timing_of(e2.rules, "indirect_boom"@) {
                Some(b) => b,
                None => 0,
            };
            quiet_schedule(
                e2,
                tick_sum(t, boom),
                Event::IndirectBoomEnd { plan: plan_id },
            );
        }
    }
}

pub(crate) proof fn quiet_set_pos(e: EngineV, id: Id, hex: Axial)
    ensures
        quiet(e, set_pos(e, id, hex)),
{
    quiet_self(e);
    if e.units.contains_key(id) {
        quiet_put(e, id, RuntimeUnit { pos: hex, ..e.units[id] });
    }
}

pub(crate) proof fn quiet_step_onto(e: EngineV, id: Id, to: Axial)
    requires
        e.units.contains_key(id),
    ensures
        quiet(e, step_onto(e, id, e.units[id], to)),
{
    broadcast use {quiet_both, calm_quiet};

    let u = e.units[id];
    let v = RuntimeUnit {
        pos: to,
        fatigue: tick_sum(u.fatigue, fatigue_per_hex(e.rules, u.state)),
        ..u
    };
    quiet_put(e, id, v);
    let e1 = m::put_unit(e, id, v);
    calm_stamp(e1, id);
    let e2 = m::stamp_entry(e1, id);
    quiet_self(e2);
    calm_end_same_hex(e2, u.pos);
    let e3 = if u.pos != to {
        m::end_same_hex(e2, u.pos)
    } else {
        e2
    };
    let f = set_pos_f(to);
    assert forall|x: EngineV, k: Id| quiet(x, #[trigger] f(x, k)) by {
        quiet_set_pos(x, k, to);
    }
    quiet_each(e3, keys_where::<String, UnitV>(e3.units, rider_of(id)), f);
}

pub(crate) proof fn quiet_finish_exit(e: EngineV, id: Id, gen: u64)
    ensures
        quiet(e, finish_exit(e, id, gen)),
{
    broadcast use {quiet_both, calm_quiet};

    quiet_self(e);
    calm_set_busy(e, id, 0);
    if e.units.contains_key(id) {
        let u = e.units[id];
        let v = RuntimeUnit { inside_facility: None, busy_until: 0, ..u };
        quiet_put(e, id, v);
        let e0 = m::put_unit(e, id, v);
        calm_stamp(e0, id);
        let e1 = m::stamp_entry(e0, id);
        quiet_trigger(e1, u.pos, e1.clock);
    }
}

pub(crate) proof fn quiet_finish_merge(e: EngineV, id: Id, other: Id)
    requires
        e.units.contains_key(id),
    ensures
        quiet(e, finish_merge(e, id, other)),
{
    broadcast use {quiet_both, calm_quiet};

    calm_set_busy(e, id, 0);
    calm_set_busy(m::set_busy(e, id, 0), other, 0);
    if let Some(n) = merged_teams(e, id, other) {
        let v = RuntimeUnit { teams: n, busy_until: 0, ..e.units[id] };
        quiet_put(e, id, v);
        let e1 = m::put_unit(e, id, v);
        calm_lose(e1, other);
        let e2 = m::lose(e1, other);
        quiet_aside(e2, EngineV { same_hex_order: e2.same_hex_order.remove(other), ..e2 });
    }
}

pub(crate) proof fn quiet_finish_split(e: EngineV, id: Id)
    requires
        e.units.contains_key(id),
    ensures
        quiet(e, finish_split(e, id)),
{
    broadcast use {quiet_both, calm_quiet};

    calm_set_busy(e, id, 0);
    let u = e.units[id];
    if let Some((keep, off)) = split_teams(e, id) {
        let n = next_of(e.spawn_ctr);
        let child = child_id(id, n);
        let e1 = EngineV { spawn_ctr: n, ..e };
        quiet_aside(e, e1);
        calm_set_busy(e1, id, 0);
        if !e1.units.contains_key(child) {
            quiet_new_unit(e1, child, child_of(u, child, off));
            let e2 = m::put_unit(e1, child, child_of(u, child, off));
            let v = RuntimeUnit { teams: keep, busy_until: 0, ..u };
            quiet_put(e2, id, v);
            let e3 = m::put_unit(e2, id, v);
            calm_stamp(e3, id);
            calm_stamp(m::stamp_entry(e3, id), child);
            let e4 = m::stamp_entry(m::stamp_entry(e3, id), child);
            quiet_trigger(e4, u.pos, e4.clock);
        }
    }
}

pub(crate) proof fn quiet_finish_agg(e: EngineV, id: Id, gen: u64)
    ensures
        quiet(e, finish_agg(e, id, gen)),
{
    broadcast use {quiet_both, calm_quiet};

    quiet_self(e);
    if e.aggsplit_op.contains_key(id) {
        let e1 = EngineV { aggsplit_op: e.aggsplit_op.remove(id), ..e };
        quiet_aside(e, e1);
        if e1.units.contains_key(id) {
            quiet_finish_split(e1, id);
            if let AggSplitKind::Aggregate { other } = e.aggsplit_op[id].kind {
                quiet_finish_merge(e1, id, other);
            }
        }
    }
}

} // verus!
