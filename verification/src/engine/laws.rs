//! What holds of every match, whatever is ordered and whatever happens.
use crate::combat::{
    aa_salvo, direct_step, guided_step, loadout_of, noted, strike_step, works_step, FireOutcome,
    IndirectBase, RecV,
};
use crate::engine::actions::{
    begin_agg, begin_mount, do_aggregate, do_cancel, do_capture, do_dismount, do_enter, do_exit,
    do_launch, do_lay, do_mount, do_plan, do_radar_on, do_split, do_switch_altitude, in_flight,
    objective_at, without_plans,
};
use crate::engine::fire::{
    aa_rules, aa_salvo_at, as_firing, cool, do_aa_fire, do_fire, do_guide_fire, do_strike, drawn,
    fire_at_facility, fire_at_unit, fired, guided_at, prepare, shots_fired, target_of, works_target,
};
use crate::engine::laws_calm::{calm, calm_attack_turns, calm_both, calm_drawn_in, calm_each};
use crate::engine::model as m;
use crate::engine::model::{EngineV, Event, EventV, Id, SameHexState, TimedV, SAME_HEX_MAX_DRY_ROUNDS};
use crate::engine::moves::{plan_hop, step_ticks};
use crate::engine::orders::{
    begin_change, change_ticks, do_move, do_set_mode, do_stop, fire_order, formation_order, free_id,
    hex_in, id_of, idle_id, leave_hex, mode_named, movement_order, own_id, set_out, speed_in, submit,
    support_order, text_in, transport_order,
};
use crate::hex::{hex_distance, line_hex, steps, Axial};
use crate::json::{jget, Json};
use crate::mechanics::fort_range;
use crate::ordmap::keys_where;
use crate::prob::Outcome;
use crate::rng::PcgRng;
use crate::rules::{at, setting, timing_of, Rules};
use crate::time::{next_of, tick_sum, Tick};
use crate::types::{
    altitude_named, FacilityV, RuntimeFacility, RuntimeMinefield, RuntimeUnit, SideId, UnitState,
    UnitType, UnitV, WeaponState,
};
use vstd::prelude::*;

verus! {

// ---------- what is kept ----------

/// Whether a queue lists its events by tick, and those of one tick by number.
pub open spec fn in_order(q: Seq<TimedV>) -> bool {
    forall|i: int, j: int| 0 <= i < j < q.len() ==> !m::sooner(#[trigger] q[j], #[trigger] q[i])
}

/// Whether a unit is still the same unit: neither its id nor its side, type, armor, facing and
/// affiliation has changed, and it has not come back from the dead.
pub open spec fn same_unit(u: UnitV, v: UnitV) -> bool {
    v.id == u.id && v.side == u.side && v.unit_type == u.unit_type && v.armor == u.armor && v.facing
        == u.facing && v.affiliated_to == u.affiliated_to && (v.alive ==> u.alive)
}

/// Whether a fortification is still the same: only its capacity may have shrunk.
pub open spec fn same_works(f: FacilityV, g: FacilityV) -> bool {
    g.id == f.id && g.kind == f.kind && g.at == f.at && g.owner == f.owner && g.armor == f.armor
        && g.capacity <= f.capacity
}

/// Whether a minefield is still the same: only lanes may have been opened.
pub open spec fn same_mines(f: RuntimeMinefield, g: RuntimeMinefield) -> bool {
    g.at == f.at && g.owner == f.owner && (f.cleared_by.red ==> g.cleared_by.red) && (
    f.cleared_by.blue ==> g.cleared_by.blue)
}

/// Whether no fight within a hex has gone on for too long without a loss.
pub open spec fn fights_bounded(s: Map<Axial, SameHexState>) -> bool {
    forall|h: Axial| #[trigger]
        s.contains_key(h) ==> s[h].dry_rounds < SAME_HEX_MAX_DRY_ROUNDS
}

/// Whether an event is to come.
pub open spec fn due_in(q: Seq<TimedV>, event: EventV) -> bool {
    exists|i: int| 0 <= i < q.len() && (#[trigger] q[i]).event == event
}

/// Whether a fight at `hex`, if there is one, has its next round to come.
pub open spec fn round_due(e: EngineV, hex: Axial) -> bool {
    e.same_hex.contains_key(hex) ==> due_in(
        e.queue,
        Event::SameHexEngage { hex, gen: e.same_hex[hex].gen },
    )
}

/// Whether every minefield is kept under its hex.
pub open spec fn mines_match(mines: Map<Axial, RuntimeMinefield>) -> bool {
    forall|h: Axial| #[trigger] mines.contains_key(h) ==> mines[h].at == h
}

/// Whether every unit is kept under its id.
pub open spec fn ids_match(units: Map<Id, UnitV>) -> bool {
    forall|k: Id| #[trigger] units.contains_key(k) ==> units[k].id == k
}

/// What every step of a match keeps from state `a` to state `b`:
/// the board, the scenario, the rules and the tables;
/// every unit, as the same unit, under its id, and that the units are finitely many;
/// every fortification, and every minefield under its hex;
/// the history of adjudications, which only grows;
/// the order of the events to come; the bound on fights without a loss; and that every fight has its
/// next round to come.
#[verifier::opaque]
pub open spec fn keeps(a: EngineV, b: EngineV) -> bool {
    &&& a.map == b.map && a.scenario == b.scenario && a.rules == b.rules && a.tables == b.tables
        && a.stacking_cap == b.stacking_cap
    &&& forall|k: Id| #[trigger]
        a.units.contains_key(k) ==> b.units.contains_key(k) && same_unit(a.units[k], b.units[k])
    &&& ids_match(a.units) ==> ids_match(b.units)
    &&& a.units.dom().finite() ==> b.units.dom().finite()
    &&& forall|k: Id| #[trigger] a.facilities.contains_key(k) <==> b.facilities.contains_key(k)
    &&& forall|k: Id| #[trigger]
        a.facilities.contains_key(k) ==> same_works(a.facilities[k], b.facilities[k])
    &&& forall|h: Axial| #[trigger]
        a.minefields.contains_key(h) ==> b.minefields.contains_key(h) && same_mines(
            a.minefields[h],
            b.minefields[h],
        )
    &&& mines_match(a.minefields) ==> mines_match(b.minefields)
    &&& a.shots.is_prefix_of(b.shots)
    &&& in_order(a.queue) ==> in_order(b.queue)
    &&& fights_bounded(a.same_hex) ==> fights_bounded(b.same_hex)
    &&& forall|h: Axial| #[trigger] round_due(a, h) ==> round_due(b, h)
}

/// Whether no event of a queue is due before a tick.
pub open spec fn none_before(q: Seq<TimedV>, t: Tick) -> bool {
    forall|i: int| 0 <= i < q.len() ==> (#[trigger] q[i]).t >= t
}

/// Whether no duration of the rules runs backwards.
pub open spec fn forward(rules: Rules) -> bool {
    &&& forall|key: Seq<char>| (#[trigger] timing_of(rules, key)) is Some ==> timing_of(rules, key)->0
        >= 0
    &&& forall|key: Seq<char>| (#[trigger] at(rules.paces.aa_interval@, key)) is Some ==> at(
        rules.paces.aa_interval@,
        key,
    )->0 >= 0
}

/// What an event, or an order of tick `t`, keeps from state `a` to state `b`: what the match keeps;
/// the clock; and, unless the order is of a tick gone by or durations run backwards, that no event
/// to come is due before now.
#[verifier::opaque]
pub open spec fn at_once(a: EngineV, b: EngineV, t: Tick) -> bool {
    &&& keeps(a, b)
    &&& a.clock == b.clock
    &&& forward(a.rules) && a.clock <= t && none_before(a.queue, a.clock) ==> none_before(
        b.queue,
        b.clock,
    )
}

/// Nothing changes where nothing happens.
pub proof fn keeps_self(a: EngineV)
    ensures
        keeps(a, a),
{
    reveal(keeps);
}

/// What two steps keep, both together keep.
pub broadcast proof fn keeps_both(a: EngineV, b: EngineV, c: EngineV)
    requires
        #[trigger] keeps(a, b),
        #[trigger] keeps(b, c),
    ensures
        keeps(a, c),
{
    reveal(keeps);
    assert forall|k: Id| #[trigger] a.units.contains_key(k) implies c.units.contains_key(k)
        && same_unit(a.units[k], c.units[k]) by {
        assert(b.units.contains_key(k));
    }
    assert forall|k: Id| #[trigger] a.facilities.contains_key(k) implies same_works(
        a.facilities[k],
        c.facilities[k],
    ) by {
        assert(b.facilities.contains_key(k));
    }
    assert forall|h: Axial| #[trigger] a.minefields.contains_key(h) implies c.minefields.contains_key(
        h,
    ) && same_mines(a.minefields[h], c.minefields[h]) by {
        assert(b.minefields.contains_key(h));
    }
}

pub(crate) proof fn once_self(a: EngineV, t: Tick)
    ensures
        at_once(a, a, t),
{
    reveal(at_once);
    keeps_self(a);
}

pub(crate) broadcast proof fn once_both(a: EngineV, b: EngineV, c: EngineV, t: Tick)
    requires
        #[trigger] at_once(a, b, t),
        #[trigger] at_once(b, c, t),
    ensures
        at_once(a, c, t),
{
    reveal(at_once);
    reveal(keeps);
    keeps_both(a, b, c);
}

pub(crate) broadcast proof fn once_same(a: EngineV, b: EngineV, t: Tick)
    requires
        #[trigger] at_once(a, b, t),
    ensures
        a.clock == b.clock,
        a.rules == b.rules,
{
    reveal(at_once);
    reveal(keeps);
}

/// What happens now is in time for an order of any tick.
pub(crate) proof fn once_now(a: EngineV, b: EngineV, t: Tick)
    requires
        at_once(a, b, a.clock),
    ensures
        at_once(a, b, t),
{
    reveal(at_once);
}

/// A state that differs in nothing of what is kept.
pub(crate) proof fn keeps_aside(a: EngineV, b: EngineV)
    requires
        b == (EngineV { clock: b.clock, ..a }),
    ensures
        keeps(a, b),
{
    reveal(keeps);
}

/// A state that differs in nothing of what is kept at once.
pub(crate) proof fn once_aside(a: EngineV, b: EngineV, t: Tick)
    requires
        a.clock == b.clock,
        a.map == b.map,
        a.scenario == b.scenario,
        a.rules == b.rules,
        a.tables == b.tables,
        a.stacking_cap == b.stacking_cap,
        a.units == b.units,
        a.facilities == b.facilities,
        a.minefields == b.minefields,
        a.shots == b.shots,
        a.queue == b.queue,
        a.same_hex == b.same_hex,
    ensures
        at_once(a, b, t),
{
    reveal(keeps);
    reveal(at_once);
}

pub(crate) proof fn once_put(e: EngineV, id: Id, u: UnitV, t: Tick)
    requires
        e.units.contains_key(id),
        same_unit(e.units[id], u),
    ensures
        at_once(e, m::put_unit(e, id, u), t),
{
    reveal(keeps);
    reveal(at_once);
    assert(m::put_unit(e, id, u).units.dom() =~= e.units.dom().insert(id));
}

/// A queue in order stays in order when an event is put in its place.
pub proof fn enqueue_in_order(q: Seq<TimedV>, x: TimedV)
    requires
        in_order(q),
    ensures
        in_order(m::enqueue(q, x)),
        m::enqueue(q, x).to_multiset() == q.to_multiset().insert(x),
        m::enqueue(q, x).len() == q.len() + 1,
    decreases q.len(),
{
    broadcast use vstd::seq_lib::group_to_multiset_ensures;

    let r = m::enqueue(q, x);
    if q.len() == 0 || !m::sooner(x, q.last()) {
        assert forall|i: int, j: int| 0 <= i < j < r.len() implies !m::sooner(
            #[trigger] r[j],
            #[trigger] r[i],
        ) by {
            if j == q.len() && q.len() > 0 {
                if i < q.len() - 1 {
                    assert(!m::sooner(q[q.len() - 1], q[i]));
                }
            }
        }
    } else {
        let rest = q.drop_last();
        let s = m::enqueue(rest, x);
        enqueue_in_order(rest, x);
        enqueue_bounded(rest, x, q.last());
        assert(q =~= rest.push(q.last()));
        assert(q.to_multiset() =~= rest.to_multiset().insert(q.last()));
        assert(r.to_multiset() =~= q.to_multiset().insert(x));
        assert forall|i: int, j: int| 0 <= i < j < r.len() implies !m::sooner(
            #[trigger] r[j],
            #[trigger] r[i],
        ) by {
            if j == s.len() {
                assert(!m::sooner(q.last(), s[i]));
            } else {
                assert(r[j] == s[j] && r[i] == s[i]);
            }
        }
    }
}

proof fn enqueue_bounded(q: Seq<TimedV>, x: TimedV, y: TimedV)
    requires
        forall|i: int| 0 <= i < q.len() ==> !m::sooner(y, #[trigger] q[i]),
        !m::sooner(y, x),
    ensures
        forall|i: int| 0 <= i < m::enqueue(q, x).len() ==> !m::sooner(
            y,
            #[trigger] m::enqueue(q, x)[i],
        ),
    decreases q.len(),
{
    let r = m::enqueue(q, x);
    if !(q.len() == 0 || !m::sooner(x, q.last())) {
        let s = m::enqueue(q.drop_last(), x);
        enqueue_bounded(q.drop_last(), x, y);
        assert forall|i: int| 0 <= i < r.len() implies !m::sooner(y, #[trigger] r[i]) by {
            if i < s.len() {
                assert(r[i] == s[i]);
            } else {
                assert(r[i] == q[q.len() - 1]);
            }
        }
    }
}

proof fn none_before_enqueue(q: Seq<TimedV>, x: TimedV, now: Tick)
    requires
        none_before(q, now),
        x.t >= now,
    ensures
        none_before(m::enqueue(q, x), now),
    decreases q.len(),
{
    let r = m::enqueue(q, x);
    if !(q.len() == 0 || !m::sooner(x, q.last())) {
        let s = m::enqueue(q.drop_last(), x);
        assert(none_before(q.drop_last(), now));
        none_before_enqueue(q.drop_last(), x, now);
        assert forall|i: int| 0 <= i < r.len() implies (#[trigger] r[i]).t >= now by {
            if i < s.len() {
                assert(r[i] == s[i]);
            } else {
                assert(r[i] == q[q.len() - 1]);
            }
        }
    }
}

pub(crate) proof fn once_schedule(e: EngineV, at: Tick, event: EventV, t: Tick)
    requires
        forward(e.rules) && e.clock <= t ==> at >= e.clock,
    ensures
        at_once(e, m::schedule(e, at, event), t),
{
    reveal(keeps);
    reveal(at_once);
    if none_before(e.queue, e.clock) && at >= e.clock {
        none_before_enqueue(e.queue, m::Timed { t: at, seq: next_of(e.seq), event }, e.clock);
    }
    if in_order(e.queue) {
        let n = next_of(e.seq);
        enqueue_in_order(e.queue, m::Timed { t: at, seq: n, event });
    }
    assert forall|h: Axial| #[trigger] round_due(e, h) implies round_due(
        m::schedule(e, at, event),
        h,
    ) by {
        if e.same_hex.contains_key(h) {
            due_enqueue(
                e.queue,
                m::Timed { t: at, seq: next_of(e.seq), event },
                Event::SameHexEngage { hex: h, gen: e.same_hex[h].gen },
            );
        }
    }
}

/// Putting one event more into a queue drops none.
proof fn due_enqueue(q: Seq<TimedV>, x: TimedV, event: EventV)
    requires
        due_in(q, event) || x.event == event,
    ensures
        due_in(m::enqueue(q, x), event),
    decreases q.len(),
{
    let r = m::enqueue(q, x);
    if q.len() == 0 || !m::sooner(x, q.last()) {
        if x.event == event {
            assert(r[q.len() as int].event == event);
        } else {
            let i = choose|i: int| 0 <= i < q.len() && (#[trigger] q[i]).event == event;
            assert(r[i].event == event);
        }
    } else {
        let rest = q.drop_last();
        let s = m::enqueue(rest, x);
        assert(r == s.push(q.last()));
        if x.event == event || due_in(rest, event) {
            due_enqueue(rest, x, event);
            let i = choose|i: int| 0 <= i < s.len() && (#[trigger] s[i]).event == event;
            assert(r[i].event == event);
        } else {
            let i = choose|i: int| 0 <= i < q.len() && (#[trigger] q[i]).event == event;
            if i < rest.len() {
                assert(rest[i].event == event);
            }
            assert(r[s.len() as int].event == event);
        }
    }
}

/// Applying to several ids what keeps everything for each, keeps everything.
pub(crate) proof fn once_each(e: EngineV, ids: Seq<Id>, f: spec_fn(EngineV, Id) -> EngineV, t: Tick)
    requires
        forall|x: EngineV, id: Id| x.rules == e.rules ==> at_once(x, #[trigger] f(x, id), t),
    ensures
        at_once(e, m::each(e, ids, f), t),
    decreases ids.len(),
{
    broadcast use {once_both, once_same};

    once_self(e, t);
    if ids.len() > 0 {
        once_each(e, ids.drop_last(), f, t);
    }
}

// ---------- small changes ----------

pub(crate) proof fn once_set_busy(e: EngineV, id: Id, until: Tick, t: Tick)
    ensures
        at_once(e, m::set_busy(e, id, until), t),
{
    once_self(e, t);
    if e.units.contains_key(id) {
        once_put(e, id, RuntimeUnit { busy_until: until, ..e.units[id] }, t);
    }
}

pub(crate) proof fn once_set_weapon(e: EngineV, id: Id, w: WeaponState, t: Tick)
    ensures
        at_once(e, m::set_weapon(e, id, w), t),
{
    once_self(e, t);
    if e.units.contains_key(id) {
        once_put(e, id, RuntimeUnit { weapon_state: w, ..e.units[id] }, t);
    }
}

pub(crate) proof fn once_set_dead(e: EngineV, id: Id, t: Tick)
    ensures
        at_once(e, m::set_dead(e, id), t),
{
    once_self(e, t);
    if e.units.contains_key(id) {
        once_put(e, id, RuntimeUnit { alive: false, teams: 0, ..e.units[id] }, t);
    }
}

pub(crate) proof fn once_stamp(e: EngineV, id: Id, t: Tick)
    ensures
        at_once(e, m::stamp_entry(e, id), t),
{
    once_aside(e, m::stamp_entry(e, id), t);
}

// ---------- interruptions ----------

pub(crate) proof fn once_abort_agg(e: EngineV, init: Id, t: Tick)
    ensures
        at_once(e, m::abort_agg(e, init), t),
{
    broadcast use {once_both, once_same};

    once_self(e, t);
    if e.aggsplit_op.contains_key(init) {
        let e1 = EngineV {
            aggsplit_op: e.aggsplit_op.remove(init),
            aggsplit_gen: m::bumped(e.aggsplit_gen, init),
            ..e
        };
        once_aside(e, e1, t);
        once_set_busy(e1, init, 0, t);
        let e2 = m::set_busy(e1, init, 0);
        match e.aggsplit_op[init].kind {
            m::AggSplitKind::Aggregate { other } => {
                once_set_busy(e2, other, 0, t);
            },
            m::AggSplitKind::Split => {},
        }
    }
}

pub(crate) proof fn once_interrupt_aggsplit(e: EngineV, id: Id, t: Tick)
    ensures
        at_once(e, m::interrupt_aggsplit(e, id), t),
{
    let f = m::abort_agg_f();
    assert forall|x: EngineV, k: Id| at_once(x, #[trigger] f(x, k), t) by {
        once_abort_agg(x, k, t);
    }
    once_each(
        e,
        keys_where::<String, m::AggSplitV>(e.aggsplit_op, m::agg_involves(id)),
        f,
        t,
    );
}

pub(crate) proof fn once_interrupt_cover(e: EngineV, id: Id, t: Tick)
    ensures
        at_once(e, m::interrupt_cover(e, id), t),
{
    broadcast use {once_both, once_same};

    once_self(e, t);
    let e1 = EngineV { cover_transition: e.cover_transition.remove(id), ..e };
    once_aside(e, e1, t);
    once_set_busy(e1, id, 0, t);
}

pub(crate) proof fn once_abort_mount(e: EngineV, p: Id, t: Tick)
    ensures
        at_once(e, m::abort_mount(e, p), t),
{
    broadcast use {once_both, once_same};

    once_self(e, t);
    if e.mount_op.contains_key(p) {
        let e1 = EngineV { mount_op: e.mount_op.remove(p), ..e };
        once_aside(e, e1, t);
        once_set_busy(e1, p, 0, t);
        once_set_busy(m::set_busy(e1, p, 0), e.mount_op[p].vehicle, 0, t);
    }
}

pub(crate) proof fn once_abort_minelay(e: EngineV, id: Id, t: Tick)
    ensures
        at_once(e, m::abort_minelay(e, id), t),
{
    broadcast use {once_both, once_same};

    once_self(e, t);
    let e1 = EngineV {
        minelay_in_flight: e.minelay_in_flight.remove(id),
        minelayer_gen: m::bumped(e.minelayer_gen, id),
        ..e
    };
    once_aside(e, e1, t);
    once_set_busy(e1, id, 0, t);
}

pub(crate) proof fn once_interrupt_mounts(e: EngineV, id: Id, t: Tick)
    ensures
        at_once(e, m::interrupt_mounts(e, id), t),
{
    broadcast use {once_both, once_same};

    let f = m::abort_mount_f();
    assert forall|x: EngineV, k: Id| at_once(x, #[trigger] f(x, k), t) by {
        once_abort_mount(x, k, t);
    }
    let ids = keys_where::<String, m::MountV>(e.mount_op, m::mount_involves(id));
    once_each(e, ids, f, t);
    let e1 = m::each(e, ids, f);
    once_abort_minelay(e1, id, t);
    once_interrupt_aggsplit(m::abort_minelay(e1, id), id, t);
}

// ---------- fatigue, halting, fights ----------

pub(crate) proof fn once_arm_fatigue(e: EngineV, id: Id, t: Tick)
    ensures
        at_once(e, m::arm_fatigue_decay(e, id), t),
{
    broadcast use {once_both, once_same};

    once_self(e, t);
    let e1 = EngineV { fatigue_gen: m::bumped(e.fatigue_gen, id), ..e };
    once_aside(e, e1, t);
    once_schedule(
        e1,
        tick_sum(
            e.clock,
            crate::time::seconds_in_ticks(crate::mechanics::fatigue_interval(e.rules)) as i64,
        ),
        Event::FatigueDecay { unit: id, gen: m::fresh(e.fatigue_gen, id) },
        t,
    );
}

pub(crate) proof fn once_settle(e: EngineV, id: Id, t: Tick)
    ensures
        at_once(e, m::settle_stopped(e, id), t),
{
    broadcast use {once_both, once_same};

    once_arm_fatigue(e, id, t);
    if e.units.contains_key(id) {
        let u = e.units[id];
        let v = RuntimeUnit {
            state: if u.state == UnitState::March {
                u.state
            } else {
                UnitState::Stopped
            },
            busy_until: 0,
            ..u
        };
        once_put(e, id, v, t);
        once_arm_fatigue(m::put_unit(e, id, v), id, t);
    }
}

pub(crate) proof fn once_fight_removed(e: EngineV, hex: Axial, t: Tick)
    ensures
        at_once(e, EngineV { same_hex: e.same_hex.remove(hex), ..e }, t),
{
    reveal(keeps);
    reveal(at_once);
}

/// A fight goes on with its next round.
proof fn once_fight_on(e: EngineV, hex: Axial, s: SameHexState, at: Tick, t: Tick)
    requires
        forward(e.rules) && e.clock <= t ==> at >= e.clock,
        s.dry_rounds < SAME_HEX_MAX_DRY_ROUNDS,
    ensures
        ({
            let e1 = EngineV { same_hex: e.same_hex.insert(hex, s), ..e };
            let e2 = m::schedule(e1, at, Event::SameHexEngage { hex, gen: s.gen });
            at_once(e, e2, t) && round_due(e2, hex)
        }),
{
    let e1 = EngineV { same_hex: e.same_hex.insert(hex, s), ..e };
    let event: EventV = Event::SameHexEngage { hex, gen: s.gen };
    once_schedule(e1, at, event, t);
    due_enqueue(e1.queue, m::Timed { t: at, seq: next_of(e1.seq), event }, event);
    let e2 = m::schedule(e1, at, event);
    assert(round_due(e2, hex));
    assert forall|h: Axial| #[trigger] round_due(e, h) implies round_due(e1, h) || round_due(
        e2,
        h,
    ) by {
        if h != hex {
            assert(round_due(e1, h));
        }
    }
    once_over(e, e1, e2, t);
}

/// A fight may lack its next round for a while, if what follows gives it one or ends it.
pub(crate) proof fn keeps_over(a: EngineV, b: EngineV, c: EngineV)
    requires
        b == (EngineV {
            clock: b.clock,
            queue: b.queue,
            same_hex: b.same_hex,
            same_hex_ctr: b.same_hex_ctr,
            ..a
        }),
        in_order(a.queue) ==> in_order(b.queue),
        fights_bounded(a.same_hex) ==> fights_bounded(b.same_hex),
        keeps(b, c),
        forall|h: Axial| #[trigger] round_due(a, h) ==> round_due(b, h) || round_due(c, h),
    ensures
        keeps(a, c),
{
    reveal(keeps);
    assert(a.units == b.units && a.facilities == b.facilities && a.minefields == b.minefields);
    assert forall|h: Axial| #[trigger] round_due(a, h) implies round_due(c, h) by {
        assert(round_due(b, h) || round_due(c, h));
    }
}

/// The same where nothing has happened in between.
proof fn once_over(a: EngineV, b: EngineV, c: EngineV, t: Tick)
    requires
        b == (EngineV { same_hex: b.same_hex, same_hex_ctr: b.same_hex_ctr, ..a }),
        fights_bounded(a.same_hex) ==> fights_bounded(b.same_hex),
        at_once(b, c, t),
        forall|h: Axial| #[trigger] round_due(a, h) ==> round_due(b, h) || round_due(c, h),
    ensures
        at_once(a, c, t),
{
    reveal(at_once);
    keeps_over(a, b, c);
}

pub(crate) proof fn once_end_same_hex(e: EngineV, hex: Axial, t: Tick)
    ensures
        at_once(e, m::end_same_hex(e, hex), t),
{
    once_self(e, t);
    once_fight_removed(e, hex, t);
}

// ---------- death and suppression ----------

pub(crate) proof fn once_drop_mount(e: EngineV, p: Id, t: Tick)
    ensures
        at_once(e, m::drop_mount(e, p), t),
{
    broadcast use {once_both, once_same};

    let e1 = EngineV { mount_op: e.mount_op.remove(p), ..e };
    once_aside(e, e1, t);
    once_set_busy(e1, p, 0, t);
}

pub(crate) proof fn once_lose(e: EngineV, id: Id, t: Tick)
    ensures
        at_once(e, m::lose(e, id), t),
{
    broadcast use {once_both, once_same};

    once_set_dead(e, id, t);
    once_set_busy(m::set_dead(e, id), id, 0, t);
}

pub(crate) proof fn once_expend(e: EngineV, id: Id, t: Tick)
    ensures
        at_once(e, m::expend(e, id), t),
{
    broadcast use {once_both, once_same};

    let e1 = EngineV {
        loitering_parent: e.loitering_parent.remove(id),
        loitering_target: e.loitering_target.remove(id),
        ..e
    };
    once_aside(e, e1, t);
    once_set_dead(e1, id, t);
}

pub(crate) proof fn once_lose_affiliate(e: EngineV, id: Id, t: Tick)
    ensures
        at_once(e, m::lose_affiliate(e, id), t),
{
    broadcast use {once_both, once_same};

    once_self(e, t);
    if e.units.contains_key(id) {
        once_lose(e, id, t);
        once_end_same_hex(m::lose(e, id), e.units[id].pos, t);
    }
}

pub(crate) proof fn once_carrier_death(e: EngineV, vehicle: Id, t: Tick)
    ensures
        at_once(e, m::carrier_death(e, vehicle), t),
{
    broadcast use {once_both, once_same};

    let f1 = m::drop_mount_f();
    assert forall|x: EngineV, k: Id| at_once(x, #[trigger] f1(x, k), t) by {
        once_drop_mount(x, k, t);
    }
    let f2 = m::lose_f();
    assert forall|x: EngineV, k: Id| at_once(x, #[trigger] f2(x, k), t) by {
        once_lose(x, k, t);
    }
    let f3 = m::expend_f();
    assert forall|x: EngineV, k: Id| at_once(x, #[trigger] f3(x, k), t) by {
        once_expend(x, k, t);
    }
    let f4 = m::lose_affiliate_f();
    assert forall|x: EngineV, k: Id| at_once(x, #[trigger] f4(x, k), t) by {
        once_lose_affiliate(x, k, t);
    }
    let i1 = keys_where::<String, m::MountV>(e.mount_op, m::mounts_on(vehicle));
    let e1 = m::each(e, i1, f1);
    let i2 = keys_where::<String, UnitV>(e1.units, m::aboard(vehicle));
    let e2 = m::each(e1, i2, f2);
    let i3 = keys_where::<String, Id>(e2.loitering_parent, m::launched_from(vehicle));
    let e3 = m::each(e2, i3, f3);
    let i4 = keys_where::<String, UnitV>(e3.units, m::affiliate_of(vehicle));
    once_each(e, i1, f1, t);
    once_each(e1, i2, f2, t);
    once_each(e2, i3, f3, t);
    once_each(e3, i4, f4, t);
}

pub(crate) proof fn once_suppress(e: EngineV, id: Id, until: Tick, t: Tick)
    requires
        forward(e.rules) && e.clock <= t ==> until >= e.clock,
    ensures
        at_once(e, m::suppress(e, id, until), t),
{
    broadcast use {once_both, once_same};

    once_interrupt_cover(e, id, t);
    let e0 = m::interrupt_cover(e, id);
    once_interrupt_mounts(e0, id, t);
    let e1 = m::interrupt_mounts(e0, id);
    once_self(e1, t);
    let r = EngineV { radar_spinup: e1.radar_spinup.remove(id), ..e1 };
    once_aside(e1, r, t);
    once_set_busy(r, id, 0, t);
    let e2 = if e1.radar_spinup.contains_key(id) {
        m::set_busy(r, id, 0)
    } else {
        e1
    };
    once_self(e2, t);
    let e3 = if e2.units.contains_key(id) {
        let u = e2.units[id];
        let v = RuntimeUnit {
            suppressed_until: until,
            state: if u.state == UnitState::Cover {
                u.state
            } else {
                UnitState::Suppressed
            },
            ..u
        };
        once_put(e2, id, v, t);
        m::put_unit(e2, id, v)
    } else {
        e2
    };
    once_schedule(e3, until, Event::SuppressEnd { unit: id }, t);
}

pub(crate) proof fn once_hit(e: EngineV, id: Id, outcome: Outcome, t: Tick, ticks: Tick)
    requires
        forward(e.rules) ==> ticks >= 0,
    ensures
        at_once(e, m::hit(e, id, outcome, t, ticks), t),
{
    broadcast use {once_both, once_same};

    once_self(e, t);
    if e.units.contains_key(id) {
        let u = e.units[id];
        let dead = RuntimeUnit { teams: 0, alive: false, ..u };
        once_put(e, id, dead, t);
        let e0 = m::put_unit(e, id, dead);
        once_carrier_death(e0, id, t);
        let e1 = m::carrier_death(e0, id);
        if e1.units.contains_key(id) {
            once_end_same_hex(e1, e1.units[id].pos, t);
        }
        let hurt = RuntimeUnit { teams: m::teams_left(u, outcome), ..u };
        once_put(e, id, hurt, t);
        once_suppress(m::put_unit(e, id, hurt), id, tick_sum(t, ticks), t);
    }
}

pub(crate) proof fn once_hit_whole(e: EngineV, id: Id, outcome: Outcome, t: Tick, ticks: Tick)
    requires
        forward(e.rules) ==> ticks >= 0,
    ensures
        at_once(e, m::hit_whole(e, id, outcome, t, ticks), t),
{
    broadcast use {once_both, once_same};

    once_hit(e, id, outcome, t, ticks);
    let e1 = m::hit(e, id, outcome, t, ticks);
    let f = m::hit_f(outcome, t, ticks);
    assert forall|x: EngineV, k: Id| x.rules == e1.rules implies at_once(
        x,
        #[trigger] f(x, k),
        t,
    ) by {
        once_hit(x, k, outcome, t, ticks);
    }
    once_each(e1, keys_where::<String, UnitV>(e1.units, m::cargo_of(id)), f, t);
}

pub(crate) proof fn once_apply_fire(e: EngineV, id: Id, outcome: Outcome, t: Tick)
    ensures
        at_once(e, m::apply_fire(e, id, outcome, t).0, t),
        at_once(e, m::take_fire(e, id, outcome, t), t),
{
    once_self(e, t);
    match m::need(e, "suppress_duration"@) {
        Ok(ticks) => {
            once_hit_whole(e, id, outcome, t, ticks);
        },
        Err(_) => {},
    }
}

pub(crate) proof fn once_noted(e: EngineV, rng: u128, rec: Option<RecV>, t: Tick)
    ensures
        at_once(e, EngineV { rng, shots: noted(e.shots, rec), ..e }, t),
{
    reveal(keeps);
    reveal(at_once);
}

// ---------- fights within a hex ----------

pub(crate) proof fn once_same_hex_shot(e: EngineV, attacker: Id, target: Id, t: Tick)
    ensures
        at_once(e, m::same_hex_shot(e, attacker, target, t).0, t),
{
    broadcast use {once_both, once_same};

    once_self(e, t);
    if e.units.contains_key(attacker) && e.units.contains_key(target) {
        let (a, u) = (e.units[attacker], e.units[target]);
        let r = crate::combat::same_hex_fire::<PcgRng>(
            e.tables,
            e.map,
            e.rng,
            crate::combat::loadout_of(e.rules, a.unit_type),
            a,
            u,
        );
        once_noted(e, r.2, r.1, t);
        let e1 = EngineV { rng: r.2, shots: noted(e.shots, r.1), ..e };
        once_apply_fire(e1, target, r.0, t);
        let e2 = m::take_fire(e1, target, r.0, t);
        once_set_weapon(e2, attacker, WeaponState::Cooling, t);
        let e3 = m::set_weapon(e2, attacker, WeaponState::Cooling);
        match crate::rules::timing_of(e2.rules, "weapon_cooldown_direct"@) {
            Some(cd) => {
                once_schedule(
                    e3,
                    tick_sum(t, cd),
                    Event::WeaponReady { unit: attacker },
                    t,
                );
            },
            None => {},
        }
    }
}

pub(crate) proof fn once_attack_turn(s: (EngineV, bool), attacker: Id, hex: Axial, t: Tick)
    ensures
        at_once(s.0, m::attack_turn(s, attacker, hex, t).0, t),
{
    broadcast use {once_both, once_same};

    let e = s.0;
    once_self(e, t);
    let here = keys_where::<String, UnitV>(e.units, m::ground_at(hex));
    let p = crate::combat::pick_target::<PcgRng>(
        m::units_under(e.units, here),
        e.units[attacker].side,
        e.rng,
    );
    let e1 = EngineV { rng: p.1, ..e };
    once_aside(e, e1, t);
    if let Some(target) = p.0 {
        once_same_hex_shot(e1, attacker, target.id, t);
    }
}

pub(crate) proof fn once_attack_turns(e: EngineV, ids: Seq<Id>, hex: Axial, t: Tick)
    ensures
        at_once(e, m::attack_turns(e, ids, hex, t).0, t),
    decreases ids.len(),
{
    broadcast use {once_both, once_same};

    once_self(e, t);
    if ids.len() > 0 {
        once_attack_turns(e, ids.drop_last(), hex, t);
        once_attack_turn(m::attack_turns(e, ids.drop_last(), hex, t), ids.last(), hex, t);
    }
}

/// After its round a fight is over or has its next round to come.
pub(crate) proof fn round_follows(e: EngineV, hex: Axial, gen: u64, t: Tick)
    requires
        e.same_hex.contains_key(hex) ==> e.same_hex[hex].gen == gen,
    ensures
        round_due(m::same_hex_round(e, hex, gen, t), hex),
{
    let ids = m::attackers(e, hex);
    let (e1, loss) = m::attack_turns(e, ids, hex, t);
    fights_stay(e, ids, hex, t);
    if e1.same_hex.contains_key(hex) {
        let s1 = e1.same_hex[hex];
        let dry = dry_after(s1, loss);
        if dry < SAME_HEX_MAX_DRY_ROUNDS {
            let at = tick_sum(t, pause_of(e1));
            let s2 = SameHexState { dry_rounds: dry, ..s1 };
            let e2 = EngineV { same_hex: e1.same_hex.insert(hex, s2), ..e1 };
            let event: EventV = Event::SameHexEngage { hex, gen };
            due_enqueue(e2.queue, m::Timed { t: at, seq: next_of(e2.seq), event }, event);
        }
    }
}

/// A round begins no fight and leaves those that go on as they are.
proof fn fights_stay(e: EngineV, ids: Seq<Id>, hex: Axial, t: Tick)
    ensures
        ({
            let e1 = m::attack_turns(e, ids, hex, t).0;
            e1.same_hex.contains_key(hex) ==> e.same_hex.contains_key(hex) && e1.same_hex[hex]
                == e.same_hex[hex]
        }),
{
    calm_attack_turns(e, ids, hex, t);
    reveal(calm);
}

spec fn dry_after(s: SameHexState, loss: bool) -> u32 {
    if loss {
        0
    } else if s.dry_rounds == u32::MAX {
        u32::MAX
    } else {
        (s.dry_rounds + 1) as u32
    }
}

spec fn pause_of(e: EngineV) -> Tick {
    match timing_of(e.rules, "same_hex_engage_interval"@) {
        Some(n) => n,
        None => 2500,
    }
}

pub(crate) proof fn once_same_hex_round(e: EngineV, hex: Axial, gen: u64, t: Tick)
    ensures
        at_once(e, m::same_hex_round(e, hex, gen, t), t),
{
    broadcast use {once_both, once_same};

    once_self(e, t);
    once_fight_removed(e, hex, t);
    let ids = m::attackers(e, hex);
    once_attack_turns(e, ids, hex, t);
    let (e1, loss) = m::attack_turns(e, ids, hex, t);
    once_fight_removed(e1, hex, t);
    fights_stay(e, ids, hex, t);
    if e1.same_hex.contains_key(hex) && e1.same_hex[hex].gen == gen {
        let s1 = e1.same_hex[hex];
        let dry = dry_after(s1, loss);
        if dry < SAME_HEX_MAX_DRY_ROUNDS {
            once_fight_on(
                e1,
                hex,
                SameHexState { dry_rounds: dry, ..s1 },
                tick_sum(t, pause_of(e1)),
                t,
            );
        }
    }
}

pub(crate) proof fn once_drawn_in(e: EngineV, id: Id, t: Tick)
    ensures
        at_once(e, m::drawn_in(e, id), t),
{
    broadcast use {once_both, once_same};

    once_interrupt_cover(e, id, t);
    let e0 = m::interrupt_cover(e, id);
    once_interrupt_mounts(e0, id, t);
    let e1 = m::interrupt_mounts(e0, id);
    let e2 = EngineV { radar_spinup: e1.radar_spinup.remove(id), ..e1 };
    once_aside(e1, e2, t);
    once_set_weapon(e2, id, WeaponState::Deployed, t);
}

pub(crate) proof fn once_trigger(e: EngineV, hex: Axial, t: Tick)
    ensures
        at_once(e, m::trigger_same_hex(e, hex, t), t),
{
    broadcast use {calm_both, once_both, once_same};

    once_self(e, t);
    let gen = next_of(e.same_hex_ctr);
    let s = SameHexState { gen, dry_rounds: 0 };
    let e1 = EngineV { same_hex_ctr: gen, same_hex: e.same_hex.insert(hex, s), ..e };
    let f = m::drawn_in_f();
    assert forall|x: EngineV, k: Id| at_once(x, #[trigger] f(x, k), t) by {
        once_drawn_in(x, k, t);
    }
    assert forall|x: EngineV, k: Id| calm(x, #[trigger] f(x, k)) by {
        calm_drawn_in(x, k);
    }
    let ids = keys_where::<String, UnitV>(e1.units, m::live_at(hex));
    once_each(e1, ids, f, t);
    calm_each(e1, ids, f);
    let e2 = m::each(e1, ids, f);
    assert(e2.same_hex.contains_key(hex) ==> e2.same_hex[hex] == s) by {
        reveal(calm);
    }
    once_same_hex_round(e2, hex, gen, t);
    round_follows(e2, hex, gen, t);
    let e3 = m::same_hex_round(e2, hex, gen, t);
    assert forall|h: Axial| #[trigger] round_due(e, h) implies round_due(e1, h) || round_due(
        e3,
        h,
    ) by {
        if h != hex {
            assert(round_due(e1, h));
        }
    }
    once_over(e, e1, e3, t);
}

pub(crate) proof fn once_punish(e: EngineV, leaver: Id, hex: Axial, t: Tick)
    ensures
        at_once(e, m::punish(e, leaver, hex, t), t),
{
    once_self(e, t);
    let f = m::punish_shot_f(leaver, t);
    assert forall|x: EngineV, k: Id| at_once(x, #[trigger] f(x, k), t) by {
        once_self(x, t);
        once_same_hex_shot(x, k, leaver, t);
    }
    if e.units.contains_key(leaver) {
        once_each(
            e,
            keys_where::<String, UnitV>(e.units, m::punisher(hex, e.units[leaver].side)),
            f,
            t,
        );
    }
}

// ---------- indirect fire and fortifications ----------

pub(crate) proof fn once_take_salvo(e: EngineV, id: Id, base: IndirectBase, guns: u8, t: Tick)
    ensures
        at_once(e, m::take_salvo(e, id, base, guns, t), t),
{
    broadcast use {once_both, once_same};

    once_self(e, t);
    if e.units.contains_key(id) {
        let r = crate::combat::salvo_effect::<PcgRng>(
            e.tables,
            e.rng,
            base,
            m::salvo_mods(e, e.units[id], guns),
        );
        let e1 = EngineV { rng: r.1, ..e };
        once_aside(e, e1, t);
        once_apply_fire(e1, id, r.0, t);
    }
}

pub(crate) proof fn once_garrison_losses(e: EngineV, ids: Seq<Id>, n: u8, t: Tick, ticks: Tick)
    requires
        forward(e.rules) ==> ticks >= 0,
    ensures
        at_once(e, m::garrison_losses(e, ids, n, t, ticks).0, t),
    decreases ids.len(),
{
    broadcast use {once_both, once_same};

    once_self(e, t);
    if ids.len() > 0 {
        once_garrison_losses(e, ids.drop_last(), n, t, ticks);
        let (e1, left) = m::garrison_losses(e, ids.drop_last(), n, t, ticks);
        let teams = match at(e1.units, ids.last()) {
            Some(u) => u.teams,
            None => 0,
        };
        let k = if left < teams {
            left
        } else {
            teams
        };
        once_hit_whole(e1, ids.last(), Outcome::Destroyed(k), t, ticks);
    }
}

pub(crate) proof fn once_personnel_works(e: EngineV, fac: Id, outcome: Outcome, t: Tick)
    ensures
        at_once(e, m::personnel_works_hit(e, fac, outcome, t).0, t),
{
    once_self(e, t);
    let ids = keys_where::<String, UnitV>(e.units, m::inside(fac));
    match m::need(e, "suppress_duration"@) {
        Ok(ticks) => {
            if let Outcome::Destroyed(n) = outcome {
                once_garrison_losses(e, ids, n, t, ticks);
            }
            let f = m::hit_whole_f(outcome, t, ticks);
            assert forall|x: EngineV, k: Id| x.rules == e.rules implies at_once(
                x,
                #[trigger] f(x, k),
                t,
            ) by {
                once_hit_whole(x, k, outcome, t, ticks);
            }
            once_each(e, ids, f, t);
        },
        Err(_) => {},
    }
}

pub(crate) proof fn once_expel(e: EngineV, id: Id, t: Tick)
    ensures
        at_once(e, m::expel(e, id), t),
{
    broadcast use {once_both, once_same};

    once_self(e, t);
    let e1 = if e.units.contains_key(id) {
        let v = RuntimeUnit { inside_facility: None, busy_until: 0, ..e.units[id] };
        once_put(e, id, v, t);
        m::put_unit(e, id, v)
    } else {
        e
    };
    let e2 = EngineV { facility_gen: m::bumped(e1.facility_gen, id), ..e1 };
    once_aside(e1, e2, t);
    once_stamp(e2, id, t);
}

pub(crate) proof fn once_works_shrunk(e: EngineV, fac: Id, left: u8, t: Tick)
    requires
        e.facilities.contains_key(fac),
        left <= e.facilities[fac].capacity,
    ensures
        at_once(
            e,
            EngineV {
                facilities: e.facilities.insert(
                    fac,
                    RuntimeFacility { capacity: left, ..e.facilities[fac] },
                ),
                ..e
            },
            t,
        ),
{
    reveal(keeps);
    reveal(at_once);
}

pub(crate) proof fn once_vehicle_works(e: EngineV, fac: Id, outcome: Outcome, t: Tick)
    ensures
        at_once(e, m::vehicle_works_hit(e, fac, outcome), t),
{
    broadcast use {once_both, once_same};

    once_self(e, t);
    let loss: int = match outcome {
        Outcome::Destroyed(n) => n as int,
        Outcome::Kill => 255,
        _ => 0,
    };
    if loss != 0 {
        let e1 = if e.facilities.contains_key(fac) {
            let f = e.facilities[fac];
            let left: u8 = if f.capacity > loss {
                (f.capacity - loss) as u8
            } else {
                0
            };
            once_works_shrunk(e, fac, left, t);
            EngineV {
                facilities: e.facilities.insert(fac, RuntimeFacility { capacity: left, ..f }),
                ..e
            }
        } else {
            e
        };
        let ids = keys_where::<String, UnitV>(e1.units, m::inside(fac));
        let f = m::expel_f();
        assert forall|x: EngineV, k: Id| at_once(x, #[trigger] f(x, k), t) by {
            once_expel(x, k, t);
        }
        once_each(e1, ids, f, t);
        let e2 = m::each(e1, ids, f);
        let hex = e1.units[ids.last()].pos;
        once_trigger(e2, hex, e2.clock);
        once_now(e2, m::trigger_same_hex(e2, hex, e2.clock), t);
    }
}

pub(crate) proof fn once_salvo_lands(e: EngineV, hex: Axial, base: IndirectBase, guns: u8, t: Tick)
    ensures
        at_once(e, m::salvo_lands(e, hex, base, guns, t), t),
{
    broadcast use {once_both, once_same};

    let f = m::take_salvo_f(base, guns, t);
    assert forall|x: EngineV, k: Id| at_once(x, #[trigger] f(x, k), t) by {
        once_take_salvo(x, k, base, guns, t);
    }
    let ids = keys_where::<String, UnitV>(e.units, m::exposed_at(hex));
    once_each(e, ids, f, t);
    let e1 = m::each(e, ids, f);
    let works = keys_where::<String, FacilityV>(e1.facilities, m::works_at(hex));
    if works.len() > 0 {
        let w = e1.facilities[works[0]];
        let r = crate::combat::salvo_effect::<PcgRng>(
            e1.tables,
            e1.rng,
            base,
            m::works_salvo_mods(w.armor, guns),
        );
        let e2 = EngineV { rng: r.1, ..e1 };
        once_aside(e1, e2, t);
        once_vehicle_works(e2, works[0], r.0, t);
        once_personnel_works(e2, works[0], r.0, t);
    }
}

pub(crate) proof fn once_salvo_arrives(e: EngineV, plan_id: u64, t: Tick)
    ensures
        at_once(e, m::salvo_arrives(e, plan_id, t), t),
{
    broadcast use {once_both, once_same};

    once_self(e, t);
    once_aside(e, EngineV { indirect_plans: e.indirect_plans.remove(plan_id), ..e }, t);
    if e.indirect_plans.contains_key(plan_id) {
        let plan = e.indirect_plans[plan_id];
        if e.units.contains_key(plan.artillery) {
            let u = e.units[plan.artillery];
            let r = crate::combat::salvo::<PcgRng>(
                e.tables,
                e.rng,
                m::spotting(e, plan.plan_hex, u.side),
                steps(u.pos, plan.plan_hex) as int,
                crate::combat::GunClass::Medium,
            );
            let d = crate::rng::pcg_below(r.2, 6);
            let impact = match r.0 {
                crate::combat::Scatter::Hexes(n) => m::offset_hex(
                    plan.plan_hex,
                    d.0 as int,
                    n as int,
                ),
                _ => plan.plan_hex,
            };
            let e1 = EngineV {
                rng: d.1,
                indirect_plans: e.indirect_plans.insert(
                    plan_id,
                    m::IndirectPlan {
                        impact: Some(impact),
                        base: r.1,
                        gun_count: u.teams,
                        ..plan
                    },
                ),
                ..e
            };
            once_aside(e, e1, t);
            once_salvo_lands(e1, impact, r.1, u.teams, t);
            let e2 = m::salvo_lands(e1, impact, r.1, u.teams, t);
            let boom = match crate::rules::timing_of(e2.rules, "indirect_boom"@) {
                Some(b) => b,
                None => 0,
            };
            once_schedule(
                e2,
                tick_sum(t, boom),
                Event::IndirectBoomEnd { plan: plan_id },
                t,
            );
        }
    }
}

// ---------- movement ----------

pub(crate) proof fn once_busy_until(e: EngineV, e1: EngineV, id: Id, done: Tick, event: EventV, t: Tick)
    requires
        forward(e.rules) && e.clock <= t ==> done >= e.clock,
        at_once(e, e1, t),
    ensures
        at_once(e, m::schedule(m::set_busy(e1, id, done), done, event), t),
{
    broadcast use {once_both, once_same};

    once_set_busy(e1, id, done, t);
    once_schedule(m::set_busy(e1, id, done), done, event, t);
}

pub(crate) proof fn once_plan_hop(e: EngineV, id: Id, gen: u64, target: Axial, now: Tick)
    ensures
        at_once(e, plan_hop(e, id, gen, target, now), now),
{
    once_self(e, now);
    once_settle(e, id, now);
    if e.units.contains_key(id) {
        let u = e.units[id];
        let next = line_hex(u.pos, target, hex_distance(u.pos, target), 1);
        if let Some(step) = step_ticks(e, id, u.unit_type, u.pos, next) {
            let arrive = tick_sum(
                now,
                if step > 1 {
                    step
                } else {
                    1
                },
            );
            once_busy_until(
                e,
                e,
                id,
                arrive,
                Event::MoveArrive { unit: id, gen, to: next, target },
                now,
            );
        }
    }
}

pub(crate) proof fn once_set_out(e: EngineV, id: Id, speed: Option<UnitState>, target: Axial, t: Tick)
    ensures
        at_once(e, set_out(e, id, speed, target, t), t),
{
    broadcast use {once_both, once_same};

    let e1 = EngineV {
        move_gen: m::bumped(e.move_gen, id),
        fatigue_gen: m::bumped(e.fatigue_gen, id),
        ..e
    };
    once_aside(e, e1, t);
    let gen = m::fresh(e.move_gen, id);
    once_plan_hop(e1, id, gen, target, t);
    if e1.units.contains_key(id) {
        let u = e1.units[id];
        let v = RuntimeUnit {
            state: if u.state == UnitState::March {
                u.state
            } else {
                match speed {
                    Some(s) => s,
                    None => UnitState::Moving,
                }
            },
            ..u
        };
        once_put(e1, id, v, t);
        once_plan_hop(m::put_unit(e1, id, v), id, gen, target, t);
    }
}

pub(crate) proof fn once_leave_hex(e: EngineV, id: Id, t: Tick)
    ensures
        at_once(e, leave_hex(e, id, t), t),
{
    broadcast use {once_both, once_same};

    let e1 = EngineV { radar_on: e.radar_on.remove(id), ..e };
    once_aside(e, e1, t);
    once_punish(e1, id, e.units[id].pos, t);
}

pub(crate) proof fn once_move(e: EngineV, side: SideId, cmd: Json, t: Tick)
    ensures
        at_once(e, do_move(e, side, cmd, t).0, t),
{
    broadcast use {once_both, once_same};

    once_self(e, t);
    if let Ok(id) = idle_id(e, side, cmd, t) {
        once_leave_hex(e, id, t);
        let e1 = leave_hex(e, id, t);
        once_self(e1, t);
        if let (Some(target), Ok(speed)) = (hex_in(jget(Some(cmd), "target"@)), speed_in(cmd)) {
            once_set_out(e1, id, speed, target, t);
        }
    }
}

pub(crate) proof fn once_stop(e: EngineV, side: SideId, cmd: Json, t: Tick)
    ensures
        at_once(e, do_stop(e, side, cmd, t).0, t),
{
    once_self(e, t);
    if let (Ok(id), Ok(d)) = (idle_id(e, side, cmd, t), m::need(e, "move_to_stop"@)) {
        once_busy_until(
            e,
            e,
            id,
            tick_sum(t, d),
            Event::TransitionComplete { unit: id, to: UnitState::Stopped, cover_gen: None },
            t,
        );
    }
}

pub(crate) proof fn once_begin_change(e: EngineV, id: Id, to: UnitState, done: Tick, t: Tick)
    requires
        forward(e.rules) && e.clock <= t ==> done >= e.clock,
    ensures
        at_once(e, begin_change(e, id, to, done), t),
{
    broadcast use {once_both, once_same};

    once_self(e, t);
    let e1 = if e.units.contains_key(id) {
        let u = e.units[id];
        let v = RuntimeUnit {
            busy_until: done,
            state: if to == UnitState::March {
                UnitState::March
            } else {
                u.state
            },
            ..u
        };
        once_put(e, id, v, t);
        m::put_unit(e, id, v)
    } else {
        e
    };
    let g = next_of(e1.cover_gen_ctr);
    let e2 = EngineV {
        cover_gen_ctr: g,
        cover_transition: e1.cover_transition.insert(id, g),
        ..e1
    };
    once_aside(e1, e2, t);
    once_schedule(e2, done, Event::TransitionComplete { unit: id, to, cover_gen: Some(g) }, t);
    once_schedule(e1, done, Event::TransitionComplete { unit: id, to, cover_gen: None }, t);
}

pub(crate) proof fn once_set_mode(e: EngineV, side: SideId, cmd: Json, t: Tick)
    ensures
        at_once(e, do_set_mode(e, side, cmd, t).0, t),
{
    once_self(e, t);
    if let (Ok(id), Some(mode)) = (idle_id(e, side, cmd, t), text_in(cmd, "mode"@)) {
        if let Ok(to) = mode_named(mode) {
            if let Ok(d) = change_ticks(e, id, to) {
                once_begin_change(e, id, to, tick_sum(t, d), t);
            }
        }
    }
}

// ---------- fire ----------

pub(crate) proof fn once_fired(e: EngineV, id: Id, t: Tick)
    ensures
        at_once(e, fired(e, id), t),
{
    broadcast use {once_both, once_same};

    once_self(e, t);
    if e.units.contains_key(id) {
        let v = as_firing(e.units[id]);
        once_put(e, id, v, t);
        once_interrupt_cover(m::put_unit(e, id, v), id, t);
    }
}

pub(crate) proof fn once_cool(e: EngineV, id: Id, t: Tick)
    ensures
        at_once(e, cool(e, id, t).0, t),
{
    broadcast use {once_both, once_same};

    once_self(e, t);
    if let Ok(cd) = m::need(e, "weapon_cooldown_direct"@) {
        once_set_weapon(e, id, WeaponState::Cooling, t);
        once_schedule(
            m::set_weapon(e, id, WeaponState::Cooling),
            tick_sum(t, cd),
            Event::WeaponReady { unit: id },
            t,
        );
    }
}

pub(crate) proof fn once_fire_at_unit(e: EngineV, side: SideId, id: Id, weapon: Seq<char>, target_id: Id, t: Tick)
    ensures
        at_once(e, fire_at_unit(e, side, id, weapon, target_id, t).0, t),
{
    broadcast use {once_both, once_same};

    once_self(e, t);
    if let Some(target) = target_of(e, side, target_id) {
        let r = direct_step::<PcgRng>(
            e.tables,
            e.map,
            e.rng,
            e.rules,
            as_firing(e.units[id]),
            weapon,
            target,
        );
        if let FireOutcome::Resolved(outcome) = r.0 {
            once_noted(e, r.2, r.1, t);
            let e0 = drawn(e, r.1, r.2);
            once_fired(e0, id, t);
            let e1 = fired(e0, id);
            once_apply_fire(e1, target_id, outcome, t);
            once_cool(m::apply_fire(e1, target_id, outcome, t).0, id, t);
        }
    }
}

pub(crate) proof fn once_fire_at_facility(e: EngineV, side: SideId, id: Id, weapon: Seq<char>, fac: Id, t: Tick)
    ensures
        at_once(e, fire_at_facility(e, side, id, weapon, fac, t).0, t),
{
    broadcast use {once_both, once_same};

    once_self(e, t);
    if let Some((f, kind)) = works_target(e, side, fac) {
        let exposed = match setting(e.rules.fortification, "exposed_range_hexes"@) {
            Some(n) => n as int,
            None => 0,
        };
        let r = works_step::<PcgRng>(
            e.tables,
            e.map,
            e.rng,
            e.rules,
            as_firing(e.units[id]),
            weapon,
            f.at,
            f.armor,
            fort_range(kind, exposed),
        );
        if let FireOutcome::Resolved(outcome) = r.0 {
            once_noted(e, r.2, r.1, t);
            let e0 = drawn(e, r.1, r.2);
            once_fired(e0, id, t);
            let e1 = fired(e0, id);
            once_vehicle_works(e1, fac, outcome, t);
            once_personnel_works(e1, fac, outcome, t);
            once_cool(m::vehicle_works_hit(e1, fac, outcome), id, t);
            once_cool(m::personnel_works_hit(e1, fac, outcome, t).0, id, t);
        }
    }
}

pub(crate) proof fn once_fire(e: EngineV, side: SideId, cmd: Json, t: Tick)
    ensures
        at_once(e, do_fire(e, side, cmd, t).0, t),
{
    once_self(e, t);
    if let (Ok(id), Some(w)) = (free_id(e, side, cmd), text_in(cmd, "weapon"@)) {
        if let Some(fac) = text_in(cmd, "targetFacility"@) {
            once_fire_at_facility(e, side, id, w, fac, t);
        }
        if let Some(target) = text_in(cmd, "targetUnit"@) {
            once_fire_at_unit(e, side, id, w, target, t);
        }
    }
}

pub(crate) proof fn once_aa_salvo(
    e: EngineV,
    id: Id,
    target_id: Id,
    target: UnitV,
    weapon: Seq<char>,
    pause: Tick,
    t: Tick,
)
    requires
        forward(e.rules) ==> pause >= 0,
    ensures
        at_once(e, aa_salvo_at(e, id, target_id, target, weapon, pause, t).0, t),
{
    broadcast use {once_both, once_same};

    once_self(e, t);
    let u = e.units[id];
    let r = aa_salvo::<PcgRng>(e.tables, e.rng, weapon, u.teams, steps(u.pos, target.pos) as int);
    if let Some(o) = r.0 {
        let e1 = EngineV { rng: r.1, ..e };
        once_aside(e, e1, t);
        once_self(e1, t);
        once_apply_fire(e1, target_id, Outcome::Kill, t);
        let e2 = if o.destroyed {
            m::apply_fire(e1, target_id, Outcome::Kill, t).0
        } else {
            e1
        };
        let n = shots_fired(e2, id);
        let e3 = EngineV {
            aa_shots: e2.aa_shots.insert(
                id,
                if n == u32::MAX {
                    n
                } else {
                    (n + 1) as u32
                },
            ),
            ..e2
        };
        once_aside(e2, e3, t);
        once_set_weapon(e3, id, WeaponState::Cooling, t);
        once_schedule(
            m::set_weapon(e3, id, WeaponState::Cooling),
            tick_sum(t, pause),
            Event::WeaponReady { unit: id },
            t,
        );
    }
}

pub(crate) proof fn once_aa_fire(e: EngineV, side: SideId, cmd: Json, t: Tick)
    ensures
        at_once(e, do_aa_fire(e, side, cmd, t).0, t),
{
    once_self(e, t);
    if let (Ok(id), Some(target_id)) = (free_id(e, side, cmd), text_in(cmd, "targetUnit"@)) {
        if let Ok((weapon, max_shots, pause)) = aa_rules(e, e.units[id].unit_type) {
            if let Some(target) = target_of(e, side, target_id) {
                once_aa_salvo(e, id, target_id, target, weapon, pause, t);
            }
        }
    }
}

pub(crate) proof fn once_prepare(e: EngineV, id: Id, ready: Tick, t: Tick)
    requires
        forward(e.rules) && e.clock <= t ==> ready >= e.clock,
    ensures
        at_once(e, prepare(e, id, ready), t),
{
    once_set_weapon(e, id, WeaponState::Cooling, t);
    once_busy_until(
        e,
        m::set_weapon(e, id, WeaponState::Cooling),
        id,
        ready,
        Event::WeaponReady { unit: id },
        t,
    );
}

pub(crate) proof fn once_guided(
    e: EngineV,
    side: SideId,
    id: Id,
    guide: Id,
    weapon: Seq<char>,
    target_id: Id,
    t: Tick,
)
    ensures
        at_once(e, guided_at(e, side, id, guide, weapon, target_id, t).0, t),
{
    broadcast use {once_both, once_same};

    once_self(e, t);
    if let Some(target) = target_of(e, side, target_id) {
        let r = guided_step::<PcgRng>(
            e.tables,
            e.map,
            e.rng,
            e.rules,
            e.units[guide],
            e.units[id],
            weapon,
            target,
        );
        if let FireOutcome::Resolved(outcome) = r.0 {
            once_noted(e, r.2, r.1, t);
            let e0 = drawn(e, r.1, r.2);
            once_apply_fire(e0, target_id, outcome, t);
            let e1 = m::apply_fire(e0, target_id, outcome, t).0;
            if let Ok(d) = m::need(e1, "weapon_cooldown_direct"@) {
                once_prepare(e1, id, tick_sum(t, d), t);
                once_prepare(prepare(e1, id, tick_sum(t, d)), guide, tick_sum(t, d), t);
            }
        }
    }
}

pub(crate) proof fn once_guide_fire(e: EngineV, side: SideId, cmd: Json, t: Tick)
    ensures
        at_once(e, do_guide_fire(e, side, cmd, t).0, t),
{
    once_self(e, t);
    if let (Ok(id), Some(guide)) = (free_id(e, side, cmd), text_in(cmd, "guideId"@)) {
        if let (Some(weapon), Some(target_id)) = (
            text_in(cmd, "weapon"@),
            text_in(cmd, "targetUnit"@),
        ) {
            once_guided(e, side, id, guide, weapon, target_id, t);
        }
    }
}

pub(crate) proof fn once_strike(e: EngineV, side: SideId, cmd: Json, t: Tick)
    ensures
        at_once(e, do_strike(e, side, cmd, t).0, t),
{
    broadcast use {once_both, once_same};

    once_self(e, t);
    if let (Ok(id), Some(target_id)) = (own_id(e, side, cmd), text_in(cmd, "targetUnit"@)) {
        let weapons = loadout_of(e.rules, UnitType::LoiteringMunition);
        if let Some(target) = target_of(e, side, target_id) {
            let r = strike_step::<PcgRng>(
                e.tables,
                e.map,
                e.rng,
                e.units[id],
                weapons[0],
                target,
            );
            if let FireOutcome::Resolved(outcome) = r.0 {
                once_noted(e, r.2, r.1, t);
                let e0 = drawn(e, r.1, r.2);
                once_apply_fire(e0, target_id, outcome, t);
                once_expend(m::apply_fire(e0, target_id, outcome, t).0, id, t);
            }
        }
    }
}

// ---------- other orders ----------

pub(crate) proof fn once_capture(e: EngineV, side: SideId, cmd: Json, t: Tick)
    ensures
        at_once(e, do_capture(e, side, cmd, t).0, t),
{
    once_self(e, t);
    if let Ok(id) = free_id(e, side, cmd) {
        if let Some(cp) = objective_at(e.scenario.objectives@, e.units[id].pos) {
            once_aside(e, EngineV { control: e.control.insert(cp.id@, Some(side)), ..e }, t);
        }
    }
}

pub(crate) proof fn once_radar_on(e: EngineV, side: SideId, cmd: Json, t: Tick)
    ensures
        at_once(e, do_radar_on(e, side, cmd, t).0, t),
{
    once_self(e, t);
    if let (Ok(id), Ok(d)) = (free_id(e, side, cmd), m::need(e, "radar_spinup"@)) {
        let gen = next_of(e.radar_gen_ctr);
        let e1 = EngineV {
            radar_gen_ctr: gen,
            radar_spinup: e.radar_spinup.insert(id, gen),
            ..e
        };
        once_aside(e, e1, t);
        once_busy_until(e, e1, id, tick_sum(t, d), Event::RadarReady { vehicle: id, gen }, t);
    }
}

pub(crate) proof fn once_switch_altitude(e: EngineV, side: SideId, cmd: Json, t: Tick)
    ensures
        at_once(e, do_switch_altitude(e, side, cmd, t).0, t),
{
    once_self(e, t);
    if let (Ok(id), Ok(d)) = (own_id(e, side, cmd), m::need(e, "heli_altitude_switch"@)) {
        if let Some(s) = text_in(cmd, "altitude"@) {
            if let Some(to) = altitude_named(s) {
                once_busy_until(e, e, id, tick_sum(t, d), Event::HeliAltReady { heli: id, to }, t);
            }
        }
    }
}

pub(crate) proof fn once_begin_mount(e: EngineV, passenger: Id, vehicle: Id, kind: m::MountKind, t: Tick)
    ensures
        at_once(e, begin_mount(e, passenger, vehicle, kind, t).0, t),
{
    broadcast use {once_both, once_same};

    once_self(e, t);
    if let Ok(d) = m::need(e, "mount_dismount"@) {
        let done = tick_sum(t, d);
        let gen = next_of(e.mount_gen_ctr);
        let e1 = EngineV {
            mount_gen_ctr: gen,
            mount_op: e.mount_op.insert(passenger, m::MountInTransit { gen, vehicle, kind }),
            ..e
        };
        once_aside(e, e1, t);
        once_set_busy(e1, passenger, done, t);
        once_busy_until(
            e,
            m::set_busy(e1, passenger, done),
            vehicle,
            done,
            Event::MountComplete { passenger, gen },
            t,
        );
    }
}

pub(crate) proof fn once_mount(e: EngineV, side: SideId, cmd: Json, t: Tick)
    ensures
        at_once(e, do_mount(e, side, cmd, t).0, t),
        at_once(e, do_dismount(e, side, cmd, t).0, t),
{
    once_self(e, t);
    if let Ok(id) = own_id(e, side, cmd) {
        if let Some(vehicle) = text_in(cmd, "vehicleId"@) {
            once_begin_mount(e, id, vehicle, m::MountKind::Mount, t);
        }
        if let Some(vehicle) = e.units[id].carried_by {
            once_begin_mount(e, id, vehicle, m::MountKind::Dismount, t);
        }
    }
}

pub(crate) proof fn once_enter_exit(e: EngineV, side: SideId, cmd: Json, t: Tick)
    ensures
        at_once(e, do_enter(e, side, cmd, t).0, t),
        at_once(e, do_exit(e, side, cmd, t).0, t),
{
    once_self(e, t);
    if let (Ok(id), Ok(d)) = (own_id(e, side, cmd), m::need(e, "fortification_transition"@)) {
        let gen = m::fresh(e.facility_gen, id);
        let e1 = EngineV { facility_gen: m::bumped(e.facility_gen, id), ..e };
        once_aside(e, e1, t);
        if let Some(fac) = text_in(cmd, "facilityId"@) {
            once_busy_until(
                e,
                e1,
                id,
                tick_sum(t, d),
                Event::FacilityEnterReady { unit: id, facility: fac, gen },
                t,
            );
        }
        once_busy_until(e, e1, id, tick_sum(t, d), Event::FacilityExitReady { unit: id, gen }, t);
    }
}

pub(crate) proof fn once_lay(e: EngineV, side: SideId, cmd: Json, t: Tick)
    ensures
        at_once(e, do_lay(e, side, cmd, t).0, t),
{
    once_self(e, t);
    if let (Ok(id), Ok(d)) = (idle_id(e, side, cmd, t), m::need(e, "minefield_lay"@)) {
        if let Some(target) = hex_in(jget(Some(cmd), "targetHex"@)) {
            let gen = m::fresh(e.minelayer_gen, id);
            let e1 = EngineV {
                minelayer_gen: m::bumped(e.minelayer_gen, id),
                minelay_in_flight: e.minelay_in_flight.insert(id, ()),
                ..e
            };
            once_aside(e, e1, t);
            once_busy_until(
                e,
                e1,
                id,
                tick_sum(t, d),
                Event::MineLayReady { unit: id, at: target, gen },
                t,
            );
        }
    }
}

pub(crate) proof fn once_begin_agg(e: EngineV, id: Id, kind: m::AggSplitKind<Id>, done: Tick, t: Tick)
    requires
        forward(e.rules) && e.clock <= t ==> done >= e.clock,
    ensures
        at_once(e, begin_agg(e, id, kind, done), t),
{
    broadcast use {once_both, once_same};

    let gen = m::fresh(e.aggsplit_gen, id);
    let e1 = EngineV {
        aggsplit_gen: m::bumped(e.aggsplit_gen, id),
        aggsplit_op: e.aggsplit_op.insert(id, m::AggSplitInTransit { gen, kind }),
        ..e
    };
    once_aside(e, e1, t);
    once_set_busy(e1, id, done, t);
    let e2 = m::set_busy(e1, id, done);
    once_self(e2, t);
    let e3 = match kind {
        m::AggSplitKind::Aggregate { other } => {
            once_set_busy(e2, other, done, t);
            m::set_busy(e2, other, done)
        },
        m::AggSplitKind::Split => e2,
    };
    once_schedule(e3, done, Event::AggSplitComplete { unit: id, gen }, t);
}

pub(crate) proof fn once_agg_orders(e: EngineV, side: SideId, cmd: Json, t: Tick)
    ensures
        at_once(e, do_aggregate(e, side, cmd, t).0, t),
        at_once(e, do_split(e, side, cmd, t).0, t),
{
    once_self(e, t);
    if let (Ok(id), Ok(d)) = (id_of(cmd), m::need(e, "aggregate_split"@)) {
        if let Some(other) = text_in(cmd, "targetUnit"@) {
            once_begin_agg(e, id, m::AggSplitKind::Aggregate { other }, tick_sum(t, d), t);
        }
        once_begin_agg(e, id, m::AggSplitKind::Split, tick_sum(t, d), t);
    }
}

pub(crate) proof fn once_plan(e: EngineV, side: SideId, cmd: Json, t: Tick)
    ensures
        at_once(e, do_plan(e, side, cmd, t).0, t),
        at_once(e, do_cancel(e, side, cmd, t).0, t),
{
    broadcast use {once_both, once_same};

    once_self(e, t);
    if let Ok(id) = own_id(e, side, cmd) {
        let flying = keys_where::<u64, m::PlanV>(e.indirect_plans, in_flight(id));
        once_aside(
            e,
            EngineV {
                indirect_plans: without_plans(e.indirect_plans, flying),
                indirect_cd: e.indirect_cd.remove(id),
                ..e
            },
            t,
        );
        if let (Ok(fly), Ok(cd)) = (m::need(e, "indirect_fly"@), m::need(e, "indirect_cooldown"@)) {
            if let Some(target) = hex_in(jget(Some(cmd), "targetHex"@)) {
                let plan = next_of(e.indirect_plan_ctr);
                let e1 = EngineV {
                    indirect_cd: e.indirect_cd.insert(id, tick_sum(t, cd)),
                    indirect_plan_ctr: plan,
                    indirect_plans: e.indirect_plans.insert(
                        plan,
                        m::IndirectPlan {
                            artillery: id,
                            plan_hex: target,
                            impact: None,
                            base: IndirectBase::NoEffect,
                            gun_count: 0,
                        },
                    ),
                    ..e
                };
                once_aside(e, e1, t);
                once_schedule(e1, tick_sum(t, fly), Event::IndirectFly { plan }, t);
            }
        }
    }
}

pub(crate) proof fn once_launch(e: EngineV, side: SideId, cmd: Json, t: Tick)
    ensures
        at_once(e, do_launch(e, side, cmd, t).0, t),
{
    broadcast use {once_both, once_same};

    once_self(e, t);
    if let (Ok(id), Ok(d)) = (own_id(e, side, cmd), m::need(e, "loitering_launch"@)) {
        if let Some(target) = hex_in(jget(Some(cmd), "targetArea"@)) {
            let done = tick_sum(t, d);
            once_set_busy(e, id, done, t);
            let e1 = m::set_busy(e, id, done);
            let e2 = EngineV { loitering_target: e1.loitering_target.insert(id, target), ..e1 };
            once_aside(e1, e2, t);
            once_schedule(e2, done, Event::LoiteringLaunched { munition: id }, t);
        }
    }
}

pub(crate) proof fn once_movement_order(e: EngineV, side: SideId, cmd: Json, op: Seq<char>, t: Tick)
    ensures
        match movement_order(e, side, cmd, op, t) {
            Some(d) => at_once(e, d.0, t),
            None => true,
        },
{
    reveal(movement_order);
    once_stop(e, side, cmd, t);
    once_move(e, side, cmd, t);
    once_set_mode(e, side, cmd, t);
}

pub(crate) proof fn once_fire_order(e: EngineV, side: SideId, cmd: Json, op: Seq<char>, t: Tick)
    ensures
        match fire_order(e, side, cmd, op, t) {
            Some(d) => at_once(e, d.0, t),
            None => true,
        },
{
    reveal(fire_order);
    once_fire(e, side, cmd, t);
    once_aa_fire(e, side, cmd, t);
    once_guide_fire(e, side, cmd, t);
    once_strike(e, side, cmd, t);
}

pub(crate) proof fn once_transport_order(e: EngineV, side: SideId, cmd: Json, op: Seq<char>, t: Tick)
    ensures
        match transport_order(e, side, cmd, op, t) {
            Some(d) => at_once(e, d.0, t),
            None => true,
        },
{
    reveal(transport_order);
    once_switch_altitude(e, side, cmd, t);
    once_mount(e, side, cmd, t);
    once_enter_exit(e, side, cmd, t);
}

pub(crate) proof fn once_support_order(e: EngineV, side: SideId, cmd: Json, op: Seq<char>, t: Tick)
    ensures
        match support_order(e, side, cmd, op, t) {
            Some(d) => at_once(e, d.0, t),
            None => true,
        },
{
    reveal(support_order);
    once_capture(e, side, cmd, t);
    once_radar_on(e, side, cmd, t);
    once_lay(e, side, cmd, t);
    once_plan(e, side, cmd, t);
}

pub(crate) proof fn once_formation_order(e: EngineV, side: SideId, cmd: Json, op: Seq<char>, t: Tick)
    ensures
        match formation_order(e, side, cmd, op, t) {
            Some(d) => at_once(e, d.0, t),
            None => true,
        },
{
    reveal(formation_order);
    once_agg_orders(e, side, cmd, t);
    once_launch(e, side, cmd, t);
}

/// Whatever a side orders, the match keeps what it keeps: see [`keeps`] and [`at_once`].
pub proof fn orders_keep(e: EngineV, side: SideId, cmd: Json, t: Tick)
    ensures
        keeps(e, submit(e, side, cmd, t).0),
        at_once(e, submit(e, side, cmd, t).0, t),
{
    assert(at_once(e, submit(e, side, cmd, t).0, t) ==> keeps(e, submit(e, side, cmd, t).0)) by {
        reveal(at_once);
    }
    once_self(e, t);
    if let Some(op) = text_in(cmd, "op"@) {
        once_movement_order(e, side, cmd, op, t);
        once_fire_order(e, side, cmd, op, t);
        once_transport_order(e, side, cmd, op, t);
        once_support_order(e, side, cmd, op, t);
        once_formation_order(e, side, cmd, op, t);
    }
}

} // verus!
