//! How units fight within a hex, and what a hit does.
use crate::combat::{loadout_of, noted, pick_target, same_hex_fire};
use crate::engine::laws_units::{carrier_death_only_kills, interruption_frees};
use crate::engine::model as m;
use crate::engine::model::{EngineV, Event, Id, SameHexState, TimedV};
use crate::hex::Axial;
use crate::ordmap::{keys_where, keys_where_has};
use crate::prob::Outcome;
use crate::rng::PcgRng;
use crate::rules::timing_of;
use crate::text::{text_lt, text_lt_irreflexive, text_lt_total, text_lt_transitive};
use crate::time::{next_of, tick_sum, Tick};
use crate::types::{RuntimeUnit, SideId, UnitState, UnitType, UnitV, WeaponState};
use vstd::prelude::*;

verus! {

// ---------- who fights ----------

/// Whether a unit takes part in a fight at a hex: it is alive, stands there in the open, and is a
/// ground unit that can be fired upon.
pub open spec fn in_the_fight(u: UnitV, hex: Axial) -> bool {
    u.alive && u.pos == hex && u.carried_by is None && u.inside_facility is None && u.unit_type
        != UnitType::Uav && u.unit_type != UnitType::AttackHeli && u.unit_type
        != UnitType::TransportHeli && u.unit_type != UnitType::LoiteringMunition && u.unit_type
        != UnitType::SpaceRecon
}

/// A hex is fought for exactly if both sides have a unit that takes part.
pub proof fn who_contests(units: Map<Id, UnitV>, hex: Axial)
    ensures
        m::contested(units, hex) <==> (exists|r: Id| #[trigger]
            units.contains_key(r) && units[r].side == SideId::Red && in_the_fight(units[r], hex))
            && (exists|b: Id| #[trigger]
            units.contains_key(b) && units[b].side == SideId::Blue && in_the_fight(units[b], hex)),
{
    let red = m::side_fights_at(hex, SideId::Red);
    let blue = m::side_fights_at(hex, SideId::Blue);
    if m::contested(units, hex) {
        let r = choose|k: Id| #[trigger] units.contains_key(k) && red(k, units[k]);
        let b = choose|k: Id| #[trigger] units.contains_key(k) && blue(k, units[k]);
        assert(units.contains_key(r) && red(r, units[r]));
        assert(units.contains_key(b) && blue(b, units[b]));
    }
    if (exists|r: Id| #[trigger]
        units.contains_key(r) && units[r].side == SideId::Red && in_the_fight(units[r], hex)) && (
    exists|b: Id| #[trigger]
        units.contains_key(b) && units[b].side == SideId::Blue && in_the_fight(units[b], hex)) {
        let r = choose|r: Id| #[trigger]
            units.contains_key(r) && units[r].side == SideId::Red && in_the_fight(units[r], hex);
        let b = choose|b: Id| #[trigger]
            units.contains_key(b) && units[b].side == SideId::Blue && in_the_fight(units[b], hex);
        assert(red(r, units[r]) && blue(b, units[b]));
    }
}

// ---------- in which order they fire ----------

/// The number with which a unit entered its hex; none counts as zero.
pub open spec fn entry_number(order: Map<Id, u64>, id: Id) -> int {
    if order.contains_key(id) {
        order[id] as int
    } else {
        0
    }
}

spec fn not_later(order: Map<Id, u64>, a: Id, b: Id) -> bool {
    entry_number(order, a) < entry_number(order, b) || (entry_number(order, a) == entry_number(
        order,
        b,
    ) && !text_lt(b, a))
}

spec fn in_turn(order: Map<Id, u64>, s: Seq<Id>) -> bool {
    forall|i: int, j: int|
        0 <= i < j < s.len() ==> not_later(order, #[trigger] s[i], #[trigger] s[j])
}

proof fn not_later_both(order: Map<Id, u64>, a: Id, b: Id, c: Id)
    requires
        not_later(order, a, b),
        not_later(order, b, c),
    ensures
        not_later(order, a, c),
{
    if text_lt(c, a) && !text_lt(b, a) && !text_lt(c, b) {
        text_lt_total(b, c);
        text_lt_total(a, b);
        text_lt_irreflexive(a);
        if text_lt(b, c) {
            text_lt_transitive(b, c, a);
        }
    }
}

proof fn placed_in_turn(order: Map<Id, u64>, ids: Seq<Id>, id: Id)
    requires
        in_turn(order, ids),
    ensures
        in_turn(order, m::place_by_entry(order, ids, id)),
        m::place_by_entry(order, ids, id).to_multiset() == ids.to_multiset().insert(id),
    decreases ids.len(),
{
    broadcast use vstd::seq_lib::group_to_multiset_ensures;

    let r = m::place_by_entry(order, ids, id);
    if ids.len() == 0 || !m::entered_before(order, id, ids.last()) {
        assert forall|i: int, j: int| 0 <= i < j < r.len() implies not_later(
            order,
            #[trigger] r[i],
            #[trigger] r[j],
        ) by {
            if j == ids.len() {
                let last = ids[ids.len() - 1];
                assert(not_later(order, last, id)) by {
                    text_lt_total(id, last);
                }
                if i < ids.len() - 1 {
                    assert(not_later(order, ids[i], last));
                    not_later_both(order, ids[i], last, id);
                }
            }
        }
    } else {
        let rest = ids.drop_last();
        let s = m::place_by_entry(order, rest, id);
        placed_in_turn(order, rest, id);
        let last = ids.last();
        assert(ids =~= rest.push(last));
        assert(r.to_multiset() =~= ids.to_multiset().insert(id));
        assert forall|i: int, j: int| 0 <= i < j < r.len() implies not_later(
            order,
            #[trigger] r[i],
            #[trigger] r[j],
        ) by {
            if j == s.len() {
                assert(s.to_multiset().contains(s[i]));
                assert(rest.to_multiset().insert(id).contains(s[i]));
                if s[i] != id {
                    assert(rest.to_multiset().contains(s[i]));
                    let k = rest.index_of(s[i]);
                    assert(not_later(order, ids[k], ids[ids.len() - 1]));
                } else {
                    if text_lt(last, id) {
                        text_lt_irreflexive(id);
                        if text_lt(id, last) {
                            text_lt_transitive(id, last, id);
                        }
                    }
                }
            } else {
                assert(r[i] == s[i] && r[j] == s[j]);
            }
        }
    }
}

proof fn listed_in_turn(order: Map<Id, u64>, ids: Seq<Id>)
    ensures
        in_turn(order, m::by_entry(order, ids)),
        m::by_entry(order, ids).to_multiset() == ids.to_multiset(),
    decreases ids.len(),
{
    broadcast use vstd::seq_lib::group_to_multiset_ensures;

    if ids.len() > 0 {
        let rest = ids.drop_last();
        listed_in_turn(order, rest);
        placed_in_turn(order, m::by_entry(order, rest), ids.last());
        assert(ids =~= rest.push(ids.last()));
    }
}

/// Who was in the hex first fires first: of two units that fire one after the other in a round, the
/// first has not the higher number of entry; and of two with the same number it has not the later
/// id.
pub proof fn first_in_fires_first(e: EngineV, hex: Axial, i: int, j: int)
    requires
        0 <= i < j < m::attackers(e, hex).len(),
    ensures
        entry_number(e.same_hex_order, m::attackers(e, hex)[i]) <= entry_number(
            e.same_hex_order,
            m::attackers(e, hex)[j],
        ),
        entry_number(e.same_hex_order, m::attackers(e, hex)[i]) == entry_number(
            e.same_hex_order,
            m::attackers(e, hex)[j],
        ) ==> !text_lt(m::attackers(e, hex)[j], m::attackers(e, hex)[i]),
{
    listed_in_turn(e.same_hex_order, keys_where::<String, UnitV>(e.units, m::fights_at(hex)));
    assert(not_later(e.same_hex_order, m::attackers(e, hex)[i], m::attackers(e, hex)[j]));
}

/// Everybody who takes part in a fight has its turn in a round, and nobody else.
pub proof fn everybody_has_a_turn(e: EngineV, hex: Axial, k: Id)
    requires
        e.units.dom().finite(),
    ensures
        m::attackers(e, hex).contains(k) <==> e.units.contains_key(k) && in_the_fight(
            e.units[k],
            hex,
        ),
{
    broadcast use vstd::seq_lib::group_to_multiset_ensures;

    let ids = keys_where::<String, UnitV>(e.units, m::fights_at(hex));
    listed_in_turn(e.same_hex_order, ids);
    keys_where_has::<String, UnitV>(e.units, m::fights_at(hex), k);
    assert(m::attackers(e, hex).to_multiset().contains(k) <==> ids.to_multiset().contains(k));
}

/// A unit that enters a hex gets a number above all before it, as long as the count lasts.
pub proof fn entering_comes_last(e: EngineV, id: Id, other: Id)
    requires
        e.entry_seq < u64::MAX,
        entry_number(e.same_hex_order, other) <= e.entry_seq,
        id != other,
    ensures
        ({
            let e1 = m::stamp_entry(e, id);
            &&& entry_number(e1.same_hex_order, id) > entry_number(e1.same_hex_order, other)
            &&& entry_number(e1.same_hex_order, other) == entry_number(e.same_hex_order, other)
            &&& entry_number(e1.same_hex_order, id) <= e1.entry_seq
        }),
{
}

/// The turns are taken one after the other, each in the state that the turns before have left.
pub proof fn turn_after_turn(e: EngineV, ids: Seq<Id>, id: Id, hex: Axial, t: Tick)
    ensures
        m::attack_turns(e, Seq::empty(), hex, t) == (e, false),
        m::attack_turns(e, ids.push(id), hex, t) == m::attack_turn(
            m::attack_turns(e, ids, hex, t),
            id,
            hex,
            t,
        ),
{
    assert(ids.push(id).drop_last() =~= ids);
}

/// A unit that is dead, marches, rides or hides has no shot in its turn; any other fires at the one
/// that it picks among the live ground units in the hex, if there is one to pick.
pub proof fn what_a_turn_is(e: EngineV, loss: bool, id: Id, hex: Axial, t: Tick)
    ensures
        ({
            let r = m::attack_turn((e, loss), id, hex, t);
            let fires = e.units.contains_key(id) && e.units[id].alive && e.units[id].state
                != UnitState::March && e.units[id].carried_by is None && e.units[id].inside_facility
                is None;
            let here = keys_where::<String, UnitV>(
                e.units,
                |k: Id, u: UnitV|
                    u.alive && u.pos == hex && u.unit_type != UnitType::Uav && u.unit_type
                        != UnitType::AttackHeli && u.unit_type != UnitType::TransportHeli
                        && u.unit_type != UnitType::LoiteringMunition,
            );
            let p = pick_target::<PcgRng>(
                here.map_values(|k: Id| e.units[k]),
                e.units[id].side,
                e.rng,
            );
            &&& !fires ==> r == (e, loss)
            &&& fires && p.0 is None ==> r == (EngineV { rng: p.1, ..e }, loss)
            &&& fires && p.0 is Some ==> ({
                let shot = m::same_hex_shot(EngineV { rng: p.1, ..e }, id, p.0->0.id, t);
                r == (shot.0, loss || shot.1)
            })
        }),
{
    let p1 = |k: Id, u: UnitV|
        u.alive && u.pos == hex && u.unit_type != UnitType::Uav && u.unit_type
            != UnitType::AttackHeli && u.unit_type != UnitType::TransportHeli && u.unit_type
            != UnitType::LoiteringMunition;
    let p2 = m::ground_at(hex);
    same_choice(e.units, p1, p2);
    let f1 = |k: Id| e.units[k];
    let here = keys_where::<String, UnitV>(e.units, p2);
    assert(here.map_values(f1) =~= m::units_under(e.units, here));
}

proof fn same_choice(
    units: Map<Id, UnitV>,
    p: spec_fn(Id, UnitV) -> bool,
    q: spec_fn(Id, UnitV) -> bool,
)
    requires
        forall|k: Id, u: UnitV| #[trigger] p(k, u) == q(k, u),
    ensures
        keys_where::<String, UnitV>(units, p) == keys_where::<String, UnitV>(units, q),
{
    let f = |k: Id| p(k, units[k]);
    let g = |k: Id| q(k, units[k]);
    assert(f =~= g);
}

/// A shot within a hex: the target takes what comes of the attacker's weapons against it, the
/// attacker's weapon then cools for the time of the rules, and it is a loss exactly if the target has
/// fewer teams than before.
pub proof fn what_a_shot_within_a_hex_does(e: EngineV, a: Id, b: Id, t: Tick)
    requires
        e.units.contains_key(a),
        e.units.contains_key(b),
        e.units[a].alive,
        e.units[b].alive,
        timing_of(e.rules, "weapon_cooldown_direct"@) is Some,
    ensures
        ({
            let r = m::same_hex_shot(e, a, b, t);
            let shot = same_hex_fire::<PcgRng>(
                e.tables,
                e.map,
                e.rng,
                loadout_of(e.rules, e.units[a].unit_type),
                e.units[a],
                e.units[b],
            );
            let struck = m::take_fire(
                EngineV { rng: shot.2, shots: noted(e.shots, shot.1), ..e },
                b,
                shot.0,
                t,
            );
            let cool = timing_of(struck.rules, "weapon_cooldown_direct"@);
            &&& r.0.rng == struck.rng && r.0.shots == struck.shots
            &&& cool is Some && struck.units.contains_key(a) ==> r.0.units == struck.units.insert(
                a,
                RuntimeUnit { weapon_state: WeaponState::Cooling, ..struck.units[a] },
            )
            &&& r.0.units.contains_key(b) ==> (r.1 <==> r.0.units[b].teams < e.units[b].teams)
            &&& cool is Some ==> r.0.queue == m::enqueue(
                struck.queue,
                m::Timed {
                    t: tick_sum(t, cool->0),
                    seq: next_of(struck.seq),
                    event: Event::WeaponReady { unit: a },
                },
            )
        }),
{
}

// ---------- how a fight begins and ends ----------

/// A fight begins at a hex exactly if both sides are there and none is on; it begins at once, with
/// every unit there drawn in and a first round.
pub proof fn when_a_fight_begins(e: EngineV, hex: Axial, t: Tick)
    ensures
        e.same_hex.contains_key(hex) || !m::contested(e.units, hex) ==> m::trigger_same_hex(
            e,
            hex,
            t,
        ) == e,
        !e.same_hex.contains_key(hex) && m::contested(e.units, hex) ==> ({
            let gen = next_of(e.same_hex_ctr);
            let begun = EngineV {
                same_hex_ctr: gen,
                same_hex: e.same_hex.insert(hex, SameHexState { gen, dry_rounds: 0 }),
                ..e
            };
            let ids = keys_where::<String, UnitV>(
                e.units,
                |k: Id, u: UnitV| u.alive && u.pos == hex,
            );
            m::trigger_same_hex(e, hex, t) == m::same_hex_round(
                m::each(begun, ids, |x: EngineV, k: Id| m::drawn_in(x, k)),
                hex,
                gen,
                t,
            )
        }),
{
    let p = |k: Id, u: UnitV| u.alive && u.pos == hex;
    same_choice(e.units, p, m::live_at(hex));
    let f = |x: EngineV, k: Id| m::drawn_in(x, k);
    assert(f =~= m::drawn_in_f());
}

/// After a round that leaves both sides there the fight goes on, unless this was the sixteenth in a
/// row without a loss: a loss starts the count again. The next round comes after the interval of the
/// rules. If a side is gone, the fight is over.
pub proof fn how_a_fight_goes_on(e: EngineV, hex: Axial, gen: u64, t: Tick)
    requires
        e.same_hex.contains_key(hex),
        e.same_hex[hex].gen == gen,
        m::contested(e.units, hex),
    ensures
        ({
            let turns = m::attack_turns(e, m::attackers(e, hex), hex, t);
            let r = m::same_hex_round(e, hex, gen, t);
            let on = m::contested(turns.0.units, hex) && turns.0.same_hex.contains_key(hex);
            let dry = turns.0.same_hex[hex].dry_rounds;
            let pause = match timing_of(turns.0.rules, "same_hex_engage_interval"@) {
                Some(n) => n,
                None => 2500,
            };
            &&& r.units == turns.0.units
            &&& !m::contested(turns.0.units, hex) ==> !r.same_hex.contains_key(hex)
            &&& on && !turns.1 && dry >= 15 ==> !r.same_hex.contains_key(hex)
            &&& on && (turns.1 || dry < 15) ==> r.same_hex.contains_key(hex)
                && r.same_hex[hex].dry_rounds == (if turns.1 {
                0
            } else {
                dry + 1
            }) && r.queue == m::enqueue(
                turns.0.queue,
                m::Timed {
                    t: tick_sum(t, pause),
                    seq: next_of(turns.0.seq),
                    event: Event::SameHexEngage { hex, gen },
                },
            )
        }),
{
}

/// A round of a fight that is over, or of an older one, does nothing; and where a side is gone before
/// the round, nobody fires and the fight is over.
pub proof fn stale_rounds(e: EngineV, hex: Axial, gen: u64, t: Tick)
    ensures
        !e.same_hex.contains_key(hex) || e.same_hex[hex].gen != gen ==> m::same_hex_round(
            e,
            hex,
            gen,
            t,
        ) == e,
        e.same_hex.contains_key(hex) && e.same_hex[hex].gen == gen && !m::contested(e.units, hex)
            ==> m::same_hex_round(e, hex, gen, t) == (EngineV {
            same_hex: e.same_hex.remove(hex),
            ..e
        }),
{
}

/// A unit that leaves a fight is fired at, as long as it lives, by every enemy that takes part and is
/// not marching, and by nobody else.
pub proof fn who_fires_at_a_leaver(e: EngineV, leaver: Id, hex: Axial, t: Tick)
    requires
        e.units.contains_key(leaver),
    ensures
        ({
            let ids = keys_where::<String, UnitV>(
                e.units,
                |k: Id, u: UnitV|
                    in_the_fight(u, hex) && u.side != e.units[leaver].side && u.state
                        != UnitState::March,
            );
            m::punish(e, leaver, hex, t) == m::each(
                e,
                ids,
                |x: EngineV, k: Id|
                    if x.units.contains_key(leaver) && x.units[leaver].alive {
                        m::same_hex_shot(x, k, leaver, t).0
                    } else {
                        x
                    },
            )
        }),
{
    let p = |k: Id, u: UnitV|
        in_the_fight(u, hex) && u.side != e.units[leaver].side && u.state != UnitState::March;
    same_choice(e.units, p, m::punisher(hex, e.units[leaver].side));
    let f = |x: EngineV, k: Id|
        if x.units.contains_key(leaver) && x.units[leaver].alive {
            m::same_hex_shot(x, k, leaver, t).0
        } else {
            x
        };
    assert(f =~= m::punish_shot_f(leaver, t));
}

// ---------- what a hit does ----------

/// A unit that loses as many teams as it has, or is annihilated, is dead and has none. One that loses
/// fewer, or is suppressed, keeps the rest and is suppressed for the time given, in its cover if it
/// has any. One on which there is no effect stays as it is.
pub proof fn what_a_hit_does(e: EngineV, id: Id, outcome: Outcome, t: Tick, ticks: Tick)
    requires
        e.units.contains_key(id),
    ensures
        ({
            let u = e.units[id];
            let v = m::hit(e, id, outcome, t, ticks).units[id];
            match outcome {
                Outcome::NoEffect => m::hit(e, id, outcome, t, ticks) == e,
                Outcome::Kill => !v.alive && v.teams == 0,
                Outcome::Destroyed(n) => if n >= u.teams {
                    !v.alive && v.teams == 0
                } else {
                    v.alive == u.alive && v.teams == u.teams - n && v.suppressed_until == tick_sum(
                        t,
                        ticks,
                    ) && v.state == (if u.state == UnitState::Cover {
                        UnitState::Cover
                    } else {
                        UnitState::Suppressed
                    })
                },
                Outcome::Suppress => v.alive == u.alive && v.teams == u.teams && v.suppressed_until
                    == tick_sum(t, ticks) && v.state == (if u.state == UnitState::Cover {
                    UnitState::Cover
                } else {
                    UnitState::Suppressed
                }),
            }
        }),
{
    let u = e.units[id];
    let dead = m::put_unit(e, id, RuntimeUnit { teams: 0, alive: false, ..u });
    carrier_death_only_kills(dead, id);
    assert(dead.units.contains_key(id) && dead.units.dom().contains(id));
    assert(m::carrier_death(dead, id).units.dom().contains(id));
    let left = RuntimeUnit { teams: m::teams_left(u, outcome), ..u };
    let e0 = m::put_unit(e, id, left);
    interruption_frees(e0, id);
    let e1 = m::interrupt_cover(e0, id);
    interruption_frees(e1, id);
    let e2 = m::interrupt_mounts(e1, id);
    assert(e0.units.contains_key(id) && e0.units.dom().contains(id));
    assert(e1.units.dom().contains(id) && e1.units.contains_key(id));
    assert(e2.units.dom().contains(id) && e2.units.contains_key(id));
}

/// What hits a transport helicopter that lives on hits every squad aboard as well; what hits any
/// other unit hits nobody inside it.
pub proof fn who_shares_a_hit(e: EngineV, id: Id, outcome: Outcome, t: Tick, ticks: Tick)
    requires
        e.units.contains_key(id),
    ensures
        e.units[id].unit_type != UnitType::TransportHeli ==> m::hit_whole(e, id, outcome, t, ticks)
            == m::hit(e, id, outcome, t, ticks),
        e.units[id].unit_type == UnitType::TransportHeli ==> ({
            let e1 = m::hit(e, id, outcome, t, ticks);
            let lives = match outcome {
                Outcome::Destroyed(n) => n < e.units[id].teams,
                Outcome::Kill => false,
                _ => true,
            };
            let ids = keys_where::<String, UnitV>(
                e1.units,
                |k: Id, u: UnitV|
                    u.alive && u.carried_by == Some(id) && (u.unit_type == UnitType::Infantry
                        || u.unit_type == UnitType::AaMissileSquad),
            );
            m::hit_whole(e, id, outcome, t, ticks) == if lives && outcome != Outcome::NoEffect {
                m::each(e1, ids, |x: EngineV, k: Id| m::hit(x, k, outcome, t, ticks))
            } else {
                e1
            }
        }),
{
    let e1 = m::hit(e, id, outcome, t, ticks);
    let p = |k: Id, u: UnitV|
        u.alive && u.carried_by == Some(id) && (u.unit_type == UnitType::Infantry || u.unit_type
            == UnitType::AaMissileSquad);
    same_choice(e1.units, p, m::cargo_of(id));
    let f = |x: EngineV, k: Id| m::hit(x, k, outcome, t, ticks);
    assert(f =~= m::hit_f(outcome, t, ticks));
}

/// A hit that does not kill has its suppression end when its time is up.
pub proof fn when_suppression_ends(e: EngineV, id: Id, until: Tick)
    ensures
        m::suppress(e, id, until).queue.len() > 0,
        exists|i: int|
            0 <= i < m::suppress(e, id, until).queue.len() && (#[trigger] m::suppress(
                e,
                id,
                until,
            ).queue[i]).t == until && m::suppress(e, id, until).queue[i].event == (
            Event::<Id>::SuppressEnd { unit: id }),
        e.units.contains_key(id) ==> !m::suppress(e, id, until).radar_spinup.contains_key(id),
{
    let r = m::suppress(e, id, until);
    let e1 = m::interrupt_mounts(m::interrupt_cover(e, id), id);
    let e2 = if e1.radar_spinup.contains_key(id) {
        m::set_busy(EngineV { radar_spinup: e1.radar_spinup.remove(id), ..e1 }, id, 0)
    } else {
        e1
    };
    let x: TimedV = m::Timed {
        t: until,
        seq: next_of(e2.seq),
        event: Event::SuppressEnd { unit: id },
    };
    enqueued(e2.queue, x);
    assert(r.queue == m::enqueue(e2.queue, x));
    let i = m::enqueue(e2.queue, x).index_of(x);
    assert(r.queue[i].t == until);
}

proof fn enqueued(q: Seq<TimedV>, x: TimedV)
    ensures
        m::enqueue(q, x).contains(x),
    decreases q.len(),
{
    let r = m::enqueue(q, x);
    if q.len() == 0 || !m::sooner(x, q.last()) {
        assert(r[q.len() as int] == x);
    } else {
        let s = m::enqueue(q.drop_last(), x);
        enqueued(q.drop_last(), x);
        let i = s.index_of(x);
        assert(r[i] == x);
    }
}

/// A fight at a hex that a side has left is over; one that both sides still hold goes on, and no other
/// is touched.
pub proof fn when_a_fight_is_over(e: EngineV, hex: Axial, other: Axial)
    ensures
        m::contested(e.units, hex) ==> m::end_same_hex(e, hex) == e,
        !m::contested(e.units, hex) ==> !m::end_same_hex(e, hex).same_hex.contains_key(hex),
        other != hex ==> (m::end_same_hex(e, hex).same_hex.contains_key(other)
            <==> e.same_hex.contains_key(other)),
        m::end_same_hex(e, hex).units == e.units,
{
}

/// Each use of a number under an id gives another, and leaves those of other ids.
pub proof fn numbers_go_on(n: Map<Id, u64>, id: Id, other: Id)
    ensures
        m::bumped(n, id).contains_key(id),
        m::bumped(n, id)[id] == m::fresh(n, id),
        m::fresh(n, id) != entry_number(n, id),
        entry_number(n, id) < u64::MAX ==> m::fresh(n, id) == entry_number(n, id) + 1,
        other != id ==> entry_number(m::bumped(n, id), other) == entry_number(n, other),
{
}

/// What a unit takes it takes with the length of suppression of the rules; without one nothing
/// happens.
pub proof fn how_long_suppression_lasts(e: EngineV, id: Id, outcome: Outcome, t: Tick)
    ensures
        match timing_of(e.rules, "suppress_duration"@) {
            Some(ticks) => m::take_fire(e, id, outcome, t) == m::hit_whole(e, id, outcome, t, ticks)
                && m::apply_fire(e, id, outcome, t).1 is Ok,
            None => m::take_fire(e, id, outcome, t) == e && m::apply_fire(e, id, outcome, t).1 is Err,
        },
{
}

} // verus!
