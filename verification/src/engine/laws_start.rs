//! How a match begins.
use crate::engine::laws::{fights_bounded, in_order, keeps, mines_match, round_due};
use crate::engine::laws_calm::{calm, calm_attack_turns, calm_both, calm_drawn_in, calm_each};
use crate::engine::laws_stacks::{stays, stays_both, stays_self, stays_trigger};
use crate::engine::laws_time::start_in_order;
use crate::engine::laws_units::accepted_setup_is_sound;
use crate::engine::model as m;
use crate::engine::model::{EngineV, Id, SameHexState};
use crate::engine::setup::{
    base_capacity, built, enlist, enlisted, manned, mines_of, neutral, occupied, opening, roster, setup_error, started,
    trigger_all, works_of,
};
use crate::hex::Axial;
use crate::ordmap::{keys_where, sorted_keys};
use crate::rules::{Rules, Tables};
use crate::time::next_of;
use crate::types::{cell_at, ControlPoint, Facility, GameMap, Scenario, SideId, UnitType, UnitV};
use vstd::prelude::*;

verus! {

/// Whether a match on a board begins soundly.
/// Every unit is kept under its id, which does not hold the mark of split-off units, and stands on
/// a hex of the board, in no fortification.
/// It stands where the scenario put it, rides in what carried it and belongs to what it belonged to:
/// the one a unit of its side other than itself, the other a manned vehicle of its side.
/// Every control point of the scenario is there, and none is held.
/// The fortifications are those of the scenario, and every minefield is kept under its hex.
pub open spec fn begins_soundly(map: GameMap, s: Scenario, rules: Rules, e: EngineV) -> bool {
    &&& e.clock == 0 && e.map == map && e.scenario == s && e.rules == rules
    &&& e.units.dom() == roster(s).dom() && e.units.dom().finite()
    &&& forall|k: Id| #[trigger] e.units.contains_key(k) ==> enters_soundly(map, s, e.units, k)
    &&& forall|c: Id| #[trigger] e.control.contains_key(c) ==> e.control[c] is None
    &&& forall|c: Id| #[trigger]
        e.control.contains_key(c) <==> exists|i: int|
            0 <= i < s.objectives@.len() && (#[trigger] s.objectives@[i]).id@ == c
    &&& e.facilities == works_of(s.facilities@, base_capacity(rules), s.facilities@.len() as int)
    &&& mines_match(e.minefields)
    &&& in_order(e.queue) && fights_bounded(e.same_hex)
    &&& forall|h: Axial| #[trigger] round_due(e, h)
}

/// Whether a unit is soundly among the units of a match that begins.
pub open spec fn enters_soundly(map: GameMap, s: Scenario, units: Map<Id, UnitV>, k: Id) -> bool {
    let u = units[k];
    let first = roster(s)[k];
    &&& u.id == k && !k.contains('#')
    &&& u.pos == first.pos && cell_at(map, u.pos) is Some
    &&& u.side == first.side && u.unit_type == first.unit_type && u.armor == first.armor
    &&& u.inside_facility is None
    &&& u.carried_by == first.carried_by && u.affiliated_to == first.affiliated_to
    &&& u.unit_type == UnitType::Ugv ==> u.affiliated_to is Some
    &&& match u.affiliated_to {
        Some(p) => p != k && units.contains_key(p) && units[p].side == u.side && manned(
            units[p].unit_type,
        ),
        None => true,
    }
    &&& match u.carried_by {
        Some(c) => c != k && units.contains_key(c) && units[c].side == u.side,
        None => true,
    }
}

// ---------- the opening fights ----------

/// A fight that begins leaves the control points and the fortifications as they are.
proof fn fight_takes_nothing(e: EngineV, hex: Axial)
    ensures
        m::trigger_same_hex(e, hex, 0).control == e.control,
        m::trigger_same_hex(e, hex, 0).facilities == e.facilities,
{
    broadcast use calm_both;

    let gen = next_of(e.same_hex_ctr);
    let e1 = EngineV {
        same_hex_ctr: gen,
        same_hex: e.same_hex.insert(hex, SameHexState { gen, dry_rounds: 0 }),
        ..e
    };
    let ids = keys_where::<String, UnitV>(e1.units, m::live_at(hex));
    let f = m::drawn_in_f();
    assert forall|x: EngineV, k: Id| calm(x, #[trigger] f(x, k)) by {
        calm_drawn_in(x, k);
    }
    calm_each(e1, ids, f);
    let e2 = m::each(e1, ids, f);
    calm_attack_turns(e2, m::attackers(e2, hex), hex, 0);
    reveal(calm);
}

proof fn fights_move_nobody(e: EngineV, hexes: Seq<Axial>, side: SideId)
    ensures
        stays(e.units, trigger_all(e, hexes).units, side),
        trigger_all(e, hexes).control == e.control,
        trigger_all(e, hexes).facilities == e.facilities,
    decreases hexes.len(),
{
    broadcast use {stays_both, stays_self};

    if hexes.len() > 0 {
        fights_move_nobody(e, hexes.drop_last(), side);
        let e1 = trigger_all(e, hexes.drop_last());
        stays_trigger(e1, hexes.last(), 0, side);
        fight_takes_nothing(e1, hexes.last());
    }
}

// ---------- points and mines ----------

proof fn neutral_points_are_free(points: Seq<ControlPoint>)
    ensures
        forall|c: Id| #[trigger] neutral(points).contains_key(c) ==> neutral(points)[c] is None,
        forall|c: Id| #[trigger]
            neutral(points).contains_key(c) <==> exists|i: int|
                0 <= i < points.len() && (#[trigger] points[i]).id@ == c,
    decreases points.len(),
{
    if points.len() > 0 {
        let rest = points.drop_last();
        neutral_points_are_free(rest);
        assert forall|c: Id| #[trigger] neutral(points).contains_key(c) <==> exists|i: int|
            0 <= i < points.len() && (#[trigger] points[i]).id@ == c by {
            if neutral(points).contains_key(c) {
                if c == points.last().id@ {
                    assert(points[points.len() - 1].id@ == c);
                } else {
                    assert(neutral(rest).contains_key(c));
                    let i = choose|i: int| 0 <= i < rest.len() && (#[trigger] rest[i]).id@ == c;
                    assert(points[i].id@ == c);
                }
            }
            if exists|i: int| 0 <= i < points.len() && (#[trigger] points[i]).id@ == c {
                let i = choose|i: int| 0 <= i < points.len() && (#[trigger] points[i]).id@ == c;
                if i < rest.len() {
                    assert(rest[i].id@ == c);
                    assert(neutral(rest).contains_key(c));
                }
            }
        }
    }
}

proof fn mines_lie_in_their_hexes(facs: Seq<Facility>, n: int)
    ensures
        mines_match(mines_of(facs, n)),
    decreases n,
{
    if n > 0 {
        mines_lie_in_their_hexes(facs, n - 1);
    }
}

/// A scenario that is accepted begins soundly, whatever the seed and the opening fights bring: see
/// [`begins_soundly`].
pub proof fn accepted_matches_begin_soundly(
    map: GameMap,
    s: Scenario,
    rules: Rules,
    tables: Tables,
    seed: u64,
)
    requires
        setup_error(map, s, rules) is None,
    ensures
        begins_soundly(map, s, rules, started(map, s, rules, tables, seed)),
{
    let e0 = opening(map, s, rules, tables, seed);
    let e = started(map, s, rules, tables, seed);
    let hexes = sorted_keys::<Axial>(occupied(e0.units));
    start_in_order(map, s, rules, tables, seed);
    fights_move_nobody(e0, hexes, SideId::Red);
    fights_move_nobody(e0, hexes, SideId::Blue);
    neutral_points_are_free(s.objectives@);
    mines_lie_in_their_hexes(s.facilities@, s.facilities@.len() as int);
    reveal(stays);
    assert(mines_match(e.minefields) && e.map == map && e.scenario == s && e.rules == rules) by {
        reveal(keeps);
    }
    assert forall|k: Id| #[trigger] e.units.contains_key(k) implies enters_soundly(
        map,
        s,
        e.units,
        k,
    ) by {
        assert(e0.units.dom().contains(k));
        assert(e0.units.contains_key(k));
        assert(roster(s).contains_key(k));
        accepted_setup_is_sound(map, s, rules, k);
        assert(e.units[k].armor == roster(s)[k].armor) by {
            reveal(keeps);
        }
        if let Some(p) = roster(s)[k].affiliated_to {
            assert(e0.units.contains_key(p) && e0.units.dom().contains(p));
        }
        if let Some(c) = roster(s)[k].carried_by {
            assert(e0.units.contains_key(c) && e0.units.dom().contains(c));
        }
    }
}

// ---------- what is accepted, and as what it begins ----------

/// A unit begins as the scenario has it: alive, in its place, with its weapon ready, low if it flies,
/// neither busy, suppressed nor tired; without armor or posture given it has none and moves normally.
pub proof fn as_what_a_unit_begins(u: crate::types::ScenarioUnit, side: SideId)
    ensures
        ({
            let v = enlisted(u, side);
            &&& v.id == u.id@ && v.side == side && v.unit_type == u.unit_type && v.teams == u.teams
                && v.pos == u.at && v.facing == u.facing
            &&& u.armor is Some ==> v.armor == u.armor->0
            &&& u.armor is None ==> v.armor == crate::types::Armor::Unarmored
            &&& u.state is Some ==> v.state == u.state->0
            &&& u.state is None ==> v.state == crate::types::UnitState::Normal
            &&& u.carried_by is Some ==> v.carried_by == Some(u.carried_by->0@)
            &&& u.carried_by is None ==> v.carried_by is None
            &&& u.affiliated_to is Some ==> v.affiliated_to == Some(u.affiliated_to->0@)
            &&& u.affiliated_to is None ==> v.affiliated_to is None
            &&& v.alive && v.weapon_state == crate::types::WeaponState::Deployed && v.busy_until == 0
                && v.suppressed_until == 0 && v.heli_alt == crate::types::HeliAlt::Low
                && v.inside_facility is None && v.fatigue == 0
        }),
{
}

proof fn enlisted_last(units: Map<Id, UnitV>, list: Seq<crate::types::ScenarioUnit>, side: SideId, i: int)
    requires
        0 <= i < list.len(),
        forall|j: int| i < j < list.len() ==> (#[trigger] list[j]).id@ != list[i].id@,
    ensures
        enlist(units, list, side).contains_key(list[i].id@),
        enlist(units, list, side)[list[i].id@] == enlisted(list[i], side),
    decreases list.len(),
{
    if i < list.len() - 1 {
        let rest = list.drop_last();
        assert(list[list.len() - 1].id@ != list[i].id@);
        assert forall|j: int| i < j < rest.len() implies (#[trigger] rest[j]).id@ != rest[i].id@ by {
            assert(rest[j] == list[j]);
        }
        enlisted_last(units, rest, side, i);
    }
}

proof fn enlist_spares(units: Map<Id, UnitV>, list: Seq<crate::types::ScenarioUnit>, side: SideId, k: Id)
    requires
        forall|j: int| 0 <= j < list.len() ==> (#[trigger] list[j]).id@ != k,
    ensures
        enlist(units, list, side).contains_key(k) <==> units.contains_key(k),
        units.contains_key(k) ==> enlist(units, list, side)[k] == units[k],
    decreases list.len(),
{
    if list.len() > 0 {
        let rest = list.drop_last();
        assert(list[list.len() - 1].id@ != k);
        assert forall|j: int| 0 <= j < rest.len() implies (#[trigger] rest[j]).id@ != k by {
            assert(rest[j] == list[j]);
        }
        enlist_spares(units, rest, side, k);
    }
}

/// The units of both lists are there, each for its side.
pub proof fn whose_units_are_there(s: Scenario, i: int)
    ensures
        0 <= i < s.sides.blue.units@.len() && (forall|j: int|
            i < j < s.sides.blue.units@.len() ==> (#[trigger] s.sides.blue.units@[j]).id@
                != s.sides.blue.units@[i].id@) ==> roster(s).contains_key(
            s.sides.blue.units@[i].id@,
        ) && roster(s)[s.sides.blue.units@[i].id@] == enlisted(
            s.sides.blue.units@[i],
            SideId::Blue,
        ),
        0 <= i < s.sides.red.units@.len() && (forall|j: int|
            i < j < s.sides.red.units@.len() ==> (#[trigger] s.sides.red.units@[j]).id@
                != s.sides.red.units@[i].id@) && (forall|j: int|
            0 <= j < s.sides.blue.units@.len() ==> (#[trigger] s.sides.blue.units@[j]).id@
                != s.sides.red.units@[i].id@) ==> roster(s).contains_key(s.sides.red.units@[i].id@)
            && roster(s)[s.sides.red.units@[i].id@] == enlisted(
            s.sides.red.units@[i],
            SideId::Red,
        ),
{
    let (red, blue) = (s.sides.red.units@, s.sides.blue.units@);
    let first = enlist(Map::<Id, UnitV>::empty(), red, SideId::Red);
    if 0 <= i < blue.len() && (forall|j: int|
        i < j < blue.len() ==> (#[trigger] blue[j]).id@ != blue[i].id@) {
        enlisted_last(first, blue, SideId::Blue, i);
    }
    if 0 <= i < red.len() && (forall|j: int|
        i < j < red.len() ==> (#[trigger] red[j]).id@ != red[i].id@) && (forall|j: int|
        0 <= j < blue.len() ==> (#[trigger] blue[j]).id@ != red[i].id@) {
        enlisted_last(Map::<Id, UnitV>::empty(), red, SideId::Red, i);
        enlist_spares(first, blue, SideId::Blue, red[i].id@);
    }
}

/// A fortification begins as the scenario has it, under a number of its own; its owner is one of the
/// two sides by name, or nobody; without a capacity it has that of the rules, and without a known
/// armor none.
pub proof fn as_what_works_begin(f: Facility, i: nat, cap: u8)
    ensures
        ({
            let w = built(f, i, cap);
            &&& w.kind == f.kind@ && w.at == f.at && w.id == "FAC"@ + crate::text::dec(i)
            &&& f.owner is None ==> w.owner is None
            &&& f.owner is Some && f.owner->0@ == "red"@ ==> w.owner == Some(SideId::Red)
            &&& f.owner is Some && f.owner->0@ == "blue"@ ==> w.owner == Some(SideId::Blue)
            &&& f.owner is Some && f.owner->0@ == "neutral"@ ==> w.owner is None
            &&& f.capacity is Some ==> w.capacity == f.capacity->0
            &&& f.capacity is None ==> w.capacity == cap
            &&& f.armor is None ==> w.armor == crate::types::Armor::Unarmored
            &&& f.armor is Some && f.armor->0@ == "heavy"@ ==> w.armor == crate::types::Armor::Heavy
        }),
{
    reveal_strlit("red");
    reveal_strlit("blue");
    reveal_strlit("neutral");
    assert("red"@.len() == 3 && "blue"@.len() == 4 && "neutral"@.len() == 7);
    crate::basics_laws::what_names_stand_for(
        crate::types::HeliAlt::Low,
        crate::types::HeliAlt::Low,
    );
}

proof fn works_differ(a: nat, b: nat)
    requires
        crate::engine::setup::works_id(a) == crate::engine::setup::works_id(b),
    ensures
        a == b,
{
    let (x, y) = (crate::engine::setup::works_id(a), crate::engine::setup::works_id(b));
    reveal_strlit("FAC");
    assert(x.skip(3) =~= crate::text::dec(a));
    assert(y.skip(3) =~= crate::text::dec(b));
    crate::basics_laws::digits_read_back(a);
    crate::basics_laws::digits_read_back(b);
}

/// Every fortification of the scenario is there, and every minefield; nothing else is either.
pub proof fn which_works_are_there(s: Scenario, cap: u8, n: int, i: int)
    requires
        0 <= i < n <= s.facilities@.len(),
    ensures
        ({
            let f = s.facilities@[i];
            let id = crate::engine::setup::works_id(i as nat);
            &&& (f.kind@ == "works_vehicle"@ || f.kind@ == "works_infantry_combat"@ || f.kind@
                == "works_infantry_hidden"@) ==> works_of(s.facilities@, cap, n).contains_key(id)
                && works_of(s.facilities@, cap, n)[id] == built(f, i as nat, cap)
            &&& f.kind@ == "minefield"@ || f.kind@ == "roadblock"@ ==> !works_of(
                s.facilities@,
                cap,
                n,
            ).contains_key(id)
            &&& f.kind@ == "minefield"@ ==> mines_of(s.facilities@, n).contains_key(f.at)
        }),
    decreases n,
{
    crate::mechanics_laws::garrisons_by_kind(UnitType::Infantry, 0);
    let id = crate::engine::setup::works_id(i as nat);
    let last = crate::engine::setup::works_id((n - 1) as nat);
    if i < n - 1 {
        which_works_are_there(s, cap, n - 1, i);
        if id == last {
            works_differ(i as nat, (n - 1) as nat);
        }
    } else {
        not_yet(s.facilities@, cap, n - 1, i as nat);
    }
}

proof fn not_yet(list: Seq<Facility>, cap: u8, n: int, i: nat)
    requires
        n <= i,
    ensures
        !works_of(list, cap, n).contains_key(crate::engine::setup::works_id(i)),
    decreases n,
{
    if n > 0 {
        not_yet(list, cap, n - 1, i);
        if crate::engine::setup::works_id((n - 1) as nat) == crate::engine::setup::works_id(i) {
            works_differ((n - 1) as nat, i);
        }
    }
}

/// A minefield begins with the scenario's owner and without lanes.
pub proof fn as_what_mines_begin(f: Facility)
    ensures
        ({
            let m = crate::engine::setup::mined(f);
            m.at == f.at && !m.cleared_by.red && !m.cleared_by.blue && m.owner == built(
                f,
                0,
                0,
            ).owner
        }),
{
}

/// What makes a unit wrong: an id with the mark of units that are split off; a march of what is no
/// vehicle or is artillery; a speed as a posture; an unmanned vehicle without one to belong to; what
/// belongs to something and is neither unmanned nor infantry, or belongs to itself, to nobody there,
/// or to what is no manned vehicle of its side; and what is carried by itself, by nobody there, or by
/// the other side. Nothing else does.
pub proof fn what_makes_a_unit_wrong(units: Map<Id, UnitV>, u: UnitV)
    ensures
        ({
            let flies = |t: UnitType|
                t == UnitType::Uav || t == UnitType::AttackHeli || t == UnitType::TransportHeli || t
                    == UnitType::LoiteringMunition;
            let p = units[u.affiliated_to->0];
            &&& crate::engine::setup::id_error(u) is Some <==> u.id.contains('#')
            &&& crate::engine::setup::posture_error(u) is Some <==> (u.state
                == crate::types::UnitState::March && (flies(u.unit_type) || u.unit_type
                == UnitType::Infantry || u.unit_type == UnitType::Artillery)) || u.state
                == crate::types::UnitState::Half || u.state == crate::types::UnitState::Charge1
                || u.state == crate::types::UnitState::Charge2
            &&& u.affiliated_to is None ==> (crate::engine::setup::affiliation_error(units, u)
                is Some <==> u.unit_type == UnitType::Ugv)
            &&& u.affiliated_to is Some ==> (crate::engine::setup::affiliation_error(units, u)
                is None <==> (u.unit_type == UnitType::Ugv || u.unit_type == UnitType::Infantry)
                && u.affiliated_to->0 != u.id && units.contains_key(u.affiliated_to->0) && p.side
                == u.side && !flies(p.unit_type) && p.unit_type != UnitType::Ugv && p.unit_type
                != UnitType::Infantry && p.unit_type != UnitType::AaMissileSquad)
            &&& crate::engine::setup::carriage_error(units, u) is None <==> u.carried_by is None || (
            u.carried_by->0 != u.id && units.contains_key(u.carried_by->0)
                && units[u.carried_by->0].side == u.side)
        }),
{
}

proof fn no_first_error(check: spec_fn(int) -> Option<crate::error::ErrV>, i: int, n: int)
    requires
        forall|j: int| i <= j < n ==> (#[trigger] check(j)) is None,
    ensures
        crate::engine::setup::first_error(check, i, n) is None,
    decreases n - i,
{
    if i < n {
        no_first_error(check, i + 1, n);
    }
}

/// A scenario in which nothing is wrong is accepted: every unit, fortification and minefield is on the
/// board, no unit is wrong, and the rules say how units stack and how high they fly.
pub proof fn what_is_accepted(map: GameMap, s: Scenario, rules: Rules)
    requires
        forall|i: int|
            0 <= i < s.sides.red.units@.len() ==> cell_at(
                map,
                (#[trigger] s.sides.red.units@[i]).at,
            ) is Some,
        forall|i: int|
            0 <= i < s.sides.blue.units@.len() ==> cell_at(
                map,
                (#[trigger] s.sides.blue.units@[i]).at,
            ) is Some,
        forall|i: int|
            0 <= i < s.facilities@.len() ==> cell_at(map, (#[trigger] s.facilities@[i]).at) is Some,
        crate::engine::setup::rules_error_of(rules) is None,
        forall|k: Id| #[trigger]
            roster(s).contains_key(k) ==> crate::engine::setup::id_error(roster(s)[k]) is None
                && crate::engine::setup::posture_error(roster(s)[k]) is None
                && crate::engine::setup::affiliation_error(roster(s), roster(s)[k]) is None
                && crate::engine::setup::carriage_error(roster(s), roster(s)[k]) is None,
    ensures
        setup_error(map, s, rules) is None,
{
    let units = roster(s);
    crate::engine::laws_units::roster_finite(s);
    crate::ordmap::keys_listed::<String>(units.dom());
    let ks = sorted_keys::<String>(units.dom());
    let n = ks.len() as int;
    assert forall|i: int| 0 <= i < n implies units.contains_key(#[trigger] ks[i]) by {
        assert(ks.contains(ks[i]));
        assert(units.dom().contains(ks[i]));
    }
    let (red, blue, facs) = (s.sides.red.units@, s.sides.blue.units@, s.facilities@);
    no_first_error(crate::engine::setup::placing(map, red), 0, red.len() as int);
    no_first_error(crate::engine::setup::placing(map, blue), 0, blue.len() as int);
    no_first_error(crate::engine::setup::building(map, facs), 0, facs.len() as int);
    no_first_error(crate::engine::setup::mining(map, facs), 0, facs.len() as int);
    no_first_error(crate::engine::setup::id_check(units), 0, n);
    no_first_error(crate::engine::setup::posture_check(units), 0, n);
    no_first_error(crate::engine::setup::affiliation_check(units), 0, n);
    no_first_error(crate::engine::setup::carriage_check(units), 0, n);
}

proof fn an_error_counts(check: spec_fn(int) -> Option<crate::error::ErrV>, i: int, n: int, j: int)
    requires
        i <= j < n,
        check(j) is Some,
    ensures
        crate::engine::setup::first_error(check, i, n) is Some,
    decreases n - i,
{
    if i < j {
        an_error_counts(check, i + 1, n, j);
    }
}

/// A fortification or a minefield off the board is not accepted, nor are rules that do not say how
/// units stack or how high they fly.
pub proof fn what_is_not_accepted(map: GameMap, s: Scenario, rules: Rules, i: int)
    ensures
        0 <= i < s.facilities@.len() && cell_at(map, s.facilities@[i].at) is None && (
        s.facilities@[i].kind@ == "minefield"@ || s.facilities@[i].kind@ == "works_vehicle"@
            || s.facilities@[i].kind@ == "works_infantry_combat"@ || s.facilities@[i].kind@
            == "works_infantry_hidden"@) ==> setup_error(map, s, rules) is Some,
        crate::rules::setting(rules.control, "stacking_max_ground_units_per_hex"@) is None
            ==> setup_error(map, s, rules) is Some,
        crate::rules::setting(rules.air, "recon_altitude_meters"@) is None ==> setup_error(
            map,
            s,
            rules,
        ) is Some,
        crate::json::jint(
            crate::json::jget(
                crate::json::jget(Some(rules.air), "heli_altitude_meters"@),
                "very_low"@,
            ),
        ) is None ==> setup_error(map, s, rules) is Some,
{
    crate::mechanics_laws::garrisons_by_kind(UnitType::Infantry, 0);
    let facs = s.facilities@;
    if 0 <= i < facs.len() && cell_at(map, facs[i].at) is None {
        if facs[i].kind@ == "minefield"@ {
            an_error_counts(crate::engine::setup::mining(map, facs), 0, facs.len() as int, i);
        } else if crate::mechanics::fort_named(facs[i].kind@) is Some {
            an_error_counts(crate::engine::setup::building(map, facs), 0, facs.len() as int, i);
        }
    }
}

/// The numbers of the rules that a match takes over.
pub proof fn what_a_match_takes_over(map: GameMap, s: Scenario, rules: Rules, tables: Tables, seed: u64, n: i64)
    requires
        crate::rules::setting(rules.control, "stacking_max_ground_units_per_hex"@) == Some(n),
    ensures
        ({
            let e = opening(map, s, rules, tables, seed);
            let cap = crate::rules::setting(rules.fortification, "capacity_squads"@);
            &&& e.stacking_cap == n && e.tables == tables && e.rng == crate::rng::pcg_seeded(seed)
            &&& e.queue.len() == 0 && e.shots.len() == 0
            &&& cap is Some && 0 <= cap->0 <= 255 ==> base_capacity(rules) == cap->0
        }),
{
}

} // verus!
