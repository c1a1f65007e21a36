//! What tables and draws come to.
use crate::combat::{personnel_shot, personnel_verdict, vehicle_shot, vehicle_verdict, FireMods};
use crate::json::{entry_of, jget, jint, Json};
use crate::prob::{
    bucket_of, calibrated_outcome, calibrated_row, last_bucket, least_level, level_below,
    outcome_in, outcome_named, reached, row_for, static_or_none, static_outcome, table_outcome,
    Outcome,
};
use crate::rng::{dice, die, DrawModel};
use crate::rules::{Rules, Tables};
use crate::text::{
    dec, dec_int, parse_i64_of, text_lt, text_lt_irreflexive, text_lt_total, text_lt_transitive,
};
use crate::types::Armor;
use vstd::prelude::*;

verus! {

// ---------- dice ----------

/// Dice show from one to six each, and are thrown one after the other.
pub proof fn what_dice_show<R: DrawModel>(s: R::V, n: nat)
    requires
        forall|g: R::V, k: u32| k > 0 ==> (#[trigger] R::draw(g, k)).0 < k,
    ensures
        n <= dice::<R>(s, n).0 <= 6 * n,
        dice::<R>(s, 0) == (0int, s),
        dice::<R>(s, n + 1).0 == dice::<R>(s, n).0 + die::<R>(dice::<R>(s, n).1).0,
        dice::<R>(s, n + 1).1 == die::<R>(dice::<R>(s, n).1).1,
        die::<R>(s).0 == R::draw(s, 6).0 + 1,
        die::<R>(s).1 == R::draw(s, 6).1,
    decreases n,
{
    if n > 0 {
        what_dice_show::<R>(s, (n - 1) as nat);
        assert(R::draw(dice::<R>(s, (n - 1) as nat).1, 6).0 < 6);
    }
}

/// A shot at personnel throws two dice and then a third, whatever comes of it; if the weapon has a
/// level, the shot is noted with its weapon, level, distance and outcome.
pub proof fn dice_of_shots_at_personnel<R: DrawModel>(
    t: Tables,
    s: R::V,
    weapon: Seq<char>,
    teams: u8,
    distance: i32,
    mods: FireMods,
)
    ensures
        ({
            let r = personnel_shot::<R>(t, s, weapon, teams, distance, mods);
            let two = dice::<R>(s, 2);
            let one = die::<R>(two.1);
            let v = personnel_verdict(t, weapon, teams, distance, mods, two.0, one.0);
            &&& r.2 == one.1
            &&& v is None ==> r.0 == Outcome::NoEffect && r.1 is None
            &&& v is Some ==> r.0 == (v->0).1 && r.1 is Some && (r.1->0).outcome == r.0
                && (r.1->0).weapon == weapon && (r.1->0).distance == distance && (r.1->0).attack_level
                == (v->0).0 && (r.1->0).table == "direct_vs_personnel"@ && (r.1->0).armor == "none"@
        }),
{
}

/// A shot at a vehicle throws two dice, whatever comes of it; if there is a level, the shot is noted.
pub proof fn dice_of_shots_at_vehicles<R: DrawModel>(
    t: Tables,
    s: R::V,
    weapon: Seq<char>,
    vehicles: u8,
    distance: i32,
    above: int,
    armor: Armor,
    mods: FireMods,
)
    ensures
        ({
            let r = vehicle_shot::<R>(t, s, weapon, vehicles, distance, above, armor, mods);
            let two = dice::<R>(s, 2);
            let v = vehicle_verdict(t, weapon, vehicles, distance, above, armor, mods, two.0);
            &&& r.2 == two.1
            &&& v is None ==> r.0 == Outcome::NoEffect && r.1 is None
            &&& v is Some ==> r.0 == (v->0).1 && r.1 is Some && (r.1->0).outcome == r.0
                && (r.1->0).weapon == weapon && (r.1->0).distance == distance && (r.1->0).table
                == "direct_vs_vehicle"@
            &&& v is Some && i64::MIN <= (v->0).0 <= i64::MAX ==> (r.1->0).attack_level == (v->0).0
            &&& v is Some ==> (armor == Armor::Composite ==> (r.1->0).armor == "composite"@) && (armor
                == Armor::Heavy ==> (r.1->0).armor == "heavy"@) && (armor == Armor::Medium
                ==> (r.1->0).armor == "medium"@) && (armor == Armor::Light ==> (r.1->0).armor
                == "light"@) && (armor == Armor::Unarmored ==> (r.1->0).armor == "none"@)
        }),
{
}

// ---------- cells ----------

/// What a cell of a result table says: a number destroys so many teams, a negative one none; the
/// letters suppress, do nothing and annihilate.
pub proof fn what_cells_say(n: i64, cell: Option<Json>)
    requires
        jint(cell) == Some(n),
    ensures
        n <= 0 ==> outcome_in(cell) == Some(Outcome::Destroyed(0)),
        0 < n < 256 ==> outcome_in(cell) == Some(Outcome::Destroyed(n as u8)),
        outcome_named("S"@) == Some(Outcome::Suppress),
        outcome_named("N"@) == Some(Outcome::NoEffect),
        outcome_named("K"@) == Some(Outcome::Kill),
{
    reveal_strlit("S");
    reveal_strlit("N");
    reveal_strlit("K");
    assert("S"@[0] == 'S' && "N"@[0] == 'N' && "K"@[0] == 'K');
}

spec fn key_of(rows: Seq<(String, Json)>, i: int) -> Option<int> {
    parse_i64_of(rows[i].0@)
}

proof fn highest_below(rows: Seq<(String, Json)>, level: int)
    ensures
        match level_below(rows, level) {
            Some(k) => k <= level && (exists|i: int|
                0 <= i < rows.len() && #[trigger] key_of(rows, i) == Some(k)) && forall|i: int|
                0 <= i < rows.len() && (#[trigger] key_of(rows, i)) is Some && key_of(rows, i)->0
                    <= level ==> key_of(rows, i)->0 <= k,
            None => forall|i: int|
                0 <= i < rows.len() && (#[trigger] key_of(rows, i)) is Some ==> key_of(rows, i)->0
                    > level,
        },
    decreases rows.len(),
{
    if rows.len() > 0 {
        let rest = rows.drop_last();
        highest_below(rest, level);
        assert forall|i: int| 0 <= i < rest.len() implies #[trigger] key_of(rows, i) == key_of(
            rest,
            i,
        ) by {}
        assert(key_of(rows, rows.len() - 1) == parse_i64_of(rows.last().0@));
        if let Some(b) = level_below(rest, level) {
            let i = choose|i: int| 0 <= i < rest.len() && #[trigger] key_of(rest, i) == Some(b);
            assert(key_of(rows, i) == Some(b));
        }
    }
}

proof fn lowest_of(rows: Seq<(String, Json)>)
    ensures
        match least_level(rows) {
            Some(k) => (exists|i: int| 0 <= i < rows.len() && #[trigger] key_of(rows, i) == Some(k))
                && forall|i: int|
                0 <= i < rows.len() && (#[trigger] key_of(rows, i)) is Some ==> key_of(rows, i)->0
                    >= k,
            None => forall|i: int| 0 <= i < rows.len() ==> (#[trigger] key_of(rows, i)) is None,
        },
    decreases rows.len(),
{
    if rows.len() > 0 {
        let rest = rows.drop_last();
        lowest_of(rest);
        assert forall|i: int| 0 <= i < rest.len() implies #[trigger] key_of(rows, i) == key_of(
            rest,
            i,
        ) by {}
        assert(key_of(rows, rows.len() - 1) == parse_i64_of(rows.last().0@));
        if let Some(b) = least_level(rest) {
            let i = choose|i: int| 0 <= i < rest.len() && #[trigger] key_of(rest, i) == Some(b);
            assert(key_of(rows, i) == Some(b));
        }
    }
}

/// The row of a level is that of the highest level of the table that is not above it, or, below all
/// of them, that of the lowest.
pub proof fn the_row_of_a_level(rows: Vec<(String, Json)>, level: int, k: int, i: int)
    requires
        0 <= i < rows@.len(),
        parse_i64_of(rows@[i].0@) == Some(k),
        k <= level ==> forall|j: int|
            0 <= j < rows@.len() && parse_i64_of((#[trigger] rows@[j]).0@) is Some && parse_i64_of(
                rows@[j].0@,
            )->0 <= level ==> parse_i64_of(rows@[j].0@)->0 <= k,
        k > level ==> forall|j: int|
            0 <= j < rows@.len() && parse_i64_of((#[trigger] rows@[j]).0@) is Some ==> parse_i64_of(
                rows@[j].0@,
            )->0 >= k,
    ensures
        row_for(Some(Json::Obj(rows)), level) == entry_of(rows@, dec_int(k)),
{
    highest_below(rows@, level);
    lowest_of(rows@);
    assert(key_of(rows@, i) == Some(k));
    if k <= level {
        let b = level_below(rows@, level)->0;
        let j = choose|j: int| 0 <= j < rows@.len() && #[trigger] key_of(rows@, j) == Some(b);
        assert(parse_i64_of(rows@[j].0@) == Some(b));
    } else {
        if let Some(b) = level_below(rows@, level) {
            let j = choose|j: int| 0 <= j < rows@.len() && #[trigger] key_of(rows@, j) == Some(b);
            assert(parse_i64_of(rows@[j].0@) == Some(b));
        }
        let b = least_level(rows@)->0;
        let j = choose|j: int| 0 <= j < rows@.len() && #[trigger] key_of(rows@, j) == Some(b);
        assert(parse_i64_of(rows@[j].0@) == Some(b));
    }
}

/// A fixed table throws its dice and gives the cell of the level's row and the sum; a cell that says
/// nothing has no effect.
pub proof fn what_fixed_tables_give<R: DrawModel>(count: u32, cells: Json, level: int, s: R::V)
    requires
        0 <= dice::<R>(s, count as nat).0 < 0x1_0000_0000,
    ensures
        ({
            let r = static_outcome::<R>(count, cells, level, s);
            let roll = dice::<R>(s, count as nat);
            let cell = jget(row_for(Some(cells), level), dec(roll.0 as nat));
            &&& r.1 == roll.1
            &&& outcome_in(cell) is Some ==> r.0 == outcome_in(cell)->0
            &&& outcome_in(cell) is None ==> r.0 == Outcome::NoEffect
        }),
{
}

proof fn first_reached(row: Seq<(String, Json)>, d: int)
    ensures
        match bucket_of(row, d) {
            Some(k) => (exists|i: int|
                0 <= i < row.len() && (#[trigger] row[i]).0@ == k && reached(row[i], d)) && forall|
                i: int,
            |
                0 <= i < row.len() && reached(#[trigger] row[i], d) ==> !text_lt(row[i].0@, k),
            None => forall|i: int| 0 <= i < row.len() ==> !reached(#[trigger] row[i], d),
        },
    decreases row.len(),
{
    if row.len() > 0 {
        let rest = row.drop_last();
        first_reached(rest, d);
        let last = row.last();
        assert(row[row.len() - 1] == last);
        text_lt_irreflexive(last.0@);
        if let Some(k) = bucket_of(rest, d) {
            let i = choose|i: int|
                0 <= i < rest.len() && (#[trigger] rest[i]).0@ == k && reached(rest[i], d);
            assert(row[i].0@ == k && reached(row[i], d));
            assert forall|j: int| 0 <= j < row.len() && reached(#[trigger] row[j], d)
                && bucket_of(row, d) is Some implies !text_lt(row[j].0@, bucket_of(row, d)->0) by {
                if j < rest.len() {
                    assert(rest[j] == row[j]);
                    if reached(last, d) && text_lt(last.0@, k) && text_lt(row[j].0@, last.0@) {
                        text_lt_transitive(row[j].0@, last.0@, k);
                    }
                }
            }
        } else {
            assert forall|j: int| 0 <= j < rest.len() implies !reached(#[trigger] row[j], d) by {
                assert(rest[j] == row[j]);
            }
        }
    }
}

/// A calibrated table gives, of the outcomes whose cutoff lies above the draw, the first in order of
/// name.
pub proof fn what_calibrated_tables_give(row: Vec<(String, Json)>, d: int, i: int)
    requires
        0 <= i < row@.len(),
        jint(Some(row@[i].1)) is Some,
        d < jint(Some(row@[i].1))->0,
        forall|j: int|
            0 <= j < row@.len() && jint(Some((#[trigger] row@[j]).1)) is Some && d < jint(
                Some(row@[j].1),
            )->0 ==> !text_lt(row@[j].0@, row@[i].0@),
    ensures
        ({
            let r = calibrated_row(Some(Json::Obj(row)), d);
            match outcome_named(row@[i].0@) {
                Some(o) => r == Some(o),
                None => r == Some(Outcome::NoEffect),
            }
        }),
{
    first_reached(row@, d);
    assert(reached(row@[i], d));
    let k = bucket_of(row@, d)->0;
    let j = choose|j: int|
        0 <= j < row@.len() && (#[trigger] row@[j]).0@ == k && reached(row@[j], d);
    assert(!text_lt(k, row@[i].0@));
    assert(!text_lt(row@[i].0@, k));
    text_lt_total(k, row@[i].0@);
    some_last(row@, i);
}

proof fn some_last(row: Seq<(String, Json)>, i: int)
    requires
        0 <= i < row.len(),
        jint(Some(row[i].1)) is Some,
    ensures
        last_bucket(row) is Some,
    decreases row.len(),
{
    let rest = row.drop_last();
    if i < rest.len() {
        assert(rest[i] == row[i]);
        some_last(rest, i);
    }
}

/// A calibrated table draws once among a million, by the level's row; without outcomes it draws
/// nothing and has no effect.
pub proof fn how_calibrated_tables_draw<R: DrawModel>(by_level: Option<Json>, level: int, s: R::V)
    ensures
        ({
            let r = calibrated_outcome::<R>(by_level, level, s);
            let d = R::draw(s, 1_000_000);
            match calibrated_row(row_for(by_level, level), d.0 as int) {
                Some(o) => r == (o, d.1),
                None => r == (Outcome::NoEffect, s),
            }
        }),
{
}

/// Which backend adjudicates a table: the one that the rules name for it, or else the fixed table; a
/// learned model, and a table that is not there, have no effect.
pub proof fn which_backend_adjudicates<R: DrawModel>(rules: Rules, id: Seq<char>, level: int, s: R::V)
    ensures
        ({
            let r = table_outcome::<R>(rules, id, level, s);
            let named = rules.prob.providers@.contains_key(id);
            let kind = rules.prob.providers@[id].kind@;
            &&& named && kind == "bayesian"@ ==> r == calibrated_outcome::<R>(
                jget(Some(rules.prob.providers@[id].params), "byLevel"@),
                level,
                s,
            )
            &&& named && kind == "model"@ ==> r == (Outcome::NoEffect, s)
            &&& !named || (kind != "bayesian"@ && kind != "model"@) ==> r == static_or_none::<R>(
                rules,
                id,
                level,
                s,
            )
            &&& jget(Some(rules.combat_result_tables), id) is None ==> static_or_none::<R>(
                rules,
                id,
                level,
                s,
            ) == (Outcome::NoEffect, s)
        }),
{
    reveal_strlit("bayesian");
    reveal_strlit("model");
    assert("bayesian"@.len() == 8 && "model"@.len() == 5);
}

/// A draw above every cutoff gives the last outcome in order of name that has one.
pub proof fn what_the_last_cutoff_gives(row: Vec<(String, Json)>, d: int, i: int)
    requires
        0 <= i < row@.len(),
        jint(Some(row@[i].1)) is Some,
        forall|j: int| 0 <= j < row@.len() ==> !reached(#[trigger] row@[j], d),
        forall|j: int|
            0 <= j < row@.len() && jint(Some((#[trigger] row@[j]).1)) is Some ==> !text_lt(
                row@[i].0@,
                row@[j].0@,
            ),
    ensures
        ({
            let r = calibrated_row(Some(Json::Obj(row)), d);
            match outcome_named(row@[i].0@) {
                Some(o) => r == Some(o),
                None => r == Some(Outcome::NoEffect),
            }
        }),
{
    first_reached(row@, d);
    last_named(row@);
    some_last(row@, i);
    let k = last_bucket(row@)->0;
    let j = choose|j: int|
        0 <= j < row@.len() && (#[trigger] row@[j]).0@ == k && jint(Some(row@[j].1)) is Some;
    text_lt_total(k, row@[i].0@);
}

proof fn last_named(row: Seq<(String, Json)>)
    ensures
        match last_bucket(row) {
            Some(k) => (exists|i: int|
                0 <= i < row.len() && (#[trigger] row[i]).0@ == k && jint(Some(row[i].1)) is Some)
                && forall|i: int|
                0 <= i < row.len() && jint(Some((#[trigger] row[i]).1)) is Some ==> !text_lt(
                    k,
                    row[i].0@,
                ),
            None => forall|i: int| 0 <= i < row.len() ==> jint(Some((#[trigger] row[i]).1)) is None,
        },
    decreases row.len(),
{
    if row.len() > 0 {
        let rest = row.drop_last();
        last_named(rest);
        let last = row.last();
        assert(row[row.len() - 1] == last);
        text_lt_irreflexive(last.0@);
        if let Some(k) = last_bucket(rest) {
            let i = choose|i: int|
                0 <= i < rest.len() && (#[trigger] rest[i]).0@ == k && jint(Some(rest[i].1)) is Some;
            assert(row[i].0@ == k && jint(Some(row[i].1)) is Some);
            assert forall|j: int| 0 <= j < row.len() && jint(Some((#[trigger] row[j]).1)) is Some
                && last_bucket(row) is Some implies !text_lt(last_bucket(row)->0, row[j].0@) by {
                if j < rest.len() {
                    assert(rest[j] == row[j]);
                    if jint(Some(last.1)) is Some && text_lt(k, last.0@) && text_lt(
                        last.0@,
                        row[j].0@,
                    ) {
                        text_lt_transitive(k, last.0@, row[j].0@);
                    }
                }
            }
        } else {
            assert forall|j: int| 0 <= j < rest.len() implies jint(
                Some((#[trigger] row[j]).1),
            ) is None by {
                assert(rest[j] == row[j]);
            }
        }
    }
}

} // verus!
