//! What texts, cells and ticks come to.
use crate::hex::{abs, direction, hex_distance, steps, Axial};
use crate::json::{entry_of, jint, jitem, Json};
use crate::mechanics::plain_shot;
use crate::prob::{table_outcome, Outcome};
use crate::rng::DrawModel;
use crate::rules::Rules;
use crate::text::{
    dec, dec_int, digit_char, is_digit, parse_digits, parse_int, parse_i64_of, parse_unsigned_of,
    text_lt,
};
use crate::time::{next_of, seconds_in_ticks, tick_sum, Tick};
use crate::types::{altitude_named, altitudes_adjacent, armor_named, cell_at, first_cell, side_in, with_side, Armor, GameMap, HeliAlt, HexCell, SideId, SideSet};
use vstd::prelude::*;

verus! {

// ---------- numbers as texts ----------

proof fn digits_stand(d: int)
    requires
        0 <= d < 10,
    ensures
        is_digit(digit_char(d)),
        digit_char(d) as u32 - '0' as u32 == d,
{
}

/// A number written in digits is read as that number.
pub proof fn digits_read_back(n: nat)
    ensures
        parse_digits(dec(n)) == Some(n),
        dec(n).len() > 0,
        is_digit(dec(n)[0]),
    decreases n,
{
    if n < 10 {
        digits_stand(n as int);
        assert(dec(n).last() == digit_char(n as int));
    } else {
        digits_read_back(n / 10);
        digits_stand((n % 10) as int);
        assert(dec(n).drop_last() =~= dec(n / 10));
        assert(dec(n).last() == digit_char((n % 10) as int));
        assert(dec(n)[0] == dec(n / 10)[0]);
    }
}

/// A whole number written out is read as that number, if it is in range.
pub proof fn numbers_read_back(n: int)
    ensures
        parse_int(dec_int(n)) == Some(n),
        i64::MIN <= n <= i64::MAX ==> parse_i64_of(dec_int(n)) == Some(n),
        0 <= n <= 255 ==> parse_unsigned_of(dec_int(n), 255) == Some(n),
{
    if n >= 0 {
        digits_read_back(n as nat);
        assert(dec_int(n) == dec(n as nat));
    } else {
        digits_read_back((-n) as nat);
        reveal_strlit("-");
        assert(dec_int(n) =~= seq!['-'] + dec((-n) as nat));
        assert(dec_int(n).drop_first() =~= dec((-n) as nat));
    }
}

/// A later letter decides nothing where an earlier one differs; and a beginning comes before the
/// whole.
pub proof fn how_texts_are_ordered(a: Seq<char>, x: char, y: char, b: Seq<char>, c: Seq<char>)
    ensures
        text_lt(seq![x] + b, seq![y] + c) <==> ((x as u32) < (y as u32) || (x == y && text_lt(b, c))),
        a.len() > 0 ==> text_lt(Seq::empty(), a),
        !text_lt(a, Seq::empty()),
{
    let (s, t) = (seq![x] + b, seq![y] + c);
    assert(s.drop_first() =~= b);
    assert(t.drop_first() =~= c);
    assert(s[0] == x && t[0] == y);
    vstd::utf8::char_u32_cast(x, x as u32);
    vstd::utf8::char_u32_cast(y, y as u32);
}

// ---------- lookups ----------

/// What stands under a key is the first entry with that key, or nothing.
pub proof fn what_stands_under_a_key(entries: Seq<(String, Json)>, key: Seq<char>, i: int)
    ensures
        0 <= i < entries.len() && entries[i].0@ == key && (forall|j: int|
            0 <= j < i ==> (#[trigger] entries[j]).0@ != key) ==> entry_of(entries, key) == Some(
            entries[i].1,
        ),
        (forall|j: int| 0 <= j < entries.len() ==> (#[trigger] entries[j]).0@ != key) ==> entry_of(
            entries,
            key,
        ) is None,
    decreases entries.len(),
{
    if entries.len() > 0 {
        let rest = entries.drop_first();
        what_stands_under_a_key(rest, key, i - 1);
        assert forall|j: int| 0 <= j < rest.len() implies #[trigger] rest[j] == entries[j + 1] by {}
    }
}

/// The cell of a hex is the first of the board with its coordinates, or none.
pub proof fn what_lies_at_a_hex(map: GameMap, hex: Axial, i: int)
    ensures
        0 <= i < map.hexes@.len() && map.hexes@[i].q == hex.q && map.hexes@[i].r == hex.r && (forall|
            j: int,
        |
            0 <= j < i ==> (#[trigger] map.hexes@[j]).q != hex.q || map.hexes@[j].r != hex.r)
            ==> cell_at(map, hex) == Some(map.hexes@[i]),
        (forall|j: int|
            0 <= j < map.hexes@.len() ==> (#[trigger] map.hexes@[j]).q != hex.q || map.hexes@[j].r
                != hex.r) ==> cell_at(map, hex) is None,
{
    cell_found(map.hexes@, hex, i);
}

proof fn cell_found(cells: Seq<HexCell>, hex: Axial, i: int)
    ensures
        0 <= i < cells.len() && cells[i].q == hex.q && cells[i].r == hex.r && (forall|j: int|
            0 <= j < i ==> (#[trigger] cells[j]).q != hex.q || cells[j].r != hex.r) ==> first_cell(
            cells,
            hex,
        ) == Some(cells[i]),
        (forall|j: int|
            0 <= j < cells.len() ==> (#[trigger] cells[j]).q != hex.q || cells[j].r != hex.r)
            ==> first_cell(cells, hex) is None,
    decreases cells.len(),
{
    if cells.len() > 0 {
        let rest = cells.drop_first();
        cell_found(rest, hex, i - 1);
        assert forall|j: int| 0 <= j < rest.len() implies #[trigger] rest[j] == cells[j + 1] by {}
    }
}

/// The names of armors and altitudes, and which altitudes are next to each other.
pub proof fn what_names_stand_for(a: HeliAlt, b: HeliAlt)
    ensures
        armor_named("composite"@) == Some(Armor::Composite),
        armor_named("heavy"@) == Some(Armor::Heavy),
        armor_named("medium"@) == Some(Armor::Medium),
        armor_named("light"@) == Some(Armor::Light),
        armor_named("none"@) == Some(Armor::Unarmored),
        altitude_named("high"@) == Some(HeliAlt::High),
        altitude_named("low"@) == Some(HeliAlt::Low),
        altitude_named("very_low"@) == Some(HeliAlt::VeryLow),
        altitudes_adjacent(HeliAlt::High, HeliAlt::Low),
        altitudes_adjacent(HeliAlt::Low, HeliAlt::VeryLow),
        altitudes_adjacent(a, b) ==> a != b && !(a == HeliAlt::High && b == HeliAlt::VeryLow),
{
    reveal_strlit("composite");
    reveal_strlit("heavy");
    reveal_strlit("medium");
    reveal_strlit("light");
    reveal_strlit("none");
    reveal_strlit("high");
    reveal_strlit("low");
    reveal_strlit("very_low");
    assert("composite"@.len() == 9 && "heavy"@.len() == 5 && "medium"@.len() == 6 && "light"@.len()
        == 5 && "none"@.len() == 4);
    assert("heavy"@[0] == 'h' && "light"@[0] == 'l');
    assert("high"@.len() == 4 && "low"@.len() == 3 && "very_low"@.len() == 8);
}

/// A side that is added to a set is in it, and the other is in it exactly if it was.
pub proof fn what_adding_a_side_does(s: SideSet, a: SideId, b: SideId)
    ensures
        side_in(with_side(s, a), b) <==> a == b || side_in(s, b),
        side_in(SideSet { red: true, blue: false }, SideId::Red),
        !side_in(SideSet { red: true, blue: false }, SideId::Blue),
{
}

// ---------- ticks and steps ----------

/// Ticks add up, and stop at the ends of the clock; a second has a hundred; a counter goes up by one,
/// and from its end to zero.
pub proof fn how_ticks_add_up(a: Tick, b: Tick, secs: int, n: u64)
    ensures
        i64::MIN <= a + b <= i64::MAX ==> tick_sum(a, b) == a + b,
        a + b > i64::MAX ==> tick_sum(a, b) == i64::MAX,
        a + b < i64::MIN ==> tick_sum(a, b) == i64::MIN,
        tick_sum(a, 0) == a,
        -1_000_000 <= secs <= 1_000_000 ==> seconds_in_ticks(secs) == secs * 100,
        n < u64::MAX ==> next_of(n) == n + 1,
        next_of(u64::MAX) == 0,
{
}

/// One step in any direction is one step away; and as many are in a straight line.
pub proof fn steps_count(a: Axial, b: Axial, dir: int)
    requires
        0 <= dir < 6,
    ensures
        b.q - a.q == direction(dir).0 && b.r - a.r == direction(dir).1 ==> hex_distance(a, b) == 1,
        hex_distance(a, a) == 0,
        hex_distance(a, b) == 0 ==> a == b,
        hex_distance(a, b) <= i32::MAX ==> steps(a, b) == hex_distance(a, b),
        b.r == a.r ==> hex_distance(a, b) == abs(b.q - a.q),
        b.q == a.q ==> hex_distance(a, b) == abs(b.r - a.r),
{
}

/// A shot by the rules' own weapons: beyond its range a weapon has no effect and draws nothing; within
/// it the result table of the weapon adjudicates its level at the distance.
pub proof fn shots_by_the_rules<R: DrawModel>(
    rules: Rules,
    from: Axial,
    to: Axial,
    weapon: Seq<char>,
    s: R::V,
)
    requires
        rules.weapons@.contains_key(weapon),
        rules.weapons@[weapon].result_table is Some,
    ensures
        ({
            let w = rules.weapons@[weapon];
            let d = steps(from, to);
            let level = match jint(jitem(Some(w.attack_level_by_distance), d as int)) {
                Some(l) => l as int,
                None => 0int,
            };
            let r = plain_shot::<R>(rules, from, to, weapon, s);
            let o = table_outcome::<R>(rules, w.result_table->0@, level, s);
            &&& r.0 is Ok
            &&& d > w.range ==> r.0->Ok_0 == Outcome::NoEffect && r.1 == s
            &&& d <= w.range ==> r.0->Ok_0 == o.0 && r.1 == o.1
        }),
{
}

} // verus!
