//! What the rules of ground, sight and observation come to.
use crate::hex::{abs, hex_distance, line, line_hex, line_steps, steps, Axial};
use crate::json::{jget, jint, jint_or, jtext};
use crate::mechanics::{
    aggregates, air, altitude_levels, blocks_at, captures, clears_mines, fatigue_per_hex,
    barrage_zone_triggers, can_enter_cover, can_lay_mines, fatigue_interval, foot_ticks,
    fortification_inherits_fire, fortification_over_capacity, fortification_terrain_applies,
    guided_fire_breaks_cover, halves, infantry_fatigue_after_rest, is_space_recon, merged,
    slope_level, split, fort_admits, fort_engages, fort_named, fort_range, gait_ticks, ground,
    ground_gait, in_sight, mode_allowed, observes, personnel, sight_ends, slope_gait, space_track,
    steep_on_foot, targetable, vehicle, FortKind,
};
use crate::ordmap::keys_where_has;
use crate::rules::{FootPace, Rules};
use crate::types::{
    cell_at, GameMap, HeliAlt, HexCell, SideId, Terrain, UnitState, UnitType, UnitV,
};
use vstd::prelude::*;

verus! {

// ---------- sight ----------

/// Whether a cell hides one level more than its ground: a town or a wood.
pub open spec fn grown_over(c: HexCell) -> bool {
    c.terrain == Terrain::Urban || c.terrain == Terrain::Forest
}

/// Two hexes at one height see each other exactly if nothing between them stands higher: no cell's
/// ground is higher, and no town or wood lies at that height.
pub proof fn level_sight(map: GameMap, a: Axial, b: Axial, a_alt: int, b_alt: int)
    requires
        cell_at(map, a) is Some,
        cell_at(map, b) is Some,
        cell_at(map, a)->0.elevation + a_alt == cell_at(map, b)->0.elevation + b_alt,
        hex_distance(a, b) > 1,
    ensures
        in_sight(map, a, b, a_alt, b_alt) <==> forall|i: int|
            0 < i < hex_distance(a, b) ==> match cell_at(map, #[trigger] line(a, b)[i]) {
                Some(c) => c.elevation < cell_at(map, a)->0.elevation + a_alt || (c.elevation
                    == cell_at(map, a)->0.elevation + a_alt && !grown_over(c)),
                None => true,
            },
{
    let n = hex_distance(a, b);
    let z = cell_at(map, a)->0.elevation + a_alt;
    let ends = sight_ends(z, z);
    assert forall|i: int| 0 < i < n implies !(#[trigger] blocks_at(map, a, b, n, i, ends)) == (
    match cell_at(map, line(a, b)[i]) {
        Some(c) => c.elevation < z || (c.elevation == z && !grown_over(c)),
        None => true,
    }) by {
        if let Some(c) = cell_at(map, line(a, b)[i]) {
            let h = c.elevation + if grown_over(c) {
                1int
            } else {
                0int
            };
            assert((z - z) * i == 0) by (nonlinear_arith);
            assert((h * n > z * n) <==> h > z) by (nonlinear_arith)
                requires
                    n > 0,
            ;
        }
    }
    if in_sight(map, a, b, a_alt, b_alt) {
        assert forall|i: int| 0 < i < n implies match cell_at(map, #[trigger] line(a, b)[i]) {
            Some(c) => c.elevation < z || (c.elevation == z && !grown_over(c)),
            None => true,
        } by {
            assert(!blocks_at(map, a, b, n, i, ends));
        }
    } else {
        let i = choose|i: int| 0 < i < n && #[trigger] blocks_at(map, a, b, n, i, ends);
        assert(0 < i < n && blocks_at(map, a, b, n, i, ends));
        assert(cell_at(map, line(a, b)[i]) is Some);
    }
}

/// From the higher of two hexes one sees over a cell exactly if the cell, with its town or wood, does
/// not rise above the straight line from one level over the higher hex down to the lower.
pub proof fn sight_from_above(map: GameMap, a: Axial, b: Axial, a_alt: int, b_alt: int)
    requires
        cell_at(map, a) is Some,
        cell_at(map, b) is Some,
        cell_at(map, a)->0.elevation + a_alt > cell_at(map, b)->0.elevation + b_alt,
        hex_distance(a, b) > 1,
    ensures
        ({
            let n = hex_distance(a, b);
            let top = cell_at(map, a)->0.elevation + a_alt + 1;
            let low = cell_at(map, b)->0.elevation + b_alt;
            in_sight(map, a, b, a_alt, b_alt) <==> forall|i: int|
                0 < i < n ==> match cell_at(map, #[trigger] line(a, b)[i]) {
                    Some(c) => (c.elevation + (if grown_over(c) {
                        1int
                    } else {
                        0int
                    }) - low) * n <= (top - low) * (n - i),
                    None => true,
                }
        }),
{
    let n = hex_distance(a, b);
    let top = cell_at(map, a)->0.elevation + a_alt + 1;
    let low = cell_at(map, b)->0.elevation + b_alt;
    let ends = sight_ends(top - 1, low);
    assert forall|i: int| 0 < i < n implies !(#[trigger] blocks_at(map, a, b, n, i, ends)) == (
    match cell_at(map, line(a, b)[i]) {
        Some(c) => (c.elevation + (if grown_over(c) {
            1int
        } else {
            0int
        }) - low) * n <= (top - low) * (n - i),
        None => true,
    }) by {
        if let Some(c) = cell_at(map, line(a, b)[i]) {
            let h = c.elevation + if grown_over(c) {
                1int
            } else {
                0int
            };
            assert((h * n <= top * n + (low - top) * i) == ((h - low) * n <= (top - low) * (n
                - i))) by (nonlinear_arith);
        }
    }
    if in_sight(map, a, b, a_alt, b_alt) {
        assert forall|i: int| 0 < i < n implies match cell_at(map, #[trigger] line(a, b)[i]) {
            Some(c) => (c.elevation + (if grown_over(c) {
                1int
            } else {
                0int
            }) - low) * n <= (top - low) * (n - i),
            None => true,
        } by {
            assert(!blocks_at(map, a, b, n, i, ends));
        }
    } else {
        let i = choose|i: int| 0 < i < n && #[trigger] blocks_at(map, a, b, n, i, ends);
        assert(0 < i < n && blocks_at(map, a, b, n, i, ends));
        assert(cell_at(map, line(a, b)[i]) is Some);
    }
}

/// Whether two boards are alike but for what grows at one hex: its ground is as high.
pub open spec fn alike_but_at(m1: GameMap, m2: GameMap, hex: Axial) -> bool {
    &&& m1.elevation_unit_meters == m2.elevation_unit_meters
    &&& forall|h: Axial| h != hex ==> #[trigger] cell_at(m1, h) == cell_at(m2, h)
    &&& match (cell_at(m1, hex), cell_at(m2, hex)) {
        (Some(a), Some(b)) => a.elevation == b.elevation,
        _ => false,
    }
}

proof fn sight_over_own_ground(m1: GameMap, m2: GameMap, a: Axial, b: Axial, x: int, y: int)
    requires
        alike_but_at(m1, m2, a),
        in_sight(m1, a, b, x, y),
    ensures
        in_sight(m2, a, b, x, y),
{
    let n = hex_distance(a, b);
    if n > 1 {
        assert(a != b);
        let ends = sight_ends(
            cell_at(m1, a)->0.elevation + x,
            cell_at(m1, b)->0.elevation + y,
        );
        assert(cell_at(m2, b) == cell_at(m1, b));
        assert forall|i: int| 0 < i < n implies !#[trigger] blocks_at(m2, a, b, n, i, ends) by {
            assert(!blocks_at(m1, a, b, n, i, ends));
            line_steps(a, b, i);
            assert(line(a, b)[i] == line_hex(a, b, n, i));
            assert(line_hex(a, b, n, i) != a);
        }
    } else if a != b {
        assert(cell_at(m2, b) == cell_at(m1, b));
    }
}

// ---------- observation ----------

/// What grows where an observer stands changes nothing of what it observes elsewhere.
pub proof fn own_ground_hides_nobody(rules: Rules, m1: GameMap, m2: GameMap, o: UnitV, u: UnitV)
    requires
        alike_but_at(m1, m2, o.pos),
        o.pos != u.pos,
    ensures
        observes(rules, m1, o, u) == observes(rules, m2, o, u),
{
    let (x, y) = (altitude_levels(rules, m1, o), altitude_levels(rules, m1, u));
    assert(x == altitude_levels(rules, m2, o) && y == altitude_levels(rules, m2, u));
    assert(cell_at(m1, u.pos) == cell_at(m2, u.pos));
    assert(alike_but_at(m2, m1, o.pos));
    if in_sight(m1, o.pos, u.pos, x, y) {
        sight_over_own_ground(m1, m2, o.pos, u.pos, x, y);
    }
    if in_sight(m2, o.pos, u.pos, x, y) {
        sight_over_own_ground(m2, m1, o.pos, u.pos, x, y);
    }
}

/// Whether a unit observes by a row of the observation table.
pub open spec fn watches_by(t: UnitType, row: Seq<char>) -> bool {
    &&& t == UnitType::Infantry ==> row == "infantry"@
    &&& t == UnitType::AttackHeli || t == UnitType::TransportHeli ==> row == "attack_heli"@
    &&& t == UnitType::Uav ==> row == "uav"@
    &&& t == UnitType::LoiteringMunition ==> row == "loitering_munition"@
    &&& t == UnitType::ReconVehicle ==> row == "recon_vehicle"@
    &&& t == UnitType::AaMissileSquad ==> row == "aa_missile_squad"@
    &&& t == UnitType::AaMissileVehicle ==> row == "aa_missile_vehicle"@
    &&& t == UnitType::Tank || t == UnitType::Ifv || t == UnitType::Artillery || t
        == UnitType::RadarVehicle || t == UnitType::Minelayer || t == UnitType::Minesweeper || t
        == UnitType::AaGun || t == UnitType::Ugv || t == UnitType::Pickup || t
        == UnitType::SpaceRecon ==> row == "vehicle"@
}

/// Whether a unit is observed by a column of the observation table.
pub open spec fn shows_by(t: UnitType, column: Seq<char>) -> bool {
    &&& t == UnitType::Infantry ==> column == "infantry"@
    &&& t == UnitType::AttackHeli || t == UnitType::TransportHeli ==> column == "attack_heli"@
    &&& t == UnitType::Uav ==> column == "uav"@
    &&& t == UnitType::LoiteringMunition ==> column == "loitering_munition"@
    &&& !air(t) && t != UnitType::Infantry ==> column == "vehicle"@
}

/// Whether cover shortens the distance at which a unit is observed: not that of a vehicle on lower
/// ground.
pub open spec fn cover_helps(map: GameMap, o: UnitV, u: UnitV) -> bool {
    u.state == UnitState::Cover && !(!air(u.unit_type) && u.unit_type != UnitType::Infantry && (
    match cell_at(map, u.pos) {
        Some(c) => c.elevation as int,
        None => 0int,
    }) < (match cell_at(map, o.pos) {
        Some(c) => c.elevation as int,
        None => 0int,
    }))
}

/// A unit is observed within the distance that the table gives for the pair, in the row of the
/// observer and the column of the observed, if there is a line of sight. Where the observed stands
/// in a town or a wood, twice its distance must be within it; where it is in cover that helps, too;
/// and with both, four times. One hex is never too far. A pair marked as adjacent needs no more than
/// to be adjacent, and a pair without a distance is never observed.
pub proof fn who_is_observed(
    rules: Rules,
    map: GameMap,
    o: UnitV,
    u: UnitV,
    row: Seq<char>,
    column: Seq<char>,
)
    requires
        watches_by(o.unit_type, row),
        shows_by(u.unit_type, column),
    ensures
        ({
            let cell = jget(jget(Some(rules.observation), row), column);
            let d = steps(o.pos, u.pos);
            let seen = in_sight(
                map,
                o.pos,
                u.pos,
                altitude_levels(rules, map, o),
                altitude_levels(rules, map, u),
            );
            let grown = cell_at(map, u.pos) is Some && grown_over(cell_at(map, u.pos)->0);
            let covered = cover_helps(map, o, u);
            if jtext(cell) == Some("adjacent"@) {
                observes(rules, map, o, u) == (d <= 1)
            } else {
                match jint(cell) {
                    None => !observes(rules, map, o, u),
                    Some(far) => observes(rules, map, o, u) == (seen && (d <= 1 || if grown
                        && covered {
                        4 * d <= far
                    } else if grown || covered {
                        2 * d <= far
                    } else {
                        d <= far
                    })),
                }
            }
        }),
{
}

/// How high an air unit flies is its altitude in metres to the nearest level of the board: a
/// transport helicopter's by its own state, any other's the one of the rules. On the ground it is
/// nothing.
pub proof fn flight_to_the_nearest_level(rules: Rules, map: GameMap, u: UnitV, metres: int, unit: int)
    requires
        map.elevation_unit_meters is Some,
        unit == map.elevation_unit_meters->0,
        unit > 0,
        metres >= 0,
        u.unit_type == UnitType::TransportHeli ==> metres == jint_or(
            jget(
                jget(Some(rules.air), "heli_altitude_meters"@),
                match u.heli_alt {
                    HeliAlt::High => "high"@,
                    HeliAlt::Low => "low"@,
                    HeliAlt::VeryLow => "very_low"@,
                },
            ),
            0,
        ),
        u.unit_type != UnitType::TransportHeli ==> metres == jint_or(
            jget(Some(rules.air), "recon_altitude_meters"@),
            0,
        ),
    ensures
        ({
            let level = altitude_levels(rules, map, u);
            &&& u.unit_type == UnitType::Uav || u.unit_type == UnitType::AttackHeli || u.unit_type
                == UnitType::TransportHeli || u.unit_type == UnitType::LoiteringMunition ==> -unit
                <= 2 * (level * unit - metres) <= unit
            &&& !(u.unit_type == UnitType::Uav || u.unit_type == UnitType::AttackHeli || u.unit_type
                == UnitType::TransportHeli || u.unit_type == UnitType::LoiteringMunition) ==> level
                == 0
        }),
{
    if air(u.unit_type) {
        let m = metres + unit / 2;
        vstd::arithmetic::div_mod::lemma_fundamental_div_mod(m, unit);
        vstd::arithmetic::div_mod::lemma_fundamental_div_mod(unit, 2);
        let level = m / unit;
        assert(level * unit == unit * level) by (nonlinear_arith);
        assert(0 <= m % unit < unit);
    }
}

// ---------- classes of units ----------

/// What each class of units is and may do.
pub proof fn classes_of_units(t: UnitType)
    ensures
        air(t) == (t == UnitType::Uav || t == UnitType::AttackHeli || t == UnitType::TransportHeli
            || t == UnitType::LoiteringMunition),
        ground(t) != air(t),
        personnel(t) == (t == UnitType::Infantry || t == UnitType::AaMissileSquad),
        captures(t) ==> ground(t) && t != UnitType::Artillery && t != UnitType::SpaceRecon,
        ground(t) && t != UnitType::Artillery && t != UnitType::SpaceRecon ==> captures(t),
        aggregates(t) == (ground(t) && t != UnitType::Artillery),
        clears_mines(t) == (t == UnitType::Tank || t == UnitType::Minesweeper),
        targetable(t) == (t != UnitType::SpaceRecon),
        vehicle(t) == (ground(t) && t != UnitType::Infantry),
{
}

/// Personnel garrisons the fortifications for personnel and vehicles those for vehicles; air units
/// garrison none. A concealed fortification is seen and fired upon from no distance, and neither
/// fires nor is fired upon; any other from the distance of exposure.
pub proof fn garrisons_by_kind(t: UnitType, far: int)
    ensures
        fort_admits(FortKind::Vehicle, t) == (ground(t) && !personnel(t)),
        fort_admits(FortKind::PersonnelCombat, t) == personnel(t),
        fort_admits(FortKind::PersonnelConcealment, t) == personnel(t),
        fort_range(FortKind::Vehicle, far) == far,
        fort_range(FortKind::PersonnelCombat, far) == far,
        fort_range(FortKind::PersonnelConcealment, far) == 0,
        fort_engages(FortKind::Vehicle) && fort_engages(FortKind::PersonnelCombat),
        !fort_engages(FortKind::PersonnelConcealment),
        fort_named("works_vehicle"@) == Some(FortKind::Vehicle),
        fort_named("works_infantry_combat"@) == Some(FortKind::PersonnelCombat),
        fort_named("works_infantry_hidden"@) == Some(FortKind::PersonnelConcealment),
        fort_named("minefield"@) is None,
        fort_named("roadblock"@) is None,
{
    reveal_strlit("works_vehicle");
    reveal_strlit("works_infantry_combat");
    reveal_strlit("works_infantry_hidden");
    reveal_strlit("minefield");
    reveal_strlit("roadblock");
    assert("works_vehicle"@.len() == 13 && "works_infantry_combat"@.len() == 21
        && "works_infantry_hidden"@.len() == 21 && "minefield"@.len() == 9 && "roadblock"@.len()
        == 9);
    assert("works_infantry_combat"@[15] == 'c' && "works_infantry_hidden"@[15] == 'h');
}

// ---------- paces ----------

/// Only charges tire; a unit without fatigue may do anything, one with some may not charge at the
/// second speed, and a very tired one may only rest.
pub proof fn tired_units_slow_down(rules: Rules, mode: UnitState, fatigue: i64)
    ensures
        mode != UnitState::Charge1 && mode != UnitState::Charge2 ==> fatigue_per_hex(rules, mode)
            == 0,
        fatigue <= 0 ==> mode_allowed(mode, fatigue),
        fatigue == 1 ==> (mode_allowed(mode, fatigue) <==> mode != UnitState::Charge2),
        fatigue >= 2 ==> (mode_allowed(mode, fatigue) <==> mode == UnitState::Cover || mode
            == UnitState::Stopped || mode == UnitState::Suppressed),
{
}

/// On foot a unit goes at the pace of its mode, and nowhere without one. It is slow where the
/// difference in height in metres, up or down, is more than the rules allow at full speed.
pub proof fn on_foot(rules: Rules, p: FootPace, metres: int, from: i32, to: i32)
    requires
        metres >= 0,
    ensures
        foot_ticks(p, UnitState::Normal) == p.normal,
        foot_ticks(p, UnitState::Moving) == p.normal,
        foot_ticks(p, UnitState::Half) == p.half,
        foot_ticks(p, UnitState::Charge1) == p.charge1,
        foot_ticks(p, UnitState::Charge2) == p.charge2,
        foot_ticks(p, UnitState::Cover) is None,
        foot_ticks(p, UnitState::Stopped) is None,
        foot_ticks(p, UnitState::Suppressed) is None,
        steep_on_foot(rules, metres, from, to) == steep_on_foot(rules, metres, to, from),
        !steep_on_foot(rules, metres, from, to) ==> -jint_or(
            jget(Some(rules.movement), "infantry_highdiff_meters_halfspeed"@),
            60,
        ) <= (to - from) * metres <= jint_or(
            jget(Some(rules.movement), "infantry_highdiff_meters_halfspeed"@),
            60,
        ),
        (to - from) * metres > jint_or(
            jget(Some(rules.movement), "infantry_highdiff_meters_halfspeed"@),
            60,
        ) ==> steep_on_foot(rules, metres, from, to),
{
    assert(abs(to - from) == abs(from - to));
    if to < from {
        assert((from - to) * metres == -((to - from) * metres)) by (nonlinear_arith);
        assert((to - from) * metres <= 0) by (nonlinear_arith)
            requires
                to < from,
                metres >= 0,
        ;
    } else {
        assert((to - from) * metres >= 0) by (nonlinear_arith)
            requires
                to >= from,
                metres >= 0,
        ;
    }
}

/// The name under which the paces of a terrain are kept.
pub open spec fn paced_as(t: Terrain, name: Seq<char>) -> bool {
    &&& t == Terrain::Forest ==> name == "forest"@
    &&& t == Terrain::Urban ==> name == "urban"@
    &&& t == Terrain::River ==> name == "river"@
    &&& t == Terrain::RiverLarge ==> name == "river_large"@
    &&& t == Terrain::Lake ==> name == "lake"@
    &&& t == Terrain::Soft ==> name == "soft"@
    &&& t == Terrain::Open ==> name == "open"@
}

/// A vehicle goes at the pace that the rules have for its type: on a road or rail hex that of the
/// road, at any height; elsewhere that of the terrain, by how many levels it climbs or descends, one
/// being as good as none and the last entry holding beyond; and not at all where that is more than
/// the rules allow. At half speed it goes at the half pace, and otherwise at the full one.
pub proof fn on_wheels(
    rules: Rules,
    t: UnitType,
    key: Seq<char>,
    terrain: Terrain,
    name: Seq<char>,
    from: i32,
    to: i32,
    mode: UnitState,
)
    requires
        typed_as(t, key),
        paced_as(terrain, name),
    ensures
        ({
            let ticks = gait_ticks(ground_gait(rules, t, terrain, from, to), mode);
            let most = jint_or(
                jget(jget(Some(rules.movement), "slope_rule"@), "impassable_above_level"@),
                5,
            );
            let climb = if to > from {
                to - from
            } else {
                from - to
            };
            &&& !rules.paces.ground@.contains_key(key) ==> ticks is None
            &&& rules.paces.ground@.contains_key(key) && (terrain == Terrain::Road || terrain
                == Terrain::Rail) ==> ticks == (if mode == UnitState::Half {
                rules.paces.ground@[key].road.half
            } else {
                rules.paces.ground@[key].road.normal
            })
            &&& terrain != Terrain::Road && terrain != Terrain::Rail && climb > most ==> ticks is None
            &&& rules.paces.ground@.contains_key(key) && terrain != Terrain::Road && terrain
                != Terrain::Rail && climb <= most ==> ({
                let rows = rules.paces.ground@[key].off_road@;
                &&& !rows.contains_key(name) ==> ticks is None
                &&& rows.contains_key(name) && rows[name].len() == 0 ==> ticks is None
                &&& rows.contains_key(name) && rows[name].len() > 0 ==> exists|i: int|
                    0 <= i < rows[name].len() && ticks == (if mode == UnitState::Half {
                        (#[trigger] rows[name][i]).half
                    } else {
                        rows[name][i].normal
                    }) && (climb <= 1 ==> i == 0) && (1 < climb <= rows[name].len() ==> i == climb
                        - 1) && (climb > rows[name].len() ==> i == rows[name].len() - 1)
            })
        }),
{
    if rules.paces.ground@.contains_key(key) && terrain != Terrain::Road && terrain
        != Terrain::Rail {
        let rows = rules.paces.ground@[key].off_road@;
        if rows.contains_key(name) && rows[name].len() > 0 {
            let slope = abs(to - from);
            let i = if slope <= 1 {
                0
            } else if slope <= rows[name].len() {
                slope - 1
            } else {
                rows[name].len() - 1
            };
            assert(slope_gait(rows[name], slope) == Some(rows[name][i]));
        }
    }
}

/// The name under which the settings of a unit type are kept.
pub open spec fn typed_as(t: UnitType, key: Seq<char>) -> bool {
    &&& t == UnitType::Tank ==> key == "tank"@
    &&& t == UnitType::Ifv ==> key == "ifv"@
    &&& t == UnitType::Infantry ==> key == "infantry"@
    &&& t == UnitType::Artillery ==> key == "artillery"@
    &&& t == UnitType::Uav ==> key == "uav"@
    &&& t == UnitType::AttackHeli ==> key == "attack_heli"@
    &&& t == UnitType::TransportHeli ==> key == "transport_heli"@
    &&& t == UnitType::LoiteringMunition ==> key == "loitering_munition"@
    &&& t == UnitType::ReconVehicle ==> key == "recon_vehicle"@
    &&& t == UnitType::RadarVehicle ==> key == "radar_vehicle"@
    &&& t == UnitType::Minelayer ==> key == "minelayer"@
    &&& t == UnitType::Minesweeper ==> key == "minesweeper"@
    &&& t == UnitType::AaGun ==> key == "aa_gun"@
    &&& t == UnitType::AaMissileSquad ==> key == "aa_missile_squad"@
    &&& t == UnitType::AaMissileVehicle ==> key == "aa_missile_vehicle"@
    &&& t == UnitType::Ugv ==> key == "ugv"@
    &&& t == UnitType::Pickup ==> key == "pickup"@
    &&& t == UnitType::SpaceRecon ==> key == "space_recon"@
}

// ---------- tracks and stacks ----------

/// Space reconnaissance tracks in each hex the enemy with the lowest id, and nobody else: what it
/// tracks is alive, on the board and of the other side, no enemy there has a lower id, and every
/// enemy on the board shares its hex with one that is tracked. Without a live reconnaissance unit it
/// tracks nobody.
pub proof fn who_is_tracked(units: Map<Seq<char>, UnitV>, side: SideId, k: Seq<char>)
    requires
        units.dom().finite(),
    ensures
        ({
            let recon = exists|r: Seq<char>| #[trigger]
                units.contains_key(r) && units[r].alive && units[r].side == side
                    && units[r].unit_type == UnitType::SpaceRecon;
            let track = space_track(units, side);
            &&& !recon ==> track.len() == 0
            &&& track.contains(k) ==> recon && units.contains_key(k) && units[k].alive
                && units[k].side != side && units[k].carried_by is None && units[k].inside_facility
                is None
            &&& track.contains(k) ==> forall|j: Seq<char>| #[trigger]
                units.contains_key(j) && units[j].alive && units[j].side != side
                    && units[j].carried_by is None && units[j].inside_facility is None
                    && units[j].pos == units[k].pos ==> !crate::text::text_lt(j, k)
            &&& recon && units.contains_key(k) && units[k].alive && units[k].side != side
                && units[k].carried_by is None && units[k].inside_facility is None
                && !track.contains(k) ==> exists|j: Seq<char>| #[trigger]
                units.contains_key(j) && units[j].alive && units[j].side != side
                    && units[j].carried_by is None && units[j].inside_facility is None
                    && units[j].pos == units[k].pos && crate::text::text_lt(j, k)
        }),
{
    let p = crate::mechanics::lowest_enemy(units, side);
    keys_where_has::<String, UnitV>(units, p, k);
    if crate::ordmap::some_entry(units, crate::mechanics::recon_of(side)) {
        if space_track(units, side).contains(k) {
            assert forall|j: Seq<char>| #[trigger] units.contains_key(j) && units[j].alive
                && units[j].side != side && units[j].carried_by is None && units[j].inside_facility
                is None && units[j].pos == units[k].pos implies !crate::text::text_lt(j, k) by {
                let q = crate::mechanics::enemy_before(side, units[k].pos, k);
                if crate::text::text_lt(j, k) {
                    assert(q(j, units[j]));
                    assert(crate::ordmap::some_entry(units, q));
                }
            }
        }
    } else {
        assert forall|r: Seq<char>| #[trigger] units.contains_key(r) implies !(units[r].alive
            && units[r].side == side && units[r].unit_type == UnitType::SpaceRecon) by {
            assert(!crate::mechanics::recon_of(side)(r, units[r]));
        }
    }
}

/// Nobody sees to or from off the board.
pub proof fn no_sight_off_the_board(map: GameMap, a: Axial, b: Axial, x: int, y: int)
    requires
        cell_at(map, a) is None || cell_at(map, b) is None,
    ensures
        !in_sight(map, a, b, x, y),
{
}

/// The interval of a rest is the one of the rules, seventy-five seconds without one, and at least one
/// second; each that is full takes a point of fatigue, and no more than there is.
pub proof fn what_rests_take(rules: Rules, fatigue: i64, n: int, more: int, r: i64)
    requires
        0 <= fatigue,
        0 <= n,
        0 <= more < fatigue_interval(rules),
        n * fatigue_interval(rules) + more <= i64::MAX,
        call_ensures(
            infantry_fatigue_after_rest,
            (&rules, fatigue, (n * fatigue_interval(rules) + more) as i64),
            r,
        ),
    ensures
        n <= fatigue ==> r == fatigue - n,
        n > fatigue ==> r == 0,
        fatigue_interval(rules) >= 1,
        jint(jget(Some(rules.movement), "infantry_fatigue_decay_seconds"@)) is None
            ==> fatigue_interval(rules) == 75,
        jint(jget(Some(rules.movement), "infantry_fatigue_decay_seconds"@)) is Some && jint(
            jget(Some(rules.movement), "infantry_fatigue_decay_seconds"@),
        )->0 >= 1 ==> fatigue_interval(rules) == jint(
            jget(Some(rules.movement), "infantry_fatigue_decay_seconds"@),
        )->0,
{
    let k = fatigue_interval(rules);
    assert(n * k >= 0) by (nonlinear_arith)
        requires
            n >= 0,
            k >= 1,
    ;
    vstd::arithmetic::div_mod::lemma_fundamental_div_mod_converse(n * k + more, k, n, more);
}

/// Units that merge have the sum of their teams and, rounded down, the average of their ammunition;
/// they do not merge without teams or above the cap. Units that split have together what there was,
/// the first no fewer than the second and at most one more.
pub proof fn how_teams_are_regrouped(a: u8, b: u8, x: u32, y: u32, cap: u8)
    ensures
        merged(a, b, x, y, cap) is Some <==> a > 0 && b > 0 && a + b <= cap,
        merged(a, b, x, y, cap) is Some ==> (merged(a, b, x, y, cap)->0).0 == a + b && 2 * (merged(
            a,
            b,
            x,
            y,
            cap,
        )->0).1 <= x + y < 2 * (merged(a, b, x, y, cap)->0).1 + 2,
        halves(a, cap) is Some <==> 2 <= a <= cap,
        halves(a, cap) is Some ==> (halves(a, cap)->0).0 + (halves(a, cap)->0).1 == a && (halves(
            a,
            cap,
        )->0).1 <= (halves(a, cap)->0).0 <= (halves(a, cap)->0).1 + 1,
{
}

/// Both parts of a split keep the ammunition of the whole.
pub proof fn splits_keep_ammunition(n: u8, ammo: u32, cap: u8, r: Option<((u8, u32), (u8, u32))>)
    requires
        call_ensures(split, (n, ammo, cap), r),
    ensures
        r is Some <==> 2 <= n <= cap,
        r is Some ==> (r->0).0.1 == ammo && (r->0).1.1 == ammo && (r->0).0.0 + (r->0).1.0 == n,
{
}

/// The answers of single questions of the rules.
pub proof fn single_questions(
    kind: FortKind,
    t: UnitType,
    n: u32,
    cap: u32,
    from: i32,
    to: i32,
    slope: i32,
    inherits: bool,
    terrain: bool,
    over: bool,
    lays: bool,
    barrage: bool,
    recon: bool,
    cover: bool,
    breaks: bool,
)
    requires
        call_ensures(fortification_inherits_fire, (kind,), inherits),
        call_ensures(fortification_terrain_applies, (kind,), terrain),
        call_ensures(fortification_over_capacity, (n, cap), over),
        call_ensures(can_lay_mines, (t,), lays),
        call_ensures(barrage_zone_triggers, (t,), barrage),
        call_ensures(is_space_recon, (t,), recon),
        call_ensures(can_enter_cover, (true,), cover),
        call_ensures(guided_fire_breaks_cover, (false,), breaks),
        call_ensures(slope_level, (from, to), slope),
    ensures
        inherits ==> kind != FortKind::Vehicle && fort_engages(kind),
        kind == FortKind::PersonnelCombat ==> inherits,
        terrain <==> fort_engages(kind),
        n <= cap ==> !over,
        n > cap ==> over,
        lays ==> t == UnitType::Minelayer,
        t == UnitType::Minelayer ==> lays,
        barrage <==> !air(t),
        recon <==> !targetable(t),
        !cover,
        !breaks,
        from <= to ==> slope == to - from,
        to <= from ==> slope == from - to,
{
}

} // verus!
