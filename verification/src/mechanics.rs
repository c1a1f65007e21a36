//! The rules of movement, sight, stacking, capture, fortifications and mines.
use crate::error::{command2, res, EngineError, ErrV};
use crate::hex::{abs, distance_symmetric, hex_distance, line_hex, line_hex_symmetric, line_point, steps, Axial};
use crate::json::{field, int_of, int_or, is_text, jget, jint, jint_or, jtext, Json};
use crate::ordmap::{keys_where, some_entry, views};
use crate::prob::{build_provider, table_outcome, Outcome, ProbProvider, ResolveContext};
use crate::rng::{DrawModel, Rng};
use crate::rules::{at, flat_level, FootPace, Gait, GroundPace, Rules, Weapon};
use crate::text::{join3, str_eq, str_lt, text_lt};
use crate::time::Tick;
use crate::types::{
    cell_at, on_board, GameMap, HeliAlt, HexCell, RuntimeUnit, SideId, State, Terrain, UnitState,
    UnitType, UnitV,
};
use vstd::prelude::*;

verus! {

// ---------- movement ----------

/// The difference in height between two elevations.
pub fn slope_level(from_elev: i32, to_elev: i32) -> (r: i32)
    requires
        i32::MIN < to_elev - from_elev <= i32::MAX,
    ensures
        r == abs(to_elev - from_elev),
{
    let d: i32 = to_elev - from_elev;
    if d < 0 {
        -d
    } else {
        d
    }
}

/// The configuration name of a unit type.
pub open spec fn type_key(t: UnitType) -> Seq<char> {
    match t {
        UnitType::Tank => "tank"@,
        UnitType::Ifv => "ifv"@,
        UnitType::Infantry => "infantry"@,
        UnitType::Artillery => "artillery"@,
        UnitType::Uav => "uav"@,
        UnitType::AttackHeli => "attack_heli"@,
        UnitType::TransportHeli => "transport_heli"@,
        UnitType::LoiteringMunition => "loitering_munition"@,
        UnitType::ReconVehicle => "recon_vehicle"@,
        UnitType::RadarVehicle => "radar_vehicle"@,
        UnitType::Minelayer => "minelayer"@,
        UnitType::Minesweeper => "minesweeper"@,
        UnitType::AaGun => "aa_gun"@,
        UnitType::AaMissileSquad => "aa_missile_squad"@,
        UnitType::AaMissileVehicle => "aa_missile_vehicle"@,
        UnitType::Ugv => "ugv"@,
        UnitType::Pickup => "pickup"@,
        UnitType::SpaceRecon => "space_recon"@,
    }
}

/// The configuration name of a unit type.
pub fn unit_type_key(t: UnitType) -> (r: &'static str)
    ensures
        r@ == type_key(t),
{
    match t {
        UnitType::Tank => "tank",
        UnitType::Ifv => "ifv",
        UnitType::Infantry => "infantry",
        UnitType::Artillery => "artillery",
        UnitType::Uav => "uav",
        UnitType::AttackHeli => "attack_heli",
        UnitType::TransportHeli => "transport_heli",
        UnitType::LoiteringMunition => "loitering_munition",
        UnitType::ReconVehicle => "recon_vehicle",
        UnitType::RadarVehicle => "radar_vehicle",
        UnitType::Minelayer => "minelayer",
        UnitType::Minesweeper => "minesweeper",
        UnitType::AaGun => "aa_gun",
        UnitType::AaMissileSquad => "aa_missile_squad",
        UnitType::AaMissileVehicle => "aa_missile_vehicle",
        UnitType::Ugv => "ugv",
        UnitType::Pickup => "pickup",
        UnitType::SpaceRecon => "space_recon",
    }
}

/// The name of a terrain in the tables of speeds. Roads and rails count as open.
pub open spec fn terrain_key(t: Terrain) -> Seq<char> {
    match t {
        Terrain::Forest => "forest"@,
        Terrain::Urban => "urban"@,
        Terrain::River => "river"@,
        Terrain::RiverLarge => "river_large"@,
        Terrain::Lake => "lake"@,
        Terrain::Soft => "soft"@,
        _ => "open"@,
    }
}

fn terrain_name(t: Terrain) -> (r: &'static str)
    ensures
        r@ == terrain_key(t),
{
    match t {
        Terrain::Forest => "forest",
        Terrain::Urban => "urban",
        Terrain::River => "river",
        Terrain::RiverLarge => "river_large",
        Terrain::Lake => "lake",
        Terrain::Soft => "soft",
        _ => "open",
    }
}

/// The gait of a vehicle type over one hex: a road or rail hex is taken without regard to height,
/// any other hex by its terrain and slope, and not at all beyond the impassable slope.
pub open spec fn ground_gait(
    rules: Rules,
    t: UnitType,
    terrain: Terrain,
    from_elev: i32,
    to_elev: i32,
) -> Option<Gait> {
    match at(rules.paces.ground@, type_key(t)) {
        None => None,
        Some(pace) => if terrain == Terrain::Road || terrain == Terrain::Rail {
            Some(pace.road)
        } else {
            let slope = abs(to_elev - from_elev);
            let limit = jint_or(
                jget(jget(Some(rules.movement), "slope_rule"@), "impassable_above_level"@),
                5,
            );
            if slope > limit {
                None
            } else {
                match at(pace.off_road@, terrain_key(terrain)) {
                    None => None,
                    Some(row) => slope_gait(row, slope),
                }
            }
        },
    }
}

/// The entry of a row of gaits for a slope: slopes 0 and 1 share the first, and the last holds for
/// all that are steeper.
pub open spec fn slope_gait(row: Seq<Gait>, slope: int) -> Option<Gait> {
    let i = if slope > 1 {
        slope - 1
    } else {
        0
    };
    if row.len() == 0 {
        None
    } else if i < row.len() {
        Some(row[i])
    } else {
        Some(row.last())
    }
}

/// The ticks of a gait at a movement mode.
pub open spec fn gait_ticks(g: Option<Gait>, mode: UnitState) -> Option<Tick> {
    match g {
        None => None,
        Some(g) => if mode == UnitState::Half {
            g.half
        } else {
            g.normal
        },
    }
}

/// The ticks that a vehicle type takes for one hex at a movement mode; `None` if it cannot.
pub fn ground_step_ticks(
    rules: &Rules,
    t: UnitType,
    terrain: Terrain,
    from_elev: i32,
    to_elev: i32,
    mode: UnitState,
) -> (r: Option<Tick>)
    ensures
        r == gait_ticks(ground_gait(*rules, t, terrain, from_elev, to_elev), mode),
{
    let key: String = unit_type_key(t).to_owned();
    let pace: &GroundPace = match rules.paces.ground.get(&key) {
        Some(p) => p,
        None => return None,
    };
    let gait: Gait = if terrain == Terrain::Road || terrain == Terrain::Rail {
        pace.road
    } else {
        let d: i64 = to_elev as i64 - from_elev as i64;
        let slope: i64 = if d < 0 { -d } else { d };
        let limit: i64 = int_or(
            field(field(Some(&rules.movement), "slope_rule"), "impassable_above_level"),
            5,
        );
        if slope > limit {
            return None;
        }
        let name: String = terrain_name(terrain).to_owned();
        let row: &Vec<Gait> = match pace.off_road.get(&name) {
            Some(row) => row,
            None => return None,
        };
        if row.len() == 0 {
            return None;
        }
        let i: u64 = if slope > 1 { (slope - 1) as u64 } else { 0 };
        if i < row.len() as u64 {
            row[i as usize]
        } else {
            row[row.len() - 1]
        }
    };
    if mode == UnitState::Half {
        gait.half
    } else {
        gait.normal
    }
}

/// The ticks of a pace on foot at a movement mode; nothing for a posture that does not move.
pub open spec fn foot_ticks(p: FootPace, mode: UnitState) -> Option<Tick> {
    match mode {
        UnitState::Normal | UnitState::Moving | UnitState::March => p.normal,
        UnitState::Half => p.half,
        UnitState::Charge1 => p.charge1,
        UnitState::Charge2 => p.charge2,
        UnitState::Cover | UnitState::Stopped | UnitState::Suppressed => None,
    }
}

/// Whether infantry climbs or descends more metres than it takes at full speed.
pub open spec fn steep_on_foot(
    rules: Rules,
    elevation_unit_meters: int,
    from_elev: i32,
    to_elev: i32,
) -> bool {
    abs(to_elev - from_elev) * elevation_unit_meters > jint_or(
        jget(Some(rules.movement), "infantry_highdiff_meters_halfspeed"@),
        60,
    )
}

/// The ticks that infantry takes for one hex at a movement mode. Terrain does not matter on foot;
/// a large difference in height does.
pub fn infantry_step_ticks(
    rules: &Rules,
    elevation_unit_meters: i32,
    from_elev: i32,
    to_elev: i32,
    mode: UnitState,
) -> (r: Option<Tick>)
    ensures
        r == foot_ticks(
            if steep_on_foot(*rules, elevation_unit_meters as int, from_elev, to_elev) {
                rules.paces.foot_steep
            } else {
                rules.paces.foot
            },
            mode,
        ),
{
    let d: i128 = to_elev as i128 - from_elev as i128;
    let diff: i128 = if d < 0 { -d } else { d };
    proof {
        assert(-0x1_0000_0000_0000_0000_0000 <= diff * elevation_unit_meters
            <= 0x1_0000_0000_0000_0000_0000) by (nonlinear_arith)
            requires
                0 <= diff <= 0x1_0000_0000,
                -0x8000_0000 <= elevation_unit_meters <= 0x8000_0000,
        ;
    }
    let meters: i128 = diff * elevation_unit_meters as i128;
    let limit: i64 = int_or(field(Some(&rules.movement), "infantry_highdiff_meters_halfspeed"), 60);
    let p: FootPace = if meters > limit as i128 {
        rules.paces.foot_steep
    } else {
        rules.paces.foot
    };
    match mode {
        UnitState::Normal | UnitState::Moving | UnitState::March => p.normal,
        UnitState::Half => p.half,
        UnitState::Charge1 => p.charge1,
        UnitState::Charge2 => p.charge2,
        UnitState::Cover | UnitState::Stopped | UnitState::Suppressed => None,
    }
}

/// The fatigue that infantry gains per hex at a movement mode: only charges tire.
pub open spec fn fatigue_per_hex(rules: Rules, mode: UnitState) -> i64 {
    let charge = Some(rules.movement);
    match mode {
        UnitState::Charge1 => jint_or(
            jget(jget(jget(charge, "infantry_charge"@), "charge1"@), "fatigue_per_hex"@),
            0,
        ) as i64,
        UnitState::Charge2 => jint_or(
            jget(jget(jget(charge, "infantry_charge"@), "charge2"@), "fatigue_per_hex"@),
            0,
        ) as i64,
        _ => 0,
    }
}

/// The fatigue that infantry gains per hex at a movement mode.
pub fn infantry_fatigue_per_hex(rules: &Rules, mode: UnitState) -> (r: i64)
    ensures
        r == fatigue_per_hex(*rules, mode),
{
    let key: &str = match mode {
        UnitState::Charge1 => "charge1",
        UnitState::Charge2 => "charge2",
        _ => return 0,
    };
    int_or(
        field(field(field(Some(&rules.movement), "infantry_charge"), key), "fatigue_per_hex"),
        0,
    )
}

/// Whether a posture is one that moves.
pub open spec fn moving_mode(mode: UnitState) -> bool {
    match mode {
        UnitState::Normal | UnitState::Moving | UnitState::March | UnitState::Half
        | UnitState::Charge1 | UnitState::Charge2 => true,
        _ => false,
    }
}

/// Whether fatigue permits a posture: at 1 the second charge is barred, at 2 all movement.
pub open spec fn mode_allowed(mode: UnitState, fatigue: i64) -> bool {
    !(fatigue >= 2 && moving_mode(mode)) && !(fatigue >= 1 && mode == UnitState::Charge2)
}

/// Whether fatigue permits a posture.
pub fn infantry_mode_allowed(mode: UnitState, fatigue: i64) -> (r: bool)
    ensures
        r == mode_allowed(mode, fatigue),
{
    let moves: bool = match mode {
        UnitState::Normal | UnitState::Moving | UnitState::March | UnitState::Half
        | UnitState::Charge1 | UnitState::Charge2 => true,
        _ => false,
    };
    if fatigue >= 2 && moves {
        return false;
    }
    if fatigue >= 1 && mode == UnitState::Charge2 {
        return false;
    }
    true
}

/// The seconds of rest that take away one point of fatigue; at least one.
pub open spec fn fatigue_interval(rules: Rules) -> int {
    let n = jint_or(jget(Some(rules.movement), "infantry_fatigue_decay_seconds"@), 75);
    if n < 1 {
        1
    } else {
        n
    }
}

/// The seconds of rest that take away one point of fatigue; at least one.
pub fn infantry_fatigue_decay_seconds(rules: &Rules) -> (r: i64)
    ensures
        r == fatigue_interval(*rules),
        r >= 1,
{
    let n: i64 = int_or(field(Some(&rules.movement), "infantry_fatigue_decay_seconds"), 75);
    if n < 1 {
        1
    } else {
        n
    }
}

/// The full intervals in a span of time. Those of a negative span count below zero.
pub open spec fn intervals_in(span: int, interval: int) -> int {
    if span >= 0 {
        span / interval
    } else {
        -(-span / interval)
    }
}

/// The fatigue that is left after a rest: one point less for each full interval, and never less
/// than none.
pub fn infantry_fatigue_after_rest(rules: &Rules, fatigue: i64, rest_seconds: i64) -> (r: i64)
    requires
        i64::MIN <= fatigue - intervals_in(rest_seconds as int, fatigue_interval(*rules))
            <= i64::MAX,
    ensures
        r == ({
            let left = fatigue - intervals_in(rest_seconds as int, fatigue_interval(*rules));
            if left < 0 {
                0
            } else {
                left
            }
        }),
{
    let interval: i64 = infantry_fatigue_decay_seconds(rules);
    let points: i128 = if rest_seconds >= 0 {
        (rest_seconds / interval) as i128
    } else {
        -(-(rest_seconds as i128) / interval as i128)
    };
    let left: i128 = fatigue as i128 - points;
    if left < 0 {
        0
    } else {
        left as i64
    }
}

// ---------- line of sight ----------

/// The height that a cell blocks sight with: towns and woods add one level.
pub open spec fn blocking_height(c: HexCell) -> int {
    c.elevation + if c.terrain == Terrain::Urban || c.terrain == Terrain::Forest {
        1int
    } else {
        0int
    }
}

/// The heights that the sight line runs between: the higher end is raised by one level.
pub open spec fn sight_ends(a: int, b: int) -> (int, int) {
    if a > b {
        (a + 1, b)
    } else if a < b {
        (a, b + 1)
    } else {
        (a, b)
    }
}

/// Whether the cell at step `i` of `n` rises above the sight line between heights `ends`.
pub open spec fn blocks_at(map: GameMap, from: Axial, to: Axial, n: int, i: int, ends: (int, int)) -> bool {
    match cell_at(map, line_hex(from, to, n, i)) {
        Some(c) => blocking_height(c) * n > ends.0 * n + (ends.1 - ends.0) * i,
        None => false,
    }
}

/// Whether two hexes see each other with their ends raised by `from_alt` and `to_alt` levels: both
/// lie on the board, and they are adjacent or no cell between them rises above the sight line.
pub open spec fn in_sight(map: GameMap, from: Axial, to: Axial, from_alt: int, to_alt: int) -> bool {
    match (cell_at(map, from), cell_at(map, to)) {
        (Some(a), Some(b)) => {
            let n = hex_distance(from, to);
            let ends = sight_ends(a.elevation + from_alt, b.elevation + to_alt);
            n <= 1 || forall|i: int| 0 < i < n ==> !#[trigger] blocks_at(map, from, to, n, i, ends)
        },
        _ => false,
    }
}

/// Whether two hexes see each other.
pub fn line_of_sight(map: &GameMap, from: &Axial, to: &Axial) -> (r: bool)
    ensures
        r == in_sight(*map, *from, *to, 0, 0),
{
    line_of_sight_alt(map, from, to, 0, 0)
}

/// Whether two hexes see each other with their ends raised by `from_alt` and `to_alt` levels.
pub fn line_of_sight_alt(
    map: &GameMap,
    from: &Axial,
    to: &Axial,
    from_alt: i64,
    to_alt: i64,
) -> (r: bool)
    ensures
        r == in_sight(*map, *from, *to, from_alt as int, to_alt as int),
{
    let a: &HexCell = match map.cell(from) {
        Some(c) => c,
        None => return false,
    };
    let b: &HexCell = match map.cell(to) {
        Some(c) => c,
        None => return false,
    };
    let n: i64 = from.distance_wide(to);
    if n <= 1 {
        return true;
    }
    let ea: i128 = a.elevation as i128 + from_alt as i128;
    let eb: i128 = b.elevation as i128 + to_alt as i128;
    let ends: (i128, i128) = if ea > eb {
        (ea + 1, eb)
    } else if ea < eb {
        (ea, eb + 1)
    } else {
        (ea, eb)
    };
    let ghost ends_v = sight_ends(a.elevation + from_alt, b.elevation + to_alt);
    let mut i: i64 = 1;
    while i < n
        invariant
            1 <= i <= n,
            n == hex_distance(*from, *to),
            n <= 0x2_0000_0000,
            (ends.0 as int, ends.1 as int) == ends_v,
            -0x1_0000_0000_0000_0000 <= ends.0 <= 0x1_0000_0000_0000_0000,
            -0x1_0000_0000_0000_0000 <= ends.1 <= 0x1_0000_0000_0000_0000,
            forall|j: int| 0 < j < i ==> !#[trigger] blocks_at(*map, *from, *to, n as int, j, ends_v),
            cell_at(*map, *from) is Some,
            cell_at(*map, *to) is Some,
            ends_v == sight_ends(
                cell_at(*map, *from)->0.elevation + from_alt,
                cell_at(*map, *to)->0.elevation + to_alt,
            ),
        decreases n - i,
    {
        let h: Axial = line_point(from, to, n, i);
        match map.cell(&h) {
            Some(c) => {
                let bonus: i128 = if c.terrain == Terrain::Urban || c.terrain == Terrain::Forest {
                    1
                } else {
                    0
                };
                let blocking: i128 = c.elevation as i128 + bonus;
                proof {
                    small_product(blocking as int, n as int);
                    small_product(ends.0 as int, n as int);
                    small_product(ends.1 - ends.0, i as int);
                }
                let sight: i128 = ends.0 * n as i128 + (ends.1 - ends.0) * i as i128;
                if blocking * n as i128 > sight {
                    assert(blocks_at(*map, *from, *to, n as int, i as int, ends_v));
                    return false;
                }
            },
            None => {},
        }
        i += 1;
    }
    true
}

proof fn small_product(x: int, y: int)
    requires
        -0x4_0000_0000_0000_0000 <= x <= 0x4_0000_0000_0000_0000,
        0 <= y <= 0x4_0000_0000,
    ensures
        -0x10_0000_0000_0000_0000_0000_0000 <= x * y <= 0x10_0000_0000_0000_0000_0000_0000,
{
    assert(-0x4_0000_0000_0000_0000 * y <= x * y <= 0x4_0000_0000_0000_0000 * y)
        by (nonlinear_arith)
        requires
            -0x4_0000_0000_0000_0000 <= x <= 0x4_0000_0000_0000_0000,
            0 <= y,
    ;
}

/// Sight is symmetric: who sees is seen.
pub proof fn sight_symmetric(map: GameMap, a: Axial, b: Axial, a_alt: int, b_alt: int)
    ensures
        in_sight(map, a, b, a_alt, b_alt) == in_sight(map, b, a, b_alt, a_alt),
{
    if in_sight(map, a, b, a_alt, b_alt) {
        sight_swaps(map, a, b, a_alt, b_alt);
    }
    if in_sight(map, b, a, b_alt, a_alt) {
        sight_swaps(map, b, a, b_alt, a_alt);
    }
}

proof fn sight_swaps(map: GameMap, a: Axial, b: Axial, a_alt: int, b_alt: int)
    requires
        in_sight(map, a, b, a_alt, b_alt),
    ensures
        in_sight(map, b, a, b_alt, a_alt),
{
    distance_symmetric(a, b);
    let n = hex_distance(a, b);
    let ca = cell_at(map, a)->0;
    let cb = cell_at(map, b)->0;
    let ends = sight_ends(ca.elevation + a_alt, cb.elevation + b_alt);
    let back = sight_ends(cb.elevation + b_alt, ca.elevation + a_alt);
    assert(back == (ends.1, ends.0));
    if n > 1 {
        assert forall|i: int| 0 < i < n implies !#[trigger] blocks_at(map, b, a, n, i, back) by {
            assert(!blocks_at(map, a, b, n, n - i, ends));
            line_hex_symmetric(b, a, n, i);
            let (x, y) = ends;
            assert(x * n + (y - x) * (n - i) == y * n + (x - y) * i) by (nonlinear_arith);
        }
    }
}

/// Who rises sees no less: what two hexes see of each other they still see from higher up.
pub proof fn higher_sees_no_less(
    map: GameMap,
    a: Axial,
    b: Axial,
    a_alt: int,
    b_alt: int,
    a_more: int,
    b_more: int,
)
    requires
        in_sight(map, a, b, a_alt, b_alt),
        a_alt <= a_more,
        b_alt <= b_more,
    ensures
        in_sight(map, a, b, a_more, b_more),
{
    one_end_rises(map, a, b, a_alt, b_alt, a_more);
    sight_swaps(map, a, b, a_more, b_alt);
    one_end_rises(map, b, a, b_alt, a_more, b_more);
    sight_swaps(map, b, a, b_more, a_more);
}

proof fn one_end_rises(map: GameMap, a: Axial, b: Axial, a_alt: int, b_alt: int, more: int)
    requires
        in_sight(map, a, b, a_alt, b_alt),
        a_alt <= more,
    ensures
        in_sight(map, a, b, more, b_alt),
{
    let n = hex_distance(a, b);
    let x = cell_at(map, a)->0.elevation + a_alt;
    let x2 = cell_at(map, a)->0.elevation + more;
    let y = cell_at(map, b)->0.elevation + b_alt;
    let ends = sight_ends(x, y);
    let ends2 = sight_ends(x2, y);
    if n > 1 {
        assert forall|i: int| 0 < i < n implies !#[trigger] blocks_at(map, a, b, n, i, ends2) by {
            assert(!blocks_at(map, a, b, n, i, ends));
            if let Some(c) = cell_at(map, line_hex(a, b, n, i)) {
                let h = blocking_height(c);
                let (p, q) = ends;
                let (p2, q2) = ends2;
                if q2 >= q {
                    assert(p * n + (q - p) * i <= p2 * n + (q2 - p2) * i) by (nonlinear_arith)
                        requires
                            p <= p2,
                            q <= q2,
                            0 < i < n,
                    ;
                } else {
                    assert(h <= y) by (nonlinear_arith)
                        requires
                            h * n <= p * n + (q - p) * i,
                            p < q,
                            q == y + 1,
                            0 < i < n,
                    ;
                    assert(h * n <= p2 * n + (q2 - p2) * i) by (nonlinear_arith)
                        requires
                            h <= y,
                            y <= p2,
                            q2 == y,
                            0 < i < n,
                    ;
                }
            }
        }
    }
}

/// Adjacent hexes of the board always see each other.
pub proof fn adjacent_in_sight(map: GameMap, a: Axial, b: Axial, a_alt: int, b_alt: int)
    requires
        cell_at(map, a) is Some,
        cell_at(map, b) is Some,
        hex_distance(a, b) <= 1,
    ensures
        in_sight(map, a, b, a_alt, b_alt),
{
}

// ---------- unit classes ----------

/// The observation table's name for a unit that observes.
pub open spec fn observer_kind(t: UnitType) -> Seq<char> {
    match t {
        UnitType::Infantry => "infantry"@,
        UnitType::AttackHeli | UnitType::TransportHeli => "attack_heli"@,
        UnitType::Uav => "uav"@,
        UnitType::LoiteringMunition => "loitering_munition"@,
        UnitType::ReconVehicle => "recon_vehicle"@,
        UnitType::AaMissileSquad => "aa_missile_squad"@,
        UnitType::AaMissileVehicle => "aa_missile_vehicle"@,
        _ => "vehicle"@,
    }
}

/// The observation table's name for a unit that observes.
pub fn observer_category(t: UnitType) -> (r: &'static str)
    ensures
        r@ == observer_kind(t),
{
    match t {
        UnitType::Infantry => "infantry",
        UnitType::AttackHeli | UnitType::TransportHeli => "attack_heli",
        UnitType::Uav => "uav",
        UnitType::LoiteringMunition => "loitering_munition",
        UnitType::ReconVehicle => "recon_vehicle",
        UnitType::AaMissileSquad => "aa_missile_squad",
        UnitType::AaMissileVehicle => "aa_missile_vehicle",
        _ => "vehicle",
    }
}

/// The observation table's name for a unit that is observed.
pub open spec fn target_kind(t: UnitType) -> Seq<char> {
    match t {
        UnitType::Infantry => "infantry"@,
        UnitType::AttackHeli | UnitType::TransportHeli => "attack_heli"@,
        UnitType::Uav => "uav"@,
        UnitType::LoiteringMunition => "loitering_munition"@,
        _ => "vehicle"@,
    }
}

/// The observation table's name for a unit that is observed.
pub fn target_category(t: UnitType) -> (r: &'static str)
    ensures
        r@ == target_kind(t),
{
    match t {
        UnitType::Infantry => "infantry",
        UnitType::AttackHeli | UnitType::TransportHeli => "attack_heli",
        UnitType::Uav => "uav",
        UnitType::LoiteringMunition => "loitering_munition",
        _ => "vehicle",
    }
}

/// Whether a unit counts as a vehicle where it is observed and where it marches.
pub open spec fn vehicle(t: UnitType) -> bool {
    match t {
        UnitType::Infantry | UnitType::AttackHeli | UnitType::TransportHeli | UnitType::Uav
        | UnitType::LoiteringMunition => false,
        _ => true,
    }
}

/// Whether a unit counts as a vehicle where it is observed and where it marches.
pub fn is_vehicle(t: UnitType) -> (r: bool)
    ensures
        r == vehicle(t),
{
    match t {
        UnitType::Infantry | UnitType::AttackHeli | UnitType::TransportHeli | UnitType::Uav
        | UnitType::LoiteringMunition => false,
        _ => true,
    }
}

/// The air units: drones, helicopters and loitering munitions.
pub open spec fn air(t: UnitType) -> bool {
    match t {
        UnitType::Uav | UnitType::AttackHeli | UnitType::TransportHeli
        | UnitType::LoiteringMunition => true,
        _ => false,
    }
}

/// Whether a unit is an air unit.
pub fn is_air(t: UnitType) -> (r: bool)
    ensures
        r == air(t),
{
    match t {
        UnitType::Uav | UnitType::AttackHeli | UnitType::TransportHeli
        | UnitType::LoiteringMunition => true,
        _ => false,
    }
}

/// The ground units: all that are no air units.
pub open spec fn ground(t: UnitType) -> bool {
    !air(t)
}

/// Whether a unit is a ground unit.
pub fn is_ground(t: UnitType) -> (r: bool)
    ensures
        r == ground(t),
{
    !is_air(t)
}

/// Division towards zero.
pub open spec fn quotient(a: int, b: int) -> int {
    if a >= 0 {
        a / b
    } else {
        -((-a) / b)
    }
}

/// The name of a helicopter's altitude.
pub open spec fn altitude_key(a: HeliAlt) -> Seq<char> {
    match a {
        HeliAlt::High => "high"@,
        HeliAlt::Low => "low"@,
        HeliAlt::VeryLow => "very_low"@,
    }
}

/// The name of a helicopter's altitude.
pub fn altitude_name(a: HeliAlt) -> (r: &'static str)
    ensures
        r@ == altitude_key(a),
{
    match a {
        HeliAlt::High => "high",
        HeliAlt::Low => "low",
        HeliAlt::VeryLow => "very_low",
    }
}

/// How high a unit flies above its hex, in metres.
pub open spec fn flight_meters(rules: Rules, u: UnitV) -> int {
    if u.unit_type == UnitType::TransportHeli {
        jint_or(
            jget(jget(Some(rules.air), "heli_altitude_meters"@), altitude_key(u.heli_alt)),
            0,
        )
    } else {
        jint_or(jget(Some(rules.air), "recon_altitude_meters"@), 0)
    }
}

/// How high a unit flies above its hex, in elevation levels to the nearest; 0 on the ground.
pub open spec fn altitude_levels(rules: Rules, map: GameMap, u: UnitV) -> int {
    let unit = match map.elevation_unit_meters {
        Some(m) => m as int,
        None => 0,
    };
    if !air(u.unit_type) || unit == 0 {
        0
    } else {
        quotient(flight_meters(rules, u) + unit / 2, unit)
    }
}

/// How high a unit flies above its hex, in elevation levels to the nearest; 0 on the ground.
pub fn air_altitude_levels(rules: &Rules, map: &GameMap, u: &RuntimeUnit) -> (r: i64)
    ensures
        r == altitude_levels(*rules, *map, u@),
{
    if !is_air(u.unit_type) {
        return 0;
    }
    let meters: i64 = if u.unit_type == UnitType::TransportHeli {
        int_or(
            field(field(Some(&rules.air), "heli_altitude_meters"), altitude_name(u.heli_alt)),
            0,
        )
    } else {
        int_or(field(Some(&rules.air), "recon_altitude_meters"), 0)
    };
    let unit: u32 = match map.elevation_unit_meters {
        Some(m) => m,
        None => 0,
    };
    if unit == 0 {
        return 0;
    }
    let n: i128 = meters as i128 + (unit / 2) as i128;
    let d: i128 = unit as i128;
    proof {
        quotient_bound(meters as int, unit as int);
    }
    if n >= 0 {
        (n / d) as i64
    } else {
        (-((-n) / d)) as i64
    }
}

proof fn quotient_bound(m: int, u: int)
    requires
        u >= 1,
        i64::MIN <= m <= i64::MAX,
    ensures
        i64::MIN <= quotient(m + u / 2, u) <= i64::MAX,
{
    let n = m + u / 2;
    if u == 1 {
        assert(n == m);
        assert(n / 1 == n && (-n) / 1 == -n);
    } else if n >= 0 {
        assert(n / u <= i64::MAX) by (nonlinear_arith)
            requires
                u >= 2,
                0 <= n <= i64::MAX + u / 2,
        {
            if n / u > i64::MAX {
                assert(n >= (i64::MAX + 1) * u) by (nonlinear_arith)
                    requires
                        n / u >= i64::MAX + 1,
                        u >= 2,
                ;
                assert((i64::MAX + 1) * u > i64::MAX + u) by (nonlinear_arith)
                    requires
                        u >= 2,
                ;
            }
        }
        assert(n / u >= 0) by (nonlinear_arith)
            requires
                n >= 0,
                u >= 2,
        ;
    } else {
        assert(0 <= (-n) / u <= -n) by (nonlinear_arith)
            requires
                -n >= 0,
                u >= 2,
        ;
        assert(-n <= -m);
    }
}

// ---------- capture and aggregation ----------

/// Air units, artillery and space reconnaissance capture nothing.
pub open spec fn captures(t: UnitType) -> bool {
    ground(t) && t != UnitType::Artillery && t != UnitType::SpaceRecon
}

/// Whether a unit may capture a control point.
pub fn can_capture(t: UnitType) -> (r: bool)
    ensures
        r == captures(t),
{
    is_ground(t) && t != UnitType::Artillery && t != UnitType::SpaceRecon
}

/// Whether a unit may be merged and split.
pub open spec fn aggregates(t: UnitType) -> bool {
    ground(t) && t != UnitType::Artillery
}

/// Whether a unit may be merged and split: ground units but artillery.
pub fn supports_aggregation(t: UnitType) -> (r: bool)
    ensures
        r == aggregates(t),
{
    is_ground(t) && t != UnitType::Artillery
}

/// Two units merged: the sum of the teams, where both have some and the sum is within the cap, and
/// the average ammunition rounded down.
pub open spec fn merged(a: u8, b: u8, ammo_a: u32, ammo_b: u32, max_squads: u8) -> Option<(u8, u32)> {
    if a == 0 || b == 0 || a + b > max_squads {
        None
    } else {
        Some(((a + b) as u8, ((ammo_a + ammo_b) / 2) as u32))
    }
}

/// Merges two units' teams and ammunition.
pub fn aggregate(a: u8, b: u8, ammo_a: u32, ammo_b: u32, max_squads: u8) -> (r: Option<(u8, u32)>)
    ensures
        r == merged(a, b, ammo_a, ammo_b, max_squads),
{
    if a == 0 || b == 0 {
        return None;
    }
    if a as u32 + b as u32 > max_squads as u32 {
        return None;
    }
    Some((a + b, ((ammo_a as u64 + ammo_b as u64) / 2) as u32))
}

/// A unit's teams in two halves, the larger first; a single team does not split, and no unit has
/// more than the cap.
pub open spec fn halves(n: u8, max_squads: u8) -> Option<(u8, u8)> {
    if n < 2 || n > max_squads {
        None
    } else {
        Some(((n - n / 2) as u8, (n / 2) as u8))
    }
}

/// Splits a unit's teams.
pub fn split_squads(n: u8, max_squads: u8) -> (r: Option<(u8, u8)>)
    ensures
        r == halves(n, max_squads),
{
    if n < 2 || n > max_squads {
        return None;
    }
    Some((n - n / 2, n / 2))
}

/// Splits a unit's teams; both halves keep the ammunition.
pub fn split(n: u8, ammo: u32, max_squads: u8) -> (r: Option<((u8, u32), (u8, u32))>)
    ensures
        r == (match halves(n, max_squads) {
            Some(h) => Some(((h.0, ammo), (h.1, ammo))),
            None => None,
        }),
{
    match split_squads(n, max_squads) {
        Some((a, b)) => Some(((a, ammo), (b, ammo))),
        None => None,
    }
}

/// The halves of a unit add up to it, differ by at most one team, and merge into it again.
pub proof fn split_then_merge(n: u8, ammo: u32, max_squads: u8)
    ensures
        match halves(n, max_squads) {
            Some((a, b)) => a + b == n && b <= a <= b + 1 && b >= 1 && merged(
                a,
                b,
                ammo,
                ammo,
                max_squads,
            ) == Some((n, ammo)),
            None => n < 2 || n > max_squads,
        },
{
}

/// A merged unit can be split, and its halves have as many teams as the two units had.
pub proof fn merge_then_split(a: u8, b: u8, ammo_a: u32, ammo_b: u32, max_squads: u8)
    ensures
        match merged(a, b, ammo_a, ammo_b, max_squads) {
            Some((n, ammo)) => {
                &&& match halves(n, max_squads) {
                    Some((x, y)) => x + y == a + b,
                    None => false,
                }
                &&& ammo <= ammo_a || ammo <= ammo_b
            },
            None => true,
        },
{
}

// ---------- the march ----------

/// The ticks of one hex on the march along a road; nothing for a road that cannot be marched on.
pub open spec fn march_ticks(rules: Rules, road_kind: Seq<char>) -> Option<Tick> {
    at(rules.paces.march@, road_kind)
}

/// The ticks of one hex on the march along a road of a kind.
pub fn march_step_ticks(rules: &Rules, road_kind: &str) -> (r: Option<Tick>)
    ensures
        r == march_ticks(*rules, road_kind@),
{
    match rules.paces.march.get(&road_kind.to_owned()) {
        Some(t) => Some(*t),
        None => None,
    }
}

/// Whether a cell's road leaves it in a direction.
pub open spec fn road_exits(c: HexCell, dir: u8) -> bool {
    match c.road {
        Some(r) => r.connects@.contains(dir),
        None => false,
    }
}

/// Whether a cell's road leaves it in a direction.
pub fn road_allows_direction(cell: &HexCell, dir: u8) -> (r: bool)
    ensures
        r == road_exits(*cell, dir),
{
    match &cell.road {
        Some(road) => {
            let mut i: usize = 0;
            while i < road.connects.len()
                invariant
                    i <= road.connects@.len(),
                    cell.road == Some(*road),
                    forall|j: int| 0 <= j < i ==> road.connects@[j] != dir,
                decreases road.connects@.len() - i,
            {
                if road.connects[i] == dir {
                    assert(road.connects@[i as int] == dir);
                    return true;
                }
                i += 1;
            }
            false
        },
        None => false,
    }
}

/// A live unit on the board at `hex` that is not marching.
pub open spec fn halts_march(hex: Axial) -> spec_fn(Seq<char>, UnitV) -> bool {
    |k: Seq<char>, u: UnitV| u.alive && on_board(u) && u.pos == hex && u.state != UnitState::March
}

/// Whether a marching unit may enter `hex`: a unit that is not itself marching blocks it.
pub fn march_allows_entry(state: &State, hex: Axial) -> (r: bool)
    ensures
        r == !some_entry(state.units@, halts_march(hex)),
{
    let ghost p = halts_march(hex);
    let f = |k: &String, u: &RuntimeUnit| -> (b: bool)
        ensures b == p(k@, u@)
    {
        u.alive && u.is_on_board() && u.pos == hex && u.state != UnitState::March
    };
    !state.units.any(f, Ghost(p))
}

// ---------- fortifications ----------

#[derive(Debug, Clone, Copy, PartialEq, Eq, Structural)]
pub enum FortKind {
    /// For vehicles. It is seen and fired upon at a distance and absorbs what hits it.
    Vehicle,
    /// For personnel. It is seen and fired upon at a distance; those inside take what hits it.
    PersonnelCombat,
    /// For personnel. It is seen in its own hex only and cannot be fired out of or upon.
    PersonnelConcealment,
}

/// The kind of fortification that a scenario names.
pub open spec fn fort_named(kind: Seq<char>) -> Option<FortKind> {
    if kind == "works_vehicle"@ {
        Some(FortKind::Vehicle)
    } else if kind == "works_infantry_combat"@ {
        Some(FortKind::PersonnelCombat)
    } else if kind == "works_infantry_hidden"@ {
        Some(FortKind::PersonnelConcealment)
    } else {
        None
    }
}

impl FortKind {
    /// Reads a facility kind; `None` for a facility that is no fortification.
    pub fn from_facility_kind(kind: &str) -> (r: Option<Self>)
        ensures
            r == fort_named(kind@),
    {
        if str_eq(kind, "works_vehicle") {
            Some(FortKind::Vehicle)
        } else if str_eq(kind, "works_infantry_combat") {
            Some(FortKind::PersonnelCombat)
        } else if str_eq(kind, "works_infantry_hidden") {
            Some(FortKind::PersonnelConcealment)
        } else {
            None
        }
    }
}

/// Infantry and missile squads; every other ground unit is a vehicle.
pub open spec fn personnel(t: UnitType) -> bool {
    t == UnitType::Infantry || t == UnitType::AaMissileSquad
}

/// Whether a unit is personnel.
pub fn is_personnel(t: UnitType) -> (r: bool)
    ensures
        r == personnel(t),
{
    t == UnitType::Infantry || t == UnitType::AaMissileSquad
}

/// Whether a unit may garrison a kind of fortification.
pub open spec fn fort_admits(kind: FortKind, t: UnitType) -> bool {
    ground(t) && (kind == FortKind::Vehicle <==> !personnel(t))
}

/// Whether a unit may garrison a kind of fortification: vehicles the vehicle kind, personnel the
/// two others, air units none.
pub fn fortification_admits(kind: FortKind, unit_type: UnitType) -> (r: bool)
    ensures
        r == fort_admits(kind, unit_type),
{
    if !is_ground(unit_type) {
        return false;
    }
    match kind {
        FortKind::Vehicle => !is_personnel(unit_type),
        FortKind::PersonnelCombat | FortKind::PersonnelConcealment => is_personnel(unit_type),
    }
}

/// The range at which a kind of fortification is seen and fired upon.
pub open spec fn fort_range(kind: FortKind, exposed_range: int) -> int {
    if kind == FortKind::PersonnelConcealment {
        0
    } else {
        exposed_range
    }
}

/// The range at which a kind of fortification is seen and fired upon.
pub fn fortification_observe_range(kind: FortKind, exposed_range: i64) -> (r: i64)
    ensures
        r == fort_range(kind, exposed_range as int),
{
    match kind {
        FortKind::Vehicle | FortKind::PersonnelCombat => exposed_range,
        FortKind::PersonnelConcealment => 0,
    }
}

/// Whether a garrison may fire out, and be fired upon.
pub open spec fn fort_engages(kind: FortKind) -> bool {
    kind != FortKind::PersonnelConcealment
}

/// Whether a garrison may fire out, and be fired upon.
pub fn fortification_can_engage(kind: FortKind) -> (r: bool)
    ensures
        r == fort_engages(kind),
{
    kind != FortKind::PersonnelConcealment
}

/// Whether the garrison takes what hits the fortification: in the combat kind only.
pub fn fortification_inherits_fire(kind: FortKind) -> (r: bool)
    ensures
        r == (kind == FortKind::PersonnelCombat),
{
    kind == FortKind::PersonnelCombat
}

/// Whether the terrain of the hex counts for a fortification: not for the concealed kind.
pub fn fortification_terrain_applies(kind: FortKind) -> (r: bool)
    ensures
        r == (kind != FortKind::PersonnelConcealment),
{
    kind != FortKind::PersonnelConcealment
}

/// Whether a fortification must expel its garrison: its teams exceed the remaining capacity.
pub fn fortification_over_capacity(occupant_squads: u32, remaining_capacity: u32) -> (r: bool)
    ensures
        r == (occupant_squads > remaining_capacity),
{
    occupant_squads > remaining_capacity
}

// ---------- mines, barrages, space reconnaissance ----------

/// Whether a unit may lay mines.
pub fn can_lay_mines(t: UnitType) -> (r: bool)
    ensures
        r == (t == UnitType::Minelayer),
{
    t == UnitType::Minelayer
}

/// Whether a unit opens a lane by crossing a minefield at half speed.
pub open spec fn clears_mines(t: UnitType) -> bool {
    t == UnitType::Minesweeper || t == UnitType::Tank
}

/// Whether a unit opens a lane by crossing a minefield at half speed.
pub fn can_clear_minefield(t: UnitType) -> (r: bool)
    ensures
        r == clears_mines(t),
{
    t == UnitType::Minesweeper || t == UnitType::Tank
}

/// Whether crossing the edge of a barrage zone harms a unit: ground units only.
pub fn barrage_zone_triggers(t: UnitType) -> (r: bool)
    ensures
        r == ground(t),
{
    is_ground(t)
}

/// Whether a unit is space reconnaissance.
pub fn is_space_recon(t: UnitType) -> (r: bool)
    ensures
        r == (t == UnitType::SpaceRecon),
{
    t == UnitType::SpaceRecon
}

/// Whether a unit may be fired upon at all.
pub open spec fn targetable(t: UnitType) -> bool {
    t != UnitType::SpaceRecon
}

/// Whether a unit may be fired upon at all: all but space reconnaissance.
pub fn can_be_targeted(t: UnitType) -> (r: bool)
    ensures
        r == targetable(t),
{
    t != UnitType::SpaceRecon
}

/// A live space reconnaissance unit of a side.
pub open spec fn recon_of(side: SideId) -> spec_fn(Seq<char>, UnitV) -> bool {
    |k: Seq<char>, u: UnitV| u.alive && u.side == side && u.unit_type == UnitType::SpaceRecon
}

/// A live enemy of a side on the board.
pub open spec fn enemy_on_board(side: SideId) -> spec_fn(Seq<char>, UnitV) -> bool {
    |k: Seq<char>, u: UnitV| u.alive && u.side != side && on_board(u)
}

/// A live enemy of a side on the board at `hex` whose id precedes `id`.
pub open spec fn enemy_before(side: SideId, hex: Axial, id: Seq<char>) -> spec_fn(
    Seq<char>,
    UnitV,
) -> bool {
    |k: Seq<char>, u: UnitV| enemy_on_board(side)(k, u) && u.pos == hex && text_lt(k, id)
}

/// The live enemy of a side on the board with the lowest id in its hex.
pub open spec fn lowest_enemy(units: Map<Seq<char>, UnitV>, side: SideId) -> spec_fn(
    Seq<char>,
    UnitV,
) -> bool {
    |k: Seq<char>, u: UnitV|
        enemy_on_board(side)(k, u) && !some_entry(units, enemy_before(side, u.pos, k))
}

/// The enemies that a side's space reconnaissance tracks: with a live reconnaissance unit, the one
/// with the lowest id in each hex; without one, none.
pub open spec fn space_track(units: Map<Seq<char>, UnitV>, side: SideId) -> Seq<Seq<char>> {
    if some_entry(units, recon_of(side)) {
        keys_where::<String, UnitV>(units, lowest_enemy(units, side))
    } else {
        Seq::empty()
    }
}

fn is_lowest(state: &State, side: SideId, id: &String, u: &RuntimeUnit) -> (r: bool)
    ensures
        r == lowest_enemy(state.units@, side)(id@, u@),
{
    if !(u.alive && u.side != side && u.is_on_board()) {
        return false;
    }
    let hex: Axial = u.pos;
    let ghost p = enemy_before(side, hex, id@);
    let f = |k: &String, o: &RuntimeUnit| -> (b: bool)
        ensures b == p(k@, o@)
    {
        o.alive && o.side != side && o.is_on_board() && o.pos == hex && str_lt(
            k.as_str(),
            id.as_str(),
        )
    };
    !state.units.any(f, Ghost(p))
}

/// The ids of the enemies that a side's space reconnaissance tracks, in order.
pub fn space_recon_reveals(state: &State, viewer_side: SideId) -> (r: Vec<String>)
    ensures
        views(r@) == space_track(state.units@, viewer_side),
        forall|i: int| 0 <= i < r@.len() ==> state.units@.contains_key((#[trigger] r@[i])@),
{
    let ghost p = recon_of(viewer_side);
    let f = |k: &String, u: &RuntimeUnit| -> (b: bool)
        ensures b == p(k@, u@)
    {
        u.alive && u.side == viewer_side && u.unit_type == UnitType::SpaceRecon
    };
    if !state.units.any(f, Ghost(p)) {
        let none: Vec<String> = Vec::new();
        proof {
            assert(views(none@) =~= Seq::<Seq<char>>::empty());
        }
        return none;
    }
    let ghost q = lowest_enemy(state.units@, viewer_side);
    let g = |k: &String, u: &RuntimeUnit| -> (b: bool)
        ensures b == q(k@, u@)
    {
        is_lowest(state, viewer_side, k, u)
    };
    state.units.select(g, Ghost(q))
}

// ---------- stacking and capture ----------

/// A live ground unit of a side on the board at `dest`, other than `mover`.
pub open spec fn stacked_at(side: SideId, dest: Axial, mover: Seq<char>) -> spec_fn(
    Seq<char>,
    UnitV,
) -> bool {
    |k: Seq<char>, u: UnitV|
        u.alive && u.side == side && ground(u.unit_type) && u.unit_type != UnitType::SpaceRecon
            && on_board(u) && u.pos == dest && u.id != mover
}

/// Whether `dest` has room for one more ground unit of a side, not counting `mover` itself.
pub open spec fn stack_room(
    units: Map<Seq<char>, UnitV>,
    side: SideId,
    dest: Axial,
    mover: Seq<char>,
    cap: i64,
) -> bool {
    keys_where::<String, UnitV>(units, stacked_at(side, dest, mover)).len() < cap
}

/// Whether a side may move a unit into `dest`: fewer than `cap` of its other ground units are there.
pub fn stacking_allows_entry(
    state: &State,
    side: SideId,
    dest: Axial,
    mover_id: &str,
    cap: i64,
) -> (r: bool)
    ensures
        r == stack_room(state.units@, side, dest, mover_id@, cap),
{
    let ghost p = stacked_at(side, dest, mover_id@);
    let f = |k: &String, u: &RuntimeUnit| -> (b: bool)
        ensures b == p(k@, u@)
    {
        u.alive && u.side == side && is_ground(u.unit_type) && !is_space_recon(u.unit_type)
            && u.is_on_board() && u.pos == dest && !str_eq(u.id.as_str(), mover_id)
    };
    let there: Vec<String> = state.units.select(f, Ghost(p));
    proof {
        assert(views(there@).len() == there@.len());
    }
    (there.len() as i128) < cap as i128
}

/// A live ground unit on the board that is no unit of `side`, within `radius` of `center`.
pub open spec fn contests(side: SideId, center: Axial, radius: i64) -> spec_fn(
    Seq<char>,
    UnitV,
) -> bool {
    |k: Seq<char>, u: UnitV|
        u.alive && u.side != side && ground(u.unit_type) && u.unit_type != UnitType::SpaceRecon
            && on_board(u) && steps(center, u.pos) <= radius
}

/// Whether no enemy ground unit contests an objective.
pub fn capture_zone_clear(state: &State, center: Axial, capturing_side: SideId, radius: i64) -> (r:
    bool)
    ensures
        r == !some_entry(state.units@, contests(capturing_side, center, radius)),
{
    let ghost p = contests(capturing_side, center, radius);
    let f = |k: &String, u: &RuntimeUnit| -> (b: bool)
        ensures b == p(k@, u@)
    {
        u.alive && u.side != capturing_side && is_ground(u.unit_type) && !is_space_recon(
            u.unit_type,
        ) && u.is_on_board() && center.distance(&u.pos) as i64 <= radius
    };
    !state.units.any(f, Ghost(p))
}

// ---------- cover ----------

/// Whether a unit may begin to take cover: not while it is suppressed.
pub fn can_enter_cover(suppressed: bool) -> (r: bool)
    ensures
        r == !suppressed,
{
    !suppressed
}

/// Whether guided fire breaks a unit's cover: that of the guided unit, not of the guide.
pub fn guided_fire_breaks_cover(is_guided: bool) -> (r: bool)
    ensures
        r == is_guided,
{
    is_guided
}

// ---------- observation ----------

/// The elevation at a hex; 0 off the board.
pub open spec fn elevation_of(map: GameMap, pos: Axial) -> int {
    match cell_at(map, pos) {
        Some(c) => c.elevation as int,
        None => 0,
    }
}

/// The elevation at a hex; 0 off the board.
pub fn elev_at(map: &GameMap, pos: &Axial) -> (r: i64)
    ensures
        r == elevation_of(*map, *pos),
        i32::MIN <= r <= i32::MAX,
{
    match map.cell(pos) {
        Some(c) => c.elevation as i64,
        None => 0,
    }
}

/// The terrain at a hex of the board.
pub open spec fn terrain_of(map: GameMap, pos: Axial) -> Option<Terrain> {
    match cell_at(map, pos) {
        Some(c) => Some(c.terrain),
        None => None,
    }
}

/// The terrain at a hex of the board.
pub fn terrain_at(map: &GameMap, pos: &Axial) -> (r: Option<Terrain>)
    ensures
        r == terrain_of(*map, *pos),
{
    match map.cell(pos) {
        Some(c) => Some(c.terrain),
        None => None,
    }
}

/// Half a distance, rounded down; a distance that is not positive stays.
pub open spec fn halved(d: int) -> int {
    if d > 0 {
        d / 2
    } else {
        d
    }
}

/// The distance at which a target is observed, from the distance of the table: cover halves it,
/// unless the target is a vehicle below the observer, and so do towns and woods; a target that can
/// be observed at all is observed one hex away.
pub open spec fn observed_range(map: GameMap, observer: UnitV, target: UnitV, base: int) -> int {
    let negated = vehicle(target.unit_type) && elevation_of(map, target.pos) < elevation_of(
        map,
        observer.pos,
    );
    let covered = if target.state == UnitState::Cover && !negated {
        halved(base)
    } else {
        base
    };
    let t = terrain_of(map, target.pos);
    let hidden = if t == Some(Terrain::Urban) || t == Some(Terrain::Forest) {
        halved(covered)
    } else {
        covered
    };
    if hidden > 1 {
        hidden
    } else {
        1
    }
}

/// Whether one unit observes another: the table gives a distance for the pair, there is a line of
/// sight, and the target is within its observed range. A pair marked adjacent needs only that.
pub open spec fn observes(rules: Rules, map: GameMap, observer: UnitV, target: UnitV) -> bool {
    let entry = jget(
        jget(Some(rules.observation), observer_kind(observer.unit_type)),
        target_kind(target.unit_type),
    );
    let dist = steps(observer.pos, target.pos);
    if jtext(entry) == Some("adjacent"@) {
        dist <= 1
    } else {
        match jint(entry) {
            None => false,
            Some(base) => in_sight(
                map,
                observer.pos,
                target.pos,
                altitude_levels(rules, map, observer),
                altitude_levels(rules, map, target),
            ) && dist <= observed_range(map, observer, target, base as int),
        }
    }
}

/// Half a distance, rounded down; a distance that is not positive stays.
pub(crate) fn half_of(d: i64) -> (r: i64)
    ensures
        r == halved(d as int),
{
    if d > 0 {
        d / 2
    } else {
        d
    }
}

/// Whether `observer` observes `target`.
pub fn can_observe(rules: &Rules, map: &GameMap, observer: &RuntimeUnit, target: &RuntimeUnit) -> (r:
    bool)
    ensures
        r == observes(*rules, *map, observer@, target@),
{
    let entry: Option<&Json> = field(
        field(Some(&rules.observation), observer_category(observer.unit_type)),
        target_category(target.unit_type),
    );
    let dist: i32 = observer.pos.distance(&target.pos);
    if is_text(entry, "adjacent") {
        return dist <= 1;
    }
    let base: i64 = match int_of(entry) {
        Some(n) => n,
        None => return false,
    };
    let a: i64 = air_altitude_levels(rules, map, observer);
    let b: i64 = air_altitude_levels(rules, map, target);
    if !line_of_sight_alt(map, &observer.pos, &target.pos, a, b) {
        return false;
    }
    let mut eff: i64 = base;
    if target.state == UnitState::Cover {
        let negated: bool = is_vehicle(target.unit_type) && elev_at(map, &target.pos) < elev_at(
            map,
            &observer.pos,
        );
        if !negated {
            eff = half_of(eff);
        }
    }
    match terrain_at(map, &target.pos) {
        Some(Terrain::Urban) | Some(Terrain::Forest) => {
            eff = half_of(eff);
        },
        _ => {},
    }
    let reach: i64 = if eff > 1 { eff } else { 1 };
    dist as i64 <= reach
}

// ---------- the plain direct shot ----------

/// A direct shot by the weapons and result tables of the rules: beyond the weapon's range nothing
/// happens; within it the backend of the weapon's table resolves the level at the distance.
pub open spec fn plain_shot<R: DrawModel>(
    rules: Rules,
    from: Axial,
    to: Axial,
    weapon_id: Seq<char>,
    s: R::V,
) -> (Result<Outcome, ErrV>, R::V) {
    match at(rules.weapons@, weapon_id) {
        None => (Err(EngineError::Command("unknown weapon "@ + weapon_id)), s),
        Some(w) => if steps(from, to) > w.range {
            (Ok(Outcome::NoEffect), s)
        } else {
            match w.result_table {
                None => (
                    Err(EngineError::Rules("weapon "@ + weapon_id + " has no resultTable"@)),
                    s,
                ),
                Some(t) => {
                    let level = match flat_level(w, steps(from, to) as int) {
                        Some(l) => l as int,
                        None => 0,
                    };
                    let o = table_outcome::<R>(rules, t@, level, s);
                    (Ok(o.0), o.1)
                },
            }
        },
    }
}

/// Resolves a direct shot by the weapons and result tables of the rules.
pub fn resolve_direct_fire<R: Rng>(
    rules: &Rules,
    shooter_pos: &Axial,
    target_pos: &Axial,
    weapon_id: &str,
    rng: &mut R,
) -> (r: Result<Outcome, EngineError>)
    ensures
        (res(r), final(rng)@) == plain_shot::<R>(
            *rules,
            *shooter_pos,
            *target_pos,
            weapon_id@,
            old(rng)@,
        ),
{
    let weapon: &Weapon = match rules.weapons.get(&weapon_id.to_owned()) {
        Some(w) => w,
        None => return Err(command2("unknown weapon ", weapon_id)),
    };
    let dist: i32 = shooter_pos.distance(target_pos);
    if dist > weapon.range {
        return Ok(Outcome::NoEffect);
    }
    let table_id: String = match &weapon.result_table {
        Some(t) => t.clone(),
        None => return Err(
            EngineError::rules_text(join3("weapon ", weapon_id, " has no resultTable")),
        ),
    };
    let level: i64 = match weapon.flat_attack_level(dist) {
        Some(l) => l,
        None => 0,
    };
    let provider = build_provider(rules, table_id.as_str());
    let ctx = ResolveContext { table_id, attack_level: level };
    Ok(provider.resolve(&ctx, rng))
}

} // verus!
