//! The beginning of a match: the scenario is checked, and the state built from it.
use crate::combat::OutcomeLog;
use crate::engine::laws_start::{accepted_matches_begin_soundly, begins_soundly};
use crate::engine::model as m;
use crate::engine::model::{EngineV, Id, TimedV};
use crate::engine::Engine;
use crate::error::{rules_error, EngineError, ErrV};
use crate::hex::Axial;
use crate::json::{field, int_of, jget, jint, Json};
use crate::mechanics;
use crate::mechanics::{fort_named, ground, vehicle, FortKind};
use crate::ordmap::{lists, some_entry, sorted_keys, views, OrdMap};
use crate::rng::{pcg_seeded, PcgRng};
use crate::rules::{at, setting, Rules, Tables};
use crate::text::{
    debug_quoted, dec, dec_int, has_char, i64_text, join2, join3, join5, quoted, str_eq, u64_text,
};
use crate::types::{
    armor_named, cell_at, dup_opt, opt_text, Armor, ControlPoint, Facility, FacilityV, GameMap,
    HeliAlt, RuntimeFacility, RuntimeMinefield, RuntimeUnit, Scenario, ScenarioUnit, SideId, SideSet,
    State, UnitState, UnitType, UnitV, WeaponState,
};
use vstd::prelude::*;
use vstd::string::*;

verus! {

// ---------- words for messages ----------

/// A hex as messages write it.
pub open spec fn hex_text(h: Axial) -> Seq<char> {
    "Axial { q: "@ + dec_int(h.q as int) + ", r: "@ + dec_int(h.r as int) + " }"@
}

fn hex_words(h: Axial) -> (r: String)
    ensures
        r@ == hex_text(h),
{
    join5(
        "Axial { q: ",
        i64_text(h.q as i64).as_str(),
        ", r: ",
        i64_text(h.r as i64).as_str(),
        " }",
    )
}

/// A unit type as messages write it.
pub open spec fn type_text(t: UnitType) -> Seq<char> {
    match t {
        UnitType::Tank => "Tank"@,
        UnitType::Ifv => "Ifv"@,
        UnitType::Infantry => "Infantry"@,
        UnitType::Artillery => "Artillery"@,
        UnitType::Uav => "Uav"@,
        UnitType::AttackHeli => "AttackHeli"@,
        UnitType::TransportHeli => "TransportHeli"@,
        UnitType::LoiteringMunition => "LoiteringMunition"@,
        UnitType::ReconVehicle => "ReconVehicle"@,
        UnitType::RadarVehicle => "RadarVehicle"@,
        UnitType::Minelayer => "Minelayer"@,
        UnitType::Minesweeper => "Minesweeper"@,
        UnitType::AaGun => "AaGun"@,
        UnitType::AaMissileSquad => "AaMissileSquad"@,
        UnitType::AaMissileVehicle => "AaMissileVehicle"@,
        UnitType::Ugv => "Ugv"@,
        UnitType::Pickup => "Pickup"@,
        UnitType::SpaceRecon => "SpaceRecon"@,
    }
}

fn type_words(t: UnitType) -> (r: &'static str)
    ensures
        r@ == type_text(t),
{
    match t {
        UnitType::Tank => "Tank",
        UnitType::Ifv => "Ifv",
        UnitType::Infantry => "Infantry",
        UnitType::Artillery => "Artillery",
        UnitType::Uav => "Uav",
        UnitType::AttackHeli => "AttackHeli",
        UnitType::TransportHeli => "TransportHeli",
        UnitType::LoiteringMunition => "LoiteringMunition",
        UnitType::ReconVehicle => "ReconVehicle",
        UnitType::RadarVehicle => "RadarVehicle",
        UnitType::Minelayer => "Minelayer",
        UnitType::Minesweeper => "Minesweeper",
        UnitType::AaGun => "AaGun",
        UnitType::AaMissileSquad => "AaMissileSquad",
        UnitType::AaMissileVehicle => "AaMissileVehicle",
        UnitType::Ugv => "Ugv",
        UnitType::Pickup => "Pickup",
        UnitType::SpaceRecon => "SpaceRecon",
    }
}

/// A speed that is no posture, as messages write it.
pub open spec fn speed_text(s: UnitState) -> Seq<char> {
    match s {
        UnitState::Half => "Half"@,
        UnitState::Charge1 => "Charge1"@,
        _ => "Charge2"@,
    }
}

// ---------- the first thing that is wrong ----------

/// The first error among checks `i..n`.
pub open spec fn first_error(check: spec_fn(int) -> Option<ErrV>, i: int, n: int) -> Option<ErrV>
    decreases n - i,
{
    if i >= n {
        None
    } else {
        match check(i) {
            Some(x) => Some(x),
            None => first_error(check, i + 1, n),
        }
    }
}

/// An error that some checks have found.
pub open spec fn found(r: Option<EngineError>) -> Option<ErrV> {
    match r {
        Some(x) => Some(x@),
        None => None,
    }
}

// ---------- units ----------

/// A unit at the beginning of a match.
pub open spec fn enlisted(u: ScenarioUnit, side: SideId) -> UnitV {
    RuntimeUnit {
        id: u.id@,
        side,
        unit_type: u.unit_type,
        armor: match u.armor {
            Some(a) => a,
            None => Armor::Unarmored,
        },
        teams: u.teams,
        pos: u.at,
        facing: u.facing,
        state: match u.state {
            Some(s) => s,
            None => UnitState::Normal,
        },
        weapon_state: WeaponState::Deployed,
        busy_until: 0,
        suppressed_until: 0,
        alive: true,
        carried_by: opt_text(u.carried_by),
        affiliated_to: opt_text(u.affiliated_to),
        heli_alt: HeliAlt::Low,
        inside_facility: None,
        fatigue: 0,
    }
}

/// The units of a side added to a roster; a later unit takes the place of an earlier one with its
/// id.
pub open spec fn enlist(units: Map<Id, UnitV>, list: Seq<ScenarioUnit>, side: SideId) -> Map<Id, UnitV>
    decreases list.len(),
{
    if list.len() == 0 {
        units
    } else {
        enlist(units, list.drop_last(), side).insert(list.last().id@, enlisted(list.last(), side))
    }
}

/// The units of both sides.
pub open spec fn roster(s: Scenario) -> Map<Id, UnitV> {
    enlist(
        enlist(Map::empty(), s.sides.red.units@, SideId::Red),
        s.sides.blue.units@,
        SideId::Blue,
    )
}

/// Whether a unit of a list stands off the board.
pub open spec fn placing(map: GameMap, list: Seq<ScenarioUnit>) -> spec_fn(int) -> Option<ErrV> {
    |i: int|
        if cell_at(map, list[i].at) is None {
            Some(
                EngineError::Scenario(
                    "unit "@ + list[i].id@ + " placed off-map at "@ + hex_text(list[i].at),
                ),
            )
        } else {
            None::<ErrV>
        }
}

fn enlist_side(
    map: &GameMap,
    list: &Vec<ScenarioUnit>,
    side: SideId,
    units: &mut OrdMap<String, RuntimeUnit>,
) -> (r: Option<EngineError>)
    ensures
        found(r) == first_error(placing(*map, list@), 0, list@.len() as int),
        r is None ==> final(units)@ == enlist(old(units)@, list@, side),
{
    let ghost before = units@;
    let ghost check = placing(*map, list@);
    let mut i: usize = 0;
    proof {
        assert(list@.take(0) =~= Seq::<ScenarioUnit>::empty());
    }
    while i < list.len()
        invariant
            i <= list@.len(),
            check == placing(*map, list@),
            first_error(check, 0, list@.len() as int) == first_error(
                check,
                i as int,
                list@.len() as int,
            ),
            units@ == enlist(before, list@.take(i as int), side),
        decreases list@.len() - i,
    {
        let u: &ScenarioUnit = &list[i];
        proof {
            let t = list@.take(i + 1);
            assert(t.drop_last() =~= list@.take(i as int));
            assert(t.last() == list@[i as int]);
        }
        if map.cell(&u.at).is_none() {
            return Some(
                EngineError::Scenario(
                    join2(
                        join3("unit ", u.id.as_str(), " placed off-map at ").as_str(),
                        hex_words(u.at).as_str(),
                    ),
                ),
            );
        }
        let unit: RuntimeUnit = RuntimeUnit {
            id: u.id.clone(),
            side,
            unit_type: u.unit_type,
            armor: match u.armor {
                Some(a) => a,
                None => Armor::Unarmored,
            },
            teams: u.teams,
            pos: u.at,
            facing: u.facing,
            state: match u.state {
                Some(s) => s,
                None => UnitState::Normal,
            },
            weapon_state: WeaponState::Deployed,
            busy_until: 0,
            suppressed_until: 0,
            alive: true,
            carried_by: dup_opt(&u.carried_by),
            affiliated_to: dup_opt(&u.affiliated_to),
            heli_alt: HeliAlt::Low,
            inside_facility: None,
            fatigue: 0,
        };
        units.insert(u.id.clone(), unit);
        i += 1;
    }
    proof {
        assert(list@.take(list@.len() as int) =~= list@);
    }
    None
}

// ---------- control points, fortifications, minefields ----------

/// The control points, all neutral.
pub open spec fn neutral(points: Seq<ControlPoint>) -> Map<Id, Option<SideId>>
    decreases points.len(),
{
    if points.len() == 0 {
        Map::empty()
    } else {
        neutral(points.drop_last()).insert(points.last().id@, None)
    }
}

fn neutral_points(points: &Vec<ControlPoint>) -> (r: OrdMap<String, Option<SideId>>)
    ensures
        r@ == neutral(points@),
{
    let mut control: OrdMap<String, Option<SideId>> = OrdMap::new();
    let mut i: usize = 0;
    proof {
        assert(points@.take(0) =~= Seq::<ControlPoint>::empty());
    }
    while i < points.len()
        invariant
            i <= points@.len(),
            control@ == neutral(points@.take(i as int)),
        decreases points@.len() - i,
    {
        proof {
            let t = points@.take(i + 1);
            assert(t.drop_last() =~= points@.take(i as int));
            assert(t.last() == points@[i as int]);
        }
        control.insert(points[i].id.clone(), None);
        i += 1;
    }
    proof {
        assert(points@.take(points@.len() as int) =~= points@);
    }
    control
}

/// The side that an owner's name stands for.
pub open spec fn owner_named(o: Option<String>) -> Option<SideId> {
    match o {
        Some(s) => if s@ == "red"@ {
            Some(SideId::Red)
        } else if s@ == "blue"@ {
            Some(SideId::Blue)
        } else {
            None
        },
        None => None,
    }
}

fn owner_of(o: &Option<String>) -> (r: Option<SideId>)
    ensures
        r == owner_named(*o),
{
    match o {
        Some(s) => if str_eq(s.as_str(), "red") {
            Some(SideId::Red)
        } else if str_eq(s.as_str(), "blue") {
            Some(SideId::Blue)
        } else {
            None
        },
        None => None,
    }
}

/// The capacity of a fortification that does not say; 0 where the rules give no byte.
pub open spec fn base_capacity(rules: Rules) -> u8 {
    match setting(rules.fortification, "capacity_squads"@) {
        Some(n) => if 0 <= n <= 255 {
            n as u8
        } else {
            0
        },
        None => 0,
    }
}

/// The id of the fortification that stands at place `i` of the scenario's facilities.
pub open spec fn works_id(i: nat) -> Id {
    "FAC"@ + dec(i)
}

/// A fortification at the beginning of a match.
pub open spec fn built(f: Facility, i: nat, cap: u8) -> FacilityV {
    RuntimeFacility {
        id: works_id(i),
        kind: f.kind@,
        at: f.at,
        owner: owner_named(f.owner),
        capacity: match f.capacity {
            Some(c) => c,
            None => cap,
        },
        armor: match f.armor {
            Some(s) => match armor_named(s@) {
                Some(a) => a,
                None => Armor::Unarmored,
            },
            None => Armor::Unarmored,
        },
    }
}

/// The fortifications among the first `n` facilities.
pub open spec fn works_of(list: Seq<Facility>, cap: u8, n: int) -> Map<Id, FacilityV>
    decreases n,
{
    if n <= 0 {
        Map::empty()
    } else {
        let rest = works_of(list, cap, n - 1);
        let f = list[n - 1];
        if fort_named(f.kind@) is Some {
            rest.insert(works_id((n - 1) as nat), built(f, (n - 1) as nat, cap))
        } else {
            rest
        }
    }
}

/// Whether a fortification of a list stands off the board.
pub open spec fn building(map: GameMap, list: Seq<Facility>) -> spec_fn(int) -> Option<ErrV> {
    |i: int|
        if fort_named(list[i].kind@) is Some && cell_at(map, list[i].at) is None {
            Some(
                EngineError::Scenario(
                    "工事 #"@ + dec(i as nat) + " ("@ + list[i].kind@ + ") is placed off-map at "@
                        + hex_text(list[i].at),
                ),
            )
        } else {
            None::<ErrV>
        }
}

fn build_works(
    map: &GameMap,
    list: &Vec<Facility>,
    cap: u8,
    works: &mut OrdMap<String, RuntimeFacility>,
) -> (r: Option<EngineError>)
    requires
        old(works)@ == Map::<Id, FacilityV>::empty(),
    ensures
        found(r) == first_error(building(*map, list@), 0, list@.len() as int),
        r is None ==> final(works)@ == works_of(list@, cap, list@.len() as int),
{
    let ghost check = building(*map, list@);
    let mut i: usize = 0;
    while i < list.len()
        invariant
            i <= list@.len(),
            check == building(*map, list@),
            first_error(check, 0, list@.len() as int) == first_error(
                check,
                i as int,
                list@.len() as int,
            ),
            works@ == works_of(list@, cap, i as int),
        decreases list@.len() - i,
    {
        let f: &Facility = &list[i];
        if FortKind::from_facility_kind(f.kind.as_str()).is_some() {
            if map.cell(&f.at).is_none() {
                return Some(
                    EngineError::Scenario(
                        join2(
                            join5(
                                "工事 #",
                                u64_text(i as u64).as_str(),
                                " (",
                                f.kind.as_str(),
                                ") is placed off-map at ",
                            ).as_str(),
                            hex_words(f.at).as_str(),
                        ),
                    ),
                );
            }
            let id: String = join2("FAC", u64_text(i as u64).as_str());
            let armor: Armor = match &f.armor {
                Some(s) => match Armor::parse(s.as_str()) {
                    Some(a) => a,
                    None => Armor::Unarmored,
                },
                None => Armor::Unarmored,
            };
            let w: RuntimeFacility = RuntimeFacility {
                id: id.clone(),
                kind: f.kind.clone(),
                at: f.at,
                owner: owner_of(&f.owner),
                capacity: match f.capacity {
                    Some(c) => c,
                    None => cap,
                },
                armor,
            };
            works.insert(id, w);
        }
        i += 1;
    }
    None
}

/// A minefield at the beginning of a match.
pub open spec fn mined(f: Facility) -> RuntimeMinefield {
    RuntimeMinefield {
        at: f.at,
        owner: owner_named(f.owner),
        cleared_by: SideSet { red: false, blue: false },
    }
}

/// The minefields among the first `n` facilities.
pub open spec fn mines_of(list: Seq<Facility>, n: int) -> Map<Axial, RuntimeMinefield>
    decreases n,
{
    if n <= 0 {
        Map::empty()
    } else {
        let rest = mines_of(list, n - 1);
        let f = list[n - 1];
        if f.kind@ == "minefield"@ {
            rest.insert(f.at, mined(f))
        } else {
            rest
        }
    }
}

/// Whether a minefield of a list lies off the board.
pub open spec fn mining(map: GameMap, list: Seq<Facility>) -> spec_fn(int) -> Option<ErrV> {
    |i: int|
        if list[i].kind@ == "minefield"@ && cell_at(map, list[i].at) is None {
            Some(EngineError::Scenario("雷场 is placed off-map at "@ + hex_text(list[i].at)))
        } else {
            None::<ErrV>
        }
}

fn lay_fields(map: &GameMap, list: &Vec<Facility>, mines: &mut OrdMap<Axial, RuntimeMinefield>) -> (r:
    Option<EngineError>)
    requires
        old(mines)@ == Map::<Axial, RuntimeMinefield>::empty(),
    ensures
        found(r) == first_error(mining(*map, list@), 0, list@.len() as int),
        r is None ==> final(mines)@ == mines_of(list@, list@.len() as int),
{
    let ghost check = mining(*map, list@);
    let mut i: usize = 0;
    while i < list.len()
        invariant
            i <= list@.len(),
            check == mining(*map, list@),
            first_error(check, 0, list@.len() as int) == first_error(
                check,
                i as int,
                list@.len() as int,
            ),
            mines@ == mines_of(list@, i as int),
        decreases list@.len() - i,
    {
        let f: &Facility = &list[i];
        if str_eq(f.kind.as_str(), "minefield") {
            if map.cell(&f.at).is_none() {
                return Some(
                    EngineError::Scenario(
                        join2("雷场 is placed off-map at ", hex_words(f.at).as_str()),
                    ),
                );
            }
            mines.insert(
                f.at,
                RuntimeMinefield {
                    at: f.at,
                    owner: owner_of(&f.owner),
                    cleared_by: SideSet::empty(),
                },
            );
        }
        i += 1;
    }
    None
}

// ---------- the rules ----------

/// What the rules of a match must hold: how many units stack, and how high air units fly.
pub open spec fn rules_error_of(rules: Rules) -> Option<ErrV> {
    let bands = jget(Some(rules.air), "heli_altitude_meters"@);
    if setting(rules.control, "stacking_max_ground_units_per_hex"@) is None {
        Some(EngineError::Rules("missing control.stacking_max_ground_units_per_hex"@))
    } else if setting(rules.air, "recon_altitude_meters"@) is None {
        Some(EngineError::Rules("missing air.recon_altitude_meters"@))
    } else if jint(jget(bands, "high"@)) is None {
        Some(EngineError::Rules("missing air.heli_altitude_meters.high"@))
    } else if jint(jget(bands, "low"@)) is None {
        Some(EngineError::Rules("missing air.heli_altitude_meters.low"@))
    } else if jint(jget(bands, "very_low"@)) is None {
        Some(EngineError::Rules("missing air.heli_altitude_meters.very_low"@))
    } else {
        None
    }
}

fn check_rules(rules: &Rules) -> (r: Option<EngineError>)
    ensures
        found(r) == rules_error_of(*rules),
{
    if rules.stacking_cap().is_none() {
        return Some(rules_error("missing control.stacking_max_ground_units_per_hex"));
    }
    if int_of(field(Some(&rules.air), "recon_altitude_meters")).is_none() {
        return Some(rules_error("missing air.recon_altitude_meters"));
    }
    let bands: Option<&Json> = field(Some(&rules.air), "heli_altitude_meters");
    if int_of(field(bands, "high")).is_none() {
        return Some(rules_error("missing air.heli_altitude_meters.high"));
    }
    if int_of(field(bands, "low")).is_none() {
        return Some(rules_error("missing air.heli_altitude_meters.low"));
    }
    if int_of(field(bands, "very_low")).is_none() {
        return Some(rules_error("missing air.heli_altitude_meters.very_low"));
    }
    None
}

// ---------- checks of each unit ----------

/// The mark in ids of units that are split off is kept for them.
pub open spec fn id_error(u: UnitV) -> Option<ErrV> {
    if u.id.contains('#') {
        Some(
            EngineError::Scenario(
                "unit id "@ + debug_quoted(u.id)
                    + " may not contain '#' (reserved for 三.17 解聚 child ids)"@,
            ),
        )
    } else {
        None
    }
}

/// Only vehicles but artillery begin on the march, and none at a speed that is no posture.
pub open spec fn posture_error(u: UnitV) -> Option<ErrV> {
    if u.state == UnitState::March && !(vehicle(u.unit_type) && u.unit_type
        != UnitType::Artillery) {
        Some(
            EngineError::Scenario(
                u.id + " ("@ + type_text(u.unit_type)
                    + ") cannot start in 行军 — only a 车辆 marches (三.1.3)"@,
            ),
        )
    } else if u.state == UnitState::Half || u.state == UnitState::Charge1 || u.state
        == UnitState::Charge2 {
        Some(
            EngineError::Scenario(
                u.id + " cannot start in "@ + speed_text(u.state)
                    + " — 半速/一二级冲锋 are per-move speeds (move_to mode:…), not postures"@,
            ),
        )
    } else {
        None
    }
}

/// A manned vehicle, which others may belong to.
pub open spec fn manned(t: UnitType) -> bool {
    ground(t) && t != UnitType::Ugv && t != UnitType::Infantry && t != UnitType::AaMissileSquad
}

/// An unmanned vehicle belongs to a manned one of its side; infantry may; no other unit does.
pub open spec fn affiliation_error(units: Map<Id, UnitV>, u: UnitV) -> Option<ErrV> {
    match u.affiliated_to {
        None => if u.unit_type == UnitType::Ugv {
            Some(
                EngineError::Scenario(
                    "无人战车 "@ + u.id
                        + " must declare a 隶属 vehicle (affiliatedTo) — 三.13b"@,
                ),
            )
        } else {
            None
        },
        Some(parent) => if u.unit_type != UnitType::Ugv && u.unit_type != UnitType::Infantry {
            Some(
                EngineError::Scenario(
                    "only 步兵/无人战车 may have a 隶属 vehicle, but "@ + u.id + " ("@ + type_text(
                        u.unit_type,
                    ) + ") does"@,
                ),
            )
        } else if parent == u.id {
            Some(EngineError::Scenario(u.id + " is 隶属 to itself"@))
        } else {
            match at(units, parent) {
                None => Some(
                    EngineError::Scenario(u.id + " is 隶属 to unknown unit "@ + parent),
                ),
                Some(v) => if v.side != u.side || !manned(v.unit_type) {
                    Some(
                        EngineError::Scenario(
                            u.id + " must be 隶属 to a same-side manned vehicle, not "@ + parent
                                + " ("@ + type_text(v.unit_type) + ")"@,
                        ),
                    )
                } else {
                    None
                },
            }
        },
    }
}

/// A unit that is carried is carried by another unit of its side.
pub open spec fn carriage_error(units: Map<Id, UnitV>, u: UnitV) -> Option<ErrV> {
    match u.carried_by {
        None => None,
        Some(c) => if c == u.id {
            Some(EngineError::Scenario(u.id + " is 搭载 on itself"@))
        } else {
            match at(units, c) {
                None => Some(EngineError::Scenario(u.id + " is 搭载 on unknown unit "@ + c)),
                Some(v) => if v.side != u.side {
                    Some(
                        EngineError::Scenario(
                            u.id + " is 搭载 on "@ + c + ", which is not on the same side (三.2)"@,
                        ),
                    )
                } else {
                    None
                },
            }
        },
    }
}

/// The check of the unit at each place in order of id.
pub open spec fn id_check(units: Map<Id, UnitV>) -> spec_fn(int) -> Option<ErrV> {
    |i: int| id_error(units[sorted_keys::<String>(units.dom())[i]])
}

pub open spec fn posture_check(units: Map<Id, UnitV>) -> spec_fn(int) -> Option<ErrV> {
    |i: int| posture_error(units[sorted_keys::<String>(units.dom())[i]])
}

pub open spec fn affiliation_check(units: Map<Id, UnitV>) -> spec_fn(int) -> Option<ErrV> {
    |i: int| affiliation_error(units, units[sorted_keys::<String>(units.dom())[i]])
}

pub open spec fn carriage_check(units: Map<Id, UnitV>) -> spec_fn(int) -> Option<ErrV> {
    |i: int| carriage_error(units, units[sorted_keys::<String>(units.dom())[i]])
}

fn check_id(u: &RuntimeUnit) -> (r: Option<EngineError>)
    ensures
        found(r) == id_error(u@),
{
    if has_char(u.id.as_str(), '#') {
        Some(
            EngineError::Scenario(
                join3(
                    "unit id ",
                    quoted(u.id.as_str()).as_str(),
                    " may not contain '#' (reserved for 三.17 解聚 child ids)",
                ),
            ),
        )
    } else {
        None
    }
}

fn check_posture(u: &RuntimeUnit) -> (r: Option<EngineError>)
    ensures
        found(r) == posture_error(u@),
{
    if u.state == UnitState::March && !(mechanics::is_vehicle(u.unit_type) && u.unit_type
        != UnitType::Artillery) {
        return Some(
            EngineError::Scenario(
                join2(
                    join3(u.id.as_str(), " (", type_words(u.unit_type)).as_str(),
                    ") cannot start in 行军 — only a 车辆 marches (三.1.3)",
                ),
            ),
        );
    }
    let speed: &str = match u.state {
        UnitState::Half => "Half",
        UnitState::Charge1 => "Charge1",
        UnitState::Charge2 => "Charge2",
        _ => return None,
    };
    Some(
        EngineError::Scenario(
            join2(
                join3(u.id.as_str(), " cannot start in ", speed).as_str(),
                " — 半速/一二级冲锋 are per-move speeds (move_to mode:…), not postures",
            ),
        ),
    )
}

fn check_affiliation(units: &OrdMap<String, RuntimeUnit>, u: &RuntimeUnit) -> (r: Option<EngineError>)
    ensures
        found(r) == affiliation_error(units@, u@),
{
    let parent: &String = match &u.affiliated_to {
        Some(p) => p,
        None => {
            if u.unit_type == UnitType::Ugv {
                return Some(
                    EngineError::Scenario(
                        join3(
                            "无人战车 ",
                            u.id.as_str(),
                            " must declare a 隶属 vehicle (affiliatedTo) — 三.13b",
                        ),
                    ),
                );
            }
            return None;
        },
    };
    if u.unit_type != UnitType::Ugv && u.unit_type != UnitType::Infantry {
        return Some(
            EngineError::Scenario(
                join5(
                    "only 步兵/无人战车 may have a 隶属 vehicle, but ",
                    u.id.as_str(),
                    " (",
                    type_words(u.unit_type),
                    ") does",
                ),
            ),
        );
    }
    if *parent == u.id {
        return Some(EngineError::Scenario(join2(u.id.as_str(), " is 隶属 to itself")));
    }
    match units.get(parent) {
        None => Some(
            EngineError::Scenario(
                join3(u.id.as_str(), " is 隶属 to unknown unit ", parent.as_str()),
            ),
        ),
        Some(v) => {
            let ok: bool = mechanics::is_ground(v.unit_type) && v.unit_type != UnitType::Ugv
                && v.unit_type != UnitType::Infantry && v.unit_type != UnitType::AaMissileSquad;
            if v.side != u.side || !ok {
                Some(
                    EngineError::Scenario(
                        join2(
                            join5(
                                u.id.as_str(),
                                " must be 隶属 to a same-side manned vehicle, not ",
                                parent.as_str(),
                                " (",
                                type_words(v.unit_type),
                            ).as_str(),
                            ")",
                        ),
                    ),
                )
            } else {
                None
            }
        },
    }
}

fn check_carriage(units: &OrdMap<String, RuntimeUnit>, u: &RuntimeUnit) -> (r: Option<EngineError>)
    ensures
        found(r) == carriage_error(units@, u@),
{
    let c: &String = match &u.carried_by {
        Some(c) => c,
        None => return None,
    };
    if *c == u.id {
        return Some(EngineError::Scenario(join2(u.id.as_str(), " is 搭载 on itself")));
    }
    match units.get(c) {
        None => Some(
            EngineError::Scenario(join3(u.id.as_str(), " is 搭载 on unknown unit ", c.as_str())),
        ),
        Some(v) => if v.side != u.side {
            Some(
                EngineError::Scenario(
                    join2(
                        join3(u.id.as_str(), " is 搭载 on ", c.as_str()).as_str(),
                        ", which is not on the same side (三.2)",
                    ),
                ),
            )
        } else {
            None
        },
    }
}

/// What is wrong with the units of a roster.
pub open spec fn roster_error(units: Map<Id, UnitV>) -> Option<ErrV> {
    let n = sorted_keys::<String>(units.dom()).len() as int;
    if let Some(x) = first_error(id_check(units), 0, n) {
        Some(x)
    } else if let Some(x) = first_error(posture_check(units), 0, n) {
        Some(x)
    } else if let Some(x) = first_error(affiliation_check(units), 0, n) {
        Some(x)
    } else {
        first_error(carriage_check(units), 0, n)
    }
}

fn check_units(units: &OrdMap<String, RuntimeUnit>) -> (r: Option<EngineError>)
    ensures
        found(r) == roster_error(units@),
{
    let n: usize = units.len();
    let mut i: usize = 0;
    while i < n
        invariant
            i <= n,
            n == sorted_keys::<String>(units@.dom()).len(),
            first_error(id_check(units@), 0, n as int) == first_error(
                id_check(units@),
                i as int,
                n as int,
            ),
        decreases n - i,
    {
        match check_id(units.val_at(i)) {
            Some(x) => return Some(x),
            None => {},
        }
        i += 1;
    }
    i = 0;
    while i < n
        invariant
            i <= n,
            n == sorted_keys::<String>(units@.dom()).len(),
            first_error(id_check(units@), 0, n as int) is None,
            first_error(posture_check(units@), 0, n as int) == first_error(
                posture_check(units@),
                i as int,
                n as int,
            ),
        decreases n - i,
    {
        match check_posture(units.val_at(i)) {
            Some(x) => return Some(x),
            None => {},
        }
        i += 1;
    }
    i = 0;
    while i < n
        invariant
            i <= n,
            n == sorted_keys::<String>(units@.dom()).len(),
            first_error(id_check(units@), 0, n as int) is None,
            first_error(posture_check(units@), 0, n as int) is None,
            first_error(affiliation_check(units@), 0, n as int) == first_error(
                affiliation_check(units@),
                i as int,
                n as int,
            ),
        decreases n - i,
    {
        match check_affiliation(units, units.val_at(i)) {
            Some(x) => return Some(x),
            None => {},
        }
        i += 1;
    }
    i = 0;
    while i < n
        invariant
            i <= n,
            n == sorted_keys::<String>(units@.dom()).len(),
            first_error(id_check(units@), 0, n as int) is None,
            first_error(posture_check(units@), 0, n as int) is None,
            first_error(affiliation_check(units@), 0, n as int) is None,
            first_error(carriage_check(units@), 0, n as int) == first_error(
                carriage_check(units@),
                i as int,
                n as int,
            ),
        decreases n - i,
    {
        match check_carriage(units, units.val_at(i)) {
            Some(x) => return Some(x),
            None => {},
        }
        i += 1;
    }
    None
}

// ---------- the whole ----------

/// What is wrong with a scenario or its rules.
pub open spec fn setup_error(map: GameMap, s: Scenario, rules: Rules) -> Option<ErrV> {
    let red = s.sides.red.units@;
    let blue = s.sides.blue.units@;
    let facs = s.facilities@;
    if let Some(x) = first_error(placing(map, red), 0, red.len() as int) {
        Some(x)
    } else if let Some(x) = first_error(placing(map, blue), 0, blue.len() as int) {
        Some(x)
    } else if let Some(x) = first_error(building(map, facs), 0, facs.len() as int) {
        Some(x)
    } else if let Some(x) = first_error(mining(map, facs), 0, facs.len() as int) {
        Some(x)
    } else if let Some(x) = rules_error_of(rules) {
        Some(x)
    } else {
        roster_error(roster(s))
    }
}

/// The state before anything happens.
pub open spec fn opening(map: GameMap, s: Scenario, rules: Rules, tables: Tables, seed: u64) -> EngineV {
    EngineV {
        map,
        scenario: s,
        rules,
        tables,
        stacking_cap: match setting(rules.control, "stacking_max_ground_units_per_hex"@) {
            Some(n) => n,
            None => 0,
        },
        clock: 0,
        units: roster(s),
        control: neutral(s.objectives@),
        facilities: works_of(s.facilities@, base_capacity(rules), s.facilities@.len() as int),
        minefields: mines_of(s.facilities@, s.facilities@.len() as int),
        rng: pcg_seeded(seed),
        shots: Seq::empty(),
        queue: Seq::empty(),
        seq: 0,
        move_gen: Map::empty(),
        cover_transition: Map::empty(),
        cover_gen_ctr: 0,
        mount_op: Map::empty(),
        mount_gen_ctr: 0,
        facility_gen: Map::empty(),
        minelayer_gen: Map::empty(),
        minelayer_lays: Map::empty(),
        minelay_in_flight: Map::empty(),
        fatigue_gen: Map::empty(),
        aggsplit_op: Map::empty(),
        aggsplit_gen: Map::empty(),
        spawn_ctr: 0,
        indirect_plans: Map::empty(),
        indirect_cd: Map::empty(),
        indirect_plan_ctr: 0,
        loitering_parent: Map::empty(),
        loitering_target: Map::empty(),
        radar_on: Map::empty(),
        radar_spinup: Map::empty(),
        radar_gen_ctr: 0,
        same_hex: Map::empty(),
        same_hex_ctr: 0,
        same_hex_order: Map::empty(),
        entry_seq: 0,
        aa_shots: Map::empty(),
    }
}

/// A unit that stands at `hex`.
pub open spec fn placed_at(hex: Axial) -> spec_fn(Id, UnitV) -> bool {
    |k: Id, u: UnitV| u.pos == hex
}

/// The hexes where units stand.
pub open spec fn occupied(units: Map<Id, UnitV>) -> Set<Axial> {
    Set::new(|h: Axial| some_entry(units, placed_at(h)))
}

/// The fights that begin at once in several hexes.
pub open spec fn trigger_all(e: EngineV, hexes: Seq<Axial>) -> EngineV
    decreases hexes.len(),
{
    if hexes.len() == 0 {
        e
    } else {
        m::trigger_same_hex(trigger_all(e, hexes.drop_last()), hexes.last(), 0)
    }
}

/// The state at the beginning of a match: fights begin where both sides stand in one hex.
pub open spec fn started(map: GameMap, s: Scenario, rules: Rules, tables: Tables, seed: u64) -> EngineV {
    let e = opening(map, s, rules, tables, seed);
    trigger_all(e, sorted_keys::<Axial>(occupied(e.units)))
}

fn occupied_hexes(units: &OrdMap<String, RuntimeUnit>) -> (r: OrdMap<Axial, ()>)
    ensures
        r@.dom() == occupied(units@),
{
    let n: usize = units.len();
    let ghost ks = sorted_keys::<String>(units@.dom());
    let mut hexes: OrdMap<Axial, ()> = OrdMap::new();
    let mut i: usize = 0;
    while i < n
        invariant
            i <= n,
            n == ks.len(),
            ks == sorted_keys::<String>(units@.dom()),
            lists::<String>(ks, units@.dom()),
            forall|h: Axial| #[trigger]
                hexes@.contains_key(h) <==> exists|j: int|
                    0 <= j < i && units@[#[trigger] ks[j]].pos == h,
        decreases n - i,
    {
        let u: &RuntimeUnit = units.val_at(i);
        let ghost before = hexes@;
        hexes.insert(u.pos, ());
        proof {
            assert forall|h: Axial| #[trigger] hexes@.contains_key(h) <==> exists|j: int|
                0 <= j < i + 1 && units@[#[trigger] ks[j]].pos == h by {
                if hexes@.contains_key(h) {
                    if h == u.pos {
                        assert(units@[ks[i as int]].pos == h);
                    } else {
                        assert(before.contains_key(h));
                    }
                }
                if exists|j: int| 0 <= j < i + 1 && units@[#[trigger] ks[j]].pos == h {
                    let j = choose|j: int| 0 <= j < i + 1 && units@[#[trigger] ks[j]].pos == h;
                    if j < i {
                        assert(before.contains_key(h));
                    }
                }
            }
        }
        i += 1;
    }
    proof {
        assert forall|h: Axial| #[trigger] hexes@.dom().contains(h) <==> occupied(
            units@,
        ).contains(h) by {
            if hexes@.contains_key(h) {
                let j = choose|j: int| 0 <= j < n && units@[#[trigger] ks[j]].pos == h;
                assert(ks.contains(ks[j]));
                assert(units@.dom().contains(ks[j]));
                assert(units@.contains_key(ks[j]) && placed_at(h)(ks[j], units@[ks[j]]));
            }
            if some_entry(units@, placed_at(h)) {
                let k = choose|k: Id| #[trigger]
                    units@.contains_key(k) && placed_at(h)(k, units@[k]);
                assert(units@.dom().contains(k));
                assert(ks.contains(k));
                let j = ks.index_of(k);
                assert(units@[ks[j]].pos == h);
            }
        }
        assert(hexes@.dom() =~= occupied(units@));
    }
    hexes
}

impl Engine {
    /// Begins a match. A scenario or rules that are wrong are refused, with the first thing that is
    /// wrong with them.
    pub fn new(map: GameMap, scenario: Scenario, rules: Rules, tables: Tables, seed: u64) -> (r:
        Result<Self, EngineError>)
        ensures
            match setup_error(map, scenario, rules) {
                Some(x) => r is Err && r->Err_0@ == x,
                None => r is Ok && r->Ok_0@ == started(map, scenario, rules, tables, seed)
                    && r->Ok_0.recording() is None && begins_soundly(
                    map,
                    scenario,
                    rules,
                    r->Ok_0@,
                ),
            },
    {
        let mut units: OrdMap<String, RuntimeUnit> = OrdMap::new();
        match enlist_side(&map, &scenario.sides.red.units, SideId::Red, &mut units) {
            Some(x) => return Err(x),
            None => {},
        }
        match enlist_side(&map, &scenario.sides.blue.units, SideId::Blue, &mut units) {
            Some(x) => return Err(x),
            None => {},
        }
        let control: OrdMap<String, Option<SideId>> = neutral_points(&scenario.objectives);
        let cap: u8 = match rules.fortification_capacity() {
            Some(n) => if n >= 0 && n <= 255 {
                n as u8
            } else {
                0
            },
            None => 0,
        };
        let mut facilities: OrdMap<String, RuntimeFacility> = OrdMap::new();
        match build_works(&map, &scenario.facilities, cap, &mut facilities) {
            Some(x) => return Err(x),
            None => {},
        }
        let mut minefields: OrdMap<Axial, RuntimeMinefield> = OrdMap::new();
        match lay_fields(&map, &scenario.facilities, &mut minefields) {
            Some(x) => return Err(x),
            None => {},
        }
        match check_rules(&rules) {
            Some(x) => return Err(x),
            None => {},
        }
        let stacking_cap: i64 = match rules.stacking_cap() {
            Some(n) => n,
            None => 0,
        };
        match check_units(&units) {
            Some(x) => return Err(x),
            None => {},
        }
        let hexes: OrdMap<Axial, ()> = occupied_hexes(&units);
        let mut engine: Engine = Engine {
            map,
            scenario,
            rules,
            tables,
            state: State { clock: 0, units, control, facilities, minefields },
            rng: PcgRng::from_seed(seed),
            log: OutcomeLog::new(),
            queue: Vec::new(),
            seq: 0,
            move_gen: OrdMap::new(),
            cover_transition: OrdMap::new(),
            cover_gen_ctr: 0,
            mount_op: OrdMap::new(),
            mount_gen_ctr: 0,
            facility_gen: OrdMap::new(),
            minelayer_gen: OrdMap::new(),
            minelayer_lays: OrdMap::new(),
            minelay_in_flight: OrdMap::new(),
            fatigue_gen: OrdMap::new(),
            aggsplit_op: OrdMap::new(),
            aggsplit_gen: OrdMap::new(),
            spawn_ctr: 0,
            indirect_plans: OrdMap::new(),
            indirect_cd: OrdMap::new(),
            indirect_plan_ctr: 0,
            loitering_parent: OrdMap::new(),
            loitering_target: OrdMap::new(),
            radar_on: OrdMap::new(),
            radar_spinup: OrdMap::new(),
            radar_gen_ctr: 0,
            same_hex: OrdMap::new(),
            same_hex_ctr: 0,
            same_hex_order: OrdMap::new(),
            entry_seq: 0,
            aa_shots: OrdMap::new(),
            stacking_cap,
        };
        proof {
            assert(views(engine.queue@) =~= Seq::<TimedV>::empty());
        }
        engine.trigger_all(&hexes);
        proof {
            accepted_matches_begin_soundly(map, scenario, rules, tables, seed);
        }
        Ok(engine)
    }

    fn trigger_all(&mut self, hexes: &OrdMap<Axial, ()>)
        ensures
            final(self).became(
                old(self),
                trigger_all(old(self)@, sorted_keys::<Axial>(hexes@.dom())),
            ),
    {
        let ghost ks = sorted_keys::<Axial>(hexes@.dom());
        let ghost e0 = self@;
        let n: usize = hexes.len();
        let mut i: usize = 0;
        while i < n
            invariant
                i <= n,
                n == ks.len(),
                ks == sorted_keys::<Axial>(hexes@.dom()),
                self.became(old(self), trigger_all(e0, ks.take(i as int))),
            decreases n - i,
        {
            proof {
                let t = ks.take(i + 1);
                assert(t.drop_last() =~= ks.take(i as int));
                assert(t.last() == ks[i as int]);
            }
            let h: Axial = *hexes.key_at(i);
            self.maybe_trigger_same_hex(h, 0);
            i += 1;
        }
        proof {
            assert(ks.take(n as int) =~= ks);
        }
    }
}

} // verus!
