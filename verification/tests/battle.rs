//! Whole matches: orders, events, observation and replays.
#![allow(dead_code)]
use openstratcore::combat::{IndirectBase, IndirectSpotting};
use openstratcore::engine::observe::Observation;
use openstratcore::engine::Engine;
use openstratcore::error::EngineError;
use openstratcore::hex::Axial;
use openstratcore::json::Json;
use openstratcore::mechanics::{
    can_enter_cover, can_observe, ground_step_ticks, guided_fire_breaks_cover, is_ground,
    stacking_allows_entry,
};
use openstratcore::ordmap::OrdMap;
use openstratcore::prob::Outcome;
use openstratcore::replay::{
    play, side_from_str, Header, Recorder, Replay, Snapshot,
};
use openstratcore::rules::{
    FlightPace, FootPace, Gait, GroundPace, Paces, ProbConfig, ProviderSpec, RuleTable, Rules,
    TableSource, Tables, Timing, Weapon,
};
use openstratcore::time::Tick;
use openstratcore::types::{
    Armor, ControlPoint, Facility, GameMap, HeliAlt, HexCell, Road, RuntimeMinefield,
    RuntimeUnit, Scenario, ScenarioUnit, Side, SideId, SideSet, Sides, State, Terrain, UnitState, UnitType, WeaponState,
};
use openstratcore::units::loitering_endurance_ticks;
use serde_json::Value;

// ---------- plain values ----------

fn tree(v: &Value) -> Json {
    match v {
        Value::Null => Json::Null,
        Value::Bool(b) => Json::Bool(*b),
        Value::Number(n) => match (n.as_i64(), n.as_u64()) {
            (Some(i), _) => Json::Int(i),
            (None, Some(u)) => Json::UInt(u),
            _ => Json::Real,
        },
        Value::String(s) => Json::Str(s.clone()),
        Value::Array(items) => Json::Arr(items.iter().map(tree).collect()),
        Value::Object(entries) => {
            Json::Obj(entries.iter().map(|(k, v)| (k.clone(), tree(v))).collect())
        }
    }
}

fn json(text: &str) -> Json {
    tree(&serde_json::from_str::<Value>(text).unwrap())
}

fn secs(s: i64) -> Tick {
    s * 100
}

// ---------- the decision tables ----------

const TABLES: &str = r#"{
"observation_distance": { "rows": { "infantry": { "infantry": 10 } } },
"unit_speed": { "units": { "tank": 36 } },
"terrain_movement": { "factors": { "forest": 2 } },
"attack_level_vs_personnel": { "weapons": {
    "大号直瞄炮": { "range": 18, "by_squad": {
        "1": [3,3,3,3,3,3,3,3,3,3,3,3,3,3,3,3,3,3,3],
        "2": [4,4,4,4,4,4,4,4,4,4,4,4,4,4,4,4,4,4,4],
        "3": [5,5,5,5,5,5,5,5,5,5,5,5,5,5,5,5,5,5,5],
        "4": [7,7,7,7,7,7,7,7,7,7,7,7,7,7,7,7,7,7,7] } },
    "重型导弹": { "range": 20, "by_squad": {
        "1": [1,1,1,1,1,1], "2": [2,2,2,2,2,2], "3": [3,3,3,3,3,3], "4": [4,4,4,4,4,4] } },
    "步兵轻武器": { "range": 10, "by_squad": {
        "1": [4,3,2,1], "2": [5,4,3,2,1], "3": [6,5,4,3,2,1], "4": [7,6,5,4,3,2,1] } } } },
"attack_level_vs_vehicle": { "verified": false, "weapons": {
    "大号直瞄炮": { "range": 18, "levels": [10,10,10,9,9,9,8,8,8,7,7,7,6,6,6,5,5,5,4] },
    "速射炮": { "range": 10, "levels": [6,6,6,5,5,5,4,4,3,3,2] },
    "火箭筒": { "range": 4, "levels": [8,7,6,5,4] },
    "重型导弹": { "range": 20, "levels": [9,9,9,9,9,9,9,9,9,9,9,9,9,9,9,9,9,9,9,9,9] },
    "巡飞弹": { "range": 2, "levels": [5,5,5] },
    "步兵轻武器": { "range": 1, "ref": "attack_level_infantry_vs_vehicle.json" } } },
"attack_level_infantry_vs_vehicle": { "by_squad": {
    "1": [1,1], "2": [2,1], "3": [3,2], "4": [4,3] } },
"height_diff_correction": { "verified": false, "rows": {
    "1": [-2,-2,-1,-1,-1,-1,-1,0,0,0,0,0],
    "5": [-4,-4,-4,-4,-3,-3,-3,-2,-2,-2,-1,-1] } },
"result_vs_vehicle": { "data": {
    "stage1": {
        "1": [1,2,3,4,5,6,7,8,9,10,11,12,13],
        "2": [null,1,2,3,4,5,6,7,8,9,10,11,12],
        "3": [null,null,1,2,3,4,5,6,7,8,9,10,11],
        "4": [null,null,null,1,2,3,4,5,6,7,8,9,10] },
    "stage2": {
        "2":  [0,0,0,0,0,1,1,1,1,2,2,2,3],
        "3":  [0,0,0,0,0,0,1,1,1,1,2,2,2],
        "4":  [0,0,0,0,0,0,0,1,1,1,1,1,2],
        "5":  [0,0,0,0,0,0,0,0,1,1,1,1,1],
        "6":  [0,0,0,0,0,0,0,0,0,1,1,1,1],
        "7":  [0,0,0,0,0,0,0,0,0,0,0,1,1],
        "8":  [0,0,0,0,0,0,0,0,0,0,1,1,1],
        "9":  [0,0,0,0,0,0,0,0,1,1,1,2,2],
        "10": [0,0,0,0,0,0,0,1,1,1,2,2,2],
        "11": [0,0,0,0,0,0,1,1,1,2,2,3,3],
        "12": [0,0,0,0,0,1,1,1,2,2,3,3,4] } } },
"vehicle_loss_correction": {
    "additive_random": {
        "shooter": { "被压制": 2, "机动中": 1, "水上坦克": 2 },
        "target_terrain": { "居民地/工事": 1, "丛林地": 1, "水上": -1 },
        "target_state": { "掩蔽中": 2, "机动中": 1, "堆叠中": -1, "行军中": -2 } },
    "armor_order": ["复合装甲", "重型装甲", "中型装甲", "轻型装甲", "无装甲"],
    "by_modified_random": {
        "<=2": [0,0,1,1,2], "3..5": [-1,0,0,1,1], "6..8": [-1,-1,0,0,0],
        "9..11": [-2,-1,-1,0,0], ">=12": [-2,-2,-1,-1,0] } },
"result_vs_personnel": { "verified": false, "rows": {
    "2":  [null,null,null,null,"压","压","压",1],
    "3":  [null,null,null,"压","压","压",1,1],
    "4":  [null,null,"压","压",1,1,1,1],
    "5":  [null,"压","压","压",1,1,1,2],
    "6":  [null,null,"压","压","压",1,1,1],
    "7":  ["压","压","压","压","压","压","压",1],
    "8":  [null,null,"压","压","压",1,1,1],
    "9":  [null,"压","压",1,1,1,1,2],
    "10": [null,null,"压","压",1,1,1,2],
    "11": [null,null,null,"压",1,1,1,2],
    "12": [null,null,null,null,null,"压",1,2] } },
"personnel_loss_correction": {
    "additive_random": {
        "shooter": { "被压制": -1, "机动中": -1 },
        "target_terrain": { "居民地": -1, "丛林地": -1 },
        "target_state": { "掩蔽中": -1, "机动中": 1, "堆叠中": 1, "行军中": 2 } },
    "by_modified_random": { "<=0": -1, "1..6": 0, ">=7": 1 } },
"indirect_scatter": {
    "distance_buckets": ["1-20", "21-40", "41-60", "61+"],
    "no_spotting": {
        "2": ["散布1格","散布2格","散布3格","散布4格"],
        "3": ["散布1格","散布1格","散布2格","散布3格"],
        "4": ["命中","命中","散布","散布"],
        "5": ["散布","散布","散布1格","散布2格"],
        "6": ["命中","散布","散布1格","散布1格"],
        "7": ["散布","散布1格","散布1格","散布2格"],
        "8": ["散布1格","散布1格","散布2格","散布2格"],
        "9": ["散布","散布","散布1格","散布2格"],
        "10": ["命中","散布","散布","散布1格"],
        "11": ["散布1格","散布1格","散布2格","散布3格"],
        "12": ["散布1格","散布2格","散布3格","散布4格"] },
    "in_hex_spotting": {
        "2": ["散布1格","散布1格","散布2格","散布2格"],
        "6": ["命中","命中","命中","散布"],
        "7": ["命中","命中","散布","散布"],
        "8": ["命中","命中","散布","散布"] },
    "target_spotting_single": {
        "2": "散布", "3": "命中", "4": "命中", "5": "命中", "6": "命中", "7": "命中",
        "8": "命中", "9": "命中", "10": "命中", "11": "散布", "12": "散布1格" } },
"indirect_result": {
    "hit": {
        "2": [1,2,3], "3": [1,1,2], "4": ["压制",1,2], "5": ["压制",1,1], "6": ["压制","压制",1],
        "7": ["压制","压制","压制"], "8": ["压制","压制",1], "9": ["压制",1,1], "10": [1,1,2],
        "11": [1,2,2], "12": ["无效","压制",1] },
    "miss": {
        "2": ["压制",1,1], "3": ["无效","压制","压制"], "5": ["无效","无效","压制"],
        "7": ["无效","无效","无效"], "9": ["无效","压制","压制"], "12": ["压制","压制",1] } },
"indirect_correction": {
    "additive_random": {
        "target_terrain": { "居民地": -1, "丛林地": -1 },
        "target_state": { "掩蔽中": -2, "机动中_人员": 1, "堆叠": 1, "行军": 2 },
        "armor": { "复合装甲": -3, "重型装甲": -2, "中型装甲": -1 },
        "gun_count": { "1": -1, "2": 0, "3": 1, "4": 2 } },
    "by_modified_random": { "<=-2": -2, "-1..1": -1, "2..6": 0, ">=7": 1 } },
"aa_attack_level": { "weapons": {
    "防空高炮": { "range": 20, "levels": [9,8,8,7,6,5,5,4,4,3,3,3,2,2,2,2,2,2,2,2] },
    "便携防空导弹": { "range": 20, "levels": [0,0,5,6,6,7,7,6,4,4,4,4,4,4,4,4,4,4,4,4] },
    "车载防空导弹": { "range": 50, "levels": [0,0,6,7,7,7,7,7,7,7,7,6,6,6,6,6,6,6,6,6], "tail_value": 6 } } },
"aa_result": { "kill_threshold_by_random": {
    "2": 1, "3": 3, "4": 5, "5": 7, "6": 9, "7": 11, "8": 9, "9": 7, "10": 5, "11": 4, "12": 2 } },
"minefield": {
    "damage_by_random": {
        "车辆": { "2": 0, "3": 0, "4": 0, "5": 0, "6": 1, "7": 1, "8": 0, "9": 0, "10": 0, "11": 2, "12": 1 },
        "人员": { "2": 0, "3": 0, "4": 0, "5": 0, "6": 1, "7": 1, "8": 0, "9": 0, "10": 0, "11": 2, "12": 1 } },
    "armor_correction_by_random": {
        "复合装甲": { "2": -2, "11": -1 },
        "重型装甲": { "2": -1, "7": null },
        "中型装甲": { "12": 1 },
        "轻型装甲": { "2": 1 },
        "无装甲": { "2": 2 } } },
"timings": { "seconds": { "move_to_stop": 75 } }
}"#;

fn rule_table(id: &str, body: Json) -> RuleTable {
    let mut verified = true;
    let mut data = OrdMap::new();
    if let Json::Obj(entries) = body {
        for (k, v) in entries {
            if k == "verified" {
                verified = matches!(v, Json::Bool(true));
            } else {
                data.insert(k, v);
            }
        }
    }
    RuleTable {
        id: id.into(),
        title_zh: String::new(),
        source: TableSource { page: 1, appendix: String::new() },
        verified,
        verify_note: None,
        hex_size_meters: Some(200),
        data,
    }
}

fn table_list() -> Vec<(String, RuleTable)> {
    match json(TABLES) {
        Json::Obj(entries) => {
            entries.into_iter().map(|(k, v)| (k.clone(), rule_table(&k, v))).collect()
        }
        _ => unreachable!(),
    }
}

fn tables() -> Tables {
    Tables::load_embedded(table_list()).unwrap()
}

// ---------- the rules ----------

fn ground_pace(base: i64) -> GroundPace {
    let gait = |s: i64| Gait { normal: Some(secs(s)), half: Some(secs(s * 2)) };
    let row = |factor: i64| {
        [1, 2, 3, 4, 5, 1].iter().map(|slope: &i64| gait(base * factor * slope)).collect()
    };
    let factors = [
        ("open", 1),
        ("forest", 2),
        ("urban", 3),
        ("river", 2),
        ("river_large", 4),
        ("lake", 4),
        ("soft", 4),
    ];
    let mut off_road = OrdMap::new();
    for (name, factor) in factors {
        off_road.insert(name.to_string(), row(factor));
    }
    GroundPace { road: gait(base), off_road }
}

fn foot_pace(base: i64) -> FootPace {
    FootPace {
        normal: Some(secs(base)),
        half: Some(secs(base * 2)),
        charge1: Some(secs(base / 2)),
        charge2: Some(secs(base / 4)),
    }
}

fn ticks(entries: &[(&str, i64)]) -> OrdMap<String, Tick> {
    let mut m = OrdMap::new();
    for (k, s) in entries {
        m.insert(k.to_string(), secs(*s));
    }
    m
}

fn paces() -> Paces {
    let mut flight = OrdMap::new();
    for (k, s) in [("uav", 8), ("loitering_munition", 8), ("attack_heli", 4), ("transport_heli", 6)] {
        flight.insert(k.to_string(), FlightPace { normal: secs(s), very_low: secs(s * 2) });
    }
    let mut ground = OrdMap::new();
    for k in [
        "tank",
        "ifv",
        "recon_vehicle",
        "radar_vehicle",
        "minelayer",
        "minesweeper",
        "aa_gun",
        "aa_missile_vehicle",
        "ugv",
        "pickup",
    ] {
        ground.insert(k.to_string(), ground_pace(20));
    }
    Paces {
        flight,
        ground,
        foot: foot_pace(144),
        foot_steep: foot_pace(288),
        march: ticks(&[("country", 18), ("normal", 12), ("grade", 8)]),
        aa_interval: ticks(&[("aa_gun", 15), ("aa_missile_squad", 75), ("aa_missile_vehicle", 15)]),
    }
}

fn rules() -> Rules {
    let tank_main_big = Weapon {
        kind: "direct".into(),
        range: 18,
        moving_fire: true,
        result_table: Some("direct_vs_vehicle".into()),
        attack_level_by_distance: json("[10,10,9,9,9,8,8,8,7,7,7,6,6,6,5,5,5,4,4]"),
        shots: None,
        interval: Some(75),
    };
    let mortar = Weapon {
        kind: "indirect".into(),
        range: 30,
        moving_fire: false,
        result_table: None,
        attack_level_by_distance: json("[[1,1],[2,2]]"),
        shots: Some(4),
        interval: None,
    };
    let mut weapons = OrdMap::new();
    weapons.insert("tank_main_big".to_string(), tank_main_big);
    weapons.insert("mortar".to_string(), mortar);
    let mut providers = OrdMap::new();
    providers.insert(
        "direct_vs_vehicle".to_string(),
        ProviderSpec { kind: "static".into(), params: Json::Null },
    );
    Rules {
        format: "openstratcore.rules".into(),
        version: 1,
        hex_size_meters: 200,
        timing: Timing {
            durations: ticks(&[
                ("move_to_stop", 75),
                ("move_state_transition", 75),
                ("weapon_lock", 75),
                ("weapon_cooldown_direct", 75),
                ("suppress_duration", 150),
                ("mount_dismount", 75),
                ("fortification_transition", 75),
                ("minefield_lay", 75),
                ("aggregate_split", 75),
                ("indirect_fly", 150),
                ("indirect_boom", 300),
                ("indirect_cooldown", 300),
                ("radar_spinup", 75),
                ("heli_altitude_switch", 75),
                ("same_hex_engage_interval", 20),
                ("loitering_endurance", 1200),
                ("loitering_launch", 75),
            ]),
        },
        paces: paces(),
        movement: json(
            r#"{ "infantry_charge": {
                    "charge1": { "speed_mult": 2, "fatigue_per_hex": 1 },
                    "charge2": { "speed_mult": 4, "fatigue_per_hex": 1 } },
                 "infantry_fatigue_decay_seconds": 75,
                 "infantry_highdiff_meters_halfspeed": 60,
                 "slope_rule": { "impassable_above_level": 5 } }"#,
        ),
        observation: json(
            r#"{ "infantry": { "infantry": 10, "vehicle": 25, "attack_heli": 25, "uav": "adjacent" },
                 "vehicle": { "infantry": 10, "vehicle": 25, "attack_heli": 25, "uav": "adjacent" },
                 "attack_heli": { "infantry": 10, "vehicle": 25, "attack_heli": 25, "uav": "adjacent" },
                 "uav": { "infantry": 2, "vehicle": 2 },
                 "loitering_munition": { "infantry": 2, "vehicle": 2 },
                 "recon_vehicle": { "infantry": 20, "vehicle": 50, "attack_heli": 50, "uav": "adjacent" },
                 "aa_missile_squad": { "infantry": 10, "vehicle": 25, "attack_heli": 50, "uav": 25 },
                 "aa_missile_vehicle": { "infantry": 10, "vehicle": 25, "attack_heli": 50, "uav": 25 } }"#,
        ),
        control: json(
            r#"{ "stacking_max_ground_units_per_hex": 4, "capture_no_enemy_radius_hexes": 1,
                 "max_squads_per_unit": 4 }"#,
        ),
        air: json(
            r#"{ "recon_altitude_meters": 200,
                 "heli_altitude_meters": { "high": 500, "low": 200, "very_low": 20 },
                 "heli_capacity_squads": 4,
                 "aa": {
                    "aa_gun": { "weapon": "防空高炮", "max_shots": 10 },
                    "aa_missile_squad": { "weapon": "便携防空导弹", "max_shots": 4 },
                    "aa_missile_vehicle": { "weapon": "车载防空导弹", "max_shots": 4 } } }"#,
        ),
        fortification: json(r#"{ "capacity_squads": 5, "exposed_range_hexes": 12 }"#),
        minefield: json(
            r#"{ "lay_range_hexes": 50, "max_lays_per_vehicle": 3, "observe_range_hexes": 10 }"#,
        ),
        loadout: json(
            r#"{ "tank": ["大号直瞄炮"], "ifv": ["速射炮"], "infantry": ["步兵轻武器"],
                 "loitering_munition": ["巡飞弹"] }"#,
        ),
        weapons,
        combat_result_tables: json(
            r#"{ "direct_vs_vehicle": { "randomDice": 2, "cells": {
                    "1": { "2": "N", "7": "S", "12": 1 },
                    "5": { "2": "N", "6": "S", "7": "S", "8": 1, "12": 2 },
                    "10": { "2": 1, "3": 1, "4": "S", "5": "S", "6": 1, "7": "S", "8": 2, "9": 2,
                            "10": 3, "11": 3, "12": "K" } } } }"#,
        ),
        modifiers: Json::Null,
        prob: ProbConfig { providers },
    }
}

// ---------- boards ----------

fn cell(q: i32, r: i32, elevation: i32, terrain: Terrain) -> HexCell {
    HexCell { q, r, id: None, elevation, terrain, road: None }
}

fn board(hexes: Vec<HexCell>) -> GameMap {
    GameMap {
        format: "openstratcore.map".into(),
        version: 1,
        name: "board".into(),
        elevation_unit_meters: Some(10),
        hexes,
    }
}

/// A row of open hexes from 0 to `last`, with a hill of a height where there is one.
fn row(last: i32, hill: Option<(i32, i32)>) -> GameMap {
    let elevation = |q: i32| match hill {
        Some((at, e)) if at == q => e,
        _ => 0,
    };
    board((0..=last).map(|q| cell(q, 0, elevation(q), Terrain::Open)).collect())
}

/// A live unit on the row.
fn live(id: &str, side: SideId, unit_type: UnitType, q: i32) -> RuntimeUnit {
    RuntimeUnit {
        id: id.into(),
        side,
        unit_type,
        armor: Armor::Medium,
        teams: 1,
        pos: Axial::new(q, 0),
        facing: 0,
        state: UnitState::Stopped,
        weapon_state: WeaponState::Deployed,
        busy_until: 0,
        suppressed_until: 0,
        alive: true,
        carried_by: None,
        affiliated_to: None,
        heli_alt: HeliAlt::Low,
        inside_facility: None,
        fatigue: 0,
    }
}

fn state_of(units: Vec<RuntimeUnit>) -> State {
    let mut m = OrdMap::new();
    for u in units {
        m.insert(u.id.clone(), u);
    }
    State {
        clock: 0,
        units: m,
        control: OrdMap::new(),
        facilities: OrdMap::new(),
        minefields: OrdMap::new(),
    }
}

// ---------- matches ----------

const RED: SideId = SideId::Red;
const BLUE: SideId = SideId::Blue;

/// A stopped unit of one team on the row.
fn su(id: &str, unit_type: UnitType, q: i32) -> ScenarioUnit {
    ScenarioUnit {
        id: id.into(),
        unit_type,
        armor: None,
        teams: 1,
        at: Axial::new(q, 0),
        facing: 0,
        state: Some(UnitState::Stopped),
        carried_by: None,
        affiliated_to: None,
    }
}

/// The same with medium armor and so many teams.
fn armored(id: &str, unit_type: UnitType, q: i32, teams: u8) -> ScenarioUnit {
    ScenarioUnit { armor: Some(Armor::Medium), teams, ..su(id, unit_type, q) }
}

fn works(kind: &str, q: i32, owner: Option<&str>) -> Facility {
    Facility {
        kind: kind.into(),
        at: Axial::new(q, 0),
        owner: owner.map(|s| s.into()),
        armor: None,
        capacity: None,
    }
}

fn scenario(red: Vec<ScenarioUnit>, blue: Vec<ScenarioUnit>, facilities: Vec<Facility>) -> Scenario {
    Scenario {
        format: "openstratcore.scenario".into(),
        version: 1,
        name: "match".into(),
        map: "board".into(),
        rules: None,
        time_limit_seconds: None,
        sides: Sides {
            red: Side { name: "Red".into(), units: red },
            blue: Side { name: "Blue".into(), units: blue },
        },
        objectives: vec![],
        facilities,
    }
}

fn start(map: GameMap, s: Scenario, seed: u64) -> Result<Engine, EngineError> {
    Engine::new(map, s, rules(), tables(), seed)
}

fn game(map: GameMap, red: Vec<ScenarioUnit>, blue: Vec<ScenarioUnit>, seed: u64) -> Engine {
    start(map, scenario(red, blue, vec![]), seed).unwrap()
}

fn order(pairs: &[(&str, &str)]) -> Json {
    Json::Obj(pairs.iter().map(|(k, v)| (k.to_string(), Json::Str(v.to_string()))).collect())
}

fn hex_json(q: i32) -> Json {
    Json::Obj(vec![
        ("q".to_string(), Json::Int(q as i64)),
        ("r".to_string(), Json::Int(0)),
    ])
}

/// An order with a hex of the row under `key`.
fn order_at(pairs: &[(&str, &str)], key: &str, q: i32) -> Json {
    let mut entries: Vec<(String, Json)> =
        pairs.iter().map(|(k, v)| (k.to_string(), Json::Str(v.to_string()))).collect();
    entries.push((key.to_string(), hex_json(q)));
    Json::Obj(entries)
}

fn go(id: &str, q: i32) -> Json {
    order_at(&[("op", "move_to"), ("unitId", id)], "target", q)
}

fn go_at(id: &str, mode: &str, q: i32) -> Json {
    order_at(&[("op", "move_to"), ("unitId", id), ("mode", mode)], "target", q)
}

fn set_mode(id: &str, mode: &str) -> Json {
    order(&[("op", "set_mode"), ("unitId", id), ("mode", mode)])
}

fn fire(id: &str, target: &str) -> Json {
    order(&[("op", "fire_direct"), ("unitId", id), ("weapon", "大号直瞄炮"), ("targetUnit", target)])
}

fn unit<'a>(e: &'a Engine, id: &str) -> &'a RuntimeUnit {
    e.state.units.get(&id.to_string()).unwrap()
}

fn unit_mut<'a>(e: &'a mut Engine, id: &str) -> &'a mut RuntimeUnit {
    e.state.units.get_mut(&id.to_string()).unwrap()
}

fn drain(e: &mut Engine) {
    while e.advance_to_next_event().is_some() {}
}

/// The message of an order that is refused.
fn refusal(r: Result<(), EngineError>) -> String {
    match r {
        Err(EngineError::Command(m)) => m,
        other => panic!("expected a Command error, got {other:?}"),
    }
}

fn sees(obs: &Observation, id: &str) -> bool {
    obs.enemy_units.iter().any(|u| u.id == id)
}

/// Two sides in a valley with a ridge between them.
fn demo_map() -> GameMap {
    let mut hexes = Vec::new();
    for q in 0..=8 {
        for r in 0..=1 {
            hexes.push(cell(q, r, if q == 4 { 6 } else { 0 }, Terrain::Open));
        }
    }
    board(hexes)
}

fn demo_scenario() -> Scenario {
    let fresh = |id: &str, ut, q, r| ScenarioUnit {
        at: Axial::new(q, r),
        state: None,
        teams: 3,
        ..su(id, ut, q)
    };
    let mut s = scenario(
        vec![fresh("R-T1", UnitType::Tank, 0, 0), fresh("R-I1", UnitType::Infantry, 0, 1)],
        vec![fresh("B-T1", UnitType::Tank, 8, 0), fresh("B-I1", UnitType::Infantry, 8, 1)],
        vec![],
    );
    s.objectives.push(ControlPoint {
        id: "CP1".into(),
        at: Axial::new(4, 0),
        owner: None,
        priority: Some("main".into()),
    });
    s
}

fn load() -> Engine {
    start(demo_map(), demo_scenario(), 12345).unwrap()
}

#[test]
fn builds_initial_state() {
    let e = load();
    assert_eq!(e.state.units.len(), 4);
    assert!(e.state.units.contains_key(&"R-T1".to_string()));
    assert!(e.state.control.contains_key(&"CP1".to_string()));
}

#[test]
fn opening_fights_move_nobody() {
    let map = row(3, None);
    let e = game(
        map.clone(),
        vec![
            armored("R", UnitType::Ifv, 3, 4),
            ScenarioUnit { carried_by: Some("R".into()), ..su("RI", UnitType::Infantry, 3) },
            ScenarioUnit { affiliated_to: Some("R".into()), ..su("RU", UnitType::Ugv, 3) },
        ],
        vec![armored("B", UnitType::Tank, 3, 4)],
        1,
    );
    assert!(e.same_hex.contains_key(&Axial::new(3, 0)), "the fight has begun");
    assert_eq!(e.state.units.len(), 4);
    for id in ["R", "RI", "RU", "B"] {
        let u = unit(&e, id);
        assert_eq!(u.id, id);
        assert_eq!(u.pos, Axial::new(3, 0));
        assert!(map.cell(&u.pos).is_some() && u.inside_facility.is_none());
    }
    assert_eq!(unit(&e, "RI").carried_by, Some("R".to_string()));
    assert_eq!(unit(&e, "RU").affiliated_to, Some("R".to_string()));
    assert_eq!(e.clock(), 0);
    let e = load();
    for i in 0..e.state.control.len() {
        assert!(e.state.control.val_at(i).is_none());
    }
}

#[test]
fn stop_schedules_transition_deterministically() {
    let mut e = load();
    e.submit(RED, &order(&[("op", "stop"), ("unitId", "R-T1")]), 0).unwrap();
    e.step(8000);
    assert_eq!(unit(&e, "R-T1").state, UnitState::Stopped);
}

#[test]
fn unknown_op_errors_not_panics() {
    let mut e = load();
    assert!(e.submit(RED, &order(&[("op", "teleport"), ("unitId", "R-T1")]), 0).is_err());
}

#[test]
fn observation_reports_only_visible_enemies() {
    let e = load();
    let obs = e.observe(RED);
    assert!(
        obs.enemy_units.is_empty(),
        "the valley ridge blocks LOS to all blue at t=0"
    );
    assert_eq!(obs.own_units.len(), 2);
    assert_eq!(obs.objectives.len(), 1);
    assert_eq!(obs.objectives[0].owner, None);
    assert_eq!(obs.objectives[0].priority.as_deref(), Some("main"));
}

#[test]
fn fog_of_war() {
    let mut hexes: Vec<HexCell> = (0..=12).map(|q| cell(q, 0, 0, Terrain::Open)).collect();
    hexes.extend((1..=5).map(|r| cell(0, r, if r == 2 { 3 } else { 0 }, Terrain::Open)));
    let inf = |id: &str, q: i32, r: i32| ScenarioUnit {
        at: Axial::new(q, r),
        state: None,
        ..su(id, UnitType::Infantry, q)
    };
    let e = game(
        board(hexes),
        vec![inf("R1", 0, 0)],
        vec![inf("B-near", 5, 0), inf("B-far", 12, 0), inf("B-blocked", 0, 5)],
        1,
    );
    let obs = e.observe(RED);
    assert!(sees(&obs, "B-near"), "an in-range enemy in LOS must be visible");
    assert!(!sees(&obs, "B-far"), "an out-of-range enemy must be hidden");
    assert!(
        !sees(&obs, "B-blocked"),
        "an enemy with no line of sight must be hidden"
    );
    assert_eq!(obs.own_units.len(), 1);
}

#[test]
fn engine_fire_direct() {
    let mut e = game(
        row(4, None),
        vec![armored("R", UnitType::Tank, 0, 4)],
        vec![armored("B", UnitType::Tank, 3, 4)],
        7,
    );
    e.submit(RED, &fire("R", "B"), 0).unwrap();
    assert_eq!(unit(&e, "R").weapon_state, WeaponState::Cooling);
    assert!(e.submit(RED, &fire("R", "B"), 100).is_err());
    e.step(7600);
    assert_eq!(unit(&e, "R").weapon_state, WeaponState::Deployed);
    assert!(e.submit(RED, &fire("R", "R"), 8000).is_err());
}

#[test]
fn fire_does_not_leak_hidden_enemy() {
    let make = |state| {
        game(
            row(3, Some((2, 6))),
            vec![ScenarioUnit { state: Some(state), ..armored("R", UnitType::Tank, 0, 4) }],
            vec![armored("B", UnitType::Tank, 3, 4)],
            1,
        )
    };
    let msg = |state, target: &str| refusal(make(state).submit(RED, &fire("R", target), 0));
    let hidden = msg(UnitState::Stopped, "B");
    assert_eq!(
        hidden,
        msg(UnitState::Stopped, "NOPE"),
        "hidden enemy must look like a missing id"
    );
    assert_eq!(
        hidden,
        msg(UnitState::Stopped, "R"),
        "hidden enemy must look like an own-unit target"
    );
    assert_eq!(hidden, "invalid fire target");
    assert_eq!(
        msg(UnitState::March, "B"),
        "invalid fire target",
        "posture rejection must not leak a hidden enemy's existence"
    );
}

#[test]
fn a_fight_does_not_give_a_hidden_enemy_away() {
    let make = |hill| {
        let e = game(
            row(3, hill),
            vec![armored("R", UnitType::Tank, 0, 4), armored("X", UnitType::Tank, 3, 4)],
            vec![armored("B", UnitType::Tank, 3, 4)],
            1,
        );
        assert!(e.same_hex.contains_key(&Axial::new(3, 0)));
        e
    };
    assert_eq!(
        refusal(make(Some((2, 6))).submit(RED, &fire("R", "B"), 0)),
        "invalid fire target"
    );
    assert_eq!(
        refusal(make(None).submit(RED, &fire("R", "B"), 0)),
        "cannot fire into a 同格交战 (三.15c)"
    );
}

#[test]
fn no_weapon_gives_a_hidden_enemy_away_to_its_guide() {
    let make = |hill| {
        game(
            row(6, hill),
            vec![armored("V", UnitType::Tank, 0, 3), armored("G", UnitType::Uav, 0, 3)],
            vec![armored("T", UnitType::Tank, 6, 3), armored("N", UnitType::Tank, 1, 3)],
            5,
        )
    };
    let shot = |target: &str| {
        order(&[
            ("op", "guide_fire"),
            ("unitId", "V"),
            ("guideId", "G"),
            ("weapon", "大号直瞄炮"),
            ("targetUnit", target),
        ])
    };
    let msg = |target: &str| refusal(make(Some((3, 9))).submit(RED, &shot(target), 0));
    assert_eq!(msg("T"), "invalid fire target");
    assert_eq!(msg("NOPE"), msg("T"));
    assert_eq!(msg("N"), "only the 重型导弹 supports guided fire (三.14e)");
}

#[test]
fn woods_and_towns_halve_the_range_at_which_mines_are_seen() {
    let seen = |q: i32, terrain: Terrain| {
        let hexes = (0..=12)
            .map(|x| cell(x, 0, 0, if x == q { terrain } else { Terrain::Open }))
            .collect();
        let mut e = game(
            board(hexes),
            vec![su("RI", UnitType::Infantry, 0)],
            vec![su("BL", UnitType::Minelayer, 12)],
            1,
        );
        let at = Axial::new(q, 0);
        let mines = RuntimeMinefield {
            at,
            owner: Some(SideId::Blue),
            cleared_by: SideSet { red: false, blue: false },
        };
        e.state.minefields.insert(at, mines);
        e.observe(RED).minefields.contains(&at)
    };
    for terrain in [Terrain::Forest, Terrain::Urban] {
        assert!(seen(5, terrain));
        assert!(!seen(6, terrain));
        assert!(!seen(10, terrain));
    }
    assert!(seen(6, Terrain::Open));
    assert!(seen(10, Terrain::Open));
    assert!(!seen(11, Terrain::Open));
}

#[test]
fn move_to_traverses_and_stacking_halts() {
    let tank = |id: &str, q: i32| ScenarioUnit { teams: 2, ..su(id, UnitType::Tank, q) };
    let make = |red: Vec<ScenarioUnit>| game(row(4, None), red, vec![], 1);

    let mut e = make(vec![tank("M", 0)]);
    e.submit(RED, &go("M", 3), 0).unwrap();
    drain(&mut e);
    assert_eq!(unit(&e, "M").pos, Axial::new(3, 0), "M should reach its target");
    assert_eq!(unit(&e, "M").state, UnitState::Stopped, "and settle Stopped");
    assert_eq!(e.clock(), secs(60));

    let mut e = make(vec![tank("M", 0), tank("F1", 2), tank("F2", 2), tank("F3", 2), tank("F4", 2)]);
    e.submit(RED, &go("M", 4), 0).unwrap();
    drain(&mut e);
    assert_eq!(
        unit(&e, "M").pos,
        Axial::new(1, 0),
        "M cannot enter the full hex (2,0); it halts one short"
    );
    assert_eq!(unit(&e, "M").state, UnitState::Stopped);

    let mut e2 = make(vec![tank("M", 0)]);
    e2.submit(RED, &go("M", 3), 0).unwrap();
    drain(&mut e2);
    assert_eq!(unit(&e2, "M").pos, Axial::new(3, 0));

    let mut e = make(vec![tank("A", 0), tank("B", 4), tank("F1", 2), tank("F2", 2), tank("F3", 2)]);
    e.submit(RED, &go("A", 2), 0).unwrap();
    e.submit(RED, &go("B", 2), 0).unwrap();
    drain(&mut e);
    let at_hub = ["A", "B", "F1", "F2", "F3"]
        .iter()
        .filter(|id| unit(&e, id).pos == Axial::new(2, 0))
        .count();
    assert_eq!(at_hub, 4, "the 三.4 cap of 4 must never be exceeded");
    assert_eq!(unit(&e, "A").pos, Axial::new(2, 0), "A takes the last slot");
    assert_eq!(unit(&e, "B").pos, Axial::new(3, 0), "B halts one hex short");
}

#[test]
fn march_road_speed_route_and_blocking() {
    let map = || {
        let mut m = row(4, None);
        for c in m.hexes.iter_mut() {
            if c.q <= 2 {
                c.road = Some(Road { kind: "normal".into(), connects: vec![0, 3] });
            }
        }
        m
    };
    let mk = |id: &str, ut, q| ScenarioUnit { teams: 2, ..su(id, ut, q) };
    let make = |red: Vec<ScenarioUnit>| game(map(), red, vec![], 1);
    let march = set_mode("M", "march");

    let mut e = make(vec![mk("M", UnitType::Tank, 4)]);
    assert!(e.submit(RED, &march, 0).is_err(), "三.1.3b: off-road tank cannot 行军");
    let mut e = make(vec![mk("M", UnitType::Infantry, 0)]);
    assert!(e.submit(RED, &march, 0).is_err(), "三.1.3: 人员 has no 行军 mode");

    let mut e = make(vec![mk("M", UnitType::Tank, 0)]);
    e.submit(RED, &march, 0).unwrap();
    assert_eq!(
        unit(&e, "M").state,
        UnitState::March,
        "三.1.3c: committed to 行军 at submit, not only at completion"
    );
    assert_eq!(
        unit(&e, "M").busy_until,
        secs(150),
        "三.1.3c+f: 行军 entry is a 150 s lock+transition"
    );
    assert!(
        e.submit(RED, &go("M", 1), 0).is_err(),
        "cannot move during the 行军 entry window (busy)"
    );
    drain(&mut e);
    assert_eq!(unit(&e, "M").state, UnitState::March);

    let t0 = e.clock();
    e.submit(RED, &go("M", 2), t0).unwrap();
    drain(&mut e);
    assert_eq!(unit(&e, "M").pos, Axial::new(2, 0));
    assert_eq!(e.clock() - t0, secs(24), "三.1.3a: 行军 moves at the road's 60 km/h");
    assert_eq!(
        unit(&e, "M").state,
        UnitState::March,
        "a halted marcher stays 行军 (三.1.3f exit is a separate set_mode)"
    );

    let now = e.clock();
    e.submit(RED, &go("M", 4), now).unwrap();
    drain(&mut e);
    assert_eq!(
        unit(&e, "M").pos,
        Axial::new(2, 0),
        "三.1.3e: 行军 cannot leave the road; it halts at the road's end"
    );

    let t1 = e.clock();
    e.submit(RED, &set_mode("M", "normal"), t1).unwrap();
    assert_eq!(
        unit(&e, "M").busy_until,
        t1.saturating_add(secs(75)),
        "三.1.3f: 停止行军 takes 75 s"
    );
    drain(&mut e);
    assert_eq!(unit(&e, "M").state, UnitState::Normal);

    let mut e = make(vec![mk("M", UnitType::Tank, 0), mk("X", UnitType::Tank, 2)]);
    e.submit(RED, &march, 0).unwrap();
    drain(&mut e);
    let now = e.clock();
    e.submit(RED, &go("M", 4), now).unwrap();
    drain(&mut e);
    assert_eq!(
        unit(&e, "M").pos,
        Axial::new(1, 0),
        "三.1.3d: a stopped unit ahead halts the march one hex short"
    );

    let mut starts_marching = mk("M", UnitType::Infantry, 0);
    starts_marching.state = Some(UnitState::March);
    assert!(
        start(map(), scenario(vec![starts_marching], vec![], vec![]), 1).is_err(),
        "三.1.3: a unit may not start in 行军"
    );
}

fn enter(u: &str, fac: &str) -> Json {
    order(&[("op", "enter_facility"), ("unitId", u), ("facilityId", fac)])
}

#[test]
fn personnel_concealment_works() {
    let squad = |id: &str, ut, q| ScenarioUnit { teams: 2, ..su(id, ut, q) };
    let make = |red: Vec<ScenarioUnit>, capacity: Option<u8>| {
        let hidden = Facility { capacity, ..works("works_infantry_hidden", 0, Some("red")) };
        let blue = vec![squad("BT", UnitType::Tank, 3)];
        start(row(4, None), scenario(red, blue, vec![hidden]), 1).unwrap()
    };
    let ri = || vec![squad("RI", UnitType::Infantry, 0)];

    let mut e = make(vec![squad("RV", UnitType::Tank, 0)], None);
    assert!(
        e.submit(RED, &enter("RV", "FAC0"), 0).is_err(),
        "三.20c: a 车辆 cannot enter a 人员工事"
    );

    let mut e = make(ri(), Some(1));
    assert!(
        e.submit(RED, &enter("RI", "FAC0"), 0).is_err(),
        "三.20d: 2 班 cannot fit a capacity-1 工事"
    );

    let mut e = make(ri(), None);
    e.submit(RED, &enter("RI", "FAC0"), 0).unwrap();
    assert_eq!(unit(&e, "RI").busy_until, secs(75), "三.20b: entry takes 75 s");
    drain(&mut e);
    assert_eq!(unit(&e, "RI").inside_facility.as_deref(), Some("FAC0"));
    let blue = e.observe(BLUE);
    assert!(
        !sees(&blue, "RI"),
        "三.20.3b: a 隐蔽 garrison is invisible to the enemy"
    );
    assert!(blue.facilities.is_empty(), "rule #5: the enemy's 工事 is not surfaced");
    let red = e.observe(RED);
    let own = red.own_units.iter().find(|u| u.id == "RI").unwrap();
    assert_eq!(own.inside_facility.as_deref(), Some("FAC0"));
    let fac = red.facilities.iter().find(|f| f.id == "FAC0").expect("the owner sees its own 工事");
    assert_eq!(fac.occupant_squads, 2);

    let now = e.clock();
    assert!(
        e.submit(RED, &go("RI", 1), now).is_err(),
        "三.20: a garrison cannot move"
    );
    assert_eq!(refusal(e.submit(BLUE, &fire("BT", "RI"), now)), "invalid fire target");

    let mut e = make(ri(), None);
    e.submit(RED, &enter("RI", "FAC0"), 0).unwrap();
    drain(&mut e);
    let now = e.clock();
    e.submit(BLUE, &go("BT", 0), now).unwrap();
    while e.advance_to_next_event().is_some() && unit(&e, "RI").inside_facility.is_some() {}
    assert!(
        unit(&e, "RI").inside_facility.is_none(),
        "三.20.3d: enemy entry exposes + auto-exits the garrison"
    );
    assert!(
        e.same_hex.contains_key(&Axial::new(0, 0)),
        "三.20.3d: a 同格交战 opens on the breached hex"
    );

    let mut e = make(ri(), None);
    e.submit(RED, &enter("RI", "FAC0"), 0).unwrap();
    drain(&mut e);
    let now = e.clock();
    e.submit(RED, &order(&[("op", "exit_facility"), ("unitId", "RI")]), now).unwrap();
    assert_eq!(
        unit(&e, "RI").busy_until,
        now.saturating_add(secs(75)),
        "三.20b: exit takes 75 s"
    );
    drain(&mut e);
    assert!(unit(&e, "RI").inside_facility.is_none());

    let mut e = make(ri(), None);
    let mut enemy_fac = |fac: &str| refusal(e.submit(BLUE, &enter("BT", fac), 0));
    assert_eq!(enemy_fac("FAC0"), "no usable 工事 with that id");
    assert_eq!(
        enemy_fac("FAC0"),
        enemy_fac("NOPE"),
        "an enemy 工事 must be indistinguishable from a nonexistent one (rule #5)"
    );
}

fn fire_at_works(u: &str) -> Json {
    order(&[
        ("op", "fire_direct"),
        ("unitId", u),
        ("weapon", "大号直瞄炮"),
        ("targetFacility", "FAC0"),
    ])
}

#[test]
fn personnel_combat_works() {
    let combat = Facility {
        armor: Some("medium".into()),
        capacity: Some(5),
        ..works("works_infantry_combat", 0, Some("red"))
    };
    let s = scenario(
        vec![armored("RI", UnitType::Infantry, 0, 3)],
        vec![armored("BT", UnitType::Tank, 5, 2), armored("BF", UnitType::Tank, 14, 2)],
        vec![combat],
    );
    let mut e = start(row(14, None), s, 1).unwrap();

    e.submit(RED, &enter("RI", "FAC0"), 0).unwrap();
    drain(&mut e);
    assert_eq!(unit(&e, "RI").inside_facility.as_deref(), Some("FAC0"));

    assert!(
        sees(&e.observe(RED), "BT"),
        "三.20.2b: a 战斗工事 garrison observes out (reveals an enemy it sees)"
    );

    let blue = e.observe(BLUE);
    assert!(!sees(&blue, "RI"), "三.20.2b: the garrison itself is 全程隐蔽");
    let fac = blue
        .enemy_fortifications
        .iter()
        .find(|f| f.id == "FAC0")
        .expect("工事 surfaced at 12 格");
    assert_eq!(fac.kind, "works_infantry_combat");

    let now = e.clock();
    match e.submit(RED, &fire("RI", "GHOST"), now) {
        Err(EngineError::Command(m)) => assert!(
            !m.contains("inside a 工事"),
            "三.20.2b: a 战斗工事 garrison may fire out (reached combat), got {m:?}"
        ),
        Ok(()) => {}
        Err(other) => panic!("unexpected error: {other:?}"),
    }

    assert_eq!(refusal(e.submit(BLUE, &fire_at_works("BF"), now)), "invalid fire target");

    let mut inherited = false;
    for _ in 0..40 {
        let before = unit(&e, "RI").teams;
        let now = e.clock();
        let _ = e.submit(BLUE, &fire_at_works("BT"), now);
        let u = unit(&e, "RI");
        if !u.alive || u.teams < before || u.suppressed_until > now {
            inherited = true;
            break;
        }
        drain(&mut e);
    }
    assert!(
        inherited,
        "三.20.2e: a 人员战斗工事 garrison inherits fire results (班 loss or 压制) aimed at the 工事"
    );
}

#[test]
fn vehicle_works() {
    let shelter = Facility {
        armor: Some("medium".into()),
        capacity: Some(5),
        ..works("works_vehicle", 0, Some("red"))
    };
    let s = scenario(
        vec![armored("RV", UnitType::Tank, 0, 2), armored("RP", UnitType::Infantry, 0, 1)],
        vec![armored("BT", UnitType::Tank, 5, 2)],
        vec![shelter],
    );
    let mut e = start(row(14, None), s, 1).unwrap();
    assert!(
        e.submit(RED, &enter("RP", "FAC0"), 0).is_err(),
        "三.20c: 人员 cannot enter a 车辆工事"
    );
    e.submit(RED, &enter("RV", "FAC0"), 0).unwrap();
    drain(&mut e);
    assert_eq!(unit(&e, "RV").inside_facility.as_deref(), Some("FAC0"));
    let capacity = |e: &Engine| e.state.facilities.get(&"FAC0".to_string()).unwrap().capacity;
    let cap0 = capacity(&e);

    let mut expelled = false;
    for _ in 0..80 {
        let now = e.clock();
        let _ = e.submit(BLUE, &fire_at_works("BT"), now);
        assert_eq!(
            unit(&e, "RV").teams,
            2,
            "三.20.1e: a 车辆工事 occupant does NOT inherit the fire result"
        );
        assert!(unit(&e, "RV").alive);
        if unit(&e, "RV").inside_facility.is_none() {
            expelled = true;
            break;
        }
        drain(&mut e);
    }
    assert!(
        expelled,
        "三.20.1f/20e: the 车辆 garrison is expelled once the 工事's shrinking capacity no longer fits it"
    );
    assert!(
        capacity(&e) < cap0,
        "三.20.1c: fire shrinks the 工事's remaining capacity"
    );
    assert_eq!(unit(&e, "RV").teams, 2);
    assert!(unit(&e, "RV").inside_facility.is_none());
}

#[test]
fn indirect_hits_works() {
    let combat = Facility {
        armor: Some("none".into()),
        capacity: Some(5),
        ..works("works_infantry_combat", 2, Some("red"))
    };
    let ri = ScenarioUnit { teams: 3, ..su("RI", UnitType::Infantry, 2) };
    let mut e = start(row(4, None), scenario(vec![ri], vec![], vec![combat]), 1).unwrap();
    e.submit(RED, &enter("RI", "FAC0"), 0).unwrap();
    drain(&mut e);
    assert_eq!(unit(&e, "RI").inside_facility.as_deref(), Some("FAC0"));

    let before = unit(&e, "RI").teams;
    let now = e.clock();
    e.apply_indirect_at(Axial::new(2, 0), IndirectBase::Loss(5), 1, now);
    let u = unit(&e, "RI");
    assert!(
        !u.alive || u.teams < before || u.suppressed_until > e.clock(),
        "三.20.1c/2c: a 间瞄 salvo on the 工事's hex is inherited by the garrison"
    );
}

fn lay(u: &str, q: i32) -> Json {
    order_at(&[("op", "lay_mines"), ("unitId", u)], "targetHex", q)
}

/// Drives a unit to and fro until something happens to it.
fn crosses_until_hurt(e: &mut Engine, side: SideId, id: &str, there: i32, back: i32) -> bool {
    for i in 0..60 {
        let before = unit(e, id).teams;
        let now = e.clock();
        let _ = e.submit(side, &go(id, if i % 2 == 0 { there } else { back }), now);
        while e.advance_to_next_event().is_some() {
            let u = unit(e, id);
            if !u.alive || u.teams < before || u.suppressed_until > e.clock() {
                return true;
            }
        }
    }
    false
}

#[test]
fn minefield_lay_and_entry() {
    let bare = |id: &str, ut, q| ScenarioUnit {
        armor: Some(Armor::Unarmored),
        teams: 4,
        ..su(id, ut, q)
    };
    let mut e = game(
        row(10, None),
        vec![bare("ML", UnitType::Minelayer, 0)],
        vec![bare("BT", UnitType::Tank, 2)],
        1,
    );
    assert!(
        e.submit(BLUE, &lay("BT", 3), 0).is_err(),
        "三.21b: a 坦克 cannot 布雷"
    );
    e.submit(RED, &lay("ML", 3), 0).unwrap();
    assert_eq!(unit(&e, "ML").busy_until, secs(75));
    drain(&mut e);
    assert!(
        e.state.minefields.contains_key(&Axial::new(3, 0)),
        "三.21c: the 雷场 is laid at the target hex"
    );
    assert!(
        e.observe(RED).minefields.contains(&Axial::new(3, 0)),
        "三.21a: the laying side sees its own 雷场"
    );
    assert!(
        crosses_until_hurt(&mut e, BLUE, "BT", 4, 2),
        "三.21e: a 地面单位 crossing an uncleared 雷场 eventually takes 附4 damage (both sides)"
    );

    let mut e = game(row(10, None), vec![bare("ML", UnitType::Minelayer, 0)], vec![], 1);
    for q in [3, 4, 5] {
        let now = e.clock();
        e.submit(RED, &lay("ML", q), now).unwrap();
        drain(&mut e);
    }
    let now = e.clock();
    assert!(
        e.submit(RED, &lay("ML", 6), now).is_err(),
        "三.21c: a 火箭布雷车 lays at most 3 雷场"
    );
}

#[test]
fn half_speed_move() {
    let make = |ut| {
        game(row(4, None), vec![ScenarioUnit { teams: 2, ..su("M", ut, 0) }], vec![], 1)
    };
    let move_time = |ut, half: bool| -> i64 {
        let mut e = make(ut);
        let cmd = if half { go_at("M", "half", 2) } else { go("M", 2) };
        let t0 = e.clock();
        e.submit(RED, &cmd, 0).unwrap();
        drain(&mut e);
        assert_eq!(unit(&e, "M").pos, Axial::new(2, 0), "M reaches its target");
        assert_eq!(
            unit(&e, "M").state,
            UnitState::Stopped,
            "三.1: a 半速 move settles Stopped (per-move speed, not a posture)"
        );
        e.clock() - t0
    };
    for ut in [UnitType::Tank, UnitType::Infantry] {
        let normal = move_time(ut, false);
        let half = move_time(ut, true);
        assert!(normal > 0, "{ut:?} moves");
        assert_eq!(half, normal * 2, "三.1: 半速 takes 2× the normal time ({ut:?})");
    }
    let mut e = make(UnitType::Tank);
    assert!(
        e.submit(RED, &set_mode("M", "half"), 0).is_err(),
        "三.1: 半速 is not a set_mode posture"
    );
}

#[test]
fn minefield_clear_and_lane() {
    let bare = |id: &str, ut, q| ScenarioUnit {
        armor: Some(Armor::Unarmored),
        teams: 3,
        ..su(id, ut, q)
    };
    let s = scenario(
        vec![bare("MS", UnitType::Minesweeper, 1), bare("RI", UnitType::Infantry, 1)],
        vec![bare("BT", UnitType::Tank, 5)],
        vec![works("minefield", 3, None)],
    );
    let mut e = start(row(6, None), s, 1).unwrap();

    e.submit(RED, &go_at("MS", "half", 4), 0).unwrap();
    drain(&mut e);
    assert_eq!(unit(&e, "MS").pos, Axial::new(4, 0));
    assert_eq!(
        unit(&e, "MS").teams,
        3,
        "三.21f: the 扫雷车 clears without taking 雷场 damage"
    );
    assert!(
        e.state.minefields.get(&Axial::new(3, 0)).unwrap().cleared_by.contains(RED),
        "三.21f: a 通路 is opened for the clearing side"
    );

    let now = e.clock();
    e.submit(RED, &go("RI", 4), now).unwrap();
    drain(&mut e);
    assert_eq!(unit(&e, "RI").pos, Axial::new(4, 0));
    assert_eq!(
        unit(&e, "RI").teams,
        3,
        "三.21i: 人员 along a friendly 通路 takes no 雷场裁决"
    );

    assert!(
        crosses_until_hurt(&mut e, BLUE, "BT", 2, 4),
        "三.21h: the enemy has no 通路 here, so it still takes 附4 damage (single-side lane)"
    );
}

#[test]
fn charge_and_fatigue() {
    let make = || {
        let two = |id: &str, ut, q| ScenarioUnit { teams: 2, ..su(id, ut, q) };
        let red = vec![two("M", UnitType::Infantry, 0), two("T", UnitType::Tank, 8)];
        game(row(8, None), red, vec![], 1)
    };
    let run_until_stopped = |e: &mut Engine| {
        while unit(e, "M").state != UnitState::Stopped && e.advance_to_next_event().is_some() {}
    };
    let step_normal = secs(144);
    let step_c1 = secs(72);
    let decay = secs(75);

    let mut e = make();
    e.submit(RED, &go_at("M", "charge1", 6), 0).unwrap();
    run_until_stopped(&mut e);
    assert_eq!(
        unit(&e, "M").pos,
        Axial::new(2, 0),
        "三.1.4: 一级冲锋 halts at 二级疲劳 after 2 冲锋 hexes"
    );
    assert_eq!(unit(&e, "M").fatigue, 2, "三.1.4: +1 疲劳 per 冲锋格 → 2");
    let settle = e.clock();
    assert_eq!(
        settle,
        step_c1 * 2,
        "三.1.4: a 一级冲锋 hop is half the normal time (2× speed)"
    );
    assert!(
        settle < step_normal * 2,
        "一级冲锋 reaches (2,0) faster than a normal walk would"
    );
    assert!(
        e.submit(RED, &go("M", 3), settle).is_err(),
        "三.1.4: 二级疲劳禁机动 (normal move refused)"
    );
    assert!(
        e.submit(RED, &go_at("M", "charge1", 3), settle).is_err(),
        "三.1.4: 二级疲劳 bars 一级冲锋 too"
    );

    assert!(e.advance_to_next_event().is_some());
    assert_eq!(e.clock(), settle + decay, "恢复 tick at +75 s");
    assert_eq!(unit(&e, "M").fatigue, 1, "三.1.4: 疲劳 decays 2 → 1");
    assert!(e.advance_to_next_event().is_some());
    assert_eq!(e.clock(), settle + decay * 2, "next 恢复 tick at +150 s");
    assert_eq!(unit(&e, "M").fatigue, 0, "三.1.4: 疲劳 decays 1 → 0");
    assert!(
        e.advance_to_next_event().is_none(),
        "no further 恢复 once 疲劳 reaches 0"
    );
    let now = e.clock();
    assert!(
        e.submit(RED, &go_at("M", "charge1", 3), now).is_ok(),
        "a fully-rested unit may 冲锋 again"
    );

    let mut e2 = make();
    e2.submit(RED, &go_at("M", "charge2", 6), 0).unwrap();
    run_until_stopped(&mut e2);
    assert_eq!(
        unit(&e2, "M").pos,
        Axial::new(1, 0),
        "三.1.4: 二级冲锋 halts after 1 hex (一级疲劳 forbids continuing)"
    );
    assert_eq!(unit(&e2, "M").fatigue, 1);
    let now = e2.clock();
    assert!(
        e2.submit(RED, &go_at("M", "charge2", 5), now).is_err(),
        "三.1.4: 一级疲劳禁二级冲锋"
    );
    assert!(
        e2.submit(RED, &go_at("M", "charge1", 5), now).is_ok(),
        "三.1.4: 一级疲劳 still permits 一级冲锋"
    );

    let mut e3 = make();
    for m in ["charge1", "charge2"] {
        assert!(
            e3.submit(RED, &set_mode("M", m), 0).is_err(),
            "三.1.4: {m} is per-move only, not a set_mode posture"
        );
    }
    assert!(
        e3.submit(RED, &go_at("T", "charge1", 7), 0).is_err(),
        "三.1.4: 只有步兵可冲锋 (a 坦克 cannot)"
    );

    let standing = ScenarioUnit {
        state: Some(UnitState::Charge1),
        ..su("M", UnitType::Infantry, 0)
    };
    assert!(
        start(row(8, None), scenario(vec![standing], vec![], vec![]), 1).is_err(),
        "三.1.4: a unit cannot start in 一级冲锋 (per-move speed, not a posture)"
    );

    let mut e4 = make();
    e4.submit(RED, &go_at("M", "charge1", 6), 0).unwrap();
    run_until_stopped(&mut e4);
    assert_eq!(unit(&e4, "M").fatigue, 2);
    let pos = unit(&e4, "M").pos;
    let now = e4.clock();
    assert!(
        e4.submit(RED, &go("M", pos.q), now).is_ok(),
        "move_to to the current hex is an accepted no-op"
    );
    assert_eq!(unit(&e4, "M").pos, pos, "a no-op move_to does not move the unit");
    assert_eq!(
        unit(&e4, "M").state,
        UnitState::Stopped,
        "a no-op move_to leaves the unit Stopped (no burst started)"
    );
    drain(&mut e4);
    assert_eq!(
        unit(&e4, "M").fatigue,
        0,
        "三.1.4: 疲劳 still recovers to 0 after a no-op move_to"
    );
}

fn strike_down(e: &mut Engine, id: &str, outcome: Outcome, t: Tick) {
    e.apply_direct_fire(&id.to_string(), outcome, t).unwrap();
}

#[test]
fn transport_heli_integral_loss() {
    let aboard = |id: &str, ut, teams: u8, q: i32, cb: Option<&str>| ScenarioUnit {
        teams,
        carried_by: cb.map(|s| s.into()),
        ..su(id, ut, q)
    };
    let mut e = game(
        row(3, None),
        vec![
            aboard("H", UnitType::TransportHeli, 3, 0, None),
            aboard("A", UnitType::Infantry, 2, 0, Some("H")),
            aboard("B", UnitType::Infantry, 2, 0, Some("H")),
            aboard("V", UnitType::Ifv, 3, 2, None),
            aboard("C", UnitType::Infantry, 2, 2, Some("V")),
        ],
        vec![],
        1,
    );
    let now = e.clock();

    strike_down(&mut e, "H", Outcome::Destroyed(1), now);
    assert_eq!(unit(&e, "H").teams, 2, "三.16h: heli took 1");
    assert_eq!(unit(&e, "A").teams, 1, "三.16h: loaded 班 A suffers the same loss");
    assert_eq!(unit(&e, "B").teams, 1, "三.16h: loaded 班 B suffers the same loss");
    assert!(
        unit(&e, "A").suppressed_until > now && unit(&e, "B").suppressed_until > now,
        "三.16h: cargo surviving the integral loss is 压制 too"
    );

    strike_down(&mut e, "V", Outcome::Destroyed(1), now);
    assert_eq!(unit(&e, "V").teams, 2, "V took 1");
    assert_eq!(
        unit(&e, "C").teams,
        2,
        "三.2: a ground carrier shields its 搭载 from partial loss"
    );
    assert_eq!(
        unit(&e, "C").suppressed_until,
        0,
        "三.2: shielded 搭载 is not 压制 by a hit the carrier absorbed"
    );

    let t2 = now + 1;
    strike_down(&mut e, "H", Outcome::Suppress, t2);
    assert!(
        unit(&e, "A").suppressed_until > t2 && unit(&e, "B").suppressed_until > t2,
        "三.16h: a Suppress result is shared with the loaded 班"
    );

    strike_down(&mut e, "H", Outcome::Destroyed(99), t2);
    assert!(!unit(&e, "H").alive, "heli destroyed");
    assert!(
        !unit(&e, "A").alive && !unit(&e, "B").alive,
        "三.16h: a destroyed heli takes its loaded 班 with it"
    );

    let self_carry = vec![aboard("X", UnitType::Infantry, 2, 0, Some("X"))];
    assert!(
        start(row(3, None), scenario(self_carry, vec![], vec![]), 1).is_err(),
        "三.2: a unit cannot be 搭载 on itself"
    );

    let mut e2 = game(
        row(3, None),
        vec![
            aboard("H1", UnitType::TransportHeli, 3, 0, None),
            aboard("H2", UnitType::TransportHeli, 3, 0, Some("H1")),
        ],
        vec![],
        1,
    );
    let t0 = e2.clock();
    strike_down(&mut e2, "H1", Outcome::Suppress, t0);
    assert_eq!(
        unit(&e2, "H2").suppressed_until,
        0,
        "三.16h forwarding skips a non-班 carried unit — no recursion, no spurious loss"
    );
}

#[test]
fn roadblock_blocks_ground_not_air() {
    let final_pos = |ut| {
        let s = scenario(
            vec![ScenarioUnit { teams: 2, ..su("M", ut, 0) }],
            vec![],
            vec![works("roadblock", 2, None)],
        );
        let mut e = start(row(4, None), s, 1).unwrap();
        e.submit(RED, &go("M", 4), 0).unwrap();
        drain(&mut e);
        unit(&e, "M").pos
    };
    assert_eq!(
        final_pos(UnitType::Tank),
        Axial::new(1, 0),
        "三.1.2g: 坦克 halts before the 路障 (不可通过)"
    );
    assert_eq!(
        final_pos(UnitType::Infantry),
        Axial::new(1, 0),
        "三.1.2g: 步兵 halts before the 路障 (人员 also blocked)"
    );
    assert_eq!(
        final_pos(UnitType::AttackHeli),
        Axial::new(4, 0),
        "三.1.2g: 攻击直升机 flies over the 路障"
    );
}

fn agg(u: &str, other: &str) -> Json {
    order(&[("op", "aggregate"), ("unitId", u), ("targetUnit", other)])
}

fn split_order(u: &str) -> Json {
    order(&[("op", "split"), ("unitId", u)])
}

fn roster(e: &Engine) -> Vec<(String, u8, bool)> {
    (0..e.state.units.len())
        .map(|i| {
            let u = e.state.units.val_at(i);
            (e.state.units.key_at(i).clone(), u.teams, u.alive)
        })
        .collect()
}

#[test]
fn aggregate_and_split() {
    let squad = |id: &str, ut, teams: u8, q| ScenarioUnit { teams, ..su(id, ut, q) };
    let make = || {
        game(
            row(4, None),
            vec![
                squad("R1", UnitType::Infantry, 2, 0),
                squad("R2", UnitType::Infantry, 2, 0),
                squad("R3", UnitType::Infantry, 2, 0),
                squad("AR", UnitType::Artillery, 2, 2),
                squad("AH", UnitType::AttackHeli, 1, 3),
            ],
            vec![],
            1,
        )
    };
    let tr = secs(75);

    let mut e = make();
    e.submit(RED, &agg("R1", "R2"), 0).unwrap();
    assert_eq!(unit(&e, "R1").teams, 2, "no merge before the 75 s completes");
    assert!(unit(&e, "R2").alive, "R2 still on the board mid-transition");
    drain(&mut e);
    assert_eq!(e.clock(), tr, "三.17b: 聚合 takes 75 s");
    assert_eq!(unit(&e, "R1").teams, 4, "三.17b: 班数 累加 → 4");
    assert!(
        !unit(&e, "R2").alive && unit(&e, "R2").teams == 0,
        "三.17b: the consumed 班 leaves the board"
    );

    let now = e.clock();
    e.submit(RED, &split_order("R1"), now).unwrap();
    drain(&mut e);
    assert_eq!(unit(&e, "R1").teams, 2, "三.17c: parent keeps the larger half (2)");
    let child = unit(&e, "R1#1");
    assert_eq!(child.teams, 2, "三.17c: child takes the other half (2)");
    assert!(
        child.alive && child.pos == Axial::new(0, 0),
        "child spawns alive at the parent hex"
    );
    assert_eq!(child.unit_type, UnitType::Infantry);
    assert_eq!(child.side, RED);

    let now = e.clock();
    e.submit(RED, &split_order("R1"), now).unwrap();
    drain(&mut e);
    assert!(
        e.state.units.contains_key(&"R1#2".to_string()),
        "三.17c: the next child id is R1#2"
    );

    let mut e2 = make();
    e2.submit(RED, &agg("R1", "R2"), 0).unwrap();
    drain(&mut e2);
    for _ in 0..2 {
        let now = e2.clock();
        e2.submit(RED, &split_order("R1"), now).unwrap();
        drain(&mut e2);
    }
    assert_eq!(
        roster(&e),
        roster(&e2),
        "三.17 replay: identical commands reproduce the identical roster (deterministic child ids)"
    );

    let mut e3 = make();
    e3.submit(RED, &agg("R1", "R2"), 0).unwrap();
    strike_down(&mut e3, "R2", Outcome::Suppress, 0);
    drain(&mut e3);
    assert_eq!(unit(&e3, "R1").teams, 2, "三.17d: 压制 aborts the 聚合 — no merge");
    assert!(unit(&e3, "R2").alive, "三.17d: the 压制d unit is not consumed");

    let mut e4 = make();
    assert!(
        e4.submit(RED, &split_order("AR"), 0).is_err(),
        "三.17i: 炮兵 cannot 解聚"
    );
    assert!(
        e4.submit(RED, &split_order("AH"), 0).is_err(),
        "三.17a: 空中算子 cannot 解聚"
    );
    e4.submit(RED, &split_order("R1"), 0).unwrap();
    drain(&mut e4);
    assert_eq!(unit(&e4, "R1").teams, 1, "R1 down to 1 班 after splitting 2");
    let now = e4.clock();
    assert!(
        e4.submit(RED, &split_order("R1"), now).is_err(),
        "三.17c: a 1-班 unit cannot 解聚"
    );

    let mut e5 = make();
    e5.submit(RED, &agg("R1", "R2"), 0).unwrap();
    assert!(
        e5.submit(RED, &agg("R3", "R1"), 0).is_err(),
        "三.17: cannot 聚合-consume R1 while it is mid-transition"
    );
    assert!(
        e5.submit(RED, &agg("R3", "R2"), 0).is_err(),
        "三.17: cannot 聚合-consume R2 while it is being consumed"
    );

    let mut e6 = make();
    e6.submit(RED, &agg("R1", "R2"), 0).unwrap();
    e6.submit(RED, &order(&[("op", "stop"), ("unitId", "R1")]), tr).unwrap();
    drain(&mut e6);
    assert_eq!(
        unit(&e6, "R1").teams,
        2,
        "三.17: a same-tick re-task supersedes the 聚合 — no merge"
    );
    assert!(
        unit(&e6, "R2").alive,
        "三.17: R2 not consumed by the superseded 聚合"
    );
}

#[test]
fn aggregate_ugv_master_gate() {
    let mk = |id: &str, ut, affil: Option<&str>| ScenarioUnit {
        teams: 2,
        affiliated_to: affil.map(|s| s.into()),
        ..su(id, ut, 0)
    };
    let mut e = game(
        row(2, None),
        vec![
            mk("V1", UnitType::Ifv, None),
            mk("V2", UnitType::Ifv, None),
            mk("U", UnitType::Ugv, Some("V1")),
        ],
        vec![],
        1,
    );
    assert!(
        e.submit(RED, &agg("V2", "V1"), 0).is_err(),
        "三.13d/三.17: cannot 聚合-consume a 无人战车's 隶属车辆"
    );
    assert!(
        e.submit(RED, &agg("V1", "V2"), 0).is_ok(),
        "三.17: consuming a non-master is allowed (the master survives, keeps its UGV)"
    );
}

fn launch(id: &str) -> Json {
    order_at(&[("op", "launch_loitering"), ("unitId", id)], "targetArea", 3)
}

#[test]
fn a_munition_dies_with_the_vehicle_that_launched_it() {
    let mut e = game(
        row(4, None),
        vec![
            ScenarioUnit { teams: 3, ..su("L", UnitType::ReconVehicle, 0) },
            ScenarioUnit { carried_by: Some("L".into()), ..su("M", UnitType::LoiteringMunition, 0) },
        ],
        vec![ScenarioUnit { teams: 3, ..su("BT", UnitType::Tank, 3) }],
        1,
    );
    e.submit(RED, &launch("M"), 0).unwrap();
    e.step(7600);
    assert!(unit(&e, "M").alive && unit(&e, "M").carried_by.is_none());
    let now = e.clock();
    e.apply_direct_fire(&"L".to_string(), Outcome::Kill, now).unwrap();
    assert!(!unit(&e, "L").alive && !unit(&e, "M").alive);
    assert_eq!(unit(&e, "M").teams, 0);
    assert_eq!(unit(&e, "BT").teams, 3);
}

#[test]
fn loitering_strike_and_flight() {
    let mut e = game(
        row(4, None),
        vec![
            ScenarioUnit { teams: 3, ..su("L", UnitType::ReconVehicle, 0) },
            ScenarioUnit { carried_by: Some("L".into()), ..su("M", UnitType::LoiteringMunition, 0) },
        ],
        vec![ScenarioUnit { teams: 3, ..su("BT", UnitType::Tank, 3) }],
        1,
    );
    let strike = order(&[("op", "strike_loitering"), ("unitId", "M"), ("targetUnit", "BT")]);

    e.submit(RED, &launch("M"), 0).unwrap();
    assert!(
        e.submit(RED, &go("M", 1), 0).is_err(),
        "巡飞弹 is busy mid-发射 — cannot be ordered yet"
    );
    e.advance_to_next_event();
    assert!(
        unit(&e, "M").alive && unit(&e, "M").carried_by.is_none(),
        "三.10d: the 巡飞弹 deploys independent of its carrier"
    );

    let now = e.clock();
    assert!(
        e.submit(RED, &strike, now).is_err(),
        "三.10b/#5: an out-of-recon-range target yields the generic invalid-target error"
    );

    e.submit(RED, &go("M", 2), now).unwrap();
    e.step(2000);
    assert_eq!(
        unit(&e, "M").pos,
        Axial::new(2, 0),
        "三.10 飞行: a deployed 巡飞弹 flies via move_to"
    );

    let now = e.clock();
    e.submit(RED, &strike, now).unwrap();
    assert!(
        !unit(&e, "M").alive,
        "三.10f: the 巡飞弹 is consumed by its strike (one-shot)"
    );
    assert!(
        e.submit(RED, &strike, now).is_err(),
        "a spent 巡飞弹 cannot 打击 again"
    );
}

#[test]
fn indirect_plan_friendly_fire() {
    let three = |id: &str, ut, q| ScenarioUnit { teams: 3, ..su(id, ut, q) };
    let make = |seed: u64| {
        game(
            row(4, None),
            vec![
                three("R-Art", UnitType::Artillery, 0),
                three("R-Spot", UnitType::Infantry, 2),
                three("RV", UnitType::Infantry, 3),
            ],
            vec![three("EV", UnitType::Infantry, 3)],
            seed,
        )
    };
    let plan = |id: &str| order_at(&[("op", "plan_indirect"), ("unitId", id)], "targetHex", 3);
    let affected = |e: &Engine, id: &str| {
        let x = unit(e, id);
        !x.alive || x.teams < 3 || x.suppressed_until > e.state.clock
    };

    let mut e = make(1);
    assert!(
        e.submit(RED, &plan("R-Spot"), 0).is_err(),
        "三.9.1a: only 炮兵 may plan 间瞄"
    );
    e.submit(RED, &plan("R-Art"), 0).unwrap();
    assert!(
        e.submit(RED, &plan("R-Art"), 100).is_err(),
        "三.9.1c: the artillery is on cooldown"
    );
    e.submit(RED, &order(&[("op", "cancel_indirect"), ("unitId", "R-Art")]), 200).unwrap();
    e.submit(RED, &plan("R-Art"), 300).expect("三.9.1d: cooldown cleared after cancel");

    let mut hit_friendly = false;
    let mut hit_enemy = false;
    for seed in 1..40 {
        let mut e = make(seed);
        e.submit(RED, &plan("R-Art"), 0).unwrap();
        e.step(16_000);
        if affected(&e, "RV") {
            hit_friendly = true;
        }
        if affected(&e, "EV") {
            hit_enemy = true;
        }
        if hit_friendly && hit_enemy {
            break;
        }
    }
    assert!(
        hit_friendly,
        "三.9.3c: 间瞄 must be able to wound a friendly unit in the impact hex"
    );
    assert!(hit_enemy, "and the enemy unit sharing that hex");
}

fn guide(vehicle: &str, guide: &str) -> Json {
    order(&[
        ("op", "guide_fire"),
        ("unitId", vehicle),
        ("guideId", guide),
        ("weapon", "重型导弹"),
        ("targetUnit", "T"),
    ])
}

#[test]
fn guide_fire_op() {
    let mut e = game(
        row(6, None),
        vec![
            armored("V", UnitType::Tank, 0, 3),
            armored("G", UnitType::Uav, 4, 3),
            armored("F", UnitType::Infantry, 0, 3),
        ],
        vec![armored("T", UnitType::Tank, 5, 3)],
        5,
    );
    assert!(e.submit(RED, &guide("V", "F"), 0).is_err());
    e.submit(RED, &guide("V", "G"), 0).unwrap();
    assert!(
        e.submit(RED, &guide("V", "G"), 100).is_err(),
        "三.14f: the guide is in its 75 s prep"
    );
    assert_eq!(
        unit(&e, "V").weapon_state,
        WeaponState::Cooling,
        "三.14f: the missile vehicle is cooling"
    );
}

#[test]
fn aa_fire_op() {
    let make = || {
        game(
            row(8, None),
            vec![armored("AA", UnitType::AaMissileVehicle, 0, 4), armored("RT", UnitType::Tank, 0, 4)],
            vec![armored("H", UnitType::AttackHeli, 5, 4), armored("GT", UnitType::Tank, 2, 4)],
            7,
        )
    };
    let aa = |id: &str, target: &str| {
        order(&[("op", "aa_fire"), ("unitId", id), ("targetUnit", target)])
    };
    let key = "AA".to_string();

    let mut e = make();
    e.submit(RED, &aa("AA", "H"), 0).unwrap();
    assert_eq!(unit(&e, "AA").weapon_state, WeaponState::Cooling);
    assert_eq!(e.aa_shots.get(&key), Some(&1));
    assert!(e.submit(RED, &aa("AA", "H"), 100).is_err());
    drain(&mut e);
    assert_eq!(unit(&e, "AA").weapon_state, WeaponState::Deployed);

    let mut e = make();
    e.aa_shots.insert(key, 3);
    e.submit(RED, &aa("AA", "H"), 0).unwrap();
    drain(&mut e);
    let now = e.clock();
    assert!(
        e.submit(RED, &aa("AA", "H"), now).is_err(),
        "三.18g: out of AA shots"
    );

    let mut e = make();
    assert!(e.submit(RED, &aa("AA", "GT"), 0).is_err());
    assert!(e.submit(RED, &aa("RT", "H"), 0).is_err());
}

#[test]
fn space_recon_op() {
    let make = |with_sr: bool| {
        let mut red = vec![armored("RT", UnitType::Tank, 0, 3)];
        if with_sr {
            red.push(armored("SR", UnitType::SpaceRecon, 0, 3));
        }
        game(
            row(32, None),
            red,
            vec![armored("BT", UnitType::Tank, 30, 3), armored("BSR", UnitType::SpaceRecon, 0, 3)],
            1,
        )
    };
    let e = make(true);
    assert!(e.same_hex.is_empty());
    let obs = e.observe(RED);
    let bt = obs
        .enemy_units
        .iter()
        .find(|u| u.id == "BT")
        .expect("三.22c: 天基 tracks the far enemy");
    assert!(bt.space_track, "三.22c: a reduced, space-only track");

    let mut e = make(true);
    assert!(e.submit(RED, &fire("RT", "BSR"), 0).is_err());
    assert!(e.submit(RED, &fire("RT", "BT"), 0).is_err());

    assert!(!sees(&make(false).observe(RED), "BT"));
}

#[test]
fn same_hex_engagement() {
    let mut e = game(
        row(2, None),
        vec![ScenarioUnit { teams: 3, ..su("RT", UnitType::Tank, 0) }],
        vec![su("BI", UnitType::Infantry, 1)],
        4,
    );
    e.submit(RED, &go("RT", 1), 0).unwrap();
    e.step(3_000);
    let bi = unit(&e, "BI");
    assert!(
        !bi.alive || bi.teams < 1 || bi.suppressed_until > e.clock(),
        "三.15a/b: entering the enemy's hex immediately engages and hits the infantry"
    );
    let mut guard = 0;
    while e.advance_to_next_event().is_some() {
        guard += 1;
        assert!(guard < 100_000, "engagement event loop did not terminate");
    }
    assert!(
        e.same_hex.is_empty(),
        "三.15f: the engagement ends once one side is gone (or the stalemate guard fires)"
    );
}

#[test]
fn movement_states() {
    let mut e = start(demo_map(), demo_scenario(), 1).unwrap();
    let id = "R-I1";
    assert_eq!(unit(&e, id).state, UnitState::Normal);

    e.submit(RED, &set_mode(id, "cover"), 0).unwrap();
    e.step(7400);
    assert_ne!(
        unit(&e, id).state,
        UnitState::Cover,
        "mode must not switch before the 75 s transition completes"
    );
    assert!(
        e.submit(RED, &set_mode(id, "normal"), 7400).is_err(),
        "must reject re-tasking during a transition"
    );
    e.step(200);
    assert_eq!(unit(&e, id).state, UnitState::Cover);

    let now = e.clock();
    e.submit(RED, &set_mode(id, "normal"), now).unwrap();
    e.step(7500);
    assert_eq!(unit(&e, id).state, UnitState::Normal);

    let now = e.clock();
    e.submit(RED, &order(&[("op", "stop"), ("unitId", id)]), now).unwrap();
    assert!(
        e.submit(RED, &set_mode(id, "normal"), now).is_err(),
        "no operations during the stop transition"
    );
    e.step(7500);
    assert_eq!(unit(&e, id).state, UnitState::Stopped);
}

#[test]
fn concealment() {
    assert!(guided_fire_breaks_cover(true));
    assert!(!guided_fire_breaks_cover(false));
    assert!(can_enter_cover(false));
    assert!(!can_enter_cover(true));

    let tank = |id: &str, q| armored(id, UnitType::Tank, q, 4);
    let squad = |id: &str, q| ScenarioUnit { teams: 3, ..su(id, UnitType::Infantry, q) };
    let make = |red, blue| game(row(2, None), red, blue, 1);
    let cover = |id: &str| set_mode(id, "cover");

    let mut e = make(vec![tank("R", 0)], vec![]);
    e.submit(RED, &cover("R"), 0).unwrap();
    drain(&mut e);
    assert_eq!(unit(&e, "R").state, UnitState::Cover, "三.3a: cover is reached");

    let mut e = make(vec![tank("R", 0)], vec![]);
    unit_mut(&mut e, "R").suppressed_until = 100_000;
    assert!(
        e.submit(RED, &cover("R"), 0).is_err(),
        "三.3e: no cover while suppressed"
    );

    let mut e = make(vec![tank("R", 0)], vec![tank("B", 1)]);
    e.submit(RED, &cover("R"), 0).unwrap();
    drain(&mut e);
    assert_eq!(unit(&e, "R").state, UnitState::Cover);
    let now = e.clock();
    e.submit(RED, &fire("R", "B"), now).unwrap();
    assert_ne!(unit(&e, "R").state, UnitState::Cover, "三.3c: firing leaves cover");

    let mut e = make(vec![tank("R", 0)], vec![tank("B", 1)]);
    e.submit(RED, &cover("R"), 0).unwrap();
    e.submit(RED, &fire("R", "B"), 0).unwrap();
    drain(&mut e);
    assert_ne!(
        unit(&e, "R").state,
        UnitState::Cover,
        "三.3b: tank fire interrupts the cover transition"
    );

    let mut e = make(vec![squad("RI", 0)], vec![tank("B", 1)]);
    e.submit(RED, &cover("RI"), 0).unwrap();
    e.submit(BLUE, &fire("B", "RI"), 0).unwrap();
    assert_eq!(
        unit(&e, "RI").state,
        UnitState::Suppressed,
        "三.3f: suppression interrupts the cover transition"
    );
    drain(&mut e);
    assert_ne!(unit(&e, "RI").state, UnitState::Cover, "三.3f: the cover never lands");

    let mut e = make(vec![squad("RI", 0)], vec![tank("B", 1)]);
    e.submit(RED, &cover("RI"), 0).unwrap();
    drain(&mut e);
    assert_eq!(unit(&e, "RI").state, UnitState::Cover);
    let now = e.clock();
    e.submit(BLUE, &fire("B", "RI"), now).unwrap();
    assert_eq!(
        unit(&e, "RI").state,
        UnitState::Cover,
        "p05-g: established cover survives suppression"
    );
    assert!(
        unit(&e, "RI").suppressed_until > now,
        "but the unit is still marked suppressed by the timer"
    );
    assert!(
        e.submit(RED, &fire("RI", "B"), now).is_err(),
        "a suppressed-in-cover unit cannot fire"
    );
    drain(&mut e);
    assert_eq!(
        unit(&e, "RI").state,
        UnitState::Cover,
        "p05-g: cover persists after the suppression timer ends"
    );
}

#[test]
fn mount_dismount() {
    let crew = |id: &str, ut, q| ScenarioUnit {
        armor: match ut {
            UnitType::Tank => Some(Armor::Medium),
            UnitType::Ifv => Some(Armor::Light),
            _ => None,
        },
        teams: if ut == UnitType::Tank { 4 } else { 3 },
        ..su(id, ut, q)
    };
    let make = |red, blue| game(row(1, None), red, blue, 1);
    let carried = |e: &Engine, id: &str| unit(e, id).carried_by.clone();
    let mount =
        |p: &str, v: &str| order(&[("op", "mount"), ("unitId", p), ("vehicleId", v)]);
    let dismount = |p: &str| order(&[("op", "dismount"), ("unitId", p)]);
    let ri = || crew("RI", UnitType::Infantry, 0);
    let v = || crew("V", UnitType::Ifv, 0);

    let mut e = make(vec![ri(), v()], vec![]);
    e.submit(RED, &mount("RI", "V"), 0).unwrap();
    assert_eq!(carried(&e, "RI"), None, "still boarding mid-transition");
    drain(&mut e);
    assert_eq!(carried(&e, "RI"), Some("V".to_string()), "三.2: RI is aboard V");

    let now = e.clock();
    assert!(
        e.submit(RED, &go("RI", 1), now).is_err(),
        "三.2: a mounted unit takes no independent order"
    );
    e.submit(RED, &go("V", 1), now).unwrap();
    drain(&mut e);
    assert_eq!(unit(&e, "V").pos, Axial::new(1, 0));
    assert_eq!(unit(&e, "RI").pos, Axial::new(1, 0), "三.2: passenger rides along");

    let now = e.clock();
    e.submit(RED, &dismount("RI"), now).unwrap();
    drain(&mut e);
    assert_eq!(carried(&e, "RI"), None, "三.2: RI dismounted");
    assert_eq!(unit(&e, "RI").pos, Axial::new(1, 0));

    let mut e = make(vec![ri(), crew("V", UnitType::Ifv, 1)], vec![]);
    assert!(
        e.submit(RED, &mount("RI", "V"), 0).is_err(),
        "三.2a: cannot mount across hexes"
    );
    let moving = ScenarioUnit { state: Some(UnitState::Moving), ..ri() };
    let mut e = make(vec![moving, v()], vec![]);
    assert!(
        e.submit(RED, &mount("RI", "V"), 0).is_err(),
        "三.2a: a moving unit cannot mount"
    );

    let mut e = make(vec![ri(), v()], vec![]);
    unit_mut(&mut e, "RI").suppressed_until = 100_000;
    assert!(
        e.submit(RED, &mount("RI", "V"), 0).is_err(),
        "三.2c: no mount while suppressed"
    );

    let mut e = make(vec![ri(), v()], vec![crew("B", UnitType::Tank, 1)]);
    e.submit(RED, &mount("RI", "V"), 0).unwrap();
    e.submit(BLUE, &fire("B", "RI"), 0).unwrap();
    drain(&mut e);
    assert_eq!(
        carried(&e, "RI"),
        None,
        "三.2d: suppression interrupted the mount — RI never boarded"
    );

    let mut e = make(vec![crew("T", UnitType::Tank, 0), v()], vec![]);
    assert!(
        e.submit(RED, &mount("T", "V"), 0).is_err(),
        "三.2: a tank cannot mount an IFV"
    );

    let mut e = make(
        vec![
            ri(),
            v(),
            crew("G1", UnitType::Tank, 0),
            crew("G2", UnitType::Tank, 0),
            crew("G3", UnitType::Tank, 0),
        ],
        vec![],
    );
    e.submit(RED, &mount("RI", "V"), 0).unwrap();
    drain(&mut e);
    assert_eq!(carried(&e, "RI"), Some("V".to_string()));
    let now = e.clock();
    assert!(
        e.submit(RED, &dismount("RI"), now).is_err(),
        "三.4: cannot dismount into a full hex"
    );

    let ifv1 = ScenarioUnit { armor: Some(Armor::Unarmored), ..su("V", UnitType::Ifv, 0) };
    let mut e = make(vec![ri(), ifv1], vec![crew("B", UnitType::Tank, 1)]);
    e.submit(RED, &mount("RI", "V"), 0).unwrap();
    drain(&mut e);
    assert_eq!(carried(&e, "RI"), Some("V".to_string()), "RI is aboard V");
    let now = e.clock();
    e.submit(BLUE, &fire("B", "V"), now).unwrap();
    assert!(!unit(&e, "V").alive, "the IFV was destroyed");
    assert!(
        !unit(&e, "RI").alive,
        "三.2 carrier death: the embarked squad is lost with the wreck"
    );
}

#[test]
fn capture_and_stack() {
    let two = |id: &str, ut, q| ScenarioUnit { teams: 2, ..su(id, ut, q) };
    let make = |red: Vec<ScenarioUnit>, blue: Vec<ScenarioUnit>| {
        let mut s = scenario(red, blue, vec![]);
        s.objectives.push(ControlPoint {
            id: "CP".into(),
            at: Axial::new(5, 0),
            owner: None,
            priority: None,
        });
        start(row(6, None), s, 1).unwrap()
    };
    let capture = |id: &str| order(&[("op", "capture"), ("unitId", id)]);
    let owner = |e: &Engine| *e.state.control.get(&"CP".to_string()).unwrap();
    let at = |q| Axial::new(q, 0);

    let e = make(
        vec![
            two("S1", UnitType::Tank, 0),
            two("S2", UnitType::Tank, 0),
            two("S3", UnitType::Tank, 0),
            two("S4", UnitType::Tank, 0),
            two("A1", UnitType::Uav, 1),
            two("G1", UnitType::Tank, 1),
            two("G2", UnitType::Tank, 1),
            two("G3", UnitType::Tank, 1),
        ],
        vec![],
    );
    let cap = e.rules.stacking_cap().expect("config carries the stacking cap");
    assert_eq!(cap, 4, "三.4a cap is 4 ground units per hex");
    assert!(!stacking_allows_entry(&e.state, RED, at(0), "S5", cap));
    assert!(stacking_allows_entry(&e.state, RED, at(0), "S4", cap));
    assert!(stacking_allows_entry(&e.state, RED, at(1), "G4", cap));

    let cap_unit = |q| two("CAP", UnitType::Infantry, q);
    let mut e = make(vec![cap_unit(5)], vec![two("E_far", UnitType::Tank, 0)]);
    e.submit(RED, &capture("CAP"), 0).unwrap();
    assert_eq!(owner(&e), Some(RED));

    let mut e = make(vec![cap_unit(5)], vec![two("E_adj", UnitType::Tank, 4)]);
    assert!(matches!(e.submit(RED, &capture("CAP"), 0), Err(EngineError::Command(_))));
    assert_eq!(owner(&e), None);

    for ut in [UnitType::Uav, UnitType::Artillery] {
        let mut e = make(vec![two("X", ut, 5)], vec![]);
        assert!(e.submit(RED, &capture("X"), 0).is_err());
        assert_eq!(owner(&e), None);
    }

    let mut e = make(vec![cap_unit(5)], vec![]);
    unit_mut(&mut e, "CAP").state = UnitState::Suppressed;
    unit_mut(&mut e, "CAP").suppressed_until = 9_999;
    e.submit(RED, &capture("CAP"), 0).unwrap();
    assert_eq!(owner(&e), Some(RED));

    let mut e = make(vec![cap_unit(4)], vec![]);
    assert!(e.submit(RED, &capture("CAP"), 0).is_err());
    assert_eq!(owner(&e), None);

    let mut e = make(vec![cap_unit(5)], vec![]);
    unit_mut(&mut e, "CAP").alive = false;
    assert!(e.submit(RED, &capture("CAP"), 0).is_err());
    assert_eq!(owner(&e), None);
}

#[test]
fn transport_heli() {
    let make = || {
        game(
            row(3, None),
            vec![
                su("H", UnitType::TransportHeli, 0),
                su("I", UnitType::Infantry, 0),
                su("TK", UnitType::Tank, 0),
            ],
            vec![],
            1,
        )
    };
    let alt =
        |id: &str, a: &str| order(&[("op", "switch_altitude"), ("unitId", id), ("altitude", a)]);

    let mut e = make();
    assert!(e.submit(RED, &alt("TK", "high"), 0).is_err());
    e.submit(RED, &alt("H", "very_low"), 0).unwrap();
    drain(&mut e);
    let obs = e.observe(RED);
    let h = obs.own_units.iter().find(|u| u.id == "H").unwrap();
    assert_eq!(h.altitude, Some(HeliAlt::VeryLow));
    let now = e.clock();
    assert!(
        e.submit(RED, &alt("H", "high"), now).is_err(),
        "三.16d: 超低空 → 高空 is not an adjacent switch"
    );

    let move_time = |very_low: bool| -> i64 {
        let mut e = make();
        if very_low {
            e.submit(RED, &alt("H", "very_low"), 0).unwrap();
            drain(&mut e);
        }
        let before = e.clock();
        e.submit(RED, &go("H", 1), before).unwrap();
        drain(&mut e);
        e.clock() - before
    };
    let low = move_time(false);
    let vlow = move_time(true);
    assert!(low > 0);
    assert_eq!(vlow, low * 2, "三.16c: 超低空 flies at half speed");

    let mut e = make();
    let load = order(&[("op", "mount"), ("unitId", "I"), ("vehicleId", "H")]);
    assert!(
        e.submit(RED, &load, 0).is_err(),
        "三.16e: cannot load a 低空 heli"
    );
    e.submit(RED, &alt("H", "very_low"), 0).unwrap();
    drain(&mut e);
    let now = e.clock();
    e.submit(RED, &load, now).unwrap();
    drain(&mut e);
    assert_eq!(
        unit(&e, "I").carried_by.as_deref(),
        Some("H"),
        "三.16e: the squad rides the 运输直升机 once it is 超低空 over 开阔地"
    );
}

#[test]
fn attack_heli() {
    let rules = rules();
    let flat = row(27, None);
    let ru = |id: &str, ut, q| live(id, RED, ut, q);
    let heli = ru("H", UnitType::AttackHeli, 0);
    assert!(can_observe(&rules, &flat, &heli, &ru("I", UnitType::Infantry, 10)));
    assert!(!can_observe(&rules, &flat, &heli, &ru("I", UnitType::Infantry, 11)));
    assert!(can_observe(&rules, &flat, &heli, &ru("V", UnitType::Tank, 25)));
    assert!(!can_observe(&rules, &flat, &heli, &ru("V", UnitType::Tank, 26)));
    let inf = ru("G", UnitType::Infantry, 0);
    assert!(can_observe(&rules, &flat, &inf, &ru("H", UnitType::AttackHeli, 25)));
    assert!(!can_observe(&rules, &flat, &inf, &ru("H", UnitType::AttackHeli, 26)));
    assert!(can_observe(&rules, &flat, &heli, &ru("U", UnitType::Uav, 1)));
    assert!(!can_observe(&rules, &flat, &heli, &ru("U", UnitType::Uav, 2)));

    assert_eq!(
        rules.paces.flight.get(&"attack_heli".to_string()).map(|p| p.normal),
        Some(secs(4))
    );

    let mut e = game(row(2, Some((1, 9))), vec![su("H", UnitType::AttackHeli, 0)], vec![], 1);
    e.submit(RED, &go("H", 2), 0).unwrap();
    drain(&mut e);
    assert_eq!(
        unit(&e, "H").pos,
        Axial::new(2, 0),
        "三.12a: the attack heli flies over the hill"
    );
    assert_eq!(e.clock(), secs(8));
}

#[test]
fn recon_and_radar() {
    let rules = rules();
    let flat = row(52, None);
    let ru = |id: &str, ut, q| live(id, RED, ut, q);
    let recon = ru("R", UnitType::ReconVehicle, 0);
    assert!(
        can_observe(&rules, &flat, &recon, &ru("V", UnitType::Tank, 50)),
        "三.19b: 侦察型战车 sees a vehicle at 50 hexes"
    );
    assert!(
        !can_observe(&rules, &flat, &recon, &ru("V", UnitType::Tank, 51)),
        "三.19b: …but not at 51"
    );
    assert!(can_observe(&rules, &flat, &recon, &ru("I", UnitType::Infantry, 20)));
    assert!(!can_observe(&rules, &flat, &recon, &ru("I", UnitType::Infantry, 21)));

    let ridge = row(2, Some((1, 5)));
    let heli = |alt| RuntimeUnit { heli_alt: alt, ..live("H", BLUE, UnitType::TransportHeli, 2) };
    assert!(
        can_observe(&rules, &ridge, &recon, &heli(HeliAlt::Low)),
        "三.16b: a 低空 heli (+200 m) clears the +50 m ridge"
    );
    assert!(
        can_observe(&rules, &ridge, &recon, &heli(HeliAlt::High)),
        "三.16b: a 高空 heli (+500 m) clears the ridge"
    );
    assert!(
        !can_observe(&rules, &ridge, &recon, &heli(HeliAlt::VeryLow)),
        "三.16b: a 超低空 heli (+20 m) is hidden behind the +50 m ridge — no fog leak"
    );

    let mut e = game(
        row(2, Some((1, 9))),
        vec![su("RAD", UnitType::RadarVehicle, 0), su("ART", UnitType::Artillery, 0)],
        vec![],
        1,
    );
    let plan = Axial::new(2, 0);
    assert_eq!(e.spotting_level(plan, RED), IndirectSpotting::Unspotted);
    e.submit(RED, &order(&[("op", "radar_on"), ("unitId", "RAD")]), 0).unwrap();
    assert_eq!(e.spotting_level(plan, RED), IndirectSpotting::Unspotted);
    e.step(8_000);
    assert_eq!(e.spotting_level(plan, RED), IndirectSpotting::InHex);

    let now = e.clock();
    unit_mut(&mut e, "RAD").suppressed_until = now + 5_000;
    assert_eq!(e.spotting_level(plan, RED), IndirectSpotting::Unspotted);
    unit_mut(&mut e, "RAD").suppressed_until = 0;
    assert_eq!(
        e.spotting_level(plan, RED),
        IndirectSpotting::InHex,
        "三.19f: radar effect auto-recovers after 压制"
    );

    e.submit(RED, &go("RAD", 1), now).unwrap();
    assert_eq!(
        e.spotting_level(plan, RED),
        IndirectSpotting::Unspotted,
        "三.19e: a moving radar is off"
    );
}

#[test]
fn uav() {
    let map = || row(3, Some((1, 9)));
    let rules = rules();
    let ru = |id: &str, ut, q| live(id, RED, ut, q);
    let uav0 = ru("U", UnitType::Uav, 0);
    assert!(
        can_observe(&rules, &map(), &uav0, &ru("I", UnitType::Infantry, 2)),
        "三.11b: UAV observes ground at 2 hexes"
    );
    assert!(
        !can_observe(&rules, &map(), &uav0, &ru("I", UnitType::Infantry, 3)),
        "三.11b: …but not at 3 hexes"
    );

    let inf0 = ru("G", UnitType::Infantry, 0);
    let target2 = ru("T", UnitType::Infantry, 2);
    assert!(
        can_observe(&rules, &map(), &uav0, &target2),
        "三.11a: a UAV flies over the hill and sees the target"
    );
    assert!(
        !can_observe(&rules, &map(), &inf0, &target2),
        "a ground observer at the same spot is blocked by the hill"
    );

    let inf2 = ru("G2", UnitType::Infantry, 2);
    assert!(
        can_observe(&rules, &map(), &inf2, &ru("U", UnitType::Uav, 3)),
        "三.11b: a UAV is visible adjacent"
    );
    assert!(
        !can_observe(&rules, &map(), &inf2, &ru("U", UnitType::Uav, 0)),
        "三.11b: …but not at 2 hexes"
    );

    let mut e =
        game(map(), vec![su("U", UnitType::Uav, 0), su("TK", UnitType::Tank, 0)], vec![], 1);
    e.submit(RED, &go("U", 2), 0).unwrap();
    e.submit(RED, &go("TK", 2), 0).unwrap();
    drain(&mut e);
    assert_eq!(
        unit(&e, "U").pos,
        Axial::new(2, 0),
        "三.11a: the UAV flies over the hill to its target"
    );
    assert_eq!(
        unit(&e, "TK").pos,
        Axial::new(0, 0),
        "the ground tank cannot climb the impassable hill"
    );
}

#[test]
fn loitering() {
    assert_eq!(loitering_endurance_ticks(&rules()), Some(secs(1200)));
    let round = |id: &str| ScenarioUnit {
        carried_by: Some("V".into()),
        ..su(id, UnitType::LoiteringMunition, 0)
    };
    let make = |seed: u64| {
        game(
            row(4, None),
            vec![su("V", UnitType::Ifv, 0), round("LM")],
            vec![ScenarioUnit { teams: 4, ..su("B", UnitType::Tank, 1) }],
            seed,
        )
    };
    let carried_by = |e: &Engine, id: &str| unit(e, id).carried_by.clone();
    let alive = |e: &Engine, id: &str| unit(e, id).alive;

    let mut e = make(1);
    e.submit(RED, &launch("LM"), 0).unwrap();
    assert_eq!(carried_by(&e, "LM"), Some("V".to_string()), "still loaded");
    e.step(8_000);
    assert_eq!(carried_by(&e, "LM"), None, "三.10d: 巡飞弹 deployed");
    assert!(alive(&e, "LM"));
    assert!(
        e.submit(RED, &launch("LM"), 8_100).is_err(),
        "三.10d/e: one 巡飞弹 per vehicle at a time"
    );

    let mut e = make(2);
    e.submit(RED, &launch("LM"), 0).unwrap();
    e.step(8_000);
    assert!(alive(&e, "LM"));
    e.step(125_000);
    assert!(!alive(&e, "LM"), "三.10g: 巡飞弹 self-destructs after 1200 s");

    let mut e = make(1);
    e.submit(BLUE, &fire("B", "V"), 0).unwrap();
    assert!(!alive(&e, "V"), "the IFV carrier was wrecked");
    assert!(
        !alive(&e, "LM"),
        "三.10h: a loaded 巡飞弹 dies with its wrecked carrier"
    );

    let mut e = make(1);
    e.submit(RED, &launch("LM"), 0).unwrap();
    e.step(8_000);
    assert_eq!(carried_by(&e, "LM"), None);
    e.submit(BLUE, &fire("B", "V"), 8_100).unwrap();
    assert!(!alive(&e, "V"));
    assert!(
        !alive(&e, "LM"),
        "三.10g/h: a deployed 巡飞弹 self-destructs when its carrier is destroyed"
    );

    let mut e = game(
        row(4, None),
        vec![su("V", UnitType::Ifv, 0), round("LM1"), round("LM2")],
        vec![],
        1,
    );
    e.submit(RED, &launch("LM1"), 0).unwrap();
    assert!(
        e.submit(RED, &launch("LM2"), 10).is_err(),
        "三.10e: cannot launch a second 巡飞弹 while the first is still launching"
    );
}

#[test]
fn ugv() {
    assert!(is_ground(UnitType::Ugv));
    let r = rules();
    let step = |terrain| ground_step_ticks(&r, UnitType::Ugv, terrain, 0, 0, UnitState::Normal);
    assert!(step(Terrain::Open).is_some());
    assert!(
        step(Terrain::Forest) > step(Terrain::Open),
        "三.13a: the UGV pays the vehicle terrain penalty (forest slower than open)"
    );

    let mk = |id: &str, ut, q, aff: Option<&str>| ScenarioUnit {
        affiliated_to: aff.map(|s| s.into()),
        ..armored(id, ut, q, 3)
    };
    let make = || {
        scenario(
            vec![
                mk("V", UnitType::Tank, 0, None),
                mk("W", UnitType::Tank, 1, None),
                mk("U", UnitType::Ugv, 4, Some("V")),
                mk("FI", UnitType::Infantry, 2, Some("V")),
            ],
            vec![mk("T", UnitType::Tank, 5, None)],
            vec![],
        )
    };

    let mut bad = make();
    bad.sides.red.units[2].affiliated_to = Some("T".into());
    assert!(
        start(row(6, None), bad, 7).is_err(),
        "三.13b: a UGV cannot be 隶属 to an enemy vehicle"
    );
    let mut orphan = make();
    orphan.sides.red.units[2].affiliated_to = None;
    assert!(
        start(row(6, None), orphan, 7).is_err(),
        "三.13b: a 无人战车 must belong to a manned vehicle"
    );

    let mut e = start(row(6, None), make(), 7).unwrap();
    assert!(sees(&e.observe(BLUE), "U"), "blue observes the adjacent enemy UGV");

    let err = e.submit(RED, &guide("W", "U"), 0).unwrap_err();
    assert!(
        format!("{err:?}").contains("三.14b"),
        "三.14b: a UGV only guides its 隶属 vehicle, got {err:?}"
    );

    unit_mut(&mut e, "U").state = UnitState::Cover;
    let err = e.submit(RED, &guide("V", "U"), 0).unwrap_err();
    assert!(
        format!("{err:?}").contains("三.13c"),
        "三.13c: a non-stopped UGV cannot guide, got {err:?}"
    );
    unit_mut(&mut e, "U").state = UnitState::Stopped;

    e.submit(RED, &guide("V", "U"), 0).unwrap();
    assert_eq!(
        unit(&e, "V").weapon_state,
        WeaponState::Cooling,
        "三.14f: the 隶属 vehicle is cooling after the guided shot"
    );
    assert!(
        e.submit(RED, &guide("V", "U"), 100).is_err(),
        "三.14f: the UGV is in its 75 s prep and cannot immediately re-guide"
    );

    assert!(unit(&e, "U").alive);
    let now = e.clock();
    strike_down(&mut e, "V", Outcome::Kill, now);
    assert!(!unit(&e, "V").alive);
    assert!(
        !unit(&e, "U").alive,
        "三.13d: the UGV is annihilated with its 隶属 vehicle"
    );
    assert_eq!(unit(&e, "U").teams, 0);
    assert!(
        unit(&e, "FI").alive,
        "三.13d is UGV-only: an affiliated 步兵 is not annihilated with the vehicle"
    );
}

// ---------- replays ----------

fn header(seed: u64) -> Header {
    Header {
        format: "openstratcore.replay".to_string(),
        version: 1,
        red_name: "scripted-red".to_string(),
        blue_name: "scripted-blue".to_string(),
        map_file: "scenarios/maps/demo_valley.map.json".to_string(),
        scenario_file: "scenarios/demo_skirmish.scenario.json".to_string(),
        rules_file: None,
        seed,
        engine_version: None,
        rules_version: None,
        created_at: None,
        duration: None,
        result: None,
    }
}

fn print(s: &Snapshot) -> String {
    let units: Vec<String> =
        (0..s.state.units.len()).map(|i| format!("{:?}", s.state.units.val_at(i))).collect();
    format!("{} {} {}", s.t, s.state.clock, units.join(";"))
}

fn recorded() -> Replay {
    let mut r = Recorder::new(header(12345));
    r.record_command(0, "red", go("R-T1", 2));
    r.record_command(secs(10), "red", order(&[("op", "wait")]));
    r.record_command(secs(30), "red", order(&[("op", "wait")]));
    r.record_command(secs(50), "blue", order(&[("op", "wait")]));
    r.finish()
}

#[test]
fn roundtrip() {
    let replay = recorded();
    assert_eq!(replay.commands.len(), 4);
    let run = |r: &Replay| play(r, demo_map(), demo_scenario(), rules(), tables()).expect("play");
    let trace1 = run(&replay);
    let trace2 = run(&recorded());
    assert!(!trace1.is_empty(), "trace must contain snapshots");
    assert_eq!(
        trace1.iter().map(print).collect::<Vec<_>>(),
        trace2.iter().map(print).collect::<Vec<_>>(),
        "replay is not deterministic — per-tick state diverged"
    );
    let last = trace1.last().unwrap();
    let u = last.state.units.get(&"R-T1".to_string()).unwrap();
    assert_eq!(u.state, UnitState::Stopped);
    assert_eq!(u.pos, Axial::new(2, 0));
    assert_eq!(last.t, secs(50));
}

#[test]
fn a_trace_goes_forward_in_time() {
    let trace =
        play(&recorded(), demo_map(), demo_scenario(), rules(), tables()).expect("play");
    for i in 1..trace.len() {
        assert!(trace[i - 1].t <= trace[i].t);
    }
    let at = |t: Tick| trace.iter().filter(|s| s.t == t).count();
    assert_eq!(at(0), 1, "the order at the start, and no event");
    let mut r = Recorder::new(header(12345));
    r.record_command(0, "red", order(&[("op", "wait")]));
    r.record_command(secs(10), "blue", order(&[("op", "wait")]));
    let quiet = play(&r.finish(), demo_map(), demo_scenario(), rules(), tables()).expect("play");
    assert_eq!(quiet.iter().map(|s| s.t).collect::<Vec<_>>(), vec![0, secs(10)]);
}

#[test]
fn later_orders_change_nothing_before_them() {
    let run = |r: &Replay| play(r, demo_map(), demo_scenario(), rules(), tables()).expect("play");
    let mut short = Recorder::new(header(12345));
    short.record_command(0, "red", go("R-T1", 2));
    let mut long = Recorder::new(header(12345));
    long.record_command(0, "red", go("R-T1", 2));
    long.record_command(secs(50), "blue", order(&[("op", "wait")]));
    let before = |trace: Vec<Snapshot>| {
        trace.iter().filter(|s| s.t < secs(50)).map(print).collect::<Vec<_>>()
    };
    let (a, b) = (before(run(&short.finish())), before(run(&long.finish())));
    assert!(!a.is_empty());
    assert_eq!(a, b);
}

#[test]
fn a_replay_stops_at_the_first_refused_order() {
    let mut r = Recorder::new(header(1));
    r.record_command(0, "green", order(&[("op", "wait")]));
    match play(&r.finish(), demo_map(), demo_scenario(), rules(), tables()) {
        Err(e) => assert_eq!(e.display(), "invalid command: unknown side \"green\""),
        Ok(_) => panic!("an unknown side"),
    }
    let mut r = Recorder::new(header(1));
    r.record_command(0, "red", go("nobody", 2));
    assert!(play(&r.finish(), demo_map(), demo_scenario(), rules(), tables()).is_err());
    assert!(matches!(side_from_str("red"), Ok(SideId::Red)));
    assert_eq!(
        side_from_str("a\"b\n").unwrap_err().display(),
        "invalid command: unknown side \"a\\\"b\\n\""
    );
}

#[test]
fn a_replay_keeps_what_it_was_given() {
    let e = load();
    let mut r = Recorder::new(header(3));
    r.snapshot(e.clock(), e.snapshot());
    let replay = r.finish();
    assert_eq!(replay.header.seed, 3);
    assert_eq!(replay.snapshots.len(), 1);
    assert_eq!(replay.snapshots[0].state.units.len(), 4);
    assert!(replay.commands.is_empty() && replay.events.is_empty());
}

// ---------- refusals and laws ----------

#[test]
fn scenarios_that_make_no_sense_are_refused() {
    let message = |s: Scenario| match start(row(2, None), s, 1) {
        Err(EngineError::Scenario(m)) => m,
        Err(other) => panic!("expected a Scenario error, got {other:?}"),
        Ok(_) => panic!("expected a Scenario error"),
    };
    let red = |u: ScenarioUnit| scenario(vec![u], vec![], vec![]);
    assert!(message(red(su("A", UnitType::Tank, 9))).contains('A'));
    assert_eq!(
        message(red(su("A#1", UnitType::Tank, 0))),
        "unit id \"A#1\" may not contain '#' (reserved for 三.17 解聚 child ids)"
    );
    let rider = ScenarioUnit { carried_by: Some("X".into()), ..su("A", UnitType::Infantry, 0) };
    assert!(message(red(rider)).contains('A'));
    let twice = scenario(
        vec![su("A", UnitType::Tank, 0)],
        vec![su("A", UnitType::Tank, 1)],
        vec![works("works_vehicle", 7, None)],
    );
    assert!(start(row(2, None), twice, 1).is_err());
}

#[test]
fn rules_without_a_cap_are_refused() {
    let mut r = rules();
    r.control = Json::Null;
    match Engine::new(demo_map(), demo_scenario(), r, tables(), 1) {
        Err(e) => assert_eq!(
            e.display(),
            "rules config error: missing control.stacking_max_ground_units_per_hex"
        ),
        Ok(_) => panic!("rules without a cap"),
    }
}

#[test]
fn a_refused_order_changes_nothing() {
    let mut e = load();
    let before = e.snapshot();
    let print_all = |s: State| print(&Snapshot { t: 0, state: s });
    let before = print_all(before);
    assert!(e.submit(BLUE, &go("R-T1", 2), 0).is_err());
    assert!(e.submit(RED, &go("nobody", 2), 0).is_err());
    assert!(e.submit(RED, &Json::Null, 0).is_err());
    assert!(e.submit(RED, &fire("R-T1", "B-T1"), 0).is_err());
    assert_eq!(print_all(e.snapshot()), before);
    assert_eq!(e.peek_next_event_time(), None);
    // A foreign unit is told apart from none by nothing.
    assert_eq!(
        refusal(e.submit(BLUE, &go("R-T1", 2), 0)).replace("R-T1", "?"),
        refusal(e.submit(BLUE, &go("nobody", 2), 0)).replace("nobody", "?")
    );
}

#[test]
fn events_happen_in_order_and_the_clock_runs_on() {
    let mut e = load();
    e.submit(RED, &go("R-T1", 2), 0).unwrap();
    e.submit(RED, &set_mode("R-I1", "cover"), 0).unwrap();
    assert_eq!(e.peek_next_event_time(), Some(secs(20)));
    let mut last = 0;
    while let Some(t) = e.advance_to_next_event() {
        assert!(t >= last);
        assert_eq!(e.clock(), t);
        last = t;
    }
    assert_eq!(last, secs(75));
    e.advance_clock_to(secs(10));
    assert_eq!(e.clock(), secs(75));
    e.advance_clock_to(secs(80));
    assert_eq!(e.clock(), secs(80));
    assert_eq!(e.pos_of("R-T1"), Some(Axial::new(2, 0)));
    assert_eq!(e.pos_of("nobody"), None);
    assert!((1..=6).contains(&e.roll_d6()));
}

#[test]
fn a_match_records_its_shots_on_request() {
    let make = || {
        game(
            row(4, None),
            vec![armored("R", UnitType::Tank, 0, 4)],
            vec![armored("B", UnitType::Tank, 3, 4)],
            7,
        )
    };
    let mut e = make();
    e.enable_outcome_log();
    e.submit(RED, &fire("R", "B"), 0).unwrap();
    let recs = e.drain_outcome_log();
    assert_eq!(recs.len(), 1);
    assert_eq!(recs[0].table, "direct_vs_vehicle");
    assert_eq!((recs[0].distance, recs[0].armor.as_str()), (3, "medium"));
    e.disable_outcome_log();

    let mut quiet = make();
    quiet.submit(RED, &fire("R", "B"), 0).unwrap();
    assert!(quiet.drain_outcome_log().is_empty());
    assert_eq!(roster(&quiet), roster(&e));
}

#[test]
fn unknown_orders_are_named() {
    let mut e = load();
    match e.submit(RED, &order(&[("op", "teleport")]), 0) {
        Err(x) => assert!(x.display().contains("teleport")),
        Ok(()) => panic!("an unknown order"),
    }
    assert!(e.submit(RED, &order(&[("op", "wait")]), 0).is_ok());
}

#[test]
fn a_marching_tank_does_not_fire() {
    let marcher = ScenarioUnit {
        state: Some(UnitState::March),
        ..armored("R", UnitType::Tank, 0, 4)
    };
    let mut e = game(row(4, None), vec![marcher], vec![armored("B", UnitType::Tank, 3, 4)], 1);
    assert_eq!(
        refusal(e.submit(RED, &fire("R", "B"), 0)),
        "must be stopped to fire (8.5c)"
    );
    assert_eq!(unit(&e, "B").teams, 4);
}

#[test]
fn what_is_hidden_does_not_show() {
    let view = |teams: u8, armor: Armor, facing: u8| {
        let enemy = ScenarioUnit {
            teams,
            armor: Some(armor),
            facing,
            ..su("B", UnitType::Tank, 3)
        };
        let e = game(row(4, None), vec![su("R", UnitType::Tank, 0)], vec![enemy], 1);
        format!("{:?}", e.observe(RED))
    };
    assert!(view(4, Armor::Heavy, 0).contains("Tank"));
    assert_eq!(view(4, Armor::Heavy, 0), view(1, Armor::Unarmored, 5));
}

#[test]
fn an_unseen_target_is_answered_like_a_missing_one() {
    let combat = Facility {
        capacity: Some(5),
        ..works("works_infantry_combat", 8, Some("blue"))
    };
    let make = || {
        let s = scenario(
            vec![
                armored("AA", UnitType::AaMissileVehicle, 0, 4),
                armored("V", UnitType::Tank, 0, 3),
                armored("G", UnitType::Uav, 0, 1),
                armored("L", UnitType::ReconVehicle, 0, 1),
                ScenarioUnit {
                    carried_by: Some("L".into()),
                    ..su("M", UnitType::LoiteringMunition, 0)
                },
            ],
            vec![armored("T", UnitType::Tank, 8, 3), armored("U", UnitType::LoiteringMunition, 8, 1)],
            vec![combat.clone()],
        );
        // A hill hides what is beyond it.
        start(row(8, Some((4, 60))), s, 1).unwrap()
    };
    let mut e = make();
    e.submit(RED, &launch("M"), 0).unwrap();
    e.step(8_000);
    let now = e.clock();
    let aa = |t: &str| order(&[("op", "aa_fire"), ("unitId", "AA"), ("targetUnit", t)]);
    let strike = |t: &str| order(&[("op", "strike_loitering"), ("unitId", "M"), ("targetUnit", t)]);
    let missile = |t: &str| {
        order(&[
            ("op", "guide_fire"),
            ("unitId", "V"),
            ("guideId", "G"),
            ("weapon", "重型导弹"),
            ("targetUnit", t),
        ])
    };
    let at_works = |f: &str| {
        order(&[
            ("op", "fire_direct"),
            ("unitId", "V"),
            ("weapon", "大号直瞄炮"),
            ("targetFacility", f),
        ])
    };
    assert_eq!(refusal(e.submit(RED, &aa("U"), now)), refusal(e.submit(RED, &aa("NOPE"), now)));
    assert_eq!(
        refusal(e.submit(RED, &strike("T"), now)),
        refusal(e.submit(RED, &strike("NOPE"), now))
    );
    assert_eq!(
        refusal(e.submit(RED, &missile("T"), now)),
        refusal(e.submit(RED, &missile("NOPE"), now))
    );
    assert_eq!(
        refusal(e.submit(RED, &at_works("FAC0"), now)),
        refusal(e.submit(RED, &at_works("NOPE"), now))
    );
    assert_eq!(refusal(e.submit(RED, &at_works("FAC0"), now)), "invalid fire target");
}

#[test]
fn a_full_hex_has_no_room_for_a_split() {
    let two = |id: &str| ScenarioUnit { teams: 2, ..su(id, UnitType::Infantry, 0) };
    let mut e = game(row(2, None), vec![two("A"), two("B"), two("C"), two("D")], vec![], 1);
    assert_eq!(
        refusal(e.submit(RED, &split_order("A"), 0)),
        "no stacking room for the 解聚 child (三.4)"
    );
    let mut e = game(row(2, None), vec![two("A"), two("B"), two("C")], vec![], 1);
    e.submit(RED, &split_order("A"), 0).unwrap();
    e.submit(RED, &split_order("B"), 0).unwrap();
    drain(&mut e);
    // Both were allowed to begin, but the hex had room for one.
    assert_eq!(e.state.units.len(), 4);
    assert_eq!(unit(&e, "B").teams, 2);
}

#[test]
fn missing_timings_are_rules_errors() {
    let mut r = rules();
    r.timing.durations = OrdMap::new();
    let mut e = Engine::new(demo_map(), demo_scenario(), r, tables(), 1).unwrap();
    match e.submit(RED, &order(&[("op", "stop"), ("unitId", "R-T1")]), 0) {
        Err(x) => {
            assert_eq!(x.display(), "rules config error: missing rule timing \"move_to_stop\"")
        }
        Ok(()) => panic!("no such timing"),
    }
    match e.submit(RED, &order(&[("op", "teleport")]), 0) {
        Err(x) => assert_eq!(x.display(), "not yet implemented: teleport"),
        Ok(()) => panic!("an unknown order"),
    }
}
