//! Decision tables, adjudication and the rules of movement and sight.
#![allow(dead_code)]
use openstratcore::combat::{
    aa_attack_level, aa_kill_threshold, adjudicate_salvo, adjudicate_vs_personnel,
    adjudicate_vs_vehicle, air_defense, apply_indirect_to_target,
    barrage_zone_adjudicate, best_weapon, bucket_contains, direct_fire, guided_fire,
    height_diff_correction, indirect_raw_result, loitering_strike, minefield_category,
    minefield_damage, minefield_damage_for_roll, outcome_log_disable, outcome_log_drain,
    outcome_log_enable, parse_scatter, pick_same_hex_target, resolve_direct_vs_personnel,
    resolve_direct_vs_vehicle, resolve_indirect, resolve_scatter, same_hex_engage, unit_loadout,
    FireMods, FireOutcome, GunClass, IndirectBase, IndirectMods, IndirectSpotting, OutcomeLog,
    Scatter, TargetTerrain, VehicleShot,
};
use openstratcore::error::EngineError;
use openstratcore::hex::Axial;
use openstratcore::json::Json;
use openstratcore::mechanics::{
    aggregate, air_altitude_levels, barrage_zone_triggers, can_be_targeted, can_capture,
    can_clear_minefield, can_lay_mines, can_observe, capture_zone_clear, fortification_admits,
    fortification_can_engage, fortification_inherits_fire, fortification_observe_range,
    fortification_over_capacity, fortification_terrain_applies, ground_step_ticks,
    infantry_fatigue_after_rest, infantry_fatigue_per_hex, infantry_mode_allowed,
    infantry_step_ticks, is_space_recon, line_of_sight, line_of_sight_alt,
    march_allows_entry, march_step_ticks,
    resolve_direct_fire, road_allows_direction, space_recon_reveals, split, split_squads,
    supports_aggregation, FortKind,
};
use openstratcore::ordmap::OrdMap;
use openstratcore::prob::{
    best_row, build_provider, BayesianTable, ModelProvider, Outcome, ProbProvider, ResolveContext,
    StaticTable,
};
use openstratcore::rng::{PcgRng, Rng};
use openstratcore::rules::{
    FlightPace, FootPace, Gait, GroundPace, Paces, ProbConfig, ProviderSpec, RuleTable, Rules,
    TableSource, Tables, Timing, Weapon,
};
use openstratcore::text::{i64_text, strip_json, u64_text};
use openstratcore::time::{later, next, whole_secs_to_ticks, Tick, CS_PER_SEC};
use openstratcore::types::{
    Armor, GameMap, HeliAlt, HexCell, Road, RuntimeUnit, SideId, State, Terrain, UnitState,
    UnitType, WeaponState,
};
use openstratcore::units::{is_loitering, loitering_endurance_ticks};
use serde_json::Value;

// ---------- plain values ----------

fn tree(v: &Value) -> Json {
    match v {
        Value::Null => Json::Null,
        Value::Bool(b) => Json::Bool(*b),
        Value::Number(n) => match (n.as_i64(), n.as_u64()) {
            (Some(i), _) => Json::Int(i),
            (None, Some(u)) => Json::UInt(u),
            _ => Json::Real,
        },
        Value::String(s) => Json::Str(s.clone()),
        Value::Array(items) => Json::Arr(items.iter().map(tree).collect()),
        Value::Object(entries) => {
            Json::Obj(entries.iter().map(|(k, v)| (k.clone(), tree(v))).collect())
        }
    }
}

fn json(text: &str) -> Json {
    tree(&serde_json::from_str::<Value>(text).unwrap())
}

fn secs(s: i64) -> Tick {
    s * 100
}

// ---------- the decision tables ----------

const TABLES: &str = r#"{
"observation_distance": { "rows": { "infantry": { "infantry": 10 } } },
"unit_speed": { "units": { "tank": 36 } },
"terrain_movement": { "factors": { "forest": 2 } },
"attack_level_vs_personnel": { "weapons": {
    "大号直瞄炮": { "range": 18, "by_squad": {
        "1": [3,3,3,3,3,3,3,3,3,3,3,3,3,3,3,3,3,3,3],
        "2": [4,4,4,4,4,4,4,4,4,4,4,4,4,4,4,4,4,4,4],
        "3": [5,5,5,5,5,5,5,5,5,5,5,5,5,5,5,5,5,5,5],
        "4": [7,7,7,7,7,7,7,7,7,7,7,7,7,7,7,7,7,7,7] } },
    "重型导弹": { "range": 20, "by_squad": {
        "1": [1,1,1,1,1,1], "2": [2,2,2,2,2,2], "3": [3,3,3,3,3,3], "4": [4,4,4,4,4,4] } },
    "步兵轻武器": { "range": 10, "by_squad": {
        "1": [4,3,2,1], "2": [5,4,3,2,1], "3": [6,5,4,3,2,1], "4": [7,6,5,4,3,2,1] } } } },
"attack_level_vs_vehicle": { "verified": false, "weapons": {
    "大号直瞄炮": { "range": 18, "levels": [10,10,10,9,9,9,8,8,8,7,7,7,6,6,6,5,5,5,4] },
    "速射炮": { "range": 10, "levels": [6,6,6,5,5,5,4,4,3,3,2] },
    "火箭筒": { "range": 4, "levels": [8,7,6,5,4] },
    "重型导弹": { "range": 20, "levels": [9,9,9,9,9,9,9,9,9,9,9,9,9,9,9,9,9,9,9,9,9] },
    "巡飞弹": { "range": 2, "levels": [5,5,5] },
    "步兵轻武器": { "range": 1, "ref": "attack_level_infantry_vs_vehicle.json" } } },
"attack_level_infantry_vs_vehicle": { "by_squad": {
    "1": [1,1], "2": [2,1], "3": [3,2], "4": [4,3] } },
"height_diff_correction": { "verified": false, "rows": {
    "1": [-2,-2,-1,-1,-1,-1,-1,0,0,0,0,0],
    "5": [-4,-4,-4,-4,-3,-3,-3,-2,-2,-2,-1,-1] } },
"result_vs_vehicle": { "data": {
    "stage1": {
        "1": [1,2,3,4,5,6,7,8,9,10,11,12,13],
        "2": [null,1,2,3,4,5,6,7,8,9,10,11,12],
        "3": [null,null,1,2,3,4,5,6,7,8,9,10,11],
        "4": [null,null,null,1,2,3,4,5,6,7,8,9,10] },
    "stage2": {
        "2":  [0,0,0,0,0,1,1,1,1,2,2,2,3],
        "3":  [0,0,0,0,0,0,1,1,1,1,2,2,2],
        "4":  [0,0,0,0,0,0,0,1,1,1,1,1,2],
        "5":  [0,0,0,0,0,0,0,0,1,1,1,1,1],
        "6":  [0,0,0,0,0,0,0,0,0,1,1,1,1],
        "7":  [0,0,0,0,0,0,0,0,0,0,0,1,1],
        "8":  [0,0,0,0,0,0,0,0,0,0,1,1,1],
        "9":  [0,0,0,0,0,0,0,0,1,1,1,2,2],
        "10": [0,0,0,0,0,0,0,1,1,1,2,2,2],
        "11": [0,0,0,0,0,0,1,1,1,2,2,3,3],
        "12": [0,0,0,0,0,1,1,1,2,2,3,3,4] } } },
"vehicle_loss_correction": {
    "additive_random": {
        "shooter": { "被压制": 2, "机动中": 1, "水上坦克": 2 },
        "target_terrain": { "居民地/工事": 1, "丛林地": 1, "水上": -1 },
        "target_state": { "掩蔽中": 2, "机动中": 1, "堆叠中": -1, "行军中": -2 } },
    "armor_order": ["复合装甲", "重型装甲", "中型装甲", "轻型装甲", "无装甲"],
    "by_modified_random": {
        "<=2": [0,0,1,1,2], "3..5": [-1,0,0,1,1], "6..8": [-1,-1,0,0,0],
        "9..11": [-2,-1,-1,0,0], ">=12": [-2,-2,-1,-1,0] } },
"result_vs_personnel": { "verified": false, "rows": {
    "2":  [null,null,null,null,"压","压","压",1],
    "3":  [null,null,null,"压","压","压",1,1],
    "4":  [null,null,"压","压",1,1,1,1],
    "5":  [null,"压","压","压",1,1,1,2],
    "6":  [null,null,"压","压","压",1,1,1],
    "7":  ["压","压","压","压","压","压","压",1],
    "8":  [null,null,"压","压","压",1,1,1],
    "9":  [null,"压","压",1,1,1,1,2],
    "10": [null,null,"压","压",1,1,1,2],
    "11": [null,null,null,"压",1,1,1,2],
    "12": [null,null,null,null,null,"压",1,2] } },
"personnel_loss_correction": {
    "additive_random": {
        "shooter": { "被压制": -1, "机动中": -1 },
        "target_terrain": { "居民地": -1, "丛林地": -1 },
        "target_state": { "掩蔽中": -1, "机动中": 1, "堆叠中": 1, "行军中": 2 } },
    "by_modified_random": { "<=0": -1, "1..6": 0, ">=7": 1 } },
"indirect_scatter": {
    "distance_buckets": ["1-20", "21-40", "41-60", "61+"],
    "no_spotting": {
        "2": ["散布1格","散布2格","散布3格","散布4格"],
        "3": ["散布1格","散布1格","散布2格","散布3格"],
        "4": ["命中","命中","散布","散布"],
        "5": ["散布","散布","散布1格","散布2格"],
        "6": ["命中","散布","散布1格","散布1格"],
        "7": ["散布","散布1格","散布1格","散布2格"],
        "8": ["散布1格","散布1格","散布2格","散布2格"],
        "9": ["散布","散布","散布1格","散布2格"],
        "10": ["命中","散布","散布","散布1格"],
        "11": ["散布1格","散布1格","散布2格","散布3格"],
        "12": ["散布1格","散布2格","散布3格","散布4格"] },
    "in_hex_spotting": {
        "2": ["散布1格","散布1格","散布2格","散布2格"],
        "6": ["命中","命中","命中","散布"],
        "7": ["命中","命中","散布","散布"],
        "8": ["命中","命中","散布","散布"] },
    "target_spotting_single": {
        "2": "散布", "3": "命中", "4": "命中", "5": "命中", "6": "命中", "7": "命中",
        "8": "命中", "9": "命中", "10": "命中", "11": "散布", "12": "散布1格" } },
"indirect_result": {
    "hit": {
        "2": [1,2,3], "3": [1,1,2], "4": ["压制",1,2], "5": ["压制",1,1], "6": ["压制","压制",1],
        "7": ["压制","压制","压制"], "8": ["压制","压制",1], "9": ["压制",1,1], "10": [1,1,2],
        "11": [1,2,2], "12": ["无效","压制",1] },
    "miss": {
        "2": ["压制",1,1], "3": ["无效","压制","压制"], "5": ["无效","无效","压制"],
        "7": ["无效","无效","无效"], "9": ["无效","压制","压制"], "12": ["压制","压制",1] } },
"indirect_correction": {
    "additive_random": {
        "target_terrain": { "居民地": -1, "丛林地": -1 },
        "target_state": { "掩蔽中": -2, "机动中_人员": 1, "堆叠": 1, "行军": 2 },
        "armor": { "复合装甲": -3, "重型装甲": -2, "中型装甲": -1 },
        "gun_count": { "1": -1, "2": 0, "3": 1, "4": 2 } },
    "by_modified_random": { "<=-2": -2, "-1..1": -1, "2..6": 0, ">=7": 1 } },
"aa_attack_level": { "weapons": {
    "防空高炮": { "range": 20, "levels": [9,8,8,7,6,5,5,4,4,3,3,3,2,2,2,2,2,2,2,2] },
    "便携防空导弹": { "range": 20, "levels": [0,0,5,6,6,7,7,6,4,4,4,4,4,4,4,4,4,4,4,4] },
    "车载防空导弹": { "range": 50, "levels": [0,0,6,7,7,7,7,7,7,7,7,6,6,6,6,6,6,6,6,6], "tail_value": 6 } } },
"aa_result": { "kill_threshold_by_random": {
    "2": 1, "3": 3, "4": 5, "5": 7, "6": 9, "7": 11, "8": 9, "9": 7, "10": 5, "11": 4, "12": 2 } },
"minefield": {
    "damage_by_random": {
        "车辆": { "2": 0, "3": 0, "4": 0, "5": 0, "6": 1, "7": 1, "8": 0, "9": 0, "10": 0, "11": 2, "12": 1 },
        "人员": { "2": 0, "3": 0, "4": 0, "5": 0, "6": 1, "7": 1, "8": 0, "9": 0, "10": 0, "11": 2, "12": 1 } },
    "armor_correction_by_random": {
        "复合装甲": { "2": -2, "11": -1 },
        "重型装甲": { "2": -1, "7": null },
        "中型装甲": { "12": 1 },
        "轻型装甲": { "2": 1 },
        "无装甲": { "2": 2 } } },
"timings": { "seconds": { "move_to_stop": 75 } }
}"#;

fn rule_table(id: &str, body: Json) -> RuleTable {
    let mut verified = true;
    let mut data = OrdMap::new();
    if let Json::Obj(entries) = body {
        for (k, v) in entries {
            if k == "verified" {
                verified = matches!(v, Json::Bool(true));
            } else {
                data.insert(k, v);
            }
        }
    }
    RuleTable {
        id: id.into(),
        title_zh: String::new(),
        source: TableSource { page: 1, appendix: String::new() },
        verified,
        verify_note: None,
        hex_size_meters: Some(200),
        data,
    }
}

fn table_list() -> Vec<(String, RuleTable)> {
    match json(TABLES) {
        Json::Obj(entries) => {
            entries.into_iter().map(|(k, v)| (k.clone(), rule_table(&k, v))).collect()
        }
        _ => unreachable!(),
    }
}

fn tables() -> Tables {
    Tables::load_embedded(table_list()).unwrap()
}

// ---------- the rules ----------

fn ground_pace(base: i64) -> GroundPace {
    let gait = |s: i64| Gait { normal: Some(secs(s)), half: Some(secs(s * 2)) };
    let row = |factor: i64| {
        [1, 2, 3, 4, 5, 1].iter().map(|slope: &i64| gait(base * factor * slope)).collect()
    };
    let factors = [
        ("open", 1),
        ("forest", 2),
        ("urban", 3),
        ("river", 2),
        ("river_large", 4),
        ("lake", 4),
        ("soft", 4),
    ];
    let mut off_road = OrdMap::new();
    for (name, factor) in factors {
        off_road.insert(name.to_string(), row(factor));
    }
    GroundPace { road: gait(base), off_road }
}

fn foot_pace(base: i64) -> FootPace {
    FootPace {
        normal: Some(secs(base)),
        half: Some(secs(base * 2)),
        charge1: Some(secs(base / 2)),
        charge2: Some(secs(base / 4)),
    }
}

fn ticks(entries: &[(&str, i64)]) -> OrdMap<String, Tick> {
    let mut m = OrdMap::new();
    for (k, s) in entries {
        m.insert(k.to_string(), secs(*s));
    }
    m
}

fn paces() -> Paces {
    let mut flight = OrdMap::new();
    for (k, s) in [("uav", 8), ("loitering_munition", 8), ("attack_heli", 4), ("transport_heli", 6)] {
        flight.insert(k.to_string(), FlightPace { normal: secs(s), very_low: secs(s * 2) });
    }
    let mut ground = OrdMap::new();
    for k in [
        "tank",
        "ifv",
        "recon_vehicle",
        "radar_vehicle",
        "minelayer",
        "minesweeper",
        "aa_gun",
        "aa_missile_vehicle",
        "ugv",
        "pickup",
    ] {
        ground.insert(k.to_string(), ground_pace(20));
    }
    Paces {
        flight,
        ground,
        foot: foot_pace(144),
        foot_steep: foot_pace(288),
        march: ticks(&[("country", 18), ("normal", 12), ("grade", 8)]),
        aa_interval: ticks(&[("aa_gun", 15), ("aa_missile_squad", 75), ("aa_missile_vehicle", 15)]),
    }
}

fn rules() -> Rules {
    let tank_main_big = Weapon {
        kind: "direct".into(),
        range: 18,
        moving_fire: true,
        result_table: Some("direct_vs_vehicle".into()),
        attack_level_by_distance: json("[10,10,9,9,9,8,8,8,7,7,7,6,6,6,5,5,5,4,4]"),
        shots: None,
        interval: Some(75),
    };
    let mortar = Weapon {
        kind: "indirect".into(),
        range: 30,
        moving_fire: false,
        result_table: None,
        attack_level_by_distance: json("[[1,1],[2,2]]"),
        shots: Some(4),
        interval: None,
    };
    let mut weapons = OrdMap::new();
    weapons.insert("tank_main_big".to_string(), tank_main_big);
    weapons.insert("mortar".to_string(), mortar);
    let mut providers = OrdMap::new();
    providers.insert(
        "direct_vs_vehicle".to_string(),
        ProviderSpec { kind: "static".into(), params: Json::Null },
    );
    Rules {
        format: "openstratcore.rules".into(),
        version: 1,
        hex_size_meters: 200,
        timing: Timing {
            durations: ticks(&[
                ("move_to_stop", 75),
                ("move_state_transition", 75),
                ("weapon_lock", 75),
                ("weapon_cooldown_direct", 75),
                ("suppress_duration", 150),
                ("mount_dismount", 75),
                ("fortification_transition", 75),
                ("minefield_lay", 75),
                ("aggregate_split", 75),
                ("indirect_fly", 150),
                ("indirect_boom", 300),
                ("indirect_cooldown", 300),
                ("radar_spinup", 75),
                ("heli_altitude_switch", 75),
                ("same_hex_engage_interval", 20),
                ("loitering_endurance", 1200),
                ("loitering_launch", 75),
            ]),
        },
        paces: paces(),
        movement: json(
            r#"{ "infantry_charge": {
                    "charge1": { "speed_mult": 2, "fatigue_per_hex": 1 },
                    "charge2": { "speed_mult": 4, "fatigue_per_hex": 1 } },
                 "infantry_fatigue_decay_seconds": 75,
                 "infantry_highdiff_meters_halfspeed": 60,
                 "slope_rule": { "impassable_above_level": 5 } }"#,
        ),
        observation: json(
            r#"{ "infantry": { "infantry": 10, "vehicle": 25, "attack_heli": 25, "uav": "adjacent" },
                 "vehicle": { "infantry": 10, "vehicle": 25, "attack_heli": 25, "uav": "adjacent" },
                 "attack_heli": { "infantry": 10, "vehicle": 25, "attack_heli": 25, "uav": "adjacent" },
                 "uav": { "infantry": 2, "vehicle": 2 },
                 "loitering_munition": { "infantry": 2, "vehicle": 2 },
                 "recon_vehicle": { "infantry": 20, "vehicle": 50, "attack_heli": 50, "uav": "adjacent" },
                 "aa_missile_squad": { "infantry": 10, "vehicle": 25, "attack_heli": 50, "uav": 25 },
                 "aa_missile_vehicle": { "infantry": 10, "vehicle": 25, "attack_heli": 50, "uav": 25 } }"#,
        ),
        control: json(
            r#"{ "stacking_max_ground_units_per_hex": 4, "capture_no_enemy_radius_hexes": 1,
                 "max_squads_per_unit": 4 }"#,
        ),
        air: json(
            r#"{ "recon_altitude_meters": 200,
                 "heli_altitude_meters": { "high": 500, "low": 200, "very_low": 20 },
                 "heli_capacity_squads": 4,
                 "aa": {
                    "aa_gun": { "weapon": "防空高炮", "max_shots": 10 },
                    "aa_missile_squad": { "weapon": "便携防空导弹", "max_shots": 4 },
                    "aa_missile_vehicle": { "weapon": "车载防空导弹", "max_shots": 4 } } }"#,
        ),
        fortification: json(r#"{ "capacity_squads": 5, "exposed_range_hexes": 12 }"#),
        minefield: json(
            r#"{ "lay_range_hexes": 50, "max_lays_per_vehicle": 3, "observe_range_hexes": 10 }"#,
        ),
        loadout: json(
            r#"{ "tank": ["大号直瞄炮"], "ifv": ["速射炮"], "infantry": ["步兵轻武器"],
                 "loitering_munition": ["巡飞弹"] }"#,
        ),
        weapons,
        combat_result_tables: json(
            r#"{ "direct_vs_vehicle": { "randomDice": 2, "cells": {
                    "1": { "2": "N", "7": "S", "12": 1 },
                    "5": { "2": "N", "6": "S", "7": "S", "8": 1, "12": 2 },
                    "10": { "2": 1, "3": 1, "4": "S", "5": "S", "6": 1, "7": "S", "8": 2, "9": 2,
                            "10": 3, "11": 3, "12": "K" } } } }"#,
        ),
        modifiers: Json::Null,
        prob: ProbConfig { providers },
    }
}

// ---------- boards ----------

fn cell(q: i32, r: i32, elevation: i32, terrain: Terrain) -> HexCell {
    HexCell { q, r, id: None, elevation, terrain, road: None }
}

fn board(hexes: Vec<HexCell>) -> GameMap {
    GameMap {
        format: "openstratcore.map".into(),
        version: 1,
        name: "board".into(),
        elevation_unit_meters: Some(10),
        hexes,
    }
}

/// A row of open hexes from 0 to `last`, with a hill of a height where there is one.
fn row(last: i32, hill: Option<(i32, i32)>) -> GameMap {
    let elevation = |q: i32| match hill {
        Some((at, e)) if at == q => e,
        _ => 0,
    };
    board((0..=last).map(|q| cell(q, 0, elevation(q), Terrain::Open)).collect())
}

/// A live unit on the row.
fn live(id: &str, side: SideId, unit_type: UnitType, q: i32) -> RuntimeUnit {
    RuntimeUnit {
        id: id.into(),
        side,
        unit_type,
        armor: Armor::Medium,
        teams: 1,
        pos: Axial::new(q, 0),
        facing: 0,
        state: UnitState::Stopped,
        weapon_state: WeaponState::Deployed,
        busy_until: 0,
        suppressed_until: 0,
        alive: true,
        carried_by: None,
        affiliated_to: None,
        heli_alt: HeliAlt::Low,
        inside_facility: None,
        fatigue: 0,
    }
}

fn state_of(units: Vec<RuntimeUnit>) -> State {
    let mut m = OrdMap::new();
    for u in units {
        m.insert(u.id.clone(), u);
    }
    State {
        clock: 0,
        units: m,
        control: OrdMap::new(),
        facilities: OrdMap::new(),
        minefields: OrdMap::new(),
    }
}

// ---------- adjudication ----------

#[test]
fn direct_vs_personnel() {
    let tables = tables();
    let mut log = OutcomeLog::new();
    let mut rng = PcgRng::from_seed(7);
    let mut destroyed = false;
    let mut suppress = false;
    let mut no_effect = false;
    for _ in 0..400 {
        match resolve_direct_vs_personnel(
            &tables,
            &mut rng,
            &mut log,
            "大号直瞄炮",
            3,
            0,
            FireMods::default(),
        ) {
            Outcome::Destroyed(n) => {
                assert!(n >= 1);
                destroyed = true;
            }
            Outcome::Suppress => suppress = true,
            Outcome::NoEffect => no_effect = true,
            Outcome::Kill => {}
        }
    }
    assert!(destroyed, "expected at least one 毁伤 result");
    assert!(suppress, "expected at least one 压制 result");
    assert!(no_effect, "expected at least one 无效 result");

    let mut r2 = PcgRng::from_seed(1);
    assert_eq!(
        resolve_direct_vs_personnel(
            &tables,
            &mut r2,
            &mut log,
            "不存在",
            2,
            0,
            FireMods::default()
        ),
        Outcome::NoEffect
    );
    let seq = |seed| {
        let mut r = PcgRng::from_seed(seed);
        let mut log = OutcomeLog::new();
        (0..50)
            .map(|_| {
                resolve_direct_vs_personnel(
                    &tables,
                    &mut r,
                    &mut log,
                    "大号直瞄炮",
                    3,
                    0,
                    FireMods::default(),
                )
            })
            .collect::<Vec<_>>()
    };
    assert_eq!(seq(42), seq(42));
}

#[test]
fn direct_vs_vehicle() {
    let tables = tables();
    let mut log = OutcomeLog::new();
    let shot = |armor| VehicleShot {
        weapon: "大号直瞄炮",
        vehicles: 3,
        distance: 0,
        height_diff: 0,
        armor,
        mods: FireMods::default(),
    };
    let mut rng = PcgRng::from_seed(3);
    let mut destroyed = false;
    for _ in 0..400 {
        if let Outcome::Destroyed(n) =
            resolve_direct_vs_vehicle(&tables, &mut rng, &mut log, &shot(Armor::Medium))
        {
            assert!((1..=5).contains(&n));
            destroyed = true;
        }
    }
    assert!(destroyed, "a level-10 gun up close should destroy vehicles");

    let mut r2 = PcgRng::from_seed(1);
    assert_eq!(
        resolve_direct_vs_vehicle(
            &tables,
            &mut r2,
            &mut log,
            &VehicleShot {
                weapon: "巡飞弹",
                vehicles: 1,
                distance: 18,
                height_diff: 0,
                armor: Armor::Composite,
                mods: FireMods::default(),
            }
        ),
        Outcome::NoEffect,
        "巡飞弹 (range 2) cannot reach distance 18"
    );

    let count = |armor| {
        let mut r = PcgRng::from_seed(99);
        let mut log = OutcomeLog::new();
        (0..300)
            .filter_map(|_| {
                match resolve_direct_vs_vehicle(&tables, &mut r, &mut log, &shot(armor)) {
                    Outcome::Destroyed(n) => Some(n as u32),
                    _ => None,
                }
            })
            .sum::<u32>()
    };
    assert!(
        count(Armor::Composite) <= count(Armor::Unarmored),
        "composite armor must not take more losses than no armor"
    );

    let seq = |seed| {
        let mut r = PcgRng::from_seed(seed);
        let mut log = OutcomeLog::new();
        (0..50)
            .map(|_| resolve_direct_vs_vehicle(&tables, &mut r, &mut log, &shot(Armor::Medium)))
            .collect::<Vec<_>>()
    };
    assert_eq!(seq(5), seq(5));
}

#[test]
fn outcome_telemetry_is_observational() {
    let tables = tables();
    let mut log = OutcomeLog::new();
    let shot = VehicleShot {
        weapon: "大号直瞄炮",
        vehicles: 3,
        distance: 0,
        height_diff: 0,
        armor: Armor::Medium,
        mods: FireMods::default(),
    };
    let mut r0 = PcgRng::from_seed(7);
    let off: Vec<_> = (0..20)
        .map(|_| resolve_direct_vs_vehicle(&tables, &mut r0, &mut log, &shot))
        .collect();
    assert!(
        outcome_log_drain(&mut log).is_empty(),
        "遥测默认关闭——未 enable 不应有记录"
    );

    outcome_log_enable(&mut log);
    let mut r1 = PcgRng::from_seed(7);
    let on: Vec<_> = (0..20)
        .map(|_| resolve_direct_vs_vehicle(&tables, &mut r1, &mut log, &shot))
        .collect();
    let recs = outcome_log_drain(&mut log);
    assert_eq!(off, on, "启用遥测不得扰动战斗结果（硬规则 #1）");
    assert_eq!(recs.len(), 20, "每次裁决恰好一条记录");
    for (rec, o) in recs.iter().zip(&on) {
        assert_eq!(rec.table, "direct_vs_vehicle");
        assert_eq!(rec.armor, "medium");
        assert_eq!(rec.weapon, "大号直瞄炮");
        assert_eq!(&rec.outcome, o, "记录的结果须等于实际裁决结果");
    }

    let mut r2 = PcgRng::from_seed(7);
    let _ = resolve_direct_vs_vehicle(&tables, &mut r2, &mut log, &shot);
    assert_eq!(outcome_log_drain(&mut log).len(), 1, "drain 后仍处于记录态");

    // Once the recording is off nothing is kept.
    outcome_log_disable(&mut log);
    let _ = resolve_direct_vs_vehicle(&tables, &mut r2, &mut log, &shot);
    assert!(outcome_log_drain(&mut log).is_empty());
}

#[test]
fn indirect_fire() {
    let tables = tables();
    assert_eq!(resolve_scatter(&tables, IndirectSpotting::Unspotted, 5, 4), Scatter::Hit);
    assert_eq!(resolve_scatter(&tables, IndirectSpotting::Unspotted, 5, 2), Scatter::Hexes(1));
    assert_eq!(resolve_scatter(&tables, IndirectSpotting::Unspotted, 70, 2), Scatter::Hexes(4));
    assert_eq!(resolve_scatter(&tables, IndirectSpotting::Unspotted, 5, 5), Scatter::InHex);
    assert_eq!(resolve_scatter(&tables, IndirectSpotting::Target, 99, 6), Scatter::Hit);
    assert_eq!(resolve_scatter(&tables, IndirectSpotting::Target, 99, 2), Scatter::InHex);

    assert_eq!(indirect_raw_result(&tables, true, GunClass::Heavy, 2), IndirectBase::Loss(3));
    assert_eq!(indirect_raw_result(&tables, true, GunClass::Light, 7), IndirectBase::Suppress);
    assert_eq!(indirect_raw_result(&tables, false, GunClass::Medium, 5), IndirectBase::NoEffect);

    let exposed = IndirectMods {
        target_terrain: TargetTerrain::Open,
        target_cover: false,
        target_moving_personnel: false,
        target_stacked: false,
        target_march: false,
        armor: Armor::Unarmored,
        gun_count: 4,
    };
    let mut rng = PcgRng::from_seed(7);
    let (mut saw_hit, mut saw_scatter_n, mut saw_destroyed) = (false, false, false);
    for _ in 0..600 {
        let shot = resolve_indirect(
            &tables,
            &mut rng,
            IndirectSpotting::Unspotted,
            5,
            GunClass::Heavy,
            &exposed,
        );
        match shot.scatter {
            Scatter::Hit => saw_hit = true,
            Scatter::Hexes(n) => {
                assert!(n >= 1);
                saw_scatter_n = true;
            }
            Scatter::InHex => {}
        }
        if let Outcome::Destroyed(k) = shot.outcome {
            assert!((1..=5).contains(&k));
            saw_destroyed = true;
        }
    }
    assert!(saw_hit, "expected at least one 命中");
    assert!(saw_scatter_n, "expected at least one 散布n格");
    assert!(
        saw_destroyed,
        "expected a 毁伤 — the friendly-fire damage a unit in the area takes (三.9.3c)"
    );

    let protected = IndirectMods {
        target_cover: true,
        armor: Armor::Composite,
        gun_count: 1,
        ..exposed
    };
    let seq = |seed| {
        let mut r = PcgRng::from_seed(seed);
        (0..30)
            .map(|_| apply_indirect_to_target(&tables, &mut r, IndirectBase::Loss(3), &protected))
            .collect::<Vec<_>>()
    };
    assert_eq!(seq(11), seq(11));
    // 1d6 (-2 cover, -3 armor, -1 gun) is 0 at most, so the loss of 3 always drops.
    for o in seq(11) {
        assert!(o == Outcome::Destroyed(1) || o == Outcome::Destroyed(2));
    }
}

#[test]
fn guided_fire_pipeline() {
    let map = row(25, None);
    let rules = rules();
    let tables = tables();
    let mut log = OutcomeLog::new();
    let u = |id: &str, side, ut, q: i32, ws| RuntimeUnit {
        teams: 3,
        weapon_state: ws,
        ..live(id, side, ut, q)
    };
    let mut rng = PcgRng::from_seed(5);
    let target = u("T", SideId::Blue, UnitType::Tank, 5, WeaponState::Deployed);
    let guide = u("G", SideId::Red, UnitType::Uav, 4, WeaponState::Deployed);
    let veh = u("V", SideId::Red, UnitType::Tank, 0, WeaponState::Deployed);
    let mut fire = |guide: &RuntimeUnit, veh: &RuntimeUnit, weapon: &str, target: &RuntimeUnit| {
        guided_fire(&tables, &map, &mut rng, &mut log, &rules, guide, veh, weapon, target)
    };

    assert!(matches!(fire(&guide, &veh, "重型导弹", &target), FireOutcome::Resolved(_)));

    let reason = |o| match o {
        FireOutcome::Rejected(r) => r,
        FireOutcome::Resolved(_) => "RESOLVED",
    };
    assert_eq!(
        reason(fire(&guide, &veh, "大号直瞄炮", &target)),
        "only the 重型导弹 supports guided fire (三.14e)"
    );
    let far_guide = u("G2", SideId::Red, UnitType::Uav, 0, WeaponState::Deployed);
    assert_eq!(
        reason(fire(&far_guide, &veh, "重型导弹", &target)),
        "the guide does not observe the target (三.14a.i)"
    );
    let cooling = u("V2", SideId::Red, UnitType::Tank, 0, WeaponState::Cooling);
    assert_eq!(
        reason(fire(&guide, &cooling, "重型导弹", &target)),
        "the missile vehicle's weapon is not ready (三.14c)"
    );
    let far_target = u("T2", SideId::Blue, UnitType::Tank, 25, WeaponState::Deployed);
    let near_guide = u("G3", SideId::Red, UnitType::Uav, 24, WeaponState::Deployed);
    assert_eq!(
        reason(fire(&near_guide, &veh, "重型导弹", &far_target)),
        "target out of missile range (三.14a.ii)"
    );
    let mut moving = guide.clone();
    moving.state = UnitState::Moving;
    assert_eq!(
        reason(fire(&moving, &veh, "重型导弹", &target)),
        "the guide is not in a state to guide (三.14d)"
    );

    // A tank guides nothing, and a vehicle on the move fires no guided missile.
    let tank = u("G4", SideId::Red, UnitType::Tank, 4, WeaponState::Deployed);
    assert_eq!(
        reason(fire(&tank, &veh, "重型导弹", &target)),
        "this unit cannot guide (三.14a)"
    );
    let mut driving = veh.clone();
    driving.state = UnitState::Moving;
    assert_eq!(
        reason(fire(&guide, &driving, "重型导弹", &target)),
        "the missile vehicle must be stopped (三.14c)"
    );
}

#[test]
fn same_hex() {
    let rules = rules();
    let tables = tables();
    let mut log = OutcomeLog::new();
    assert_eq!(unit_loadout(&rules, UnitType::Tank), vec!["大号直瞄炮".to_string()]);
    assert_eq!(unit_loadout(&rules, UnitType::Infantry), vec!["步兵轻武器".to_string()]);

    let map = row(0, None);
    let u = |id: &str, side, ut, teams| RuntimeUnit { teams, ..live(id, side, ut, 0) };
    let big_tank = u("BT", SideId::Blue, UnitType::Tank, 2);
    let small_tank = u("ST", SideId::Blue, UnitType::Tank, 1);
    let inf = u("BI", SideId::Blue, UnitType::Infantry, 1);
    let red = u("R", SideId::Red, UnitType::Tank, 3);
    let in_hex = vec![&big_tank, &small_tank, &inf, &red];

    let mut rng = PcgRng::from_seed(1);
    let target = pick_same_hex_target(&mut rng, SideId::Red, &in_hex).unwrap();
    assert_eq!(target.id, "ST", "三.15a: 坦克 priority, then fewest 班组");

    let red_weapons = unit_loadout(&rules, UnitType::Tank);
    assert_eq!(best_weapon(&tables, &red_weapons, true, 3, 0), Some("大号直瞄炮"));

    let inf_w = unit_loadout(&rules, UnitType::Infantry);
    assert_eq!(
        best_weapon(&tables, &inf_w, true, 3, 0),
        Some("步兵轻武器"),
        "三.15g: infantry can engage a vehicle with its 步兵轻武器"
    );

    let mut destroyed = false;
    let mut r2 = PcgRng::from_seed(2);
    for _ in 0..200 {
        if let Outcome::Destroyed(n) =
            same_hex_engage(&tables, &map, &mut r2, &mut log, &red_weapons, &red, &small_tank)
        {
            assert!((1..=5).contains(&n));
            destroyed = true;
        }
    }
    assert!(
        destroyed,
        "三.15a: point-blank 同格交战 destroys the target tank"
    );

    let only_inf = vec![&inf, &red];
    let t2 = pick_same_hex_target(&mut rng, SideId::Red, &only_inf).unwrap();
    assert_eq!(t2.id, "BI");
    let _ = same_hex_engage(&tables, &map, &mut r2, &mut log, &red_weapons, &red, &inf);

    // Of two weapons of one level the later one is taken; none engages without a level.
    let pair = vec!["大号直瞄炮".to_string(), "重型导弹".to_string()];
    assert_eq!(best_weapon(&tables, &pair, true, 3, 3), Some("重型导弹"));
    assert_eq!(best_weapon(&tables, &pair, true, 3, 0), Some("大号直瞄炮"));
    assert_eq!(best_weapon(&tables, &vec!["不存在".to_string()], true, 3, 0), None);
    assert!(pick_same_hex_target(&mut rng, SideId::Red, &vec![&red]).is_none());
}

#[test]
fn height_diff_directions() {
    let tables = tables();
    assert_eq!(height_diff_correction(&tables, 0, 1), 0, "level fire: no correction");
    assert_eq!(height_diff_correction(&tables, -1, 1), -2, "低打高: penalty");
    assert_eq!(height_diff_correction(&tables, 1, 1), 2, "高看低: bonus");
    assert_eq!(
        height_diff_correction(&tables, 5, 7),
        -height_diff_correction(&tables, -5, 7)
    );
    assert_eq!(height_diff_correction(&tables, i64::MIN, 7), 0);
}

#[test]
fn direct_fire_flow() {
    let tables = tables();
    let rules = rules();
    let mut log = OutcomeLog::new();
    let unit = |id: &str, side, q, state, ws| RuntimeUnit {
        teams: 3,
        state,
        weapon_state: ws,
        ..live(id, side, UnitType::Tank, q)
    };
    let shooter = |state, ws| unit("S", SideId::Red, 0, state, ws);
    let target = unit("T", SideId::Blue, 3, UnitState::Stopped, WeaponState::Deployed);
    let map = row(6, None);
    let mut rng = PcgRng::from_seed(1);
    let ready = || shooter(UnitState::Stopped, WeaponState::Deployed);
    let mut fire = |map: &GameMap, s: &RuntimeUnit, weapon: &str, t: &RuntimeUnit| {
        direct_fire(&tables, map, &mut rng, &mut log, &rules, s, weapon, t)
    };

    assert!(matches!(
        fire(&map, &ready(), "大号直瞄炮", &target),
        FireOutcome::Resolved(_)
    ));
    assert_eq!(
        fire(&map, &shooter(UnitState::Stopped, WeaponState::Cooling), "大号直瞄炮", &target),
        FireOutcome::Rejected("weapon not ready (locked or cooling)")
    );
    assert_eq!(
        fire(&map, &shooter(UnitState::Moving, WeaponState::Deployed), "速射炮", &target),
        FireOutcome::Rejected("must be stopped to fire (8.5c)")
    );
    assert!(matches!(
        fire(&map, &shooter(UnitState::Moving, WeaponState::Deployed), "大号直瞄炮", &target),
        FireOutcome::Resolved(_)
    ));
    let far = unit("F", SideId::Blue, 6, UnitState::Stopped, WeaponState::Deployed);
    assert_eq!(
        fire(&map, &ready(), "火箭筒", &far),
        FireOutcome::Rejected("out of range")
    );
    let blocked = row(6, Some((2, 6)));
    assert_eq!(
        fire(&blocked, &ready(), "大号直瞄炮", &target),
        FireOutcome::Rejected("target not observed")
    );
    assert_eq!(
        fire(&map, &ready(), "不存在", &target),
        FireOutcome::Rejected("weapon cannot engage this target")
    );
}

#[test]
fn a_munition_strikes_within_its_range() {
    let tables = tables();
    let map = row(6, None);
    let mut rng = PcgRng::from_seed(1);
    let mut log = OutcomeLog::new();
    let m = RuntimeUnit {
        state: UnitState::Moving,
        ..live("M", SideId::Red, UnitType::LoiteringMunition, 0)
    };
    let mut strike = |weapon: &str, q: i32| {
        let t = live("T", SideId::Blue, UnitType::Tank, q);
        loitering_strike(&tables, &map, &mut rng, &mut log, &m, weapon, &t)
    };
    assert!(matches!(strike("巡飞弹", 2), FireOutcome::Resolved(_)));
    assert_eq!(strike("巡飞弹", 3), FireOutcome::Rejected("out of range"));
    assert_eq!(
        strike("不存在", 1),
        FireOutcome::Rejected("weapon cannot engage this target")
    );
}

#[test]
fn air_defense_pipeline() {
    let tables = tables();
    assert_eq!(aa_attack_level(&tables, "防空高炮", 0), Some(9));
    assert_eq!(aa_attack_level(&tables, "防空高炮", 7), Some(4));
    assert_eq!(aa_attack_level(&tables, "防空高炮", 19), Some(2));
    assert_eq!(aa_attack_level(&tables, "防空高炮", 20), None);
    assert_eq!(aa_attack_level(&tables, "防空高炮", 21), None);
    assert_eq!(aa_attack_level(&tables, "便携防空导弹", 0), None);
    assert_eq!(aa_attack_level(&tables, "便携防空导弹", 1), None);
    assert_eq!(aa_attack_level(&tables, "便携防空导弹", 2), Some(5));
    assert_eq!(aa_attack_level(&tables, "便携防空导弹", 5), Some(7));
    assert_eq!(aa_attack_level(&tables, "便携防空导弹", 7), Some(6));
    assert_eq!(aa_attack_level(&tables, "便携防空导弹", 8), Some(4));
    assert_eq!(aa_attack_level(&tables, "车载防空导弹", 2), Some(6));
    assert_eq!(aa_attack_level(&tables, "车载防空导弹", 10), Some(7));
    assert_eq!(aa_attack_level(&tables, "车载防空导弹", 11), Some(6));
    assert_eq!(aa_attack_level(&tables, "车载防空导弹", 25), Some(6));
    assert_eq!(aa_attack_level(&tables, "车载防空导弹", 50), Some(6));
    assert_eq!(aa_attack_level(&tables, "车载防空导弹", 51), None);

    assert_eq!(aa_kill_threshold(&tables, 7), Some(11));
    assert_eq!(aa_kill_threshold(&tables, 2), Some(1));
    assert_eq!(aa_kill_threshold(&tables, 12), Some(2));
    assert!(2 >= aa_kill_threshold(&tables, 2).unwrap());
    assert!(2 >= aa_kill_threshold(&tables, 12).unwrap());
    assert!(2 < aa_kill_threshold(&tables, 7).unwrap());

    let mut rng = PcgRng::from_seed(1);
    assert_eq!(air_defense(&tables, &mut rng, "防空高炮", 4, 25), None);
    assert_eq!(air_defense(&tables, &mut rng, "便携防空导弹", 4, 1), None);
    assert_eq!(air_defense(&tables, &mut rng, "防空高炮", 0, 0), None);
    // None of these drew a die.
    assert_eq!(rng.roll_sum(2), PcgRng::from_seed(1).roll_sum(2));

    let mut rng = PcgRng::from_seed(7);
    let salvo = air_defense(&tables, &mut rng, "防空高炮", 4, 0).unwrap();
    assert_eq!(salvo.adjudications, 4);
    assert!(salvo.kills <= 4);
    assert_eq!(salvo.destroyed, salvo.kills > 0);

    let run = |seed| {
        let mut r = PcgRng::from_seed(seed);
        air_defense(&tables, &mut r, "车载防空导弹", 3, 5).unwrap()
    };
    assert_eq!(run(42), run(42));

    let mut rng = PcgRng::from_seed(5);
    let big = air_defense(&tables, &mut rng, "防空高炮", 12, 0).unwrap();
    assert!(
        big.destroyed,
        "a 12-shooter level-9 salvo should 歼灭 the air target"
    );
    assert!(big.kills >= 1);
}

#[test]
fn minefield() {
    let rules = rules();
    assert_eq!(rules.minefield_lay_range(), Some(50));
    assert_eq!(rules.minefield_max_lays(), Some(3));
    assert_eq!(rules.minefield_observe_range(), Some(10));
    assert_eq!(rules.timing("minefield_lay"), Some(secs(75)));

    assert_eq!(minefield_category(UnitType::Tank), "车辆");
    assert_eq!(minefield_category(UnitType::AaGun), "车辆");
    assert_eq!(minefield_category(UnitType::Infantry), "人员");
    assert_eq!(minefield_category(UnitType::AaMissileSquad), "人员");

    let tables = tables();
    let veh = UnitType::Tank;
    let inf = UnitType::Infantry;
    let d = |ut, armor, roll| minefield_damage_for_roll(&tables, ut, armor, roll);
    assert_eq!(d(veh, Armor::Unarmored, 4), 0);
    assert_eq!(d(veh, Armor::Unarmored, 6), 1);
    assert_eq!(d(inf, Armor::Unarmored, 6), 1);
    assert_eq!(d(veh, Armor::Heavy, 7), 1);
    assert_eq!(d(veh, Armor::Composite, 11), 1);
    assert_eq!(d(veh, Armor::Unarmored, 2), 2);
    assert_eq!(d(veh, Armor::Composite, 2), 0);
    assert_eq!(d(veh, Armor::Medium, 12), 2);
    assert_eq!(d(veh, Armor::Light, 2), 1);

    assert!(can_lay_mines(UnitType::Minelayer));
    assert!(!can_lay_mines(UnitType::Tank));
    assert!(can_clear_minefield(UnitType::Minesweeper));
    assert!(can_clear_minefield(UnitType::Tank));
    assert!(!can_clear_minefield(UnitType::Infantry));
    assert!(!can_clear_minefield(UnitType::Minelayer));

    let mut r = PcgRng::from_seed(9);
    let a = minefield_damage(&tables, &mut r, veh, Armor::Medium);
    let mut r2 = PcgRng::from_seed(9);
    assert_eq!(a, minefield_damage(&tables, &mut r2, veh, Armor::Medium));
}

#[test]
fn barrage_zone() {
    assert!(barrage_zone_triggers(UnitType::Tank));
    assert!(barrage_zone_triggers(UnitType::Infantry));
    assert!(barrage_zone_triggers(UnitType::AaGun));
    assert!(!barrage_zone_triggers(UnitType::Uav));
    assert!(!barrage_zone_triggers(UnitType::AttackHeli));
    assert!(!barrage_zone_triggers(UnitType::LoiteringMunition));
    assert!(!barrage_zone_triggers(UnitType::TransportHeli));

    let tables = tables();
    let mods = IndirectMods {
        target_terrain: TargetTerrain::Open,
        target_cover: false,
        target_moving_personnel: true,
        target_stacked: false,
        target_march: false,
        armor: Armor::Unarmored,
        gun_count: 4,
    };
    let run = |seed| {
        let mut r = PcgRng::from_seed(seed);
        barrage_zone_adjudicate(&tables, &mut r, GunClass::Heavy, &mods)
    };
    assert_eq!(run(11), run(11));

    let mut r = PcgRng::from_seed(3);
    let (mut destroyed, mut other) = (false, false);
    for _ in 0..400 {
        match barrage_zone_adjudicate(&tables, &mut r, GunClass::Heavy, &mods) {
            Outcome::Destroyed(n) => {
                assert!((1..=5).contains(&n));
                destroyed = true;
            }
            Outcome::Suppress | Outcome::NoEffect => other = true,
            Outcome::Kill => {}
        }
    }
    assert!(
        destroyed && other,
        "一.1.3: the 附2 result table drives a mix of 毁伤/压制/无效 on crossing"
    );
}

#[test]
fn buckets_hold_ranges() {
    assert!(bucket_contains("<=-3", -3) && !bucket_contains("<=-3", -2));
    assert!(bucket_contains("-2..-1", -1) && !bucket_contains("-2..-1", 0));
    assert!(bucket_contains("3..5", 4) && !bucket_contains("3..5", 6));
    assert!(bucket_contains(">= 12", 12) && !bucket_contains(">=12", 11));
    assert!(bucket_contains("0", 0) && !bucket_contains("zero", 0));
    assert_eq!(parse_scatter("散布12格"), Scatter::Hexes(12));
    assert_eq!(parse_scatter("散布多格"), Scatter::InHex);
    assert_eq!(parse_scatter("命中"), Scatter::Hit);
}

// ---------- probability ----------

fn at_level(table_id: &str, attack_level: i64) -> ResolveContext {
    ResolveContext { table_id: table_id.into(), attack_level }
}

#[test]
fn static_table_resolves_deterministically() {
    let r = rules();
    let p = build_provider(&r, "direct_vs_vehicle");
    let ctx = at_level("direct_vs_vehicle", 10);
    let mut a = PcgRng::from_seed(1);
    let mut b = PcgRng::from_seed(1);
    for _ in 0..200 {
        assert_eq!(p.resolve(&ctx, &mut a), p.resolve(&ctx, &mut b));
    }
}

#[test]
fn bayesian_table_resolves_deterministically() {
    let mut r = rules();
    for table in ["direct_vs_personnel", "direct_vs_vehicle", "small_arms_vs_vehicle"] {
        r.prob.providers.insert(
            table.to_string(),
            ProviderSpec {
                kind: "bayesian".into(),
                params: json(r#"{ "byLevel": { "5": { "1": 730000, "S": 1000000 } } }"#),
            },
        );
    }
    let kind = |t: &str| r.prob.providers.get(&t.to_string()).unwrap().kind.clone();
    assert_eq!(kind("direct_vs_personnel"), "bayesian");
    assert_eq!(kind("direct_vs_vehicle"), "bayesian");
    assert_eq!(kind("small_arms_vs_vehicle"), "bayesian");

    let p = build_provider(&r, "direct_vs_personnel");
    let ctx = at_level("direct_vs_personnel", 5);
    let mut a = PcgRng::from_seed(2);
    let mut b = PcgRng::from_seed(2);
    let (mut destroyed, mut suppress) = (false, false);
    for _ in 0..400 {
        let oa = p.resolve(&ctx, &mut a);
        assert_eq!(oa, p.resolve(&ctx, &mut b));
        match oa {
            Outcome::Destroyed(1) => destroyed = true,
            Outcome::Suppress => suppress = true,
            other => panic!("calibrated row yields only 1/S, got {other:?}"),
        }
    }
    assert!(
        destroyed && suppress,
        "bayesian draw must sample both outcomes"
    );
}

#[test]
fn outcome_parse() {
    assert_eq!(Outcome::parse(&Json::Int(2)), Some(Outcome::Destroyed(2)));
    assert_eq!(Outcome::parse(&Json::Str("S".into())), Some(Outcome::Suppress));
    assert_eq!(Outcome::parse(&Json::Str("K".into())), Some(Outcome::Kill));
    assert_eq!(Outcome::parse(&Json::Str("N".into())), Some(Outcome::NoEffect));
    assert_eq!(Outcome::parse(&Json::Str("3".into())), Some(Outcome::Destroyed(3)));
    assert_eq!(Outcome::parse(&Json::Str("256".into())), None);
    assert_eq!(Outcome::parse(&Json::Int(-1)), Some(Outcome::Destroyed(0)));
    assert_eq!(Outcome::parse(&Json::Int(257)), Some(Outcome::Destroyed(1)));
    assert_eq!(Outcome::parse(&Json::Null), None);
}

#[test]
fn model_provider_does_not_panic() {
    let p = ModelProvider::from_params(&Json::Obj(vec![]));
    let ctx = at_level("direct_vs_vehicle", 10);
    let mut rng = PcgRng::from_seed(1);
    assert_eq!(p.resolve(&ctx, &mut rng), Outcome::NoEffect);
}

#[test]
fn a_missing_table_has_no_effect() {
    let r = rules();
    let p = build_provider(&r, "no_such_table");
    let mut rng = PcgRng::from_seed(1);
    assert_eq!(p.resolve(&at_level("no_such_table", 10), &mut rng), Outcome::NoEffect);
    // No die was drawn.
    assert_eq!(rng.d6(), PcgRng::from_seed(1).d6());
}

#[test]
fn a_level_takes_the_row_at_or_below_it() {
    let cells = json(r#"{ "1": "a", "5": "b", "10": "c", "x": "d" }"#);
    let row = |level: i64| best_row(Some(&cells), level).and_then(|v| v.as_str());
    assert_eq!(row(4), Some("a"));
    assert_eq!(row(5), Some("b"));
    assert_eq!(row(99), Some("c"));
    assert_eq!(row(-3), Some("a"));
    assert!(best_row(Some(&Json::Null), 1).is_none());
}

#[test]
fn same_seed_same_sequence() {
    let mut a = PcgRng::from_seed(42);
    let mut b = PcgRng::from_seed(42);
    for _ in 0..1000 {
        assert_eq!(a.roll_sum(2), b.roll_sum(2));
    }
}

#[test]
fn dice_in_range() {
    let mut r = PcgRng::from_seed(7);
    for _ in 0..1000 {
        let d = r.d6();
        assert!((1..=6).contains(&d));
        let s = r.roll_sum(2);
        assert!((2..=12).contains(&s));
    }
}

#[test]
fn seeds_and_draws_differ() {
    let draws = |seed| {
        let mut r = PcgRng::from_seed(seed);
        (0..20).map(|_| r.next_u32_below(1_000_000)).collect::<Vec<_>>()
    };
    assert_ne!(draws(1), draws(2));
    let d = draws(1);
    assert!(d.iter().any(|x| *x != d[0]));
}

// ---------- the rules ----------

#[test]
fn aggregate_split() {
    assert!(!supports_aggregation(UnitType::Artillery));
    assert!(supports_aggregation(UnitType::Infantry));
    assert!(supports_aggregation(UnitType::Tank));
    assert!(supports_aggregation(UnitType::AaMissileSquad));
    assert!(!supports_aggregation(UnitType::Uav));
    assert!(!supports_aggregation(UnitType::AttackHeli));

    let rules = rules();
    let cap = rules.max_squads().unwrap() as u8;
    assert_eq!(cap, 4);

    assert_eq!(aggregate(2, 2, 4, 4, cap), Some((4, 4)));
    assert_eq!(aggregate(1, 2, 3, 4, cap), Some((3, 3)));
    assert_eq!(aggregate(1, 1, 0, 5, cap), Some((2, 2)));
    assert_eq!(aggregate(3, 2, 4, 4, cap), None);
    assert_eq!(aggregate(0, 2, 4, 4, cap), None);

    assert_eq!(split_squads(4, cap), Some((2, 2)));
    assert_eq!(split_squads(3, cap), Some((2, 1)));
    assert_eq!(split_squads(2, cap), Some((1, 1)));
    assert_eq!(split_squads(1, cap), None);
    assert_eq!(split_squads(cap + 1, cap), None);

    assert_eq!(split(4, 7, cap), Some(((2, 7), (2, 7))));
    assert_eq!(split(3, 5, cap), Some(((2, 5), (1, 5))));
    assert_eq!(split(1, 9, cap), None);

    let (sq, _ammo) = aggregate(2, 2, 6, 2, cap).unwrap();
    assert_eq!(split_squads(sq, cap), Some((2, 2)));
}

#[test]
fn fortifications() {
    let vehicle = FortKind::Vehicle;
    let combat = FortKind::PersonnelCombat;
    let hidden = FortKind::PersonnelConcealment;
    let rules = rules();
    let cap = rules.fortification_capacity().unwrap();
    let range = rules.fortification_exposed_range().unwrap();
    assert_eq!(cap, 5);
    assert_eq!(range, 12);
    assert_eq!(rules.timing("fortification_transition"), Some(secs(75)));

    assert!(fortification_admits(vehicle, UnitType::Tank));
    assert!(fortification_admits(vehicle, UnitType::AaGun));
    assert!(!fortification_admits(vehicle, UnitType::Infantry));
    assert!(fortification_admits(combat, UnitType::Infantry));
    assert!(fortification_admits(combat, UnitType::AaMissileSquad));
    assert!(fortification_admits(hidden, UnitType::Infantry));
    assert!(!fortification_admits(hidden, UnitType::Tank));
    assert!(!fortification_admits(vehicle, UnitType::Uav));

    assert_eq!(fortification_observe_range(vehicle, range), 12);
    assert_eq!(fortification_observe_range(combat, range), 12);
    assert_eq!(fortification_observe_range(hidden, range), 0);

    assert!(fortification_can_engage(vehicle));
    assert!(fortification_can_engage(combat));
    assert!(!fortification_can_engage(hidden));

    assert!(!fortification_inherits_fire(vehicle));
    assert!(fortification_inherits_fire(combat));
    assert!(!fortification_inherits_fire(hidden));

    assert!(fortification_terrain_applies(vehicle));
    assert!(fortification_terrain_applies(combat));
    assert!(!fortification_terrain_applies(hidden));

    assert!(!fortification_over_capacity(3, 5));
    assert!(!fortification_over_capacity(5, 5));
    assert!(fortification_over_capacity(6, 5));
    assert!(fortification_over_capacity(3, 2));

    assert_eq!(FortKind::from_facility_kind("works_vehicle"), Some(vehicle));
    assert_eq!(FortKind::from_facility_kind("works_infantry_combat"), Some(combat));
    assert_eq!(FortKind::from_facility_kind("works_infantry_hidden"), Some(hidden));
    assert_eq!(FortKind::from_facility_kind("minefield"), None);
}

#[test]
fn loads_default_rules() {
    let r = rules();
    assert_eq!(r.format, "openstratcore.rules");
    assert!(r.weapons.contains_key(&"tank_main_big".to_string()));
    assert_eq!(r.timing("move_to_stop"), Some(secs(75)));
    assert_eq!(r.timing("no_such_timing"), None);
    assert!(r.prob.providers.contains_key(&"direct_vs_vehicle".to_string()));
    assert!(r.result_table("direct_vs_vehicle").is_some());
    assert!(r.result_table("no_such_table").is_none());
}

#[test]
fn weapon_attack_level_decreases_with_distance() {
    let r = rules();
    let w = r.weapons.get(&"tank_main_big".to_string()).unwrap();
    assert_eq!(w.flat_attack_level(0), Some(10));
    assert!(w.flat_attack_level(0).unwrap() >= w.flat_attack_level(18).unwrap());
    assert_eq!(w.flat_attack_level(19), None);
    assert_eq!(w.flat_attack_level(-1), None);
}

#[test]
fn loads_all_18_tables() {
    let t = Tables::load_embedded(table_list()).expect("load all 18 tables");
    assert_eq!(t.len(), 18, "must deserialize all 18 decision tables");
    assert!(!t.is_empty());
    for name in Tables::TABLE_FILES.iter().map(|f| f.trim_end_matches(".json")) {
        let tbl = t.get(name).unwrap_or_else(|| panic!("missing table {name}"));
        assert!(!tbl.data.is_empty(), "{name} has no payload");
        assert_eq!(tbl.hex_size_meters, Some(200), "{name} hex_size_meters");
    }
    assert!(t.get("unit_speed").unwrap().payload("units").is_some());
    assert!(t.get("timings").unwrap().payload("seconds").is_some());
    assert!(t.get("observation_distance").unwrap().payload("rows").is_some());
    assert!(t.get("result_vs_vehicle").unwrap().payload("data").is_some());
    assert!(t.get("result_vs_vehicle").unwrap().verified);
    assert!(t.get("unit_speed").unwrap().verified);
    assert_eq!(
        t.unverified(),
        vec!["attack_level_vs_vehicle", "height_diff_correction", "result_vs_personnel"]
    );
}

#[test]
fn an_incomplete_set_of_tables_is_refused() {
    let mut short = table_list();
    short.pop();
    match Tables::load_embedded(short) {
        Err(EngineError::Rules(m)) => assert_eq!(m, "expected 18 embedded tables, loaded 17"),
        _ => panic!("expected a rules error"),
    }
    let mut strange = table_list();
    strange[17].0 = "weather".to_string();
    match Tables::load_embedded(strange) {
        Err(EngineError::Rules(m)) => assert_eq!(m, "unknown embedded table weather"),
        _ => panic!("expected a rules error"),
    }
    let mut twice = table_list();
    twice.push(("minefield".to_string(), rule_table("minefield", Json::Null)));
    match Rules::load_embedded_tables(twice) {
        Err(e) => {
            assert_eq!(e.display(), "rules config error: duplicate embedded table minefield")
        }
        _ => panic!("expected a rules error"),
    }
}

// ---------- time and text ----------

#[test]
fn whole_seconds_round_trip_exactly() {
    for s in [0, 25, 75, 150, 300, 1200] {
        let t = whole_secs_to_ticks(s);
        assert_eq!(t, s * CS_PER_SEC);
        assert_eq!(t / CS_PER_SEC, s);
    }
}

#[test]
fn time_saturates() {
    assert_eq!(later(Tick::MAX, 1), Tick::MAX);
    assert_eq!(later(100, 7500), 7600);
    assert_eq!(whole_secs_to_ticks(i64::MAX), Tick::MAX);
    assert_eq!(whole_secs_to_ticks(i64::MIN), Tick::MIN);
    assert_eq!(whole_secs_to_ticks(-3), -300);
    assert_eq!(next(7), 8);
}

#[test]
fn numbers_are_written_in_decimal() {
    assert_eq!(u64_text(0), "0");
    assert_eq!(u64_text(u64::MAX), "18446744073709551615");
    assert_eq!(i64_text(i64::MIN), "-9223372036854775808");
    assert_eq!(strip_json("minefield.json"), "minefield");
    assert_eq!(strip_json("minefield"), "minefield");
}

// ---------- movement and sight ----------

#[test]
fn vehicle_speed() {
    let r = rules();
    let t = |terrain: Terrain, from: i32, to: i32| {
        ground_step_ticks(&r, UnitType::Tank, terrain, from, to, UnitState::Normal)
    };
    assert_eq!(t(Terrain::Open, 0, 0), Some(secs(20)));
    assert_eq!(t(Terrain::Forest, 0, 0), Some(secs(40)));
    assert_eq!(t(Terrain::Urban, 0, 0), Some(secs(60)));
    assert_eq!(t(Terrain::River, 0, 0), Some(secs(40)));
    assert_eq!(t(Terrain::RiverLarge, 0, 0), Some(secs(80)));
    assert_eq!(t(Terrain::Soft, 0, 0), Some(secs(80)));
    assert_eq!(t(Terrain::Open, 0, 2), Some(secs(40)));
    assert_eq!(t(Terrain::Open, 0, 3), Some(secs(60)));
    assert_eq!(t(Terrain::Open, 0, 4), Some(secs(80)));
    assert_eq!(t(Terrain::Open, 0, 5), Some(secs(100)));
    assert_eq!(t(Terrain::Open, 0, 6), None);
    assert_eq!(t(Terrain::Road, 0, 5), Some(secs(20)));
    assert_eq!(t(Terrain::Road, 0, 6), Some(secs(20)));
    assert_eq!(t(Terrain::Rail, 0, 8), Some(secs(20)));
    // Half speed takes twice the time, downhill counts like uphill.
    assert_eq!(
        ground_step_ticks(&r, UnitType::Tank, Terrain::Open, 3, 0, UnitState::Half),
        Some(secs(120))
    );
    assert_eq!(t(Terrain::Open, i32::MIN, i32::MAX), None);
}

#[test]
fn infantry_move() {
    let r = rules();
    let t = |from: i32, to: i32, mode: UnitState| infantry_step_ticks(&r, 10, from, to, mode);
    assert_eq!(t(0, 0, UnitState::Normal), Some(secs(144)));
    assert_eq!(t(0, 7, UnitState::Normal), Some(secs(288)));
    assert_eq!(t(0, 6, UnitState::Normal), Some(secs(144)));
    assert_eq!(t(0, 0, UnitState::Charge1), Some(secs(72)));
    assert_eq!(t(0, 0, UnitState::Charge2), Some(secs(36)));
    assert_eq!(t(0, 0, UnitState::Half), Some(secs(288)));
    assert_eq!(t(0, 7, UnitState::Charge1), Some(secs(144)));
    assert_eq!(t(0, 0, UnitState::Cover), None);

    assert_eq!(infantry_fatigue_per_hex(&r, UnitState::Charge1), 1);
    assert_eq!(infantry_fatigue_per_hex(&r, UnitState::Charge2), 1);
    assert_eq!(infantry_fatigue_per_hex(&r, UnitState::Normal), 0);
    assert!(!infantry_mode_allowed(UnitState::Charge2, 1));
    assert!(infantry_mode_allowed(UnitState::Charge1, 1));
    assert!(!infantry_mode_allowed(UnitState::Normal, 2));
    assert!(infantry_mode_allowed(UnitState::Normal, 0));
    assert_eq!(infantry_fatigue_after_rest(&r, 3, 150), 1);
    assert_eq!(infantry_fatigue_after_rest(&r, 1, 300), 0);
    assert_eq!(infantry_fatigue_after_rest(&r, 1, -150), 3);
    assert_eq!(infantry_fatigue_after_rest(&r, 1, -149), 2);
}

#[test]
fn who_rises_sees_no_less() {
    let (a, b) = (Axial::new(0, 0), Axial::new(4, 0));
    let map = board(
        (0..=4).map(|q| cell(q, 0, if q == 2 { 3 } else { 0 }, Terrain::Open)).collect(),
    );
    let sees = |x: i64, y: i64| line_of_sight_alt(&map, &a, &b, x, y);
    assert!(!sees(0, 0));
    assert!(!sees(4, 0) && sees(5, 0));
    assert!(!sees(2, 2) && sees(2, 3) && sees(3, 3));
    for x in 0..8 {
        for y in 0..8 {
            if sees(x, y) {
                assert!(sees(x + 1, y) && sees(x, y + 1));
            }
        }
    }
}

#[test]
fn line_of_sight_cases() {
    let a = Axial::new(0, 0);
    let b = Axial::new(3, 0);

    let clear = board(vec![
        cell(0, 0, 0, Terrain::Open),
        cell(1, 0, 0, Terrain::Open),
        cell(2, 0, 0, Terrain::Open),
        cell(3, 0, 0, Terrain::Open),
    ]);
    assert!(line_of_sight(&clear, &a, &b), "flat line should be visible");

    let hill = board(vec![
        cell(0, 0, 0, Terrain::Open),
        cell(1, 0, 0, Terrain::Open),
        cell(2, 0, 2, Terrain::Open),
        cell(3, 0, 0, Terrain::Open),
    ]);
    assert!(!line_of_sight(&hill, &a, &b), "an intermediate hill blocks");

    let forest = board(vec![
        cell(0, 0, 0, Terrain::Open),
        cell(1, 0, 0, Terrain::Forest),
        cell(2, 0, 0, Terrain::Open),
        cell(3, 0, 0, Terrain::Open),
    ]);
    assert!(!line_of_sight(&forest, &a, &b), "forest on the line (+1) blocks");

    let adj = Axial::new(1, 0);
    let wall = board(vec![cell(0, 0, 0, Terrain::Open), cell(1, 0, 9, Terrain::Urban)]);
    assert!(line_of_sight(&wall, &a, &adj), "adjacent hexes always have LOS");

    let rise = |from_elev| {
        board(vec![
            cell(0, 0, from_elev, Terrain::Open),
            cell(1, 0, 0, Terrain::Open),
            cell(2, 0, 1, Terrain::Open),
            cell(3, 0, 0, Terrain::Open),
        ])
    };
    assert!(!line_of_sight(&rise(0), &a, &b), "a +1 rise blocks a flat observer");
    assert!(
        line_of_sight(&rise(3), &a, &b),
        "a high observer (+1) sees over the same rise"
    );

    let high_target = board(vec![
        cell(0, 0, 0, Terrain::Open),
        cell(1, 0, 0, Terrain::Open),
        cell(2, 0, 1, Terrain::Open),
        cell(3, 0, 3, Terrain::Open),
    ]);
    assert!(
        line_of_sight(&high_target, &a, &b),
        "a high target (+1) is seen over the rise"
    );
    assert_eq!(
        line_of_sight(&high_target, &a, &b),
        line_of_sight(&high_target, &b, &a),
        "LOS must be symmetric in its endpoints"
    );

    assert!(!line_of_sight(&clear, &a, &Axial::new(9, 9)));

    let mut grid: Vec<HexCell> = Vec::new();
    for q in 0..=11 {
        for r in 0..=11 {
            grid.push(cell(q, r, if (q, r) == (7, 8) { 4 } else { 0 }, Terrain::Open));
        }
    }
    let g = board(grid);
    let (p, d) = (Axial::new(0, 0), Axial::new(11, 11));
    assert_eq!(line_of_sight(&g, &p, &d), line_of_sight(&g, &d, &p));
}

#[test]
fn can_observe_short_range_floor() {
    let rules = rules();
    let uav = live("uav", SideId::Red, UnitType::Uav, 0);
    let near = RuntimeUnit {
        state: UnitState::Cover,
        ..live("near", SideId::Blue, UnitType::Infantry, 1)
    };
    let map_near = board(vec![cell(0, 0, 0, Terrain::Open), cell(1, 0, 0, Terrain::Forest)]);
    assert!(
        can_observe(&rules, &map_near, &uav, &near),
        "an adjacent covered forest target must stay visible to a UAV"
    );
    let far = live("far", SideId::Blue, UnitType::Infantry, 3);
    assert!(
        !can_observe(&rules, &row(3, None), &uav, &far),
        "distance 3 exceeds the UAV's 2-hex base range"
    );
}

#[test]
fn march() {
    let rules = rules();
    assert_eq!(rules.hex_size_meters, 200);
    assert_eq!(march_step_ticks(&rules, "country"), Some(secs(18)));
    assert_eq!(march_step_ticks(&rules, "normal"), Some(secs(12)));
    assert_eq!(march_step_ticks(&rules, "grade"), Some(secs(8)));
    assert_eq!(march_step_ticks(&rules, "rail"), None);
    assert_eq!(march_step_ticks(&rules, "bogus"), None);

    let plain = cell(0, 0, 0, Terrain::Open);
    let road_cell = HexCell {
        road: Some(Road { kind: "normal".into(), connects: vec![2, 5] }),
        ..plain.clone()
    };
    assert!(road_allows_direction(&road_cell, 2));
    assert!(road_allows_direction(&road_cell, 5));
    assert!(!road_allows_direction(&road_cell, 0));
    assert!(!road_allows_direction(&plain, 2));

    let ru = |id: &str, st: UnitState, carried: Option<&str>| RuntimeUnit {
        state: st,
        carried_by: carried.map(|s| s.into()),
        ..live(id, SideId::Red, UnitType::Tank, 1)
    };
    let here = Axial::new(1, 0);
    assert!(march_allows_entry(&state_of(vec![]), here));
    assert!(march_allows_entry(&state_of(vec![ru("M", UnitState::March, None)]), here));
    assert!(!march_allows_entry(&state_of(vec![ru("S", UnitState::Stopped, None)]), here));
    assert!(!march_allows_entry(&state_of(vec![ru("N", UnitState::Normal, None)]), here));
    assert!(march_allows_entry(&state_of(vec![ru("P", UnitState::Stopped, Some("V"))]), here));
}

#[test]
fn vehicle_slower_in_forest() {
    let r = rules();
    let t = |terrain| {
        ground_step_ticks(&r, UnitType::Tank, terrain, 0, 0, UnitState::Normal).unwrap()
    };
    assert!(t(Terrain::Forest) > t(Terrain::Open));
}

#[test]
fn steep_slope_impassable() {
    let r = rules();
    assert_eq!(
        ground_step_ticks(&r, UnitType::Tank, Terrain::Open, 0, 6, UnitState::Normal),
        None
    );
}

#[test]
fn direct_fire_in_range_is_deterministic() {
    let r = rules();
    let a = Axial::new(0, 0);
    let b = Axial::new(3, 0);
    let mut r1 = PcgRng::from_seed(5);
    let mut r2 = PcgRng::from_seed(5);
    let o1 = resolve_direct_fire(&r, &a, &b, "tank_main_big", &mut r1).unwrap();
    let o2 = resolve_direct_fire(&r, &a, &b, "tank_main_big", &mut r2).unwrap();
    assert_eq!(o1, o2);
}

#[test]
fn a_shot_by_the_rules_alone_can_be_refused() {
    let r = rules();
    let (a, b) = (Axial::new(0, 0), Axial::new(3, 0));
    let mut rng = PcgRng::from_seed(5);
    match resolve_direct_fire(&r, &a, &b, "sling", &mut rng) {
        Err(e) => assert_eq!(e.display(), "invalid command: unknown weapon sling"),
        Ok(_) => panic!("an unknown weapon"),
    }
    match resolve_direct_fire(&r, &a, &b, "mortar", &mut rng) {
        Err(e) => assert_eq!(e.display(), "rules config error: weapon mortar has no resultTable"),
        Ok(_) => panic!("a weapon without a table"),
    }
    let far = Axial::new(19, 0);
    assert_eq!(
        resolve_direct_fire(&r, &a, &far, "tank_main_big", &mut rng).unwrap(),
        Outcome::NoEffect
    );
}

#[test]
fn helicopters_fly_at_their_altitude() {
    let rules = rules();
    let map = row(1, None);
    let heli = |alt| RuntimeUnit {
        heli_alt: alt,
        ..live("H", SideId::Red, UnitType::TransportHeli, 0)
    };
    assert_eq!(air_altitude_levels(&rules, &map, &heli(HeliAlt::High)), 50);
    assert_eq!(air_altitude_levels(&rules, &map, &heli(HeliAlt::Low)), 20);
    assert_eq!(air_altitude_levels(&rules, &map, &heli(HeliAlt::VeryLow)), 2);
    let tank = live("T", SideId::Red, UnitType::Tank, 0);
    assert_eq!(air_altitude_levels(&rules, &map, &tank), 0);
    assert!(HeliAlt::High.adjacent(HeliAlt::Low) && HeliAlt::Low.adjacent(HeliAlt::VeryLow));
    assert!(!HeliAlt::High.adjacent(HeliAlt::VeryLow) && !HeliAlt::Low.adjacent(HeliAlt::Low));
    assert_eq!(HeliAlt::parse("very_low"), Some(HeliAlt::VeryLow));
    assert_eq!(HeliAlt::parse("orbit"), None);
    assert_eq!(Armor::parse("none"), Some(Armor::Unarmored));
    assert_eq!(Armor::parse("paper"), None);
}

#[test]
fn space_recon() {
    assert!(is_space_recon(UnitType::SpaceRecon));
    assert!(!is_space_recon(UnitType::ReconVehicle));
    assert!(!can_capture(UnitType::SpaceRecon));
    assert!(!can_be_targeted(UnitType::SpaceRecon));
    assert!(can_be_targeted(UnitType::Tank));
    assert!(can_be_targeted(UnitType::Uav));

    let rules = rules();
    assert!(ground_step_ticks(
        &rules,
        UnitType::SpaceRecon,
        Terrain::Open,
        0,
        0,
        UnitState::Normal
    )
    .is_none());

    let ru = |id: &str, side: SideId, ut: UnitType, q: i32, carried: Option<&str>| RuntimeUnit {
        carried_by: carried.map(|s| s.into()),
        ..live(id, side, ut, q)
    };
    let blue = || {
        vec![
            ru("B-T9", SideId::Blue, UnitType::Tank, 1, None),
            ru("B-T2", SideId::Blue, UnitType::Tank, 1, None),
            ru("B-P0", SideId::Blue, UnitType::Infantry, 1, Some("B-T2")),
            ru("B-I5", SideId::Blue, UnitType::Infantry, 3, None),
        ]
    };
    let s = state_of(blue());
    assert!(space_recon_reveals(&s, SideId::Red).is_empty());

    let mut us = blue();
    us.push(ru("R-SR", SideId::Red, UnitType::SpaceRecon, 0, None));
    let s = state_of(us);
    assert_eq!(
        space_recon_reveals(&s, SideId::Red),
        vec!["B-I5".to_string(), "B-T2".to_string()]
    );
}

#[test]
fn a_capture_zone_is_contested_within_its_radius() {
    let s = state_of(vec![live("E", SideId::Blue, UnitType::Tank, 2)]);
    assert!(!capture_zone_clear(&s, Axial::new(1, 0), SideId::Red, 1));
    assert!(capture_zone_clear(&s, Axial::new(0, 0), SideId::Red, 1));
    assert!(capture_zone_clear(&s, Axial::new(1, 0), SideId::Blue, 1));
}

#[test]
fn munitions_stay_aloft_for_their_endurance() {
    assert_eq!(loitering_endurance_ticks(&rules()), Some(secs(1200)));
    assert!(is_loitering(UnitType::LoiteringMunition) && !is_loitering(UnitType::Uav));
}

#[test]
fn an_ordered_map_keeps_its_keys_in_order() {
    let mut m: OrdMap<u64, u64> = OrdMap::new();
    for k in [5, 1, 9, 3] {
        assert!(!m.insert(k, k * 10));
    }
    assert!(m.insert(9, 91));
    assert_eq!(m.len(), 4);
    assert_eq!((0..4).map(|i| *m.key_at(i)).collect::<Vec<_>>(), vec![1, 3, 5, 9]);
    assert_eq!(*m.val_at(3), 91);
    if let Some(v) = m.get_mut(&3) {
        *v += 1;
    }
    assert_eq!(m.get(&3), Some(&31));
    assert_eq!(m.remove(&1), Some(10));
    assert_eq!(m.remove(&1), None);
    assert!(!m.contains_key(&1) && !m.is_empty());
}

#[test]
fn halves_merge_into_the_whole() {
    for n in 2..=4u8 {
        let ((a, ammo_a), (b, ammo_b)) = split(n, 6, 4).unwrap();
        assert_eq!(aggregate(a, b, ammo_a, ammo_b, 4), Some((n, 6)));
        assert!(a >= b && a - b <= 1);
    }
}

#[test]
fn rolls_decide_direct_fire() {
    let tables = tables();
    let at_personnel = |mods: FireMods, roll: u32, d: u32| {
        adjudicate_vs_personnel(&tables, "大号直瞄炮", 3, 0, mods, roll, d)
    };
    let plain = FireMods::default();
    let marching = FireMods { target_march: true, ..plain };
    let covered = FireMods { target_cover: true, shooter_suppressed: true, ..plain };
    assert_eq!(at_personnel(plain, 4, 3), Some((5, Outcome::Destroyed(1))));
    assert_eq!(at_personnel(plain, 7, 3), Some((5, Outcome::Suppress)));
    assert_eq!(at_personnel(plain, 12, 3), Some((5, Outcome::NoEffect)));
    assert_eq!(at_personnel(marching, 4, 6), Some((5, Outcome::Destroyed(2))));
    assert_eq!(at_personnel(marching, 7, 6), Some((5, Outcome::Destroyed(1))));
    assert_eq!(at_personnel(covered, 4, 1), Some((5, Outcome::Suppress)));
    assert_eq!(adjudicate_vs_personnel(&tables, "不存在", 3, 0, plain, 4, 3), None);

    let at_vehicle = |armor, height_diff: i64, distance: i32, roll: u32| {
        let shot = VehicleShot {
            weapon: "大号直瞄炮",
            vehicles: 3,
            distance,
            height_diff,
            armor,
            mods: plain,
        };
        adjudicate_vs_vehicle(&tables, &shot, roll)
    };
    assert_eq!(at_vehicle(Armor::Medium, 0, 0, 12), Some((12, Outcome::Destroyed(2))));
    assert_eq!(at_vehicle(Armor::Composite, 0, 0, 12), Some((12, Outcome::Destroyed(1))));
    assert_eq!(at_vehicle(Armor::Composite, 0, 0, 7), Some((12, Outcome::Suppress)));
    assert_eq!(at_vehicle(Armor::Unarmored, 0, 0, 7), Some((12, Outcome::Destroyed(1))));
    // From below the level drops by two, and with it the column.
    assert_eq!(at_vehicle(Armor::Unarmored, -1, 1, 7), Some((10, Outcome::NoEffect)));
    assert_eq!(at_vehicle(Armor::Unarmored, 0, 19, 7), None);
}

#[test]
fn dice_decide_indirect_fire() {
    let tables = tables();
    let exposed = IndirectMods {
        target_terrain: TargetTerrain::Open,
        target_cover: false,
        target_moving_personnel: false,
        target_stacked: false,
        target_march: false,
        armor: Armor::Unarmored,
        gun_count: 4,
    };
    let protected =
        IndirectMods { target_cover: true, armor: Armor::Composite, gun_count: 1, ..exposed };
    let verdict = |n: i64, mods: &IndirectMods, d: u32| {
        adjudicate_salvo(&tables, IndirectBase::Loss(n), mods, d)
    };
    assert_eq!(verdict(3, &exposed, 6), Outcome::Destroyed(4));
    assert_eq!(verdict(9, &exposed, 3), Outcome::Destroyed(5));
    assert_eq!(verdict(3, &protected, 1), Outcome::Destroyed(1));
    assert_eq!(verdict(2, &protected, 1), Outcome::Suppress);
    assert_eq!(
        adjudicate_salvo(&tables, IndirectBase::Suppress, &exposed, 6),
        Outcome::Suppress
    );
    assert_eq!(
        adjudicate_salvo(&tables, IndirectBase::NoEffect, &exposed, 6),
        Outcome::NoEffect
    );
}

#[test]
fn draws_decide_the_backends() {
    let r = rules();
    let t = StaticTable::from_rules(&r, "direct_vs_vehicle").unwrap();
    assert_eq!(t.dice, 2);
    assert_eq!(t.outcome_for_roll(10, 12), Outcome::Kill);
    assert_eq!(t.outcome_for_roll(10, 8), Outcome::Destroyed(2));
    assert_eq!(t.outcome_for_roll(7, 7), Outcome::Suppress);
    assert_eq!(t.outcome_for_roll(7, 3), Outcome::NoEffect);
    assert!(StaticTable::from_rules(&r, "no_such_table").is_none());

    let params = json(r#"{ "byLevel": { "5": { "1": 730000, "S": 1000000 }, "9": {} } }"#);
    let b = BayesianTable::from_params(&params);
    assert_eq!(b.outcome_for_draw(5, 0), Some(Outcome::Destroyed(1)));
    assert_eq!(b.outcome_for_draw(5, 729_999), Some(Outcome::Destroyed(1)));
    assert_eq!(b.outcome_for_draw(5, 730_000), Some(Outcome::Suppress));
    assert_eq!(b.outcome_for_draw(5, 999_999), Some(Outcome::Suppress));
    assert_eq!(b.outcome_for_draw(9, 0), None);
}
