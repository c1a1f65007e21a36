//! Adjudication: direct fire, indirect fire, guided fire, same-hex fights, air defence and mines,
//! each as a reading of the decision tables under dice.
use crate::hex::{abs, steps, Axial};
use crate::json::{
    field, int_of, int_or, is_text, item, jget, jint, jint_or, jitem, jtext, text_of, val, Json,
};
use crate::mechanics::{
    air_altitude_levels, altitude_levels, can_be_targeted, can_observe, elev_at, elevation_of,
    ground, in_sight, is_ground, is_personnel, line_of_sight_alt, observes, personnel, targetable,
    terrain_at, terrain_of, type_key, unit_type_key,
};
use crate::ordmap::views;
use crate::prob::Outcome;
use crate::rng::{dice, die, DrawModel, Rng};
use crate::rules::{table_of, Rules, Tables};
use crate::text::{
    chars_of, dec, dots_at, find_char, find_dots, parse_i64_of, parse_trimmed_i64, parse_unsigned,
    parse_unsigned_of, place_of, str_eq, strip_json, trim, trim_bounds, u64_text, without_json,
};
use crate::types::{
    on_board, Armor, GameMap, RuntimeUnit, SideId, Terrain, UnitState, UnitType, UnitV, WeaponState,
};
use vstd::prelude::*;

verus! {

// ---------- telemetry ----------

/// One recorded direct-fire adjudication.
#[derive(Debug, Clone)]
pub struct OutcomeRecord<S = String> {
    pub table: S,
    pub weapon: S,
    /// The attack level that the result table saw.
    pub attack_level: i64,
    /// The target's armor; "none" for personnel.
    pub armor: S,
    pub distance: i32,
    pub outcome: Outcome,
}

/// A record in contracts.
pub type RecV = OutcomeRecord<Seq<char>>;

impl View for OutcomeRecord {
    type V = RecV;

    open spec fn view(&self) -> RecV {
        OutcomeRecord {
            table: self.table@,
            weapon: self.weapon@,
            attack_level: self.attack_level,
            armor: self.armor@,
            distance: self.distance,
            outcome: self.outcome,
        }
    }
}

/// A log of adjudications for analysis. Its view is every adjudication there has been, recorded or
/// not; what is kept of them is a matter of the log alone and changes no outcome.
pub struct OutcomeLog {
    records: Option<Vec<OutcomeRecord>>,
    history: Ghost<Seq<RecV>>,
    mark: Ghost<nat>,
}

impl View for OutcomeLog {
    type V = Seq<RecV>;

    closed spec fn view(&self) -> Seq<RecV> {
        self.history@
    }
}

impl OutcomeLog {
    #[verifier::type_invariant]
    spec fn faithful(self) -> bool {
        match self.records {
            Some(v) => self.mark@ <= self.history@.len() && views(v@) == self.history@.skip(
                self.mark@ as int,
            ),
            None => true,
        }
    }

    /// Where the recording began in the history, while it is on.
    pub closed spec fn recording_since(&self) -> Option<nat> {
        match self.records {
            Some(_) => Some(self.mark@),
            None => None,
        }
    }

    pub fn new() -> (r: Self)
        ensures
            r@ == Seq::<RecV>::empty(),
            r.recording_since() is None,
    {
        OutcomeLog { records: None, history: Ghost(Seq::empty()), mark: Ghost(0) }
    }
}

/// Starts recording; what was recorded before is dropped.
pub fn outcome_log_enable(log: &mut OutcomeLog)
    ensures
        final(log)@ == old(log)@,
        final(log).recording_since() == Some(old(log)@.len()),
{
    let ghost h = log.history@;
    let none: Vec<OutcomeRecord> = Vec::new();
    proof {
        assert(views(none@) =~= h.skip(h.len() as int));
    }
    *log = OutcomeLog { records: Some(none), history: Ghost(h), mark: Ghost(h.len()) };
}

/// Stops recording; what was recorded is dropped.
pub fn outcome_log_disable(log: &mut OutcomeLog)
    ensures
        final(log)@ == old(log)@,
        final(log).recording_since() is None,
{
    let ghost h = log.history@;
    *log = OutcomeLog { records: None, history: Ghost(h), mark: Ghost(0) };
}

/// Takes out what was recorded and goes on recording; nothing if the recording is off.
pub fn outcome_log_drain(log: &mut OutcomeLog) -> (r: Vec<OutcomeRecord>)
    ensures
        final(log)@ == old(log)@,
        match old(log).recording_since() {
            Some(m) => views(r@) == old(log)@.skip(m as int) && final(log).recording_since() == Some(
                old(log)@.len(),
            ),
            None => r@.len() == 0 && final(log).recording_since() is None,
        },
{
    proof {
        use_type_invariant(&*log);
    }
    let ghost h = log.history@;
    let mut whole: OutcomeLog = OutcomeLog::new();
    core::mem::swap(log, &mut whole);
    match whole.records {
        Some(v) => {
            let none: Vec<OutcomeRecord> = Vec::new();
            proof {
                assert(views(none@) =~= h.skip(h.len() as int));
            }
            *log = OutcomeLog { records: Some(none), history: Ghost(h), mark: Ghost(h.len()) };
            v
        },
        None => {
            *log = OutcomeLog { records: None, history: Ghost(h), mark: Ghost(0) };
            Vec::new()
        },
    }
}

/// The armor's name in records.
pub open spec fn armor_tag(a: Armor) -> Seq<char> {
    match a {
        Armor::Composite => "composite"@,
        Armor::Heavy => "heavy"@,
        Armor::Medium => "medium"@,
        Armor::Light => "light"@,
        Armor::Unarmored => "none"@,
    }
}

/// The armor's name in records.
pub fn armor_label(a: Armor) -> (r: &'static str)
    ensures
        r@ == armor_tag(a),
{
    match a {
        Armor::Composite => "composite",
        Armor::Heavy => "heavy",
        Armor::Medium => "medium",
        Armor::Light => "light",
        Armor::Unarmored => "none",
    }
}

/// The record of an adjudication.
pub open spec fn record_of(
    table: Seq<char>,
    weapon: Seq<char>,
    level: int,
    armor: Armor,
    distance: i32,
    outcome: Outcome,
) -> RecV {
    OutcomeRecord {
        table,
        weapon,
        attack_level: level as i64,
        armor: armor_tag(armor),
        distance,
        outcome,
    }
}

/// Notes an adjudication, and keeps it if the recording is on.
pub fn record_direct(
    log: &mut OutcomeLog,
    table: &str,
    weapon: &str,
    attack_level: i64,
    armor: Armor,
    distance: i32,
    outcome: Outcome,
)
    ensures
        final(log)@ == old(log)@.push(
            record_of(table@, weapon@, attack_level as int, armor, distance, outcome),
        ),
        final(log).recording_since() == old(log).recording_since(),
{
    proof {
        use_type_invariant(&*log);
    }
    let ghost h = log.history@;
    let ghost m = log.mark@;
    let ghost rec = record_of(table@, weapon@, attack_level as int, armor, distance, outcome);
    let mut whole: OutcomeLog = OutcomeLog::new();
    core::mem::swap(log, &mut whole);
    match whole.records {
        Some(v) => {
            let mut v: Vec<OutcomeRecord> = v;
            let ghost was = v@;
            v.push(
                OutcomeRecord {
                    table: table.to_owned(),
                    weapon: weapon.to_owned(),
                    attack_level,
                    armor: armor_label(armor).to_owned(),
                    distance,
                    outcome,
                },
            );
            proof {
                assert(views(v@) =~= views(was).push(rec));
                assert(h.push(rec).skip(m as int) =~= h.skip(m as int).push(rec));
            }
            *log = OutcomeLog { records: Some(v), history: Ghost(h.push(rec)), mark: Ghost(m) };
        },
        None => {
            *log = OutcomeLog { records: None, history: Ghost(h.push(rec)), mark: Ghost(m) };
        },
    }
}

/// The history of a log after an adjudication that may have been noted.
pub open spec fn noted(h: Seq<RecV>, rec: Option<RecV>) -> Seq<RecV> {
    match rec {
        Some(r) => h.push(r),
        None => h,
    }
}

// ---------- conditions of a shot ----------

/// What corrects the loss of a direct shot.
#[derive(Debug, Clone, Copy, PartialEq, Eq, Structural)]
pub struct FireMods {
    pub shooter_suppressed: bool,
    pub shooter_moving: bool,
    /// A tank that fires from a water hex.
    pub shooter_water_tank: bool,
    pub target_terrain: TargetTerrain,
    pub target_cover: bool,
    pub target_moving: bool,
    pub target_stacked: bool,
    pub target_march: bool,
}

/// The shot without any condition.
pub open spec fn plain_mods() -> FireMods {
    FireMods {
        shooter_suppressed: false,
        shooter_moving: false,
        shooter_water_tank: false,
        target_terrain: TargetTerrain::Open,
        target_cover: false,
        target_moving: false,
        target_stacked: false,
        target_march: false,
    }
}

impl Default for FireMods {
    fn default() -> (r: Self)
        ensures
            r == plain_mods(),
    {
        FireMods {
            shooter_suppressed: false,
            shooter_moving: false,
            shooter_water_tank: false,
            target_terrain: TargetTerrain::Open,
            target_cover: false,
            target_moving: false,
            target_stacked: false,
            target_march: false,
        }
    }
}

/// The terrain of a target as the correction tables class it.
#[derive(Debug, Clone, Copy, PartialEq, Eq, Structural)]
pub enum TargetTerrain {
    Open,
    UrbanOrWorks,
    Forest,
    Water,
}

impl Default for TargetTerrain {
    fn default() -> (r: Self)
        ensures
            r == TargetTerrain::Open,
    {
        TargetTerrain::Open
    }
}

// ---------- table readings ----------

/// A distance as an index: nothing is nearer than 0.
pub open spec fn column(distance: int) -> int {
    if distance < 0 {
        0
    } else {
        distance
    }
}

/// The attack level of a weapon against personnel, by the firer's teams and the distance.
pub open spec fn level_vs_personnel(t: Tables, weapon: Seq<char>, squads: u8, distance: int) -> Option<
    i64,
> {
    let rows = jget(
        jget(table_of(t, "attack_level_vs_personnel"@, "weapons"@), weapon),
        "by_squad"@,
    );
    jint(jitem(jget(rows, dec(squads as nat)), column(distance)))
}

/// The attack level of a weapon against a vehicle, by the distance; for a weapon that refers to
/// another table, by the firer's teams too.
pub open spec fn level_vs_vehicle(t: Tables, weapon: Seq<char>, squads: u8, distance: int) -> Option<
    i64,
> {
    let entry = jget(table_of(t, "attack_level_vs_vehicle"@, "weapons"@), weapon);
    match jget(entry, "levels"@) {
        Some(Json::Arr(levels)) => jint(jitem(Some(Json::Arr(levels)), column(distance))),
        _ => match jtext(jget(entry, "ref"@)) {
            Some(name) => jint(
                jitem(
                    jget(table_of(t, without_json(name), "by_squad"@), dec(squads as nat)),
                    column(distance),
                ),
            ),
            None => None,
        },
    }
}

fn index_of_distance(distance: i32) -> (r: usize)
    ensures
        r == column(distance as int),
{
    if distance < 0 {
        0
    } else {
        distance as usize
    }
}

fn attack_level_personnel(tables: &Tables, weapon: &str, squads: u8, distance: i32) -> (r: Option<
    i64,
>)
    ensures
        r == level_vs_personnel(*tables, weapon@, squads, distance as int),
{
    let rows: Option<&Json> = field(
        field(tables.table("attack_level_vs_personnel", "weapons"), weapon),
        "by_squad",
    );
    int_of(item(field(rows, u64_text(squads as u64).as_str()), index_of_distance(distance)))
}

fn attack_level_vehicle(tables: &Tables, weapon: &str, squads: u8, distance: i32) -> (r: Option<i64>)
    ensures
        r == level_vs_vehicle(*tables, weapon@, squads, distance as int),
{
    let entry: Option<&Json> = field(tables.table("attack_level_vs_vehicle", "weapons"), weapon);
    let levels: Option<&Json> = field(entry, "levels");
    match levels {
        Some(Json::Arr(_)) => int_of(item(levels, index_of_distance(distance))),
        _ => match text_of(field(entry, "ref")) {
            Some(name) => {
                let id: String = strip_json(name);
                int_of(
                    item(
                        field(
                            tables.table(id.as_str(), "by_squad"),
                            u64_text(squads as u64).as_str(),
                        ),
                        index_of_distance(distance),
                    ),
                )
            },
            None => None,
        },
    }
}

/// The correction of the attack level by height: the size is in the table, and firing down adds it
/// while firing up takes it away.
pub open spec fn height_correction(t: Tables, height_diff: int, distance: int) -> int {
    let row = jget(table_of(t, "height_diff_correction"@, "rows"@), dec(abs(height_diff) as nat));
    let size = abs(
        jint_or(
            jitem(
                row,
                if distance > 1 {
                    distance - 1
                } else {
                    0
                },
            ),
            0,
        ),
    );
    if height_diff == 0 {
        0
    } else if height_diff > 0 {
        size
    } else {
        -size
    }
}

/// What a difference in height adds to the attack level, above 0 where the shooter stands higher.
pub fn height_diff_correction(tables: &Tables, height_diff: i64, distance: i32) -> (r: i128)
    ensures
        r == height_correction(*tables, height_diff as int, distance as int),
        -0x1_0000_0000_0000_0000 <= r <= 0x1_0000_0000_0000_0000,
{
    if height_diff == 0 {
        return 0;
    }
    let size: u64 = if height_diff < 0 {
        (-(height_diff as i128)) as u64
    } else {
        height_diff as u64
    };
    let row: Option<&Json> = field(
        tables.table("height_diff_correction", "rows"),
        u64_text(size).as_str(),
    );
    let col: usize = if distance > 1 { (distance - 1) as usize } else { 0 };
    let n: i128 = int_or(item(row, col), 0) as i128;
    let m: i128 = if n < 0 { -n } else { n };
    if height_diff > 0 {
        m
    } else {
        -m
    }
}

/// The first of `cells` that is the number `x`.
pub open spec fn place_of_int(cells: Seq<Json>, x: int, i: int) -> Option<int>
    decreases cells.len() - i,
{
    if i < 0 || i >= cells.len() {
        None
    } else if jint(Some(cells[i])) is Some && jint(Some(cells[i]))->0 == x {
        Some(i)
    } else {
        place_of_int(cells, x, i + 1)
    }
}

/// The corrected attack level of a firer with so many vehicles: the place, counted from 1, at which
/// the raw level stands in the row of that number.
pub open spec fn corrected_level(t: Tables, vehicles: u8, level: int) -> Option<int> {
    if level < 1 {
        None
    } else {
        match jget(jget(table_of(t, "result_vs_vehicle"@, "data"@), "stage1"@), dec(vehicles as nat)) {
            Some(Json::Arr(cells)) => match place_of_int(cells@, level, 0) {
                Some(i) => Some(i + 1),
                None => None,
            },
            _ => None,
        }
    }
}

fn stage1_corrected(tables: &Tables, vehicles: u8, level: i128) -> (r: Option<u64>)
    ensures
        match r {
            Some(n) => corrected_level(*tables, vehicles, level as int) == Some(n as int) && n >= 1,
            None => corrected_level(*tables, vehicles, level as int) is None,
        },
{
    if level < 1 {
        return None;
    }
    let row: Option<&Json> = field(
        field(tables.table("result_vs_vehicle", "data"), "stage1"),
        u64_text(vehicles as u64).as_str(),
    );
    match row {
        Some(Json::Arr(cells)) => {
            let mut i: usize = 0;
            while i < cells.len()
                invariant
                    i <= cells@.len(),
                    val(row) == Some(Json::Arr(*cells)),
                    level >= 1,
                    val(row) == jget(
                        jget(table_of(*tables, "result_vs_vehicle"@, "data"@), "stage1"@),
                        dec(vehicles as nat),
                    ),
                    place_of_int(cells@, level as int, 0) == place_of_int(
                        cells@,
                        level as int,
                        i as int,
                    ),
                decreases cells@.len() - i,
            {
                match cells[i].as_i64() {
                    Some(n) => {
                        if n as i128 == level {
                            return Some(i as u64 + 1);
                        }
                    },
                    None => {},
                }
                i += 1;
            }
            None
        },
        _ => None,
    }
}

/// The base loss of a vehicle target for a roll and a corrected level.
pub open spec fn base_loss(t: Tables, roll: int, level: int) -> int {
    if level < 1 {
        0
    } else {
        jint_or(
            jitem(
                jget(
                    jget(table_of(t, "result_vs_vehicle"@, "data"@), "stage2"@),
                    dec(roll as nat),
                ),
                level - 1,
            ),
            0,
        )
    }
}

fn stage2_base_loss(tables: &Tables, roll: u32, level: u64) -> (r: i64)
    ensures
        r == base_loss(*tables, roll as int, level as int),
{
    if level < 1 {
        return 0;
    }
    let row: Option<&Json> = field(
        field(tables.table("result_vs_vehicle", "data"), "stage2"),
        u64_text(roll as u64).as_str(),
    );
    match row {
        Some(Json::Arr(cells)) => if level - 1 < cells.len() as u64 {
            int_or(item(row, (level - 1) as usize), 0)
        } else {
            0
        },
        _ => 0,
    }
}

/// A cell of the result table against personnel.
#[derive(Debug, Clone, Copy, PartialEq, Eq, Structural)]
pub enum PersonnelCell {
    Loss(i64),
    Suppress,
    Miss,
}

/// The cell for a roll and a level.
pub open spec fn personnel_cell(t: Tables, roll: int, level: int) -> PersonnelCell {
    let cell = jitem(
        jget(table_of(t, "result_vs_personnel"@, "rows"@), dec(roll as nat)),
        level - 1,
    );
    if level < 1 {
        PersonnelCell::Miss
    } else if jtext(cell) == Some("压"@) {
        PersonnelCell::Suppress
    } else {
        match jint(cell) {
            Some(n) => if n > 0 {
                PersonnelCell::Loss(n)
            } else {
                PersonnelCell::Miss
            },
            None => PersonnelCell::Miss,
        }
    }
}

fn personnel_result(tables: &Tables, roll: u32, level: i64) -> (r: PersonnelCell)
    ensures
        r == personnel_cell(*tables, roll as int, level as int),
{
    if level < 1 {
        return PersonnelCell::Miss;
    }
    let row: Option<&Json> = field(
        tables.table("result_vs_personnel", "rows"),
        u64_text(roll as u64).as_str(),
    );
    let cell: Option<&Json> = match row {
        Some(Json::Arr(cells)) => if ((level - 1) as u64) < cells.len() as u64 {
            item(row, (level - 1) as usize)
        } else {
            None
        },
        _ => None,
    };
    if is_text(cell, "压") {
        return PersonnelCell::Suppress;
    }
    match int_of(cell) {
        Some(n) => if n > 0 {
            PersonnelCell::Loss(n)
        } else {
            PersonnelCell::Miss
        },
        None => PersonnelCell::Miss,
    }
}

// ---------- corrections of the loss ----------

/// An entry of a block of additive corrections, where its condition holds.
#[verifier::opaque]
pub open spec fn addend(block: Option<Json>, holds: bool, section: Seq<char>, key: Seq<char>) -> int {
    if holds {
        jint_or(jget(jget(block, section), key), 0)
    } else {
        0
    }
}

fn addend_of(block: Option<&Json>, holds: bool, section: &str, key: &str) -> (r: i128)
    ensures
        r == addend(val(block), holds, section@, key@),
        i64::MIN <= r <= i64::MAX,
{
    proof {
        reveal(addend);
    }
    if holds {
        int_or(field(field(block, section), key), 0) as i128
    } else {
        0
    }
}

/// The table's name for a terrain.
pub open spec fn terrain_row(terrain: TargetTerrain, vehicle: bool) -> Seq<char> {
    match terrain {
        TargetTerrain::Open => ""@,
        TargetTerrain::UrbanOrWorks => if vehicle {
            "居民地/工事"@
        } else {
            "居民地"@
        },
        TargetTerrain::Forest => "丛林地"@,
        TargetTerrain::Water => "水上"@,
    }
}

/// The sum of the corrections that apply to a shot.
pub open spec fn additive(t: Tables, loss_table: Seq<char>, m: FireMods, vehicle: bool) -> int {
    let block = table_of(t, loss_table, "additive_random"@);
    addend(block, m.shooter_suppressed, "shooter"@, "被压制"@) + addend(
        block,
        m.shooter_moving,
        "shooter"@,
        "机动中"@,
    ) + addend(block, vehicle && m.shooter_water_tank, "shooter"@, "水上坦克"@) + addend(
        block,
        m.target_terrain != TargetTerrain::Open,
        "target_terrain"@,
        terrain_row(m.target_terrain, vehicle),
    ) + addend(block, m.target_cover, "target_state"@, "掩蔽中"@) + addend(
        block,
        m.target_moving,
        "target_state"@,
        "机动中"@,
    ) + addend(block, m.target_stacked, "target_state"@, "堆叠中"@) + addend(
        block,
        m.target_march,
        "target_state"@,
        "行军中"@,
    )
}

fn additive_sum(tables: &Tables, loss_table: &str, mods: FireMods, vehicle: bool) -> (r: i128)
    ensures
        r == additive(*tables, loss_table@, mods, vehicle),
        -0x10_0000_0000_0000_0000 <= r <= 0x10_0000_0000_0000_0000,
{
    let block: Option<&Json> = tables.table(loss_table, "additive_random");
    let terrain: &str = match mods.target_terrain {
        TargetTerrain::Open => "",
        TargetTerrain::UrbanOrWorks => if vehicle {
            "居民地/工事"
        } else {
            "居民地"
        },
        TargetTerrain::Forest => "丛林地",
        TargetTerrain::Water => "水上",
    };
    let mut s: i128 = addend_of(block, mods.shooter_suppressed, "shooter", "被压制");
    s = s + addend_of(block, mods.shooter_moving, "shooter", "机动中");
    s = s + addend_of(block, vehicle && mods.shooter_water_tank, "shooter", "水上坦克");
    s = s + addend_of(
        block,
        mods.target_terrain != TargetTerrain::Open,
        "target_terrain",
        terrain,
    );
    s = s + addend_of(block, mods.target_cover, "target_state", "掩蔽中");
    s = s + addend_of(block, mods.target_moving, "target_state", "机动中");
    s = s + addend_of(block, mods.target_stacked, "target_state", "堆叠中");
    s = s + addend_of(block, mods.target_march, "target_state", "行军中");
    s
}

/// The number that a piece of a range key stands for.
pub open spec fn bound(s: Seq<char>) -> Option<int> {
    parse_i64_of(trim(s))
}

/// Whether a range key such as `<=-3`, `-2..-1`, `0` or `>=12` holds `v`.
pub open spec fn in_bucket(key: Seq<char>, v: int) -> bool {
    let n = key.len() as int;
    let tail = key.subrange(2, n);
    let d = dots_at(key, 0);
    if n >= 2 && key[0] == '<' && key[1] == '=' && bound(tail) is Some {
        v <= bound(tail)->0
    } else if n >= 2 && key[0] == '>' && key[1] == '=' && bound(tail) is Some {
        v >= bound(tail)->0
    } else if d < n && bound(key.subrange(0, d)) is Some && bound(key.subrange(d + 2, n)) is Some {
        bound(key.subrange(0, d))->0 <= v <= bound(key.subrange(d + 2, n))->0
    } else {
        bound(key) == Some(v)
    }
}

/// Whether a range key holds `v`.
pub fn bucket_contains(key: &str, v: i128) -> (r: bool)
    ensures
        r == in_bucket(key@, v as int),
{
    let cs: Vec<char> = chars_of(key);
    let n: usize = cs.len();
    if n >= 2 && cs[0] == '<' && cs[1] == '=' {
        match parse_trimmed_i64(&cs, 2, n) {
            Some(b) => return v <= b as i128,
            None => {},
        }
    }
    if n >= 2 && cs[0] == '>' && cs[1] == '=' {
        match parse_trimmed_i64(&cs, 2, n) {
            Some(b) => return v >= b as i128,
            None => {},
        }
    }
    let d: usize = find_dots(&cs);
    if d < n {
        match (parse_trimmed_i64(&cs, 0, d), parse_trimmed_i64(&cs, d + 2, n)) {
            (Some(lo), Some(hi)) => return v >= lo as i128 && v <= hi as i128,
            _ => {},
        }
    }
    proof {
        assert(cs@.subrange(0, n as int) =~= key@);
    }
    match parse_trimmed_i64(&cs, 0, n) {
        Some(b) => b as i128 == v,
        None => false,
    }
}

/// The value of the first range key that holds `v`.
pub open spec fn bucket_value(rows: Seq<(String, Json)>, v: int) -> Option<Json>
    decreases rows.len(),
{
    if rows.len() == 0 {
        None
    } else if in_bucket(rows[0].0@, v) {
        Some(rows[0].1)
    } else {
        bucket_value(rows.drop_first(), v)
    }
}

/// The correction of a loss table for a modified roll.
pub open spec fn modified_cell(t: Tables, loss_table: Seq<char>, v: int) -> Option<Json> {
    match table_of(t, loss_table, "by_modified_random"@) {
        Some(Json::Obj(rows)) => bucket_value(rows@, v),
        _ => None,
    }
}

fn by_modified_random<'a>(tables: &'a Tables, loss_table: &str, modified: i128) -> (r: Option<
    &'a Json,
>)
    ensures
        val(r) == modified_cell(*tables, loss_table@, modified as int),
{
    match tables.table(loss_table, "by_modified_random") {
        Some(Json::Obj(rows)) => {
            let mut i: usize = 0;
            proof {
                assert(rows@.skip(0) =~= rows@);
            }
            while i < rows.len()
                invariant
                    i <= rows@.len(),
                    table_of(*tables, loss_table@, "by_modified_random"@) == Some(Json::Obj(*rows)),
                    bucket_value(rows@, modified as int) == bucket_value(
                        rows@.skip(i as int),
                        modified as int,
                    ),
                decreases rows@.len() - i,
            {
                let ghost rest = rows@.skip(i as int);
                assert(rest[0] == rows@[i as int]);
                assert(rest.drop_first() =~= rows@.skip(i + 1));
                if bucket_contains(rows[i].0.as_str(), modified) {
                    return Some(&rows[i].1);
                }
                i += 1;
            }
            None
        },
        _ => None,
    }
}

/// The tables' name for an armor.
pub open spec fn armor_row(a: Armor) -> Seq<char> {
    match a {
        Armor::Composite => "复合装甲"@,
        Armor::Heavy => "重型装甲"@,
        Armor::Medium => "中型装甲"@,
        Armor::Light => "轻型装甲"@,
        Armor::Unarmored => "无装甲"@,
    }
}

/// The tables' name for an armor.
pub fn armor_key(a: Armor) -> (r: &'static str)
    ensures
        r@ == armor_row(a),
{
    match a {
        Armor::Composite => "复合装甲",
        Armor::Heavy => "重型装甲",
        Armor::Medium => "中型装甲",
        Armor::Light => "轻型装甲",
        Armor::Unarmored => "无装甲",
    }
}

/// The first of `cells` that is the text `s`.
pub open spec fn place_of_text(cells: Seq<Json>, s: Seq<char>, i: int) -> Option<int>
    decreases cells.len() - i,
{
    if i < 0 || i >= cells.len() {
        None
    } else if jtext(Some(cells[i])) == Some(s) {
        Some(i)
    } else {
        place_of_text(cells, s, i + 1)
    }
}

/// The correction of a vehicle's loss by its armor, for a modified roll.
pub open spec fn armor_correction(t: Tables, modified: int, armor: Armor) -> int {
    match table_of(t, "vehicle_loss_correction"@, "armor_order"@) {
        Some(Json::Arr(order)) => match place_of_text(order@, armor_row(armor), 0) {
            Some(col) => jint_or(
                jitem(modified_cell(t, "vehicle_loss_correction"@, modified), col),
                0,
            ),
            None => 0,
        },
        _ => 0,
    }
}

fn find_text(cells: &Vec<Json>, s: &str) -> (r: Option<usize>)
    ensures
        match r {
            Some(i) => place_of_text(cells@, s@, 0) == Some(i as int),
            None => place_of_text(cells@, s@, 0) is None,
        },
{
    let mut i: usize = 0;
    while i < cells.len()
        invariant
            i <= cells@.len(),
            place_of_text(cells@, s@, 0) == place_of_text(cells@, s@, i as int),
        decreases cells@.len() - i,
    {
        if is_text(Some(&cells[i]), s) {
            return Some(i);
        }
        i += 1;
    }
    None
}

fn vehicle_armor_adjust(tables: &Tables, modified: i128, armor: Armor) -> (r: i64)
    ensures
        r == armor_correction(*tables, modified as int, armor),
{
    match tables.table("vehicle_loss_correction", "armor_order") {
        Some(Json::Arr(order)) => match find_text(order, armor_key(armor)) {
            Some(col) => int_or(
                item(by_modified_random(tables, "vehicle_loss_correction", modified), col),
                0,
            ),
            None => 0,
        },
        _ => 0,
    }
}

// ---------- direct fire ----------

/// A number of losses as a byte; it keeps the low byte.
pub open spec fn losses(n: int) -> Outcome {
    Outcome::Destroyed((n % 256) as u8)
}

/// The outcome of a shot at personnel, by the cell and its correction: a loss that is corrected
/// away still suppresses, and a favourable correction turns suppression into losses.
pub open spec fn personnel_outcome(cell: PersonnelCell, corr: int) -> Outcome {
    match cell {
        PersonnelCell::Loss(n) => if n + corr > 0 {
            losses(n + corr)
        } else {
            Outcome::Suppress
        },
        PersonnelCell::Suppress => if corr >= 1 {
            losses(corr)
        } else {
            Outcome::Suppress
        },
        PersonnelCell::Miss => Outcome::NoEffect,
    }
}

/// What a shot at personnel comes to for a roll of two dice and a die for the correction: the
/// attack level and the outcome; nothing if the weapon has no attack level.
pub open spec fn personnel_verdict(
    t: Tables,
    weapon: Seq<char>,
    squads: u8,
    distance: i32,
    mods: FireMods,
    roll: int,
    d: int,
) -> Option<(i64, Outcome)> {
    match level_vs_personnel(t, weapon, squads, distance as int) {
        None => None,
        Some(level) => {
            let modified = d + additive(t, "personnel_loss_correction"@, mods, false);
            let corr = jint_or(modified_cell(t, "personnel_loss_correction"@, modified), 0);
            Some((level, personnel_outcome(personnel_cell(t, roll, level as int), corr)))
        },
    }
}

/// A direct shot at personnel: three dice are drawn whatever comes of them. The result is the
/// outcome, the record of the adjudication if the weapon has an attack level, and the generator.
pub open spec fn personnel_shot<R: DrawModel>(
    t: Tables,
    s: R::V,
    weapon: Seq<char>,
    squads: u8,
    distance: i32,
    mods: FireMods,
) -> (Outcome, Option<RecV>, R::V) {
    let roll = dice::<R>(s, 2);
    let d = die::<R>(roll.1);
    match personnel_verdict(t, weapon, squads, distance, mods, roll.0, d.0) {
        None => (Outcome::NoEffect, None, d.1),
        Some((level, outcome)) => (
            outcome,
            Some(
                record_of(
                    "direct_vs_personnel"@,
                    weapon,
                    level as int,
                    Armor::Unarmored,
                    distance,
                    outcome,
                ),
            ),
            d.1,
        ),
    }
}

fn loss_byte(n: i128) -> (r: Outcome)
    requires
        n > 0,
    ensures
        r == losses(n as int),
{
    Outcome::Destroyed((n % 256) as u8)
}

/// The sum of two dice as a number in `2..=12`.
fn two_dice<R: Rng>(rng: &mut R) -> (r: u32)
    ensures
        (r as int, final(rng)@) == dice::<R>(old(rng)@, 2),
        2 <= r <= 12,
{
    let ghost s = rng@;
    let a: u32 = rng.d6();
    let b: u32 = rng.d6();
    proof {
        reveal_with_fuel(dice, 3);
    }
    a + b
}

/// What a shot at personnel comes to for a roll of two dice and a die for the correction.
pub fn adjudicate_vs_personnel(
    tables: &Tables,
    weapon: &str,
    squads: u8,
    distance: i32,
    mods: FireMods,
    roll: u32,
    d: u32,
) -> (r: Option<(i64, Outcome)>)
    ensures
        r == personnel_verdict(*tables, weapon@, squads, distance, mods, roll as int, d as int),
{
    let level: i64 = match attack_level_personnel(tables, weapon, squads, distance) {
        Some(l) => l,
        None => return None,
    };
    let cell: PersonnelCell = personnel_result(tables, roll, level);
    let modified: i128 = d as i128 + additive_sum(tables, "personnel_loss_correction", mods, false);
    let corr: i128 = int_or(by_modified_random(tables, "personnel_loss_correction", modified), 0) as i128;
    let outcome: Outcome = match cell {
        PersonnelCell::Loss(n) => if n as i128 + corr > 0 {
            loss_byte(n as i128 + corr)
        } else {
            Outcome::Suppress
        },
        PersonnelCell::Suppress => if corr >= 1 {
            loss_byte(corr)
        } else {
            Outcome::Suppress
        },
        PersonnelCell::Miss => Outcome::NoEffect,
    };
    Some((level, outcome))
}

/// Resolves a direct shot at personnel.
pub fn resolve_direct_vs_personnel<R: Rng>(
    tables: &Tables,
    rng: &mut R,
    log: &mut OutcomeLog,
    weapon: &str,
    squads: u8,
    distance: i32,
    mods: FireMods,
) -> (r: Outcome)
    ensures
        ({
            let shot = personnel_shot::<R>(*tables, old(rng)@, weapon@, squads, distance, mods);
            &&& r == shot.0
            &&& final(log)@ == noted(old(log)@, shot.1)
            &&& final(rng)@ == shot.2
        }),
        final(log).recording_since() == old(log).recording_since(),
{
    let roll: u32 = two_dice(rng);
    let d: u32 = rng.d6();
    match adjudicate_vs_personnel(tables, weapon, squads, distance, mods, roll, d) {
        None => Outcome::NoEffect,
        Some((level, outcome)) => {
            record_direct(
                log,
                "direct_vs_personnel",
                weapon,
                level,
                Armor::Unarmored,
                distance,
                outcome,
            );
            outcome
        },
    }
}

/// A direct shot at a vehicle.
#[derive(Debug, Clone, Copy)]
pub struct VehicleShot<'a> {
    pub weapon: &'a str,
    pub vehicles: u8,
    pub distance: i32,
    /// Positive if the firer is higher than the target.
    pub height_diff: i64,
    pub armor: Armor,
    pub mods: FireMods,
}

/// The outcome of a shot at a vehicle: at most five losses; a loss that the armor takes away still
/// suppresses.
pub open spec fn vehicle_outcome(loss: int, armor_adj: int) -> Outcome {
    let dmg = loss + armor_adj;
    if dmg > 5 {
        Outcome::Destroyed(5)
    } else if dmg > 0 {
        Outcome::Destroyed(dmg as u8)
    } else if loss > 0 {
        Outcome::Suppress
    } else {
        Outcome::NoEffect
    }
}

/// What a shot at a vehicle comes to for a roll of two dice: the corrected attack level and the
/// outcome; nothing if there is no such level.
pub open spec fn vehicle_verdict(
    t: Tables,
    weapon: Seq<char>,
    vehicles: u8,
    distance: i32,
    height_diff: int,
    armor: Armor,
    mods: FireMods,
    roll: int,
) -> Option<(int, Outcome)> {
    match level_vs_vehicle(t, weapon, vehicles, distance as int) {
        None => None,
        Some(base) => match corrected_level(
            t,
            vehicles,
            base + height_correction(t, height_diff, distance as int),
        ) {
            None => None,
            Some(level) => {
                let modified = roll + additive(t, "vehicle_loss_correction"@, mods, true);
                Some(
                    (
                        level,
                        vehicle_outcome(
                            base_loss(t, roll, level),
                            armor_correction(t, modified, armor),
                        ),
                    ),
                )
            },
        },
    }
}

/// A direct shot at a vehicle: two dice are drawn whatever comes of them. The result is the
/// outcome, the record of the adjudication if there was one, and the generator.
pub open spec fn vehicle_shot<R: DrawModel>(
    t: Tables,
    s: R::V,
    weapon: Seq<char>,
    vehicles: u8,
    distance: i32,
    height_diff: int,
    armor: Armor,
    mods: FireMods,
) -> (Outcome, Option<RecV>, R::V) {
    let roll = dice::<R>(s, 2);
    match vehicle_verdict(t, weapon, vehicles, distance, height_diff, armor, mods, roll.0) {
        None => (Outcome::NoEffect, None, roll.1),
        Some((level, outcome)) => (
            outcome,
            Some(record_of("direct_vs_vehicle"@, weapon, level, armor, distance, outcome)),
            roll.1,
        ),
    }
}

/// What a shot at a vehicle comes to for a roll of two dice.
pub fn adjudicate_vs_vehicle(tables: &Tables, shot: &VehicleShot, roll: u32) -> (r: Option<
    (u64, Outcome),
>)
    ensures
        ({
            let v = vehicle_verdict(
                *tables,
                shot.weapon@,
                shot.vehicles,
                shot.distance,
                shot.height_diff as int,
                shot.armor,
                shot.mods,
                roll as int,
            );
            match r {
                Some((level, outcome)) => v == Some((level as int, outcome)),
                None => v is None,
            }
        }),
{
    let base: i64 = match attack_level_vehicle(tables, shot.weapon, shot.vehicles, shot.distance) {
        Some(l) => l,
        None => return None,
    };
    let raw: i128 = base as i128 + height_diff_correction(tables, shot.height_diff, shot.distance);
    let level: u64 = match stage1_corrected(tables, shot.vehicles, raw) {
        Some(l) => l,
        None => return None,
    };
    let loss: i64 = stage2_base_loss(tables, roll, level);
    let modified: i128 = roll as i128 + additive_sum(
        tables,
        "vehicle_loss_correction",
        shot.mods,
        true,
    );
    let adj: i64 = vehicle_armor_adjust(tables, modified, shot.armor);
    let dmg: i128 = loss as i128 + adj as i128;
    let outcome: Outcome = if dmg > 5 {
        Outcome::Destroyed(5)
    } else if dmg > 0 {
        Outcome::Destroyed(dmg as u8)
    } else if loss > 0 {
        Outcome::Suppress
    } else {
        Outcome::NoEffect
    };
    Some((level, outcome))
}

/// Resolves a direct shot at a vehicle.
pub fn resolve_direct_vs_vehicle<R: Rng>(
    tables: &Tables,
    rng: &mut R,
    log: &mut OutcomeLog,
    shot: &VehicleShot,
) -> (r: Outcome)
    ensures
        ({
            let v = vehicle_shot::<R>(
                *tables,
                old(rng)@,
                shot.weapon@,
                shot.vehicles,
                shot.distance,
                shot.height_diff as int,
                shot.armor,
                shot.mods,
            );
            &&& r == v.0
            &&& final(log)@ == noted(old(log)@, v.1)
            &&& final(rng)@ == v.2
        }),
        final(log).recording_since() == old(log).recording_since(),
{
    let roll: u32 = two_dice(rng);
    match adjudicate_vs_vehicle(tables, shot, roll) {
        None => Outcome::NoEffect,
        Some((level, outcome)) => {
            record_direct(
                log,
                "direct_vs_vehicle",
                shot.weapon,
                level as i64,
                shot.armor,
                shot.distance,
                outcome,
            );
            outcome
        },
    }
}

// ---------- indirect fire ----------

/// How well a friendly spotter sees the hex that artillery fires at.
#[derive(Debug, Clone, Copy, PartialEq, Eq, Structural)]
pub enum IndirectSpotting {
    /// Nobody sees the hex.
    Unspotted,
    /// Somebody sees the hex but not the target in it.
    InHex,
    /// Somebody sees the target.
    Target,
}

#[derive(Debug, Clone, Copy, PartialEq, Eq, Structural)]
pub enum GunClass {
    Light,
    Medium,
    Heavy,
}

/// Where a salvo lands.
#[derive(Debug, Clone, Copy, PartialEq, Eq, Structural)]
pub enum Scatter {
    /// In the hex and on the target.
    Hit,
    /// In the hex but not on the target.
    InHex,
    /// So many hexes off.
    Hexes(u32),
}

/// The result of a salvo before each target's correction.
#[derive(Debug, Clone, Copy, PartialEq, Eq, Structural)]
pub enum IndirectBase {
    Loss(i64),
    Suppress,
    NoEffect,
}

/// What corrects a salvo's result for one target.
#[derive(Debug, Clone, Copy, PartialEq, Eq, Structural)]
pub struct IndirectMods {
    pub target_terrain: TargetTerrain,
    pub target_cover: bool,
    pub target_moving_personnel: bool,
    pub target_stacked: bool,
    pub target_march: bool,
    pub armor: Armor,
    pub gun_count: u8,
}

/// A salvo against one target.
#[derive(Debug, Clone, Copy, PartialEq, Eq, Structural)]
pub struct IndirectShot {
    pub scatter: Scatter,
    pub outcome: Outcome,
}

/// The column of a gun class.
pub open spec fn gun_column(g: GunClass) -> int {
    match g {
        GunClass::Light => 0,
        GunClass::Medium => 1,
        GunClass::Heavy => 2,
    }
}

/// The column of a gun class.
pub fn gun_class_col(g: GunClass) -> (r: usize)
    ensures
        r == gun_column(g),
{
    match g {
        GunClass::Light => 0,
        GunClass::Medium => 1,
        GunClass::Heavy => 2,
    }
}

/// Whether a distance key such as `21+` or `0-10` holds `dist`. A key with a plus and a number is
/// read as that, any other key with a dash as a range.
pub open spec fn in_distance_key(key: Seq<char>, dist: int) -> bool {
    let n = key.len() as int;
    let from = bound(key.subrange(0, n - 1));
    let d = place_of(key, '-', 0);
    if n > 0 && key[n - 1] == '+' && from is Some {
        dist >= from->0
    } else {
        d < n && bound(key.subrange(0, d)) is Some && bound(key.subrange(d + 1, n)) is Some && bound(
            key.subrange(0, d),
        )->0 <= dist <= bound(key.subrange(d + 1, n))->0
    }
}

fn distance_key_holds(key: &str, dist: i64) -> (r: bool)
    ensures
        r == in_distance_key(key@, dist as int),
{
    let cs: Vec<char> = chars_of(key);
    let n: usize = cs.len();
    if n > 0 && cs[n - 1] == '+' {
        match parse_trimmed_i64(&cs, 0, n - 1) {
            Some(lo) => return dist >= lo,
            None => {},
        }
    }
    let d: usize = find_char(&cs, '-');
    if d < n {
        match (parse_trimmed_i64(&cs, 0, d), parse_trimmed_i64(&cs, d + 1, n)) {
            (Some(lo), Some(hi)) => return dist >= lo && dist <= hi,
            _ => {},
        }
    }
    false
}

/// The first key from `i` on that holds `dist`; the last one if none does.
pub open spec fn distance_column(keys: Seq<Json>, dist: int, i: int) -> int
    decreases keys.len() - i,
{
    if i < 0 || i >= keys.len() {
        if keys.len() == 0 {
            0
        } else {
            keys.len() - 1
        }
    } else {
        match jtext(Some(keys[i])) {
            Some(key) => if in_distance_key(key, dist) {
                i
            } else {
                distance_column(keys, dist, i + 1)
            },
            None => distance_column(keys, dist, i + 1),
        }
    }
}

/// The column of the scatter table for a distance.
pub open spec fn scatter_column(t: Tables, dist: int) -> int {
    match table_of(t, "indirect_scatter"@, "distance_buckets"@) {
        Some(Json::Arr(keys)) => distance_column(keys@, dist, 0),
        _ => 0,
    }
}

fn indirect_distance_bucket(tables: &Tables, dist: i64) -> (r: usize)
    ensures
        r == scatter_column(*tables, dist as int),
{
    match tables.table("indirect_scatter", "distance_buckets") {
        Some(Json::Arr(keys)) => {
            let mut i: usize = 0;
            while i < keys.len()
                invariant
                    i <= keys@.len(),
                    table_of(*tables, "indirect_scatter"@, "distance_buckets"@) == Some(
                        Json::Arr(*keys),
                    ),
                    distance_column(keys@, dist as int, 0) == distance_column(
                        keys@,
                        dist as int,
                        i as int,
                    ),
                decreases keys@.len() - i,
            {
                match keys[i].as_str() {
                    Some(key) => {
                        if distance_key_holds(key, dist) {
                            return i;
                        }
                    },
                    None => {},
                }
                i += 1;
            }
            if keys.len() == 0 {
                0
            } else {
                keys.len() - 1
            }
        },
        _ => 0,
    }
}

/// The scatter that a cell names. An unknown cell scatters within the hex.
pub open spec fn scatter_named(s: Seq<char>) -> Scatter {
    let n = s.len() as int;
    if s == "命中"@ {
        Scatter::Hit
    } else if s == "散布"@ {
        Scatter::InHex
    } else if n >= 3 && s[0] == '散' && s[1] == '布' && s[n - 1] == '格' {
        match parse_unsigned_of(trim(s.subrange(2, n - 1)), u32::MAX as int) {
            Some(k) => Scatter::Hexes(k as u32),
            None => Scatter::InHex,
        }
    } else {
        Scatter::InHex
    }
}

/// Reads a cell of the scatter table.
pub fn parse_scatter(s: &str) -> (r: Scatter)
    ensures
        r == scatter_named(s@),
{
    if str_eq(s, "命中") {
        return Scatter::Hit;
    }
    if str_eq(s, "散布") {
        return Scatter::InHex;
    }
    let cs: Vec<char> = chars_of(s);
    let n: usize = cs.len();
    if n >= 3 && cs[0] == '散' && cs[1] == '布' && cs[n - 1] == '格' {
        let (a, b) = trim_bounds(&cs, 2, n - 1);
        match parse_unsigned(&cs, a, b, u32::MAX) {
            Some(k) => return Scatter::Hexes(k),
            None => {},
        }
    }
    Scatter::InHex
}

/// The section of the scatter table for a spotting.
pub open spec fn scatter_section(spotting: IndirectSpotting) -> Seq<char> {
    match spotting {
        IndirectSpotting::Unspotted => "no_spotting"@,
        IndirectSpotting::InHex => "in_hex_spotting"@,
        IndirectSpotting::Target => "target_spotting_single"@,
    }
}

/// Where a salvo lands, by the spotting, the distance and a roll.
pub open spec fn scatter_of(t: Tables, spotting: IndirectSpotting, dist: int, roll: int) -> Scatter {
    let cell = jget(
        table_of(t, "indirect_scatter"@, scatter_section(spotting)),
        dec(roll as nat),
    );
    let text = match cell {
        Some(Json::Arr(_)) => jtext(jitem(cell, scatter_column(t, dist))),
        _ => jtext(cell),
    };
    match (cell, text) {
        (Some(_), Some(s)) => scatter_named(s),
        (Some(_), None) => scatter_named("散布"@),
        (None, _) => Scatter::InHex,
    }
}

/// Where a salvo lands for a roll.
pub fn resolve_scatter(tables: &Tables, spotting: IndirectSpotting, dist: i64, roll: u32) -> (r: Scatter)
    ensures
        r == scatter_of(*tables, spotting, dist as int, roll as int),
{
    let section: &str = match spotting {
        IndirectSpotting::Unspotted => "no_spotting",
        IndirectSpotting::InHex => "in_hex_spotting",
        IndirectSpotting::Target => "target_spotting_single",
    };
    let cell: Option<&Json> = field(
        tables.table("indirect_scatter", section),
        u64_text(roll as u64).as_str(),
    );
    match cell {
        None => Scatter::InHex,
        Some(c) => {
            let text: Option<&str> = match c {
                Json::Arr(_) => text_of(item(cell, indirect_distance_bucket(tables, dist))),
                _ => c.as_str(),
            };
            match text {
                Some(s) => parse_scatter(s),
                None => parse_scatter("散布"),
            }
        },
    }
}

/// The base result of a salvo, by whether it hits, the guns and a roll.
pub open spec fn salvo_base(t: Tables, hit: bool, gun: GunClass, roll: int) -> IndirectBase {
    let cell = jitem(
        jget(
            table_of(
                t,
                "indirect_result"@,
                if hit {
                    "hit"@
                } else {
                    "miss"@
                },
            ),
            dec(roll as nat),
        ),
        gun_column(gun),
    );
    if jtext(cell) == Some("压制"@) {
        IndirectBase::Suppress
    } else {
        match jint(cell) {
            Some(n) => if n > 0 {
                IndirectBase::Loss(n)
            } else {
                IndirectBase::NoEffect
            },
            None => IndirectBase::NoEffect,
        }
    }
}

/// The result of a salvo for a roll, before each target's correction.
pub fn indirect_raw_result(tables: &Tables, hit: bool, gun: GunClass, roll: u32) -> (r: IndirectBase)
    ensures
        r == salvo_base(*tables, hit, gun, roll as int),
{
    let section: &str = if hit { "hit" } else { "miss" };
    let cell: Option<&Json> = item(
        field(tables.table("indirect_result", section), u64_text(roll as u64).as_str()),
        gun_class_col(gun),
    );
    if is_text(cell, "压制") {
        return IndirectBase::Suppress;
    }
    match int_of(cell) {
        Some(n) => if n > 0 {
            IndirectBase::Loss(n)
        } else {
            IndirectBase::NoEffect
        },
        None => IndirectBase::NoEffect,
    }
}

/// The number of guns as the table counts it: one to four.
pub open spec fn gun_row(n: u8) -> nat {
    if n < 1 {
        1
    } else if n > 4 {
        4
    } else {
        n as nat
    }
}

/// The sum of the corrections that apply to one target of a salvo.
pub open spec fn salvo_additive(t: Tables, m: IndirectMods) -> int {
    let block = table_of(t, "indirect_correction"@, "additive_random"@);
    addend(block, m.target_terrain == TargetTerrain::UrbanOrWorks, "target_terrain"@, "居民地"@)
        + addend(block, m.target_terrain == TargetTerrain::Forest, "target_terrain"@, "丛林地"@)
        + addend(block, m.target_cover, "target_state"@, "掩蔽中"@) + addend(
        block,
        m.target_moving_personnel,
        "target_state"@,
        "机动中_人员"@,
    ) + addend(block, m.target_stacked, "target_state"@, "堆叠"@) + addend(
        block,
        m.target_march,
        "target_state"@,
        "行军"@,
    ) + addend(block, true, "armor"@, armor_row(m.armor)) + addend(
        block,
        true,
        "gun_count"@,
        dec(gun_row(m.gun_count)),
    )
}

fn indirect_additive(tables: &Tables, mods: &IndirectMods) -> (r: i128)
    ensures
        r == salvo_additive(*tables, *mods),
        -0x10_0000_0000_0000_0000 <= r <= 0x10_0000_0000_0000_0000,
{
    let block: Option<&Json> = tables.table("indirect_correction", "additive_random");
    let guns: u8 = if mods.gun_count < 1 {
        1
    } else if mods.gun_count > 4 {
        4
    } else {
        mods.gun_count
    };
    let mut s: i128 = addend_of(
        block,
        mods.target_terrain == TargetTerrain::UrbanOrWorks,
        "target_terrain",
        "居民地",
    );
    s = s + addend_of(
        block,
        mods.target_terrain == TargetTerrain::Forest,
        "target_terrain",
        "丛林地",
    );
    s = s + addend_of(block, mods.target_cover, "target_state", "掩蔽中");
    s = s + addend_of(block, mods.target_moving_personnel, "target_state", "机动中_人员");
    s = s + addend_of(block, mods.target_stacked, "target_state", "堆叠");
    s = s + addend_of(block, mods.target_march, "target_state", "行军");
    s = s + addend_of(block, true, "armor", armor_key(mods.armor));
    s = s + addend_of(block, true, "gun_count", u64_text(guns as u64).as_str());
    s
}

/// The correction of a salvo's loss for one target and one die.
pub open spec fn salvo_correction(t: Tables, m: IndirectMods, roll: int) -> int {
    jint_or(modified_cell(t, "indirect_correction"@, roll + salvo_additive(t, m)), 0)
}

fn indirect_correction(tables: &Tables, mods: &IndirectMods, roll: u32) -> (r: i64)
    ensures
        r == salvo_correction(*tables, *mods, roll as int),
{
    let modified: i128 = roll as i128 + indirect_additive(tables, mods);
    int_or(by_modified_random(tables, "indirect_correction", modified), 0)
}

/// A salvo: two dice say where it lands, two more what its base result is.
pub open spec fn salvo<R: DrawModel>(
    t: Tables,
    s: R::V,
    spotting: IndirectSpotting,
    dist: int,
    gun: GunClass,
) -> (Scatter, IndirectBase, R::V) {
    let a = dice::<R>(s, 2);
    let b = dice::<R>(a.1, 2);
    let scatter = scatter_of(t, spotting, dist, a.0);
    (scatter, salvo_base(t, scatter == Scatter::Hit, gun, b.0), b.1)
}

/// Resolves where a salvo lands and what its base result is.
pub fn resolve_indirect_plan<R: Rng>(
    tables: &Tables,
    rng: &mut R,
    spotting: IndirectSpotting,
    dist: i64,
    gun: GunClass,
) -> (r: (Scatter, IndirectBase))
    ensures
        (r.0, r.1, final(rng)@) == salvo::<R>(*tables, old(rng)@, spotting, dist as int, gun),
{
    let a: u32 = two_dice(rng);
    let b: u32 = two_dice(rng);
    let scatter: Scatter = resolve_scatter(tables, spotting, dist, a);
    (scatter, indirect_raw_result(tables, scatter == Scatter::Hit, gun, b))
}

/// A salvo's effect on one target for a die: it corrects a loss, to between one and five or else to
/// suppression.
pub open spec fn salvo_verdict(t: Tables, base: IndirectBase, m: IndirectMods, d: int) -> Outcome {
    match base {
        IndirectBase::NoEffect => Outcome::NoEffect,
        IndirectBase::Suppress => Outcome::Suppress,
        IndirectBase::Loss(n) => {
            let loss = n + salvo_correction(t, m, d);
            if loss > 5 {
                Outcome::Destroyed(5)
            } else if loss > 0 {
                Outcome::Destroyed(loss as u8)
            } else {
                Outcome::Suppress
            }
        },
    }
}

/// A salvo's effect on one target. Only a loss draws a die.
pub open spec fn salvo_effect<R: DrawModel>(
    t: Tables,
    s: R::V,
    base: IndirectBase,
    m: IndirectMods,
) -> (Outcome, R::V) {
    if base is Loss {
        let d = die::<R>(s);
        (salvo_verdict(t, base, m, d.0), d.1)
    } else {
        (salvo_verdict(t, base, m, 0), s)
    }
}

/// A salvo's effect on one target for a die.
pub fn adjudicate_salvo(tables: &Tables, base: IndirectBase, mods: &IndirectMods, d: u32) -> (r:
    Outcome)
    ensures
        r == salvo_verdict(*tables, base, *mods, d as int),
{
    match base {
        IndirectBase::NoEffect => Outcome::NoEffect,
        IndirectBase::Suppress => Outcome::Suppress,
        IndirectBase::Loss(n) => {
            let loss: i128 = n as i128 + indirect_correction(tables, mods, d) as i128;
            if loss > 5 {
                Outcome::Destroyed(5)
            } else if loss > 0 {
                Outcome::Destroyed(loss as u8)
            } else {
                Outcome::Suppress
            }
        },
    }
}

/// Resolves a salvo's effect on one target.
pub fn apply_indirect_to_target<R: Rng>(
    tables: &Tables,
    rng: &mut R,
    base: IndirectBase,
    mods: &IndirectMods,
) -> (r: Outcome)
    ensures
        (r, final(rng)@) == salvo_effect::<R>(*tables, old(rng)@, base, *mods),
{
    let d: u32 = match base {
        IndirectBase::Loss(_) => rng.d6(),
        _ => 0,
    };
    adjudicate_salvo(tables, base, mods, d)
}

/// Resolves a whole salvo against one target.
pub fn resolve_indirect<R: Rng>(
    tables: &Tables,
    rng: &mut R,
    spotting: IndirectSpotting,
    dist: i64,
    gun: GunClass,
    mods: &IndirectMods,
) -> (r: IndirectShot)
    ensures
        ({
            let a = salvo::<R>(*tables, old(rng)@, spotting, dist as int, gun);
            let b = salvo_effect::<R>(*tables, a.2, a.1, *mods);
            r == (IndirectShot { scatter: a.0, outcome: b.0 }) && final(rng)@ == b.1
        }),
{
    let (scatter, base) = resolve_indirect_plan(tables, rng, spotting, dist, gun);
    let outcome: Outcome = apply_indirect_to_target(tables, rng, base, mods);
    IndirectShot { scatter, outcome }
}

// ---------- the flow of direct fire ----------

/// The result of trying to fire.
#[derive(Debug, Clone, PartialEq, Eq)]
pub enum FireOutcome<S = &'static str> {
    /// The shot could not be taken, for a reason that is for the firing side only.
    Rejected(S),
    Resolved(Outcome),
}

/// The result of trying to fire, in contracts.
pub type FireV = FireOutcome<Seq<char>>;

impl View for FireOutcome {
    type V = FireV;

    open spec fn view(&self) -> FireV {
        match self {
            FireOutcome::Rejected(s) => FireOutcome::Rejected(s@),
            FireOutcome::Resolved(o) => FireOutcome::Resolved(*o),
        }
    }
}

/// The main guns of tanks, which fire on the move.
pub open spec fn main_gun(weapon: Seq<char>) -> bool {
    weapon == "大号直瞄炮"@ || weapon == "中号直瞄炮"@
}

/// Whether a weapon is a tank's main gun.
pub fn is_tank_main_gun(weapon: &str) -> (r: bool)
    ensures
        r == main_gun(weapon@),
{
    str_eq(weapon, "大号直瞄炮") || str_eq(weapon, "中号直瞄炮")
}

/// Whether a target is adjudicated as a vehicle: all but infantry.
pub open spec fn as_vehicle(t: UnitType) -> bool {
    t != UnitType::Infantry
}

/// Whether a target is adjudicated as a vehicle.
pub fn target_is_vehicle(t: UnitType) -> (r: bool)
    ensures
        r == as_vehicle(t),
{
    t != UnitType::Infantry
}

/// Whether a unit is in motion.
pub open spec fn moving(s: UnitState) -> bool {
    s == UnitState::Moving || s == UnitState::March || s == UnitState::Charge1 || s
        == UnitState::Charge2
}

/// Whether a unit is in motion.
pub fn in_motion(u: &RuntimeUnit) -> (r: bool)
    ensures
        r == moving(u.state),
{
    u.state == UnitState::Moving || u.state == UnitState::March || u.state == UnitState::Charge1
        || u.state == UnitState::Charge2
}

/// The range of a weapon against a kind of target.
pub open spec fn range_of(t: Tables, weapon: Seq<char>, vehicle: bool) -> Option<i64> {
    let name = if vehicle {
        "attack_level_vs_vehicle"@
    } else {
        "attack_level_vs_personnel"@
    };
    jint(jget(jget(table_of(t, name, "weapons"@), weapon), "range"@))
}

fn weapon_range(tables: &Tables, weapon: &str, vehicle: bool) -> (r: Option<i64>)
    ensures
        r == range_of(*tables, weapon@, vehicle),
{
    let name: &str = if vehicle {
        "attack_level_vs_vehicle"
    } else {
        "attack_level_vs_personnel"
    };
    int_of(field(field(tables.table(name, "weapons"), weapon), "range"))
}

/// The class of the terrain at a hex.
pub open spec fn terrain_class(map: GameMap, pos: Axial) -> TargetTerrain {
    match terrain_of(map, pos) {
        Some(Terrain::Urban) => TargetTerrain::UrbanOrWorks,
        Some(Terrain::Forest) => TargetTerrain::Forest,
        Some(Terrain::River) | Some(Terrain::RiverLarge) | Some(Terrain::Lake) => TargetTerrain::Water,
        _ => TargetTerrain::Open,
    }
}

/// The class of the terrain that a unit stands on.
pub fn target_terrain(map: &GameMap, u: &RuntimeUnit) -> (r: TargetTerrain)
    ensures
        r == terrain_class(*map, u.pos),
{
    match terrain_at(map, &u.pos) {
        Some(Terrain::Urban) => TargetTerrain::UrbanOrWorks,
        Some(Terrain::Forest) => TargetTerrain::Forest,
        Some(Terrain::River) | Some(Terrain::RiverLarge) | Some(Terrain::Lake) => TargetTerrain::Water,
        _ => TargetTerrain::Open,
    }
}

/// The corrections of a shot from the state of firer and target and the target's terrain.
pub open spec fn mods_of(shooter: UnitV, target: UnitV, map: GameMap) -> FireMods {
    FireMods {
        shooter_suppressed: shooter.state == UnitState::Suppressed,
        shooter_moving: moving(shooter.state),
        shooter_water_tank: shooter.unit_type == UnitType::Tank && terrain_class(map, shooter.pos)
            == TargetTerrain::Water,
        target_terrain: terrain_class(map, target.pos),
        target_cover: target.state == UnitState::Cover,
        target_moving: moving(target.state),
        target_stacked: false,
        target_march: target.state == UnitState::March,
    }
}

/// The corrections of a shot from the state of firer and target and the target's terrain.
pub fn fire_mods(shooter: &RuntimeUnit, target: &RuntimeUnit, map: &GameMap) -> (r: FireMods)
    ensures
        r == mods_of(shooter@, target@, *map),
{
    FireMods {
        shooter_suppressed: shooter.state == UnitState::Suppressed,
        shooter_moving: in_motion(shooter),
        shooter_water_tank: shooter.unit_type == UnitType::Tank && target_terrain(map, shooter)
            == TargetTerrain::Water,
        target_terrain: target_terrain(map, target),
        target_cover: target.state == UnitState::Cover,
        target_moving: in_motion(target),
        target_stacked: false,
        target_march: target.state == UnitState::March,
    }
}

/// How much higher the firer stands than the target.
pub open spec fn height_above(map: GameMap, from: Axial, to: Axial) -> int {
    elevation_of(map, from) - elevation_of(map, to)
}

/// How much higher the firer stands than the target.
pub fn elevation_height_diff(map: &GameMap, shooter: &RuntimeUnit, target: &RuntimeUnit) -> (r: i64)
    ensures
        r == height_above(*map, shooter.pos, target.pos),
        -0x2_0000_0000 <= r <= 0x2_0000_0000,
{
    elev_at(map, &shooter.pos) - elev_at(map, &target.pos)
}

/// A direct shot of one unit at another, with the posture and terrain of both.
pub open spec fn unit_shot<R: DrawModel>(
    t: Tables,
    map: GameMap,
    s: R::V,
    shooter: UnitV,
    weapon: Seq<char>,
    target: UnitV,
) -> (Outcome, Option<RecV>, R::V) {
    let dist = steps(shooter.pos, target.pos);
    let mods = mods_of(shooter, target, map);
    if as_vehicle(target.unit_type) {
        vehicle_shot::<R>(
            t,
            s,
            weapon,
            shooter.teams,
            dist,
            height_above(map, shooter.pos, target.pos),
            target.armor,
            mods,
        )
    } else {
        personnel_shot::<R>(t, s, weapon, shooter.teams, dist, mods)
    }
}

fn shoot_unit<R: Rng>(
    tables: &Tables,
    map: &GameMap,
    rng: &mut R,
    log: &mut OutcomeLog,
    shooter: &RuntimeUnit,
    weapon: &str,
    target: &RuntimeUnit,
) -> (r: Outcome)
    ensures
        ({
            let v = unit_shot::<R>(*tables, *map, old(rng)@, shooter@, weapon@, target@);
            &&& r == v.0
            &&& final(log)@ == noted(old(log)@, v.1)
            &&& final(rng)@ == v.2
        }),
        final(log).recording_since() == old(log).recording_since(),
{
    let mods: FireMods = fire_mods(shooter, target, map);
    let dist: i32 = shooter.pos.distance(&target.pos);
    if target_is_vehicle(target.unit_type) {
        let shot = VehicleShot {
            weapon,
            vehicles: shooter.teams,
            distance: dist,
            height_diff: elevation_height_diff(map, shooter, target),
            armor: target.armor,
            mods,
        };
        resolve_direct_vs_vehicle(tables, rng, log, &shot)
    } else {
        resolve_direct_vs_personnel(tables, rng, log, weapon, shooter.teams, dist, mods)
    }
}

/// What a try to fire leads to: the result, the record of a shot, and the generator. A rejected
/// try draws no dice and records nothing.
pub type FireStep<G> = (FireV, Option<RecV>, G);

/// A rejected try.
pub open spec fn rejected<G>(why: Seq<char>, s: G) -> FireStep<G> {
    (FireOutcome::Rejected(why), None, s)
}

/// A resolved shot.
pub open spec fn resolved<G>(shot: (Outcome, Option<RecV>, G)) -> FireStep<G> {
    (FireOutcome::Resolved(shot.0), shot.1, shot.2)
}

/// Whether a unit's posture lets it fire a weapon: stopped, or a tank's main gun on the move.
pub open spec fn posture_fires(u: UnitV, weapon: Seq<char>) -> bool {
    u.state == UnitState::Stopped || (u.unit_type == UnitType::Tank && main_gun(weapon) && (u.state
        == UnitState::Moving || u.state == UnitState::Charge1 || u.state == UnitState::Charge2))
}

fn posture_allows(u: &RuntimeUnit, weapon: &str) -> (r: bool)
    ensures
        r == posture_fires(u@, weapon@),
{
    u.state == UnitState::Stopped || (u.unit_type == UnitType::Tank && is_tank_main_gun(weapon) && (
    u.state == UnitState::Moving || u.state == UnitState::Charge1 || u.state == UnitState::Charge2))
}

/// Direct fire: the target must be observed, the weapon deployed, the posture right and the target
/// in range. That the target is not observed is found out before anything else.
pub open spec fn direct_step<R: DrawModel>(
    t: Tables,
    map: GameMap,
    s: R::V,
    rules: Rules,
    shooter: UnitV,
    weapon: Seq<char>,
    target: UnitV,
) -> FireStep<R::V> {
    if !observes(rules, map, shooter, target) {
        rejected("target not observed"@, s)
    } else if shooter.weapon_state != WeaponState::Deployed {
        rejected("weapon not ready (locked or cooling)"@, s)
    } else if !posture_fires(shooter, weapon) {
        rejected("must be stopped to fire (8.5c)"@, s)
    } else {
        match range_of(t, weapon, as_vehicle(target.unit_type)) {
            None => rejected("weapon cannot engage this target"@, s),
            Some(range) => if steps(shooter.pos, target.pos) > range {
                rejected("out of range"@, s)
            } else {
                resolved(unit_shot::<R>(t, map, s, shooter, weapon, target))
            },
        }
    }
}

/// Tries a direct shot. The units are only read; the caller applies the outcome.
pub fn direct_fire<R: Rng>(
    tables: &Tables,
    map: &GameMap,
    rng: &mut R,
    log: &mut OutcomeLog,
    rules: &Rules,
    shooter: &RuntimeUnit,
    weapon: &str,
    target: &RuntimeUnit,
) -> (r: FireOutcome)
    ensures
        ({
            let v = direct_step::<R>(
                *tables,
                *map,
                old(rng)@,
                *rules,
                shooter@,
                weapon@,
                target@,
            );
            &&& r@ == v.0
            &&& final(log)@ == noted(old(log)@, v.1)
            &&& final(rng)@ == v.2
        }),
        final(log).recording_since() == old(log).recording_since(),
{
    if !can_observe(rules, map, shooter, target) {
        return FireOutcome::Rejected("target not observed");
    }
    if shooter.weapon_state != WeaponState::Deployed {
        return FireOutcome::Rejected("weapon not ready (locked or cooling)");
    }
    if !posture_allows(shooter, weapon) {
        return FireOutcome::Rejected("must be stopped to fire (8.5c)");
    }
    let range: i64 = match weapon_range(tables, weapon, target_is_vehicle(target.unit_type)) {
        Some(r) => r,
        None => return FireOutcome::Rejected("weapon cannot engage this target"),
    };
    if shooter.pos.distance(&target.pos) as i64 > range {
        return FireOutcome::Rejected("out of range");
    }
    FireOutcome::Resolved(shoot_unit(tables, map, rng, log, shooter, weapon, target))
}

/// A loitering munition's strike: in range, the target is adjudicated as a vehicle whatever it is.
pub open spec fn strike_step<R: DrawModel>(
    t: Tables,
    map: GameMap,
    s: R::V,
    munition: UnitV,
    weapon: Seq<char>,
    target: UnitV,
) -> FireStep<R::V> {
    let dist = steps(munition.pos, target.pos);
    match range_of(t, weapon, true) {
        None => rejected("weapon cannot engage this target"@, s),
        Some(range) => if dist > range {
            rejected("out of range"@, s)
        } else {
            resolved(
                vehicle_shot::<R>(
                    t,
                    s,
                    weapon,
                    munition.teams,
                    dist,
                    height_above(map, munition.pos, target.pos),
                    target.armor,
                    mods_of(munition, target, map),
                ),
            )
        },
    }
}

/// Tries a loitering munition's strike. Whether the target is observed is for the caller to ask.
pub fn loitering_strike<R: Rng>(
    tables: &Tables,
    map: &GameMap,
    rng: &mut R,
    log: &mut OutcomeLog,
    munition: &RuntimeUnit,
    weapon: &str,
    target: &RuntimeUnit,
) -> (r: FireOutcome)
    ensures
        ({
            let v = strike_step::<R>(*tables, *map, old(rng)@, munition@, weapon@, target@);
            &&& r@ == v.0
            &&& final(log)@ == noted(old(log)@, v.1)
            &&& final(rng)@ == v.2
        }),
        final(log).recording_since() == old(log).recording_since(),
{
    let dist: i32 = munition.pos.distance(&target.pos);
    let range: i64 = match weapon_range(tables, weapon, true) {
        Some(r) => r,
        None => return FireOutcome::Rejected("weapon cannot engage this target"),
    };
    if dist as i64 > range {
        return FireOutcome::Rejected("out of range");
    }
    let shot = VehicleShot {
        weapon,
        vehicles: munition.teams,
        distance: dist,
        height_diff: elevation_height_diff(map, munition, target),
        armor: target.armor,
        mods: fire_mods(munition, target, map),
    };
    FireOutcome::Resolved(resolve_direct_vs_vehicle(tables, rng, log, &shot))
}

/// The corrections of a shot at a fortification.
pub open spec fn works_mods() -> FireMods {
    FireMods { target_terrain: TargetTerrain::UrbanOrWorks, ..plain_mods() }
}

/// Direct fire at a fortification: it must be within its own range of exposure and in sight. It is
/// adjudicated as a vehicle with its own armor.
pub open spec fn works_step<R: DrawModel>(
    t: Tables,
    map: GameMap,
    s: R::V,
    rules: Rules,
    shooter: UnitV,
    weapon: Seq<char>,
    works_pos: Axial,
    works_armor: Armor,
    observe_range: int,
) -> FireStep<R::V> {
    let dist = steps(shooter.pos, works_pos);
    let observed = observe_range > 0 && dist <= observe_range && in_sight(
        map,
        shooter.pos,
        works_pos,
        altitude_levels(rules, map, shooter),
        0,
    );
    if !observed {
        rejected("target not observed"@, s)
    } else if shooter.weapon_state != WeaponState::Deployed {
        rejected("weapon not ready (locked or cooling)"@, s)
    } else if !posture_fires(shooter, weapon) {
        rejected("must be stopped to fire (8.5c)"@, s)
    } else {
        match range_of(t, weapon, true) {
            None => rejected("weapon cannot engage this target"@, s),
            Some(range) => if dist > range {
                rejected("out of range"@, s)
            } else {
                resolved(
                    vehicle_shot::<R>(
                        t,
                        s,
                        weapon,
                        shooter.teams,
                        dist,
                        height_above(map, shooter.pos, works_pos),
                        works_armor,
                        works_mods(),
                    ),
                )
            },
        }
    }
}

/// Tries a direct shot at a fortification.
pub fn direct_fire_at_works<R: Rng>(
    tables: &Tables,
    map: &GameMap,
    rng: &mut R,
    log: &mut OutcomeLog,
    rules: &Rules,
    shooter: &RuntimeUnit,
    weapon: &str,
    works_pos: Axial,
    works_armor: Armor,
    observe_range: i64,
) -> (r: FireOutcome)
    ensures
        ({
            let v = works_step::<R>(
                *tables,
                *map,
                old(rng)@,
                *rules,
                shooter@,
                weapon@,
                works_pos,
                works_armor,
                observe_range as int,
            );
            &&& r@ == v.0
            &&& final(log)@ == noted(old(log)@, v.1)
            &&& final(rng)@ == v.2
        }),
        final(log).recording_since() == old(log).recording_since(),
{
    let dist: i32 = shooter.pos.distance(&works_pos);
    let observed: bool = observe_range > 0 && dist as i64 <= observe_range && line_of_sight_alt(
        map,
        &shooter.pos,
        &works_pos,
        air_altitude_levels(rules, map, shooter),
        0,
    );
    if !observed {
        return FireOutcome::Rejected("target not observed");
    }
    if shooter.weapon_state != WeaponState::Deployed {
        return FireOutcome::Rejected("weapon not ready (locked or cooling)");
    }
    if !posture_allows(shooter, weapon) {
        return FireOutcome::Rejected("must be stopped to fire (8.5c)");
    }
    let range: i64 = match weapon_range(tables, weapon, true) {
        Some(r) => r,
        None => return FireOutcome::Rejected("weapon cannot engage this target"),
    };
    if dist as i64 > range {
        return FireOutcome::Rejected("out of range");
    }
    let mods: FireMods = FireMods {
        shooter_suppressed: false,
        shooter_moving: false,
        shooter_water_tank: false,
        target_terrain: TargetTerrain::UrbanOrWorks,
        target_cover: false,
        target_moving: false,
        target_stacked: false,
        target_march: false,
    };
    let shot = VehicleShot {
        weapon,
        vehicles: shooter.teams,
        distance: dist,
        height_diff: elev_at(map, &shooter.pos) - elev_at(map, &works_pos),
        armor: works_armor,
        mods,
    };
    FireOutcome::Resolved(resolve_direct_vs_vehicle(tables, rng, log, &shot))
}

// ---------- guided fire ----------

/// The units that guide: infantry, unmanned vehicles and drones.
pub open spec fn guides(t: UnitType) -> bool {
    t == UnitType::Infantry || t == UnitType::Ugv || t == UnitType::Uav
}

/// Whether a unit may guide.
pub fn can_guide(t: UnitType) -> (r: bool)
    ensures
        r == guides(t),
{
    t == UnitType::Infantry || t == UnitType::Ugv || t == UnitType::Uav
}

/// Whether a weapon is the heavy missile, the only one that can be guided.
pub fn is_heavy_missile(weapon: &str) -> (r: bool)
    ensures
        r == (weapon@ == "重型导弹"@),
{
    str_eq(weapon, "重型导弹")
}

/// Whether a guide cannot guide now: it moves or is suppressed, a drone does not hover, or
/// another guide's weapon is not deployed.
pub open spec fn unfit_to_guide(g: UnitV) -> bool {
    moving(g.state) || g.state == UnitState::Suppressed || if g.unit_type == UnitType::Uav {
        g.state != UnitState::Stopped
    } else {
        g.weapon_state != WeaponState::Deployed
    }
}

/// Whether a guide cannot guide now.
pub fn guide_unfit(guide: &RuntimeUnit) -> (r: bool)
    ensures
        r == unfit_to_guide(guide@),
{
    if in_motion(guide) || guide.state == UnitState::Suppressed {
        return true;
    }
    if guide.unit_type == UnitType::Uav {
        guide.state != UnitState::Stopped
    } else {
        guide.weapon_state != WeaponState::Deployed
    }
}

/// Guided fire: the guide observes the target and the vehicle fires at it, needing range but no
/// sight of its own.
pub open spec fn guided_step<R: DrawModel>(
    t: Tables,
    map: GameMap,
    s: R::V,
    rules: Rules,
    guide: UnitV,
    vehicle: UnitV,
    weapon: Seq<char>,
    target: UnitV,
) -> FireStep<R::V> {
    if weapon != "重型导弹"@ {
        rejected("only the 重型导弹 supports guided fire (三.14e)"@, s)
    } else if !guides(guide.unit_type) {
        rejected("this unit cannot guide (三.14a)"@, s)
    } else if !observes(rules, map, guide, target) {
        rejected("the guide does not observe the target (三.14a.i)"@, s)
    } else if unfit_to_guide(guide) {
        rejected("the guide is not in a state to guide (三.14d)"@, s)
    } else if vehicle.weapon_state != WeaponState::Deployed {
        rejected("the missile vehicle's weapon is not ready (三.14c)"@, s)
    } else if vehicle.state != UnitState::Stopped {
        rejected("the missile vehicle must be stopped (三.14c)"@, s)
    } else {
        match range_of(t, weapon, as_vehicle(target.unit_type)) {
            None => rejected("weapon cannot engage this target"@, s),
            Some(range) => if steps(vehicle.pos, target.pos) > range {
                rejected("target out of missile range (三.14a.ii)"@, s)
            } else {
                resolved(unit_shot::<R>(t, map, s, vehicle, weapon, target))
            },
        }
    }
}

/// Tries a guided shot. Whom a guide may guide is for the caller to ask.
pub fn guided_fire<R: Rng>(
    tables: &Tables,
    map: &GameMap,
    rng: &mut R,
    log: &mut OutcomeLog,
    rules: &Rules,
    guide: &RuntimeUnit,
    vehicle: &RuntimeUnit,
    weapon: &str,
    target: &RuntimeUnit,
) -> (r: FireOutcome)
    ensures
        ({
            let v = guided_step::<R>(
                *tables,
                *map,
                old(rng)@,
                *rules,
                guide@,
                vehicle@,
                weapon@,
                target@,
            );
            &&& r@ == v.0
            &&& final(log)@ == noted(old(log)@, v.1)
            &&& final(rng)@ == v.2
        }),
        final(log).recording_since() == old(log).recording_since(),
{
    if !is_heavy_missile(weapon) {
        return FireOutcome::Rejected("only the 重型导弹 supports guided fire (三.14e)");
    }
    if !can_guide(guide.unit_type) {
        return FireOutcome::Rejected("this unit cannot guide (三.14a)");
    }
    if !can_observe(rules, map, guide, target) {
        return FireOutcome::Rejected("the guide does not observe the target (三.14a.i)");
    }
    if guide_unfit(guide) {
        return FireOutcome::Rejected("the guide is not in a state to guide (三.14d)");
    }
    if vehicle.weapon_state != WeaponState::Deployed {
        return FireOutcome::Rejected("the missile vehicle's weapon is not ready (三.14c)");
    }
    if vehicle.state != UnitState::Stopped {
        return FireOutcome::Rejected("the missile vehicle must be stopped (三.14c)");
    }
    let range: i64 = match weapon_range(tables, weapon, target_is_vehicle(target.unit_type)) {
        Some(r) => r,
        None => return FireOutcome::Rejected("weapon cannot engage this target"),
    };
    if vehicle.pos.distance(&target.pos) as i64 > range {
        return FireOutcome::Rejected("target out of missile range (三.14a.ii)");
    }
    FireOutcome::Resolved(shoot_unit(tables, map, rng, log, vehicle, weapon, target))
}

// ---------- fights within a hex ----------

/// The texts among the items of an array, in order.
pub open spec fn texts_in(items: Seq<Json>) -> Seq<Seq<char>>
    decreases items.len(),
{
    if items.len() == 0 {
        Seq::empty()
    } else {
        let rest = texts_in(items.drop_last());
        match jtext(Some(items.last())) {
            Some(s) => rest.push(s),
            None => rest,
        }
    }
}

/// The weapons that a unit type fires within its hex.
pub open spec fn loadout_of(rules: Rules, t: UnitType) -> Seq<Seq<char>> {
    match jget(Some(rules.loadout), type_key(t)) {
        Some(Json::Arr(items)) => texts_in(items@),
        _ => Seq::empty(),
    }
}

/// The weapons that a unit type carries.
pub fn unit_loadout(rules: &Rules, t: UnitType) -> (r: Vec<String>)
    ensures
        views(r@) == loadout_of(*rules, t),
{
    let mut out: Vec<String> = Vec::new();
    match rules.loadout.get(unit_type_key(t)) {
        Some(Json::Arr(items)) => {
            let mut i: usize = 0;
            proof {
                assert(views(out@) =~= texts_in(items@.take(0)));
            }
            while i < items.len()
                invariant
                    i <= items@.len(),
                    jget(Some(rules.loadout), type_key(t)) == Some(Json::Arr(*items)),
                    views(out@) == texts_in(items@.take(i as int)),
                decreases items@.len() - i,
            {
                proof {
                    let p = items@.take(i + 1);
                    assert(p.drop_last() =~= items@.take(i as int));
                    assert(p.last() == items@[i as int]);
                }
                match items[i].as_str() {
                    Some(s) => {
                        let ghost was = out@;
                        out.push(s.to_owned());
                        proof {
                            assert(views(out@) =~= views(was).push(s@));
                        }
                    },
                    None => {},
                }
                i += 1;
            }
            proof {
                assert(items@.take(items@.len() as int) =~= items@);
            }
        },
        _ => {
            proof {
                assert(views(out@) =~= Seq::<Seq<char>>::empty());
            }
        },
    }
    out
}

/// The rank of a target within a hex; the least is fired at first: tanks, fighting vehicles, other
/// vehicles, personnel.
pub open spec fn target_rank(t: UnitType) -> int {
    match t {
        UnitType::Tank => 0,
        UnitType::Ifv => 1,
        UnitType::Infantry | UnitType::AaMissileSquad => 3,
        _ => 2,
    }
}

/// The rank of a target within a hex.
pub fn same_hex_priority_rank(t: UnitType) -> (r: u8)
    ensures
        r == target_rank(t),
{
    match t {
        UnitType::Tank => 0,
        UnitType::Ifv => 1,
        UnitType::Infantry | UnitType::AaMissileSquad => 3,
        _ => 2,
    }
}

/// Whether a unit is one that an attacker of `side` may fire at within a hex.
pub open spec fn same_hex_enemy(u: UnitV, side: SideId) -> bool {
    u.alive && u.side != side && on_board(u) && ground(u.unit_type) && targetable(u.unit_type)
}

/// How urgently a target is fired at: by rank, and within a rank the fewest teams first.
pub open spec fn urgency(u: UnitV) -> int {
    target_rank(u.unit_type) * 256 + u.teams
}

/// Whether a unit is one of the most urgent targets of `units`.
pub open spec fn most_urgent(units: Seq<UnitV>, side: SideId, u: UnitV) -> bool {
    same_hex_enemy(u, side) && forall|i: int|
        0 <= i < units.len() && same_hex_enemy(#[trigger] units[i], side) ==> urgency(u) <= urgency(
            units[i],
        )
}

/// The most urgent targets of `units`, in order.
pub open spec fn urgent_targets(units: Seq<UnitV>, side: SideId) -> Seq<UnitV> {
    units.filter(|u: UnitV| most_urgent(units, side, u))
}

/// The target that an attacker of `side` picks: the most urgent one, by a draw among equals.
pub open spec fn pick_target<R: DrawModel>(units: Seq<UnitV>, side: SideId, s: R::V) -> (
    Option<UnitV>,
    R::V,
) {
    let c = urgent_targets(units, side);
    if c.len() == 0 {
        (None, s)
    } else if c.len() == 1 {
        (Some(c[0]), s)
    } else {
        let n = if c.len() > u32::MAX {
            u32::MAX
        } else {
            c.len() as u32
        };
        let d = R::draw(s, n);
        (Some(c[d.0 as int]), d.1)
    }
}

fn is_same_hex_enemy(u: &RuntimeUnit, side: SideId) -> (r: bool)
    ensures
        r == same_hex_enemy(u@, side),
{
    u.alive && u.side != side && u.is_on_board() && is_ground(u.unit_type) && can_be_targeted(
        u.unit_type,
    )
}

fn urgency_of(u: &RuntimeUnit) -> (r: u32)
    ensures
        r == urgency(u@),
{
    same_hex_priority_rank(u.unit_type) as u32 * 256 + u.teams as u32
}

/// Picks the target of an attacker of `side` among the units of a hex.
pub fn pick_same_hex_target<'a, R: Rng>(
    rng: &mut R,
    side: SideId,
    in_hex: &Vec<&'a RuntimeUnit>,
) -> (r: Option<&'a RuntimeUnit>)
    ensures
        ({
            let v = pick_target::<R>(views(in_hex@), side, old(rng)@);
            &&& match r {
                Some(u) => v.0 == Some(u@),
                None => v.0 is None,
            }
            &&& final(rng)@ == v.1
        }),
{
    let ghost units = views(in_hex@);
    let mut best: u32 = u32::MAX;
    let mut i: usize = 0;
    while i < in_hex.len()
        invariant
            i <= in_hex@.len(),
            units == views(in_hex@),
            best == u32::MAX ==> forall|j: int|
                0 <= j < i ==> !same_hex_enemy(#[trigger] units[j], side),
            forall|j: int|
                0 <= j < i && same_hex_enemy(#[trigger] units[j], side) ==> best <= urgency(units[j]),
            best < u32::MAX ==> exists|j: int|
                0 <= j < i && same_hex_enemy(#[trigger] units[j], side) && best == urgency(units[j]),
        decreases in_hex@.len() - i,
    {
        let u: &RuntimeUnit = in_hex[i];
        assert(units[i as int] == u@);
        if is_same_hex_enemy(u, side) {
            let n: u32 = urgency_of(u);
            if n < best {
                best = n;
            }
        }
        i += 1;
    }
    let ghost p = |u: UnitV| most_urgent(units, side, u);
    let mut out: Vec<&'a RuntimeUnit> = Vec::new();
    let mut k: usize = 0;
    proof {
        reveal(Seq::filter);
        assert(views(out@) =~= units.take(0).filter(p));
    }
    while k < in_hex.len()
        invariant
            k <= in_hex@.len(),
            units == views(in_hex@),
            p == (|u: UnitV| most_urgent(units, side, u)),
            best == u32::MAX ==> forall|j: int|
                0 <= j < units.len() ==> !same_hex_enemy(#[trigger] units[j], side),
            forall|j: int|
                0 <= j < units.len() && same_hex_enemy(#[trigger] units[j], side) ==> best
                    <= urgency(units[j]),
            best < u32::MAX ==> exists|j: int|
                0 <= j < units.len() && same_hex_enemy(#[trigger] units[j], side) && best
                    == urgency(units[j]),
            views(out@) == units.take(k as int).filter(p),
        decreases in_hex@.len() - k,
    {
        let u: &'a RuntimeUnit = in_hex[k];
        proof {
            reveal(Seq::filter);
            let t = units.take(k + 1);
            assert(t.drop_last() =~= units.take(k as int));
            assert(t.last() == units[k as int]);
            assert(units[k as int] == u@);
        }
        if is_same_hex_enemy(u, side) && urgency_of(u) == best {
            let ghost was = out@;
            out.push(u);
            proof {
                assert(views(out@) =~= views(was).push(u@));
                assert(most_urgent(units, side, u@));
            }
        } else {
            proof {
                if most_urgent(units, side, u@) {
                    let j = choose|j: int|
                        0 <= j < units.len() && same_hex_enemy(#[trigger] units[j], side) && best
                            == urgency(units[j]);
                    assert(urgency(u@) <= urgency(units[j]));
                }
            }
        }
        k += 1;
    }
    proof {
        assert(units.take(units.len() as int) =~= units);
        assert(views(out@) == urgent_targets(units, side));
        assert(views(out@).len() == out@.len());
    }
    if out.len() == 0 {
        return None;
    }
    if out.len() == 1 {
        assert(views(out@)[0] == out@[0]@);
        return Some(out[0]);
    }
    let n: u32 = if out.len() > u32::MAX as usize { u32::MAX } else { out.len() as u32 };
    let d: u32 = rng.next_u32_below(n);
    assert(views(out@)[d as int] == out@[d as int]@);
    Some(out[d as usize])
}

/// The attack level of a weapon against a kind of target.
pub open spec fn level_of_weapon(t: Tables, weapon: Seq<char>, vehicle: bool, squads: u8, distance: int) -> Option<
    i64,
> {
    if vehicle {
        level_vs_vehicle(t, weapon, squads, distance)
    } else {
        level_vs_personnel(t, weapon, squads, distance)
    }
}

/// The place of the weapon with the highest attack level; of equals, the last.
pub open spec fn best_place(
    t: Tables,
    weapons: Seq<Seq<char>>,
    vehicle: bool,
    squads: u8,
    distance: int,
) -> Option<int>
    decreases weapons.len(),
{
    if weapons.len() == 0 {
        None
    } else {
        let rest = best_place(t, weapons.drop_last(), vehicle, squads, distance);
        match level_of_weapon(t, weapons.last(), vehicle, squads, distance) {
            None => rest,
            Some(l) => match rest {
                None => Some(weapons.len() - 1),
                Some(i) => if level_of_weapon(t, weapons[i], vehicle, squads, distance)->0 > l {
                    Some(i)
                } else {
                    Some(weapons.len() - 1)
                },
            },
        }
    }
}

/// The weapon with the highest attack level against a kind of target.
pub open spec fn strongest(
    t: Tables,
    weapons: Seq<Seq<char>>,
    vehicle: bool,
    squads: u8,
    distance: int,
) -> Option<Seq<char>> {
    match best_place(t, weapons, vehicle, squads, distance) {
        Some(i) => Some(weapons[i]),
        None => None,
    }
}

/// Picks the weapon with the highest attack level; of equals, the last.
pub fn best_weapon<'a>(
    tables: &Tables,
    weapons: &'a Vec<String>,
    target_vehicle: bool,
    attacker_squads: u8,
    distance: i32,
) -> (r: Option<&'a str>)
    ensures
        match r {
            Some(w) => strongest(
                *tables,
                views(weapons@),
                target_vehicle,
                attacker_squads,
                distance as int,
            ) == Some(w@),
            None => strongest(
                *tables,
                views(weapons@),
                target_vehicle,
                attacker_squads,
                distance as int,
            ) is None,
        },
{
    let ghost ws = views(weapons@);
    let mut best: Option<(usize, i64)> = None;
    let mut i: usize = 0;
    while i < weapons.len()
        invariant
            i <= weapons@.len(),
            ws == views(weapons@),
            match best {
                Some((k, l)) => k < i && best_place(
                    *tables,
                    ws.take(i as int),
                    target_vehicle,
                    attacker_squads,
                    distance as int,
                ) == Some(k as int) && level_of_weapon(
                    *tables,
                    ws[k as int],
                    target_vehicle,
                    attacker_squads,
                    distance as int,
                ) == Some(l),
                None => best_place(
                    *tables,
                    ws.take(i as int),
                    target_vehicle,
                    attacker_squads,
                    distance as int,
                ) is None,
            },
        decreases weapons@.len() - i,
    {
        proof {
            let t = ws.take(i + 1);
            assert(t.drop_last() =~= ws.take(i as int));
            assert(t.last() == ws[i as int]);
            assert(ws[i as int] == weapons@[i as int]@);
        }
        let w: &str = weapons[i].as_str();
        let level: Option<i64> = if target_vehicle {
            attack_level_vehicle(tables, w, attacker_squads, distance)
        } else {
            attack_level_personnel(tables, w, attacker_squads, distance)
        };
        match level {
            Some(l) => {
                match best {
                    Some((_, b)) => {
                        if !(b > l) {
                            best = Some((i, l));
                        }
                    },
                    None => {
                        best = Some((i, l));
                    },
                }
            },
            None => {},
        }
        i += 1;
    }
    proof {
        assert(ws.take(ws.len() as int) =~= ws);
    }
    match best {
        Some((k, _)) => {
            assert(ws[k as int] == weapons@[k as int]@);
            Some(weapons[k].as_str())
        },
        None => None,
    }
}

/// A shot within a hex: the best weapon at distance 0, from level ground. Without a weapon that
/// can engage the target nothing happens.
pub open spec fn same_hex_fire<R: DrawModel>(
    t: Tables,
    map: GameMap,
    s: R::V,
    weapons: Seq<Seq<char>>,
    attacker: UnitV,
    target: UnitV,
) -> (Outcome, Option<RecV>, R::V) {
    let vehicle = as_vehicle(target.unit_type);
    match strongest(t, weapons, vehicle, attacker.teams, 0) {
        None => (Outcome::NoEffect, None, s),
        Some(weapon) => {
            let mods = mods_of(attacker, target, map);
            if vehicle {
                vehicle_shot::<R>(t, s, weapon, attacker.teams, 0, 0, target.armor, mods)
            } else {
                personnel_shot::<R>(t, s, weapon, attacker.teams, 0, mods)
            }
        },
    }
}

/// Resolves a shot within a hex.
pub fn same_hex_engage<R: Rng>(
    tables: &Tables,
    map: &GameMap,
    rng: &mut R,
    log: &mut OutcomeLog,
    attacker_weapons: &Vec<String>,
    attacker: &RuntimeUnit,
    target: &RuntimeUnit,
) -> (r: Outcome)
    ensures
        ({
            let v = same_hex_fire::<R>(
                *tables,
                *map,
                old(rng)@,
                views(attacker_weapons@),
                attacker@,
                target@,
            );
            &&& r == v.0
            &&& final(log)@ == noted(old(log)@, v.1)
            &&& final(rng)@ == v.2
        }),
        final(log).recording_since() == old(log).recording_since(),
{
    let vehicle: bool = target_is_vehicle(target.unit_type);
    let weapon: &str = match best_weapon(tables, attacker_weapons, vehicle, attacker.teams, 0) {
        Some(w) => w,
        None => return Outcome::NoEffect,
    };
    let mods: FireMods = fire_mods(attacker, target, map);
    if vehicle {
        let shot = VehicleShot {
            weapon,
            vehicles: attacker.teams,
            distance: 0,
            height_diff: 0,
            armor: target.armor,
            mods,
        };
        resolve_direct_vs_vehicle(tables, rng, log, &shot)
    } else {
        resolve_direct_vs_personnel(tables, rng, log, weapon, attacker.teams, 0, mods)
    }
}

// ---------- air defence ----------

/// The attack level of an air-defence weapon at a distance: none beyond its range, and none where
/// the table says 0. Past the printed columns the far value holds.
pub open spec fn aa_level(t: Tables, weapon: Seq<char>, distance: int) -> Option<i64> {
    let entry = jget(table_of(t, "aa_attack_level"@, "weapons"@), weapon);
    match (jint(jget(entry, "range"@)), jget(entry, "levels"@)) {
        (Some(range), Some(Json::Arr(levels))) => if distance < 0 || distance > range {
            None
        } else {
            let level = if distance < levels@.len() {
                jint(Some(levels@[distance]))
            } else {
                jint(jget(entry, "tail_value"@))
            };
            match level {
                Some(l) => if l > 0 {
                    Some(l)
                } else {
                    None
                },
                None => None,
            }
        },
        _ => None,
    }
}

/// The attack level of an air-defence weapon at a distance.
pub fn aa_attack_level(tables: &Tables, weapon: &str, distance: i32) -> (r: Option<i64>)
    ensures
        r == aa_level(*tables, weapon@, distance as int),
{
    let entry: Option<&Json> = field(tables.table("aa_attack_level", "weapons"), weapon);
    let range: i64 = match int_of(field(entry, "range")) {
        Some(r) => r,
        None => return None,
    };
    match field(entry, "levels") {
        Some(Json::Arr(levels)) => {
            if distance < 0 || distance as i64 > range {
                return None;
            }
            let level: Option<i64> = if (distance as usize) < levels.len() {
                levels[distance as usize].as_i64()
            } else {
                int_of(field(entry, "tail_value"))
            };
            match level {
                Some(l) => if l > 0 {
                    Some(l)
                } else {
                    None
                },
                None => None,
            }
        },
        _ => None,
    }
}

/// The attack level from which a roll annihilates an air target.
pub open spec fn aa_threshold(t: Tables, roll: int) -> Option<i64> {
    jint(jget(table_of(t, "aa_result"@, "kill_threshold_by_random"@), dec(roll as nat)))
}

/// The attack level from which a roll annihilates an air target.
pub fn aa_kill_threshold(tables: &Tables, roll: u32) -> (r: Option<i64>)
    ensures
        r == aa_threshold(*tables, roll as int),
{
    int_of(
        field(
            tables.table("aa_result", "kill_threshold_by_random"),
            u64_text(roll as u64).as_str(),
        ),
    )
}

/// Whether a roll at an attack level annihilates the target. Without a threshold for the roll only
/// the highest level there is does.
pub open spec fn aa_kill(t: Tables, level: int, roll: int) -> bool {
    match aa_threshold(t, roll) {
        Some(n) => level >= n,
        None => level >= i64::MAX,
    }
}

fn aa_adjudicate<R: Rng>(tables: &Tables, rng: &mut R, level: i64) -> (r: bool)
    ensures
        ({
            let roll = dice::<R>(old(rng)@, 2);
            r == aa_kill(*tables, level as int, roll.0) && final(rng)@ == roll.1
        }),
{
    let roll: u32 = two_dice(rng);
    match aa_kill_threshold(tables, roll) {
        Some(threshold) => level >= threshold,
        None => level == i64::MAX,
    }
}

/// The result of an air-defence salvo.
#[derive(Debug, Clone, Copy, PartialEq, Eq, Structural)]
pub struct AaOutcome {
    pub destroyed: bool,
    pub adjudications: u8,
    pub kills: u8,
}

/// The kills of so many adjudications, and the generator after them.
pub open spec fn aa_kills<R: DrawModel>(t: Tables, s: R::V, level: int, count: nat) -> (int, R::V)
    decreases count,
{
    if count == 0 {
        (0, s)
    } else {
        let rest = aa_kills::<R>(t, s, level, (count - 1) as nat);
        let roll = dice::<R>(rest.1, 2);
        (
            rest.0 + if aa_kill(t, level, roll.0) {
                1int
            } else {
                0int
            },
            roll.1,
        )
    }
}

/// A salvo kills no more often than it is adjudicated.
pub proof fn kills_within_the_salvo<R: DrawModel>(t: Tables, s: R::V, level: int, count: nat)
    ensures
        0 <= aa_kills::<R>(t, s, level, count).0 <= count,
    decreases count,
{
    if count > 0 {
        kills_within_the_salvo::<R>(t, s, level, (count - 1) as nat);
    }
}

/// An air-defence salvo: one adjudication per team or vehicle; any kill destroys the target. An
/// impossible salvo draws no dice.
pub open spec fn aa_salvo<R: DrawModel>(
    t: Tables,
    s: R::V,
    weapon: Seq<char>,
    shooters: u8,
    distance: int,
) -> (Option<AaOutcome>, R::V) {
    match aa_level(t, weapon, distance) {
        Some(level) => if shooters == 0 {
            (None, s)
        } else {
            let k = aa_kills::<R>(t, s, level as int, shooters as nat);
            (
                Some(
                    AaOutcome { destroyed: k.0 > 0, adjudications: shooters, kills: k.0 as u8 },
                ),
                k.1,
            )
        },
        None => (None, s),
    }
}

/// Resolves an air-defence salvo. Whether the target is observed is for the caller to ask.
pub fn air_defense<R: Rng>(
    tables: &Tables,
    rng: &mut R,
    weapon: &str,
    shooters: u8,
    distance: i32,
) -> (r: Option<AaOutcome>)
    ensures
        (r, final(rng)@) == aa_salvo::<R>(*tables, old(rng)@, weapon@, shooters, distance as int),
{
    if shooters == 0 {
        return None;
    }
    let level: i64 = match aa_attack_level(tables, weapon, distance) {
        Some(l) => l,
        None => return None,
    };
    let ghost s = rng@;
    let mut kills: u8 = 0;
    let mut i: u8 = 0;
    while i < shooters
        invariant
            i <= shooters,
            kills <= i,
            (kills as int, rng@) == aa_kills::<R>(*tables, s, level as int, i as nat),
        decreases shooters - i,
    {
        if aa_adjudicate(tables, rng, level) {
            kills += 1;
        }
        i += 1;
    }
    Some(AaOutcome { destroyed: kills > 0, adjudications: shooters, kills })
}

// ---------- mines ----------

/// The minefield table's name for a unit.
pub open spec fn mine_row(t: UnitType) -> Seq<char> {
    if personnel(t) {
        "人员"@
    } else {
        "车辆"@
    }
}

/// The minefield table's name for a unit.
pub fn minefield_category(t: UnitType) -> (r: &'static str)
    ensures
        r@ == mine_row(t),
{
    if is_personnel(t) {
        "人员"
    } else {
        "车辆"
    }
}

/// The teams that a minefield destroys for a roll: the base damage with the armor's correction, and
/// never less than none.
pub open spec fn mine_loss(t: Tables, unit_type: UnitType, armor: Armor, roll: int) -> int {
    let base = jint_or(
        jget(
            jget(table_of(t, "minefield"@, "damage_by_random"@), mine_row(unit_type)),
            dec(roll as nat),
        ),
        0,
    );
    let corr = jint_or(
        jget(
            jget(table_of(t, "minefield"@, "armor_correction_by_random"@), armor_row(armor)),
            dec(roll as nat),
        ),
        0,
    );
    if base + corr < 0 {
        0
    } else {
        (base + corr) % 0x1_0000_0000
    }
}

/// The teams that a minefield destroys for a roll.
pub fn minefield_damage_for_roll(tables: &Tables, unit_type: UnitType, armor: Armor, roll: u32) -> (r:
    u32)
    ensures
        r == mine_loss(*tables, unit_type, armor, roll as int),
{
    let key: String = u64_text(roll as u64);
    let base: i128 = int_or(
        field(
            field(tables.table("minefield", "damage_by_random"), minefield_category(unit_type)),
            key.as_str(),
        ),
        0,
    ) as i128;
    let corr: i128 = int_or(
        field(
            field(tables.table("minefield", "armor_correction_by_random"), armor_key(armor)),
            key.as_str(),
        ),
        0,
    ) as i128;
    let dmg: i128 = base + corr;
    if dmg < 0 {
        0
    } else {
        (dmg % 0x1_0000_0000) as u32
    }
}

/// Rolls two dice for a unit that enters a minefield.
pub fn minefield_damage<R: Rng>(tables: &Tables, rng: &mut R, unit_type: UnitType, armor: Armor) -> (r:
    u32)
    ensures
        ({
            let roll = dice::<R>(old(rng)@, 2);
            r == mine_loss(*tables, unit_type, armor, roll.0) && final(rng)@ == roll.1
        }),
{
    let roll: u32 = two_dice(rng);
    minefield_damage_for_roll(tables, unit_type, armor, roll)
}

// ---------- barrage zones ----------

/// The crossing of a barrage zone's edge: a salvo that hits, with its correction.
pub open spec fn barrage_effect<R: DrawModel>(t: Tables, s: R::V, gun: GunClass, m: IndirectMods) -> (
    Outcome,
    R::V,
) {
    let roll = dice::<R>(s, 2);
    salvo_effect::<R>(t, roll.1, salvo_base(t, true, gun, roll.0), m)
}

/// Resolves the crossing of a barrage zone's edge: a salvo that hits, with its correction.
pub fn barrage_zone_adjudicate<R: Rng>(
    tables: &Tables,
    rng: &mut R,
    gun: GunClass,
    mods: &IndirectMods,
) -> (r: Outcome)
    ensures
        (r, final(rng)@) == barrage_effect::<R>(*tables, old(rng)@, gun, *mods),
{
    let roll: u32 = two_dice(rng);
    let base: IndirectBase = indirect_raw_result(tables, true, gun, roll);
    apply_indirect_to_target(tables, rng, base, mods)
}

} // verus!
