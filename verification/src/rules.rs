//! Rules as data: the decision tables and every tunable number.
use crate::error::EngineError;
use crate::json::{field, int_of, item, jget, jint, jitem, val, Json};
use crate::ordmap::{keys_where, views, OrdMap};
use crate::text::{dec, join2, str_eq, u64_text};
use crate::time::Tick;
use vstd::prelude::*;
use vstd::string::*;

verus! {

#[derive(Debug, Clone)]
pub struct TableSource {
    pub page: i64,
    pub appendix: String,
}

/// One decision table: what it is, and its payload by name.
pub struct RuleTable {
    pub id: String,
    pub title_zh: String,
    pub source: TableSource,
    pub verified: bool,
    pub verify_note: Option<String>,
    pub hex_size_meters: Option<i64>,
    pub data: OrdMap<String, Json>,
}

impl View for RuleTable {
    type V = RuleTable;

    open spec fn view(&self) -> RuleTable {
        *self
    }
}

/// The entry of a map, where it has one.
pub open spec fn at<A, W>(m: Map<A, W>, k: A) -> Option<W> {
    if m.contains_key(k) {
        Some(m[k])
    } else {
        None
    }
}

impl RuleTable {
    pub fn payload(&self, key: &str) -> (r: Option<&Json>)
        ensures
            val(r) == at(self.data@, key@),
    {
        self.data.get(&key.to_owned())
    }
}

/// The decision tables by name.
pub struct Tables {
    pub by_name: OrdMap<String, RuleTable>,
}

/// Payload `key` of table `name`.
pub open spec fn table_of(tables: Tables, name: Seq<char>, key: Seq<char>) -> Option<Json> {
    match at(tables.by_name@, name) {
        Some(t) => at(t.data@, key),
        None => None,
    }
}

/// Whether an earlier table has the name of table `i`.
pub open spec fn repeats(list: Seq<(String, RuleTable)>, i: int) -> bool {
    exists|j: int| 0 <= j < i && (#[trigger] list[j]).0@ == list[i].0@
}

/// Whether a decision table goes by this name: those of [`Tables::TABLE_FILES`].
pub open spec fn table_named(name: Seq<char>) -> bool {
    name == "observation_distance"@
        || name == "unit_speed"@
        || name == "terrain_movement"@
        || name == "attack_level_vs_personnel"@
        || name == "attack_level_vs_vehicle"@
        || name == "attack_level_infantry_vs_vehicle"@
        || name == "height_diff_correction"@
        || name == "result_vs_vehicle"@
        || name == "vehicle_loss_correction"@
        || name == "result_vs_personnel"@
        || name == "personnel_loss_correction"@
        || name == "indirect_scatter"@
        || name == "indirect_result"@
        || name == "indirect_correction"@
        || name == "aa_attack_level"@
        || name == "aa_result"@
        || name == "minefield"@
        || name == "timings"@
}

fn is_table_name(name: &str) -> (r: bool)
    ensures
        r == table_named(name@),
{
    str_eq(name, "observation_distance")
        || str_eq(name, "unit_speed")
        || str_eq(name, "terrain_movement")
        || str_eq(name, "attack_level_vs_personnel")
        || str_eq(name, "attack_level_vs_vehicle")
        || str_eq(name, "attack_level_infantry_vs_vehicle")
        || str_eq(name, "height_diff_correction")
        || str_eq(name, "result_vs_vehicle")
        || str_eq(name, "vehicle_loss_correction")
        || str_eq(name, "result_vs_personnel")
        || str_eq(name, "personnel_loss_correction")
        || str_eq(name, "indirect_scatter")
        || str_eq(name, "indirect_result")
        || str_eq(name, "indirect_correction")
        || str_eq(name, "aa_attack_level")
        || str_eq(name, "aa_result")
        || str_eq(name, "minefield")
        || str_eq(name, "timings")
}

/// Whether table `i` of a list may not be collected.
pub open spec fn misplaced(list: Seq<(String, RuleTable)>, i: int) -> bool {
    !table_named(list[i].0@) || repeats(list, i)
}

/// The map of the first `n` tables by name.
pub open spec fn named_tables(list: Seq<(String, RuleTable)>, n: int) -> Map<Seq<char>, RuleTable>
    decreases n,
{
    if n <= 0 {
        Map::empty()
    } else {
        named_tables(list, n - 1).insert(list[n - 1].0@, list[n - 1].1)
    }
}

/// Whether collecting the tables gives `r`.
pub open spec fn collects(list: Seq<(String, RuleTable)>, r: Result<Tables, EngineError>) -> bool {
    match r {
        Ok(t) => list.len() == 18 && (forall|i: int| 0 <= i < 18 ==> !misplaced(list, i))
            && t.by_name@ == named_tables(list, 18),
        Err(e) => {
            ||| exists|i: int|
                0 <= i < list.len() && #[trigger] misplaced(list, i) && (forall|j: int|
                    0 <= j < i ==> !misplaced(list, j)) && e@ == EngineError::Rules(
                    if table_named(list[i].0@) {
                        "duplicate embedded table "@ + list[i].0@
                    } else {
                        "unknown embedded table "@ + list[i].0@
                    },
                )
            ||| list.len() != 18 && (forall|i: int| 0 <= i < list.len() ==> !misplaced(list, i))
                && e@ == EngineError::Rules("expected 18 embedded tables, loaded "@ + dec(list.len()))
        },
    }
}

proof fn named_tables_dom(list: Seq<(String, RuleTable)>, n: int)
    requires
        0 <= n <= list.len(),
    ensures
        forall|k: Seq<char>| #[trigger]
            named_tables(list, n).contains_key(k) <==> exists|j: int|
                0 <= j < n && (#[trigger] list[j]).0@ == k,
        named_tables(list, n).dom().finite(),
        (forall|i: int| 0 <= i < n ==> !repeats(list, i)) ==> named_tables(list, n).dom().len() == n,
    decreases n,
{
    if n > 0 {
        named_tables_dom(list, n - 1);
        let k = list[n - 1].0@;
        if forall|i: int| 0 <= i < n ==> !repeats(list, i) {
            assert(!repeats(list, n - 1));
            assert(!named_tables(list, n - 1).contains_key(k));
        }
        assert(named_tables(list, n).dom() =~= named_tables(list, n - 1).dom().insert(k));
        assert forall|x: Seq<char>| #[trigger]
            named_tables(list, n).contains_key(x) implies exists|j: int|
            0 <= j < n && (#[trigger] list[j]).0@ == x by {
            if x == k {
                assert(list[n - 1].0@ == x);
            } else {
                assert(named_tables(list, n - 1).contains_key(x));
            }
        }
    }
}

impl Tables {
    /// The files that the decision tables come in.
    pub const TABLE_FILES: [&'static str; 18] = [
        "observation_distance.json",
        "unit_speed.json",
        "terrain_movement.json",
        "attack_level_vs_personnel.json",
        "attack_level_vs_vehicle.json",
        "attack_level_infantry_vs_vehicle.json",
        "height_diff_correction.json",
        "result_vs_vehicle.json",
        "vehicle_loss_correction.json",
        "result_vs_personnel.json",
        "personnel_loss_correction.json",
        "indirect_scatter.json",
        "indirect_result.json",
        "indirect_correction.json",
        "aa_attack_level.json",
        "aa_result.json",
        "minefield.json",
        "timings.json",
    ];

    /// Collects the parsed tables, each under its name. A name that no table goes by or that comes
    /// twice is an error, and so is a set of tables that is not complete.
    pub fn load_embedded(embedded: Vec<(String, RuleTable)>) -> (r: Result<Tables, EngineError>)
        ensures
            collects(embedded@, r),
    {
        let ghost list = embedded@;
        let mut rest: Vec<(String, RuleTable)> = embedded;
        let mut by_name: OrdMap<String, RuleTable> = OrdMap::new();
        let total: usize = rest.len();
        let mut i: usize = 0;
        while i < total
            invariant
                i <= total,
                total == list.len(),
                list == embedded@,
                rest@ =~= list.skip(i as int),
                by_name@ == named_tables(list, i as int),
                forall|j: int| 0 <= j < i ==> !misplaced(list, j),
            decreases total - i,
        {
            let (stem, table) = rest.remove(0);
            proof {
                named_tables_dom(list, i as int);
                assert(list.skip(i as int)[0] == list[i as int]);
            }
            let name: String = stem.clone();
            if !is_table_name(name.as_str()) {
                assert(misplaced(list, i as int));
                return Err(EngineError::rules_text(join2("unknown embedded table ", name.as_str())));
            }
            if by_name.insert(stem, table) {
                assert(repeats(list, i as int));
                assert(misplaced(list, i as int));
                return Err(EngineError::rules_text(join2("duplicate embedded table ", name.as_str())));
            }
            proof {
                assert(!repeats(list, i as int)) by {
                    if repeats(list, i as int) {
                        let j = choose|j: int|
                            0 <= j < i && (#[trigger] list[j]).0@ == list[i as int].0@;
                        assert(named_tables(list, i as int).contains_key(list[j].0@));
                    }
                }
            }
            i += 1;
        }
        proof {
            assert forall|j: int| 0 <= j < total implies !repeats(list, j) by {
                assert(!misplaced(list, j));
            }
            named_tables_dom(list, total as int);
        }
        if by_name.len() != 18 {
            return Err(
                EngineError::rules_text(
                    join2(
                        "expected 18 embedded tables, loaded ",
                        u64_text(by_name.len() as u64).as_str(),
                    ),
                ),
            );
        }
        Ok(Tables { by_name })
    }

    pub fn get(&self, name: &str) -> (r: Option<&RuleTable>)
        ensures
            val(r) == at(self.by_name@, name@),
    {
        self.by_name.get(&name.to_owned())
    }

    pub fn len(&self) -> (r: usize)
        ensures
            r == self.by_name@.dom().len(),
    {
        self.by_name.len()
    }

    pub fn is_empty(&self) -> (r: bool)
        ensures
            r == (self.by_name@.dom().len() == 0),
    {
        self.by_name.is_empty()
    }

    /// The names of the tables that nobody has checked yet, in order.
    pub fn unverified(&self) -> (r: Vec<String>)
        ensures
            views(r@) == keys_where::<String, RuleTable>(
                self.by_name@,
                |k: Seq<char>, t: RuleTable| !t.verified,
            ),
    {
        let ghost p = |k: Seq<char>, t: RuleTable| !t.verified;
        let f = |k: &String, t: &RuleTable| -> (b: bool)
            ensures b == p(k@, t@)
        {
            !t.verified
        };
        self.by_name.select(f, Ghost(p))
    }

    /// Payload `key` of table `name`.
    pub fn table(&self, name: &str, key: &str) -> (r: Option<&Json>)
        ensures
            val(r) == table_of(*self, name@, key@),
    {
        match self.get(name) {
            Some(t) => t.payload(key),
            None => None,
        }
    }
}

/// The durations of the rules by name, in ticks.
pub struct Timing {
    pub durations: OrdMap<String, Tick>,
}

/// The hex size in metres of rules that do not say.
pub fn default_hex_size_meters() -> (r: u32)
    ensures
        r == 200,
{
    200
}

pub struct Weapon {
    pub kind: String,
    pub range: i32,
    pub moving_fire: bool,
    pub result_table: Option<String>,
    /// The attack level at each distance, or rows of them per crew count.
    pub attack_level_by_distance: Json,
    pub shots: Option<u32>,
    pub interval: Option<u32>,
}

impl View for Weapon {
    type V = Weapon;

    open spec fn view(&self) -> Weapon {
        *self
    }
}

/// The attack level of a weapon at a distance.
pub open spec fn flat_level(w: Weapon, distance: int) -> Option<i64> {
    jint(jitem(Some(w.attack_level_by_distance), distance))
}

impl Weapon {
    /// The attack level at a distance, from the flat array form.
    pub fn flat_attack_level(&self, distance: i32) -> (r: Option<i64>)
        ensures
            r == flat_level(*self, distance as int),
    {
        if distance < 0 {
            None
        } else {
            int_of(item(Some(&self.attack_level_by_distance), distance as usize))
        }
    }
}

/// The backend of a result table. The parameters of a calibrated table hold, per level and
/// outcome, how many of a million draws fall to the outcomes up to it in name order.
pub struct ProviderSpec {
    pub kind: String,
    pub params: Json,
}

impl View for ProviderSpec {
    type V = ProviderSpec;

    open spec fn view(&self) -> ProviderSpec {
        *self
    }
}

pub struct ProbConfig {
    pub providers: OrdMap<String, ProviderSpec>,
}

/// The ticks of one hex at normal and at half speed, where the unit can move at all.
#[derive(Debug, Clone, Copy, PartialEq, Eq, Structural)]
pub struct Gait {
    pub normal: Option<Tick>,
    pub half: Option<Tick>,
}

/// The ticks of one hex of a vehicle type.
pub struct GroundPace {
    /// On a road or rail hex.
    pub road: Gait,
    /// Off the road, by terrain name: the gait at slope 0 or 1, at slope 2, and so on. The last
    /// entry holds for every steeper slope.
    pub off_road: OrdMap<String, Vec<Gait>>,
}

impl View for GroundPace {
    type V = GroundPace;

    open spec fn view(&self) -> GroundPace {
        *self
    }
}

/// The ticks of one hex on foot, by movement mode.
#[derive(Debug, Clone, Copy, PartialEq, Eq, Structural)]
pub struct FootPace {
    pub normal: Option<Tick>,
    pub half: Option<Tick>,
    pub charge1: Option<Tick>,
    pub charge2: Option<Tick>,
}

/// The ticks of one hex of a type of air unit.
#[derive(Debug, Clone, Copy, PartialEq, Eq, Structural)]
pub struct FlightPace {
    pub normal: Tick,
    /// For a transport helicopter at very low altitude.
    pub very_low: Tick,
}

impl View for FlightPace {
    type V = FlightPace;

    open spec fn view(&self) -> FlightPace {
        *self
    }
}

/// The speeds of the rules, in ticks per hex.
pub struct Paces {
    /// By unit type.
    pub flight: OrdMap<String, FlightPace>,
    /// By unit type.
    pub ground: OrdMap<String, GroundPace>,
    /// Infantry where the difference in height is small.
    pub foot: FootPace,
    /// Infantry where the difference in height is large.
    pub foot_steep: FootPace,
    /// Vehicles on the march, by kind of road.
    pub march: OrdMap<String, Tick>,
    /// From one shot of an air-defence unit to the next, by unit type.
    pub aa_interval: OrdMap<String, Tick>,
}

pub struct Rules {
    pub format: String,
    pub version: u32,
    pub hex_size_meters: u32,
    pub timing: Timing,
    pub paces: Paces,
    pub movement: Json,
    pub observation: Json,
    pub control: Json,
    pub air: Json,
    pub fortification: Json,
    pub minefield: Json,
    /// The weapons that a unit type fires in its own hex.
    pub loadout: Json,
    pub weapons: OrdMap<String, Weapon>,
    pub combat_result_tables: Json,
    pub modifiers: Json,
    pub prob: ProbConfig,
}

/// A duration of the rules.
pub open spec fn timing_of(rules: Rules, key: Seq<char>) -> Option<Tick> {
    at(rules.timing.durations@, key)
}

/// Member `key` of a block, as an integer.
pub open spec fn setting(block: Json, key: Seq<char>) -> Option<i64> {
    jint(jget(Some(block), key))
}

fn setting_in(block: &Json, key: &str) -> (r: Option<i64>)
    ensures
        r == setting(*block, key@),
{
    int_of(field(Some(block), key))
}

impl Rules {
    /// See [`Tables::load_embedded`].
    pub fn load_embedded_tables(embedded: Vec<(String, RuleTable)>) -> (r: Result<
        Tables,
        EngineError,
    >)
        ensures
            collects(embedded@, r),
    {
        Tables::load_embedded(embedded)
    }

    /// The dice count and cells of a result table.
    pub fn result_table(&self, id: &str) -> (r: Option<&Json>)
        ensures
            val(r) == jget(Some(self.combat_result_tables), id@),
    {
        self.combat_result_tables.get(id)
    }

    pub fn timing(&self, key: &str) -> (r: Option<Tick>)
        ensures
            r == timing_of(*self, key@),
    {
        match self.timing.durations.get(&key.to_owned()) {
            Some(t) => Some(*t),
            None => None,
        }
    }

    /// The most own ground units that a hex may hold.
    pub fn stacking_cap(&self) -> (r: Option<i64>)
        ensures
            r == setting(self.control, "stacking_max_ground_units_per_hex"@),
    {
        setting_in(&self.control, "stacking_max_ground_units_per_hex")
    }

    /// The radius around an objective that must be free of enemy ground units.
    pub fn capture_radius(&self) -> (r: Option<i64>)
        ensures
            r == setting(self.control, "capture_no_enemy_radius_hexes"@),
    {
        setting_in(&self.control, "capture_no_enemy_radius_hexes")
    }

    /// The most teams that a unit may have.
    pub fn max_squads(&self) -> (r: Option<i64>)
        ensures
            r == setting(self.control, "max_squads_per_unit"@),
    {
        setting_in(&self.control, "max_squads_per_unit")
    }

    /// How many teams a fortification holds.
    pub fn fortification_capacity(&self) -> (r: Option<i64>)
        ensures
            r == setting(self.fortification, "capacity_squads"@),
    {
        setting_in(&self.fortification, "capacity_squads")
    }

    /// The range at which a vehicle or combat fortification is seen and fired upon.
    pub fn fortification_exposed_range(&self) -> (r: Option<i64>)
        ensures
            r == setting(self.fortification, "exposed_range_hexes"@),
    {
        setting_in(&self.fortification, "exposed_range_hexes")
    }

    /// The range within which a minelayer lays a minefield.
    pub fn minefield_lay_range(&self) -> (r: Option<i64>)
        ensures
            r == setting(self.minefield, "lay_range_hexes"@),
    {
        setting_in(&self.minefield, "lay_range_hexes")
    }

    /// The most minefields that one minelayer lays.
    pub fn minefield_max_lays(&self) -> (r: Option<i64>)
        ensures
            r == setting(self.minefield, "max_lays_per_vehicle"@),
    {
        setting_in(&self.minefield, "max_lays_per_vehicle")
    }

    /// The range at which a minefield is seen in the open; the observer halves it in towns and woods.
    pub fn minefield_observe_range(&self) -> (r: Option<i64>)
        ensures
            r == setting(self.minefield, "observe_range_hexes"@),
    {
        setting_in(&self.minefield, "observe_range_hexes")
    }
}

} // verus!
