//! The board, the scenario and the live state of a match.
use crate::hex::Axial;
use crate::ordmap::{keys_where, Dup, OrdMap};
use crate::text::str_eq;
use crate::time::Tick;
use vstd::prelude::*;

verus! {

// ---------- the board ----------

#[derive(Debug, Clone, Copy, PartialEq, Eq, Structural)]
pub enum Terrain {
    Open,
    Urban,
    Forest,
    River,
    /// A large river, slower to cross than `River`.
    RiverLarge,
    Lake,
    Soft,
    Road,
    Rail,
}

#[derive(Debug, Clone)]
pub struct Road {
    pub kind: String,
    /// The edge directions (0..6) that the road leaves the hex by.
    pub connects: Vec<u8>,
}

#[derive(Debug, Clone)]
pub struct HexCell {
    pub q: i32,
    pub r: i32,
    pub id: Option<String>,
    pub elevation: i32,
    pub terrain: Terrain,
    pub road: Option<Road>,
}

/// The hexes of a board.
#[derive(Debug, Clone)]
pub struct GameMap {
    pub format: String,
    pub version: u32,
    pub name: String,
    pub elevation_unit_meters: Option<u32>,
    pub hexes: Vec<HexCell>,
}

/// The first of `hexes` that lies at `at`.
pub open spec fn first_cell(hexes: Seq<HexCell>, at: Axial) -> Option<HexCell>
    decreases hexes.len(),
{
    if hexes.len() == 0 {
        None
    } else if hexes[0].q == at.q && hexes[0].r == at.r {
        Some(hexes[0])
    } else {
        first_cell(hexes.drop_first(), at)
    }
}

/// The cell of a board at a hex.
pub open spec fn cell_at(map: GameMap, at: Axial) -> Option<HexCell> {
    first_cell(map.hexes@, at)
}

impl GameMap {
    pub fn cell(&self, at: &Axial) -> (r: Option<&HexCell>)
        ensures
            match r {
                Some(c) => cell_at(*self, *at) == Some(*c),
                None => cell_at(*self, *at) is None,
            },
    {
        let mut i: usize = 0;
        proof {
            assert(self.hexes@.skip(0) =~= self.hexes@);
        }
        while i < self.hexes.len()
            invariant
                i <= self.hexes@.len(),
                cell_at(*self, *at) == first_cell(self.hexes@.skip(i as int), *at),
            decreases self.hexes@.len() - i,
        {
            let ghost rest = self.hexes@.skip(i as int);
            assert(rest[0] == self.hexes@[i as int]);
            assert(rest.drop_first() =~= self.hexes@.skip(i + 1));
            let h = &self.hexes[i];
            if h.q == at.q && h.r == at.r {
                return Some(h);
            }
            i += 1;
        }
        None
    }
}

// ---------- the scenario ----------

#[derive(Debug, Clone, Copy, PartialEq, Eq, PartialOrd, Ord, Structural)]
pub enum SideId {
    Red,
    Blue,
}

#[derive(Debug, Clone, Copy, PartialEq, Eq, Structural)]
pub enum UnitType {
    Tank,
    Ifv,
    Infantry,
    Artillery,
    Uav,
    AttackHeli,
    TransportHeli,
    LoiteringMunition,
    ReconVehicle,
    RadarVehicle,
    Minelayer,
    Minesweeper,
    AaGun,
    AaMissileSquad,
    AaMissileVehicle,
    Ugv,
    Pickup,
    /// Space-based reconnaissance: it neither moves nor fights nor is fought, and gives its side a
    /// reduced track of enemy units.
    SpaceRecon,
}

#[derive(Debug, Clone, Copy, PartialEq, Eq, Structural)]
pub enum Armor {
    Composite,
    Heavy,
    Medium,
    Light,
    Unarmored,
}

/// The armor that a configuration string names.
pub open spec fn armor_named(s: Seq<char>) -> Option<Armor> {
    if s == "composite"@ {
        Some(Armor::Composite)
    } else if s == "heavy"@ {
        Some(Armor::Heavy)
    } else if s == "medium"@ {
        Some(Armor::Medium)
    } else if s == "light"@ {
        Some(Armor::Light)
    } else if s == "none"@ {
        Some(Armor::Unarmored)
    } else {
        None
    }
}

impl Armor {
    /// Reads an armor name; `None` for an unknown one.
    pub fn parse(s: &str) -> (r: Option<Self>)
        ensures
            r == armor_named(s@),
    {
        if str_eq(s, "composite") {
            Some(Armor::Composite)
        } else if str_eq(s, "heavy") {
            Some(Armor::Heavy)
        } else if str_eq(s, "medium") {
            Some(Armor::Medium)
        } else if str_eq(s, "light") {
            Some(Armor::Light)
        } else if str_eq(s, "none") {
            Some(Armor::Unarmored)
        } else {
            None
        }
    }
}

/// The altitude of a transport helicopter. Every other unit carries the default `Low`.
#[derive(Debug, Clone, Copy, PartialEq, Eq, Structural)]
pub enum HeliAlt {
    High,
    Low,
    VeryLow,
}

impl Default for HeliAlt {
    fn default() -> (r: Self)
        ensures
            r == HeliAlt::Low,
    {
        HeliAlt::Low
    }
}

/// The altitude that an order names.
pub open spec fn altitude_named(s: Seq<char>) -> Option<HeliAlt> {
    if s == "high"@ {
        Some(HeliAlt::High)
    } else if s == "low"@ {
        Some(HeliAlt::Low)
    } else if s == "very_low"@ {
        Some(HeliAlt::VeryLow)
    } else {
        None
    }
}

/// Whether a helicopter can go from one altitude to the other in one switch.
pub open spec fn altitudes_adjacent(a: HeliAlt, b: HeliAlt) -> bool {
    a != b && (a == HeliAlt::Low || b == HeliAlt::Low)
}

impl HeliAlt {
    /// Reads the altitude of a `switch_altitude` order.
    pub fn parse(s: &str) -> (r: Option<Self>)
        ensures
            r == altitude_named(s@),
    {
        if str_eq(s, "high") {
            Some(HeliAlt::High)
        } else if str_eq(s, "low") {
            Some(HeliAlt::Low)
        } else if str_eq(s, "very_low") {
            Some(HeliAlt::VeryLow)
        } else {
            None
        }
    }

    /// A switch is allowed between neighbouring altitudes only.
    pub fn adjacent(self, other: Self) -> (r: bool)
        ensures
            r == altitudes_adjacent(self, other),
    {
        match (self, other) {
            (HeliAlt::High, HeliAlt::Low) => true,
            (HeliAlt::Low, HeliAlt::High) => true,
            (HeliAlt::Low, HeliAlt::VeryLow) => true,
            (HeliAlt::VeryLow, HeliAlt::Low) => true,
            _ => false,
        }
    }

    pub fn is_low(&self) -> (r: bool)
        ensures
            r == (*self == HeliAlt::Low),
    {
        matches!(self, HeliAlt::Low)
    }
}

/// A unit's posture. `Half`, `Charge1` and `Charge2` hold for the length of one move; `March` is
/// the road mode of vehicles.
#[derive(Debug, Clone, Copy, PartialEq, Eq, Structural)]
pub enum UnitState {
    Normal,
    Moving,
    Stopped,
    Cover,
    March,
    Suppressed,
    Charge1,
    Charge2,
    Half,
}

#[derive(Debug, Clone)]
pub struct ScenarioUnit {
    pub id: String,
    pub unit_type: UnitType,
    pub armor: Option<Armor>,
    pub teams: u8,
    pub at: Axial,
    pub facing: u8,
    pub state: Option<UnitState>,
    pub carried_by: Option<String>,
    /// The manned vehicle that an unmanned vehicle or an infantry guide belongs to.
    pub affiliated_to: Option<String>,
}

/// The number of teams of a unit that does not say.
pub fn one() -> (r: u8)
    ensures
        r == 1,
{
    1
}

#[derive(Debug, Clone)]
pub struct Side {
    pub name: String,
    pub units: Vec<ScenarioUnit>,
}

#[derive(Debug, Clone)]
pub struct Sides {
    pub red: Side,
    pub blue: Side,
}

#[derive(Debug, Clone)]
pub struct ControlPoint {
    pub id: String,
    pub at: Axial,
    pub owner: Option<String>,
    pub priority: Option<String>,
}

#[derive(Debug, Clone)]
pub struct Facility {
    pub kind: String,
    pub at: Axial,
    pub owner: Option<String>,
    pub armor: Option<String>,
    pub capacity: Option<u8>,
}

#[derive(Debug, Clone)]
pub struct Scenario {
    pub format: String,
    pub version: u32,
    pub name: String,
    pub map: String,
    pub rules: Option<String>,
    pub time_limit_seconds: Option<u32>,
    pub sides: Sides,
    pub objectives: Vec<ControlPoint>,
    pub facilities: Vec<Facility>,
}

// ---------- the live state ----------

#[derive(Debug, Clone, Copy, PartialEq, Eq, Structural)]
pub enum WeaponState {
    Deployed,
    Locked,
    Cooling,
}

/// A live unit. Ids are texts of type `S`: strings, or character sequences in contracts.
#[derive(Debug, Clone)]
pub struct RuntimeUnit<S = String> {
    pub id: S,
    pub side: SideId,
    pub unit_type: UnitType,
    pub armor: Armor,
    pub teams: u8,
    pub pos: Axial,
    pub facing: u8,
    pub state: UnitState,
    pub weapon_state: WeaponState,
    /// The tick at which the current transition completes; 0 if idle.
    pub busy_until: Tick,
    /// The tick until which the unit is suppressed; 0 if it is not.
    pub suppressed_until: Tick,
    pub alive: bool,
    /// The vehicle that the unit rides in. It shares the vehicle's hex and takes no order but
    /// `dismount`.
    pub carried_by: Option<S>,
    /// The manned vehicle that the unit belongs to for good. An unmanned vehicle dies with it.
    pub affiliated_to: Option<S>,
    pub heli_alt: HeliAlt,
    /// The fortification that the unit garrisons. It is hidden there and takes no order but
    /// `exit_facility`, unless the fortification can be fired out of.
    pub inside_facility: Option<S>,
    /// Infantry fatigue: 1 bars the second charge, 2 and more bar all movement.
    pub fatigue: i64,
}

/// A live unit in contracts.
pub type UnitV = RuntimeUnit<Seq<char>>;

/// What an optional text stands for.
pub open spec fn opt_text(o: Option<String>) -> Option<Seq<char>> {
    match o {
        Some(s) => Some(s@),
        None => None,
    }
}

impl View for RuntimeUnit {
    type V = UnitV;

    open spec fn view(&self) -> UnitV {
        RuntimeUnit {
            id: self.id@,
            side: self.side,
            unit_type: self.unit_type,
            armor: self.armor,
            teams: self.teams,
            pos: self.pos,
            facing: self.facing,
            state: self.state,
            weapon_state: self.weapon_state,
            busy_until: self.busy_until,
            suppressed_until: self.suppressed_until,
            alive: self.alive,
            carried_by: opt_text(self.carried_by),
            affiliated_to: opt_text(self.affiliated_to),
            heli_alt: self.heli_alt,
            inside_facility: opt_text(self.inside_facility),
            fatigue: self.fatigue,
        }
    }
}

/// Whether a unit stands on the open board, neither carried nor garrisoned.
pub open spec fn on_board(u: UnitV) -> bool {
    u.carried_by is None && u.inside_facility is None
}

/// Whether fatigue is at its resting value.
pub fn is_zero_i64(v: &i64) -> (r: bool)
    ensures
        r == (*v == 0),
{
    *v == 0
}

pub(crate) fn dup_opt(o: &Option<String>) -> (r: Option<String>)
    ensures
        opt_text(r) == opt_text(*o),
{
    match o {
        Some(s) => Some(s.clone()),
        None => None,
    }
}

/// Whether an optional text is there and is `s`.
pub(crate) fn opt_is(o: &Option<String>, s: &str) -> (r: bool)
    ensures
        r == (opt_text(*o) == Some(s@)),
{
    match o {
        Some(t) => str_eq(t.as_str(), s),
        None => false,
    }
}

impl RuntimeUnit {
    /// Whether the unit stands on the open board, neither carried nor garrisoned. Such units are
    /// the ones that observation, targeting, stacking and capture count.
    pub fn is_on_board(&self) -> (r: bool)
        ensures
            r == on_board(self@),
    {
        self.carried_by.is_none() && self.inside_facility.is_none()
    }

}

impl Dup for RuntimeUnit {
    fn dup(&self) -> (r: RuntimeUnit) {
        RuntimeUnit {
            id: self.id.clone(),
            side: self.side,
            unit_type: self.unit_type,
            armor: self.armor,
            teams: self.teams,
            pos: self.pos,
            facing: self.facing,
            state: self.state,
            weapon_state: self.weapon_state,
            busy_until: self.busy_until,
            suppressed_until: self.suppressed_until,
            alive: self.alive,
            carried_by: dup_opt(&self.carried_by),
            affiliated_to: dup_opt(&self.affiliated_to),
            heli_alt: self.heli_alt,
            inside_facility: dup_opt(&self.inside_facility),
            fatigue: self.fatigue,
        }
    }
}

/// A fortification on the board.
#[derive(Debug, Clone)]
pub struct RuntimeFacility<S = String> {
    pub id: S,
    pub kind: S,
    pub at: Axial,
    pub owner: Option<SideId>,
    /// How many teams fit inside. A vehicle fortification loses capacity when it is hit.
    pub capacity: u8,
    /// The armor that counts when the fortification itself is fired upon.
    pub armor: Armor,
}

/// A fortification in contracts.
pub type FacilityV = RuntimeFacility<Seq<char>>;

impl View for RuntimeFacility {
    type V = FacilityV;

    open spec fn view(&self) -> FacilityV {
        RuntimeFacility {
            id: self.id@,
            kind: self.kind@,
            at: self.at,
            owner: self.owner,
            capacity: self.capacity,
            armor: self.armor,
        }
    }
}

impl Dup for RuntimeFacility {
    fn dup(&self) -> (r: RuntimeFacility) {
        RuntimeFacility {
            id: self.id.clone(),
            kind: self.kind.clone(),
            at: self.at,
            owner: self.owner,
            capacity: self.capacity,
            armor: self.armor,
        }
    }
}

/// The armor of a fortification that does not say.
pub fn armor_none() -> (r: Armor)
    ensures
        r == Armor::Unarmored,
{
    Armor::Unarmored
}

/// A set of sides.
#[derive(Debug, Clone, Copy, PartialEq, Eq, Structural)]
pub struct SideSet {
    pub red: bool,
    pub blue: bool,
}

/// Whether a side is in a set.
pub open spec fn side_in(s: SideSet, side: SideId) -> bool {
    match side {
        SideId::Red => s.red,
        SideId::Blue => s.blue,
    }
}

/// A set with one side more.
pub open spec fn with_side(s: SideSet, side: SideId) -> SideSet {
    match side {
        SideId::Red => SideSet { red: true, ..s },
        SideId::Blue => SideSet { blue: true, ..s },
    }
}

impl SideSet {
    pub fn empty() -> (r: Self)
        ensures
            !r.red && !r.blue,
    {
        SideSet { red: false, blue: false }
    }

    pub fn contains(&self, side: SideId) -> (r: bool)
        ensures
            r == side_in(*self, side),
    {
        match side {
            SideId::Red => self.red,
            SideId::Blue => self.blue,
        }
    }

    pub fn insert(&mut self, side: SideId)
        ensures
            *final(self) == with_side(*old(self), side),
    {
        match side {
            SideId::Red => {
                self.red = true;
            },
            SideId::Blue => {
                self.blue = true;
            },
        }
    }
}

/// A minefield on one hex. It harms ground units of both sides.
#[derive(Debug, Clone, Copy, PartialEq, Eq, Structural)]
pub struct RuntimeMinefield {
    pub at: Axial,
    pub owner: Option<SideId>,
    /// The sides that have opened a lane through the hex.
    pub cleared_by: SideSet,
}

impl View for RuntimeMinefield {
    type V = RuntimeMinefield;

    open spec fn view(&self) -> RuntimeMinefield {
        *self
    }
}

impl Dup for RuntimeMinefield {
    fn dup(&self) -> (r: RuntimeMinefield) {
        *self
    }
}

impl Dup for Option<SideId> {
    fn dup(&self) -> (r: Option<SideId>) {
        *self
    }
}

/// The state of a match. Every collection lists its entries in key order.
pub struct State {
    pub clock: Tick,
    pub units: OrdMap<String, RuntimeUnit>,
    /// The owner of each control point; `None` while it is neutral.
    pub control: OrdMap<String, Option<SideId>>,
    pub facilities: OrdMap<String, RuntimeFacility>,
    pub minefields: OrdMap<Axial, RuntimeMinefield>,
}

/// The state of a match in contracts.
pub struct StateV {
    pub clock: Tick,
    pub units: Map<Seq<char>, UnitV>,
    pub control: Map<Seq<char>, Option<SideId>>,
    pub facilities: Map<Seq<char>, FacilityV>,
    pub minefields: Map<Axial, RuntimeMinefield>,
}

impl View for State {
    type V = StateV;

    open spec fn view(&self) -> StateV {
        StateV {
            clock: self.clock,
            units: self.units@,
            control: self.control@,
            facilities: self.facilities@,
            minefields: self.minefields@,
        }
    }
}

impl Dup for State {
    fn dup(&self) -> (r: State) {
        State {
            clock: self.clock,
            units: self.units.dup(),
            control: self.control.dup(),
            facilities: self.facilities.dup(),
            minefields: self.minefields.dup(),
        }
    }
}

/// The live units of a side.
pub open spec fn live_of(side: SideId) -> spec_fn(Seq<char>, UnitV) -> bool {
    |k: Seq<char>, u: UnitV| u.side == side && u.alive
}

impl State {
    /// The ids of the live units of a side, in order.
    pub fn units_of(&self, side: SideId) -> (r: Vec<String>)
        ensures
            crate::ordmap::views(r@) == keys_where::<String, UnitV>(self.units@, live_of(side)),
            forall|i: int| 0 <= i < r@.len() ==> self.units@.contains_key((#[trigger] r@[i])@),
    {
        let ghost p = live_of(side);
        let f = |k: &String, u: &RuntimeUnit| -> (b: bool)
            ensures b == p(k@, u@)
        {
            u.side == side && u.alive
        };
        self.units.select(f, Ghost(p))
    }
}

} // verus!
