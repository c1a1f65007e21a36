//! What a side sees: its own units in full, and of the enemy only what it observes.
use crate::engine::model as m;
use crate::engine::model::{EngineV, Id};
use crate::engine::orders::fires_out;
use crate::engine::Engine;
use crate::hex::{steps, Axial};
use crate::mechanics;
use crate::mechanics::{
    altitude_levels, fort_named, fort_range, ground, halved, in_sight, observes, space_track,
    terrain_of, type_key, FortKind,
};
use crate::ordmap::{keys_where, some_entry, views};
use crate::rules::{at, setting};
use crate::time::Tick;
use crate::types::{
    dup_opt, live_of, on_board, opt_is, opt_text, ControlPoint, FacilityV, HeliAlt, RuntimeFacility,
    RuntimeMinefield, RuntimeUnit, SideId, Terrain, UnitState, UnitType, UnitV, WeaponState,
};
use vstd::prelude::*;

verus! {

/// A unit as its own side sees it.
#[derive(Debug, Clone)]
pub struct OwnUnit<S = String> {
    pub id: S,
    pub unit_type: UnitType,
    pub at: Axial,
    pub teams: u8,
    pub facing: u8,
    pub state: UnitState,
    pub weapon_state: WeaponState,
    /// The ticks until it is free.
    pub busy_for: Tick,
    pub mounted_in: Option<S>,
    /// For a transport helicopter.
    pub altitude: Option<HeliAlt>,
    pub inside_facility: Option<S>,
    /// Where there is any.
    pub fatigue: Option<i64>,
}

/// An enemy unit as far as it is seen.
#[derive(Debug, Clone)]
pub struct Contact<S = String> {
    pub id: S,
    pub unit_type: UnitType,
    pub at: Axial,
    /// Tracked from space and not observed.
    pub space_track: bool,
}

/// A control point with its present owner, which both sides know.
#[derive(Debug, Clone)]
pub struct Objective<S = String> {
    pub id: S,
    pub at: Axial,
    pub owner: Option<SideId>,
    pub priority: Option<S>,
}

/// A fortification that the side may use, with the teams that it has inside.
#[derive(Debug, Clone)]
pub struct Works<S = String> {
    pub id: S,
    pub kind: S,
    pub at: Axial,
    pub capacity: u8,
    pub occupant_squads: u32,
}

/// An enemy fortification that is seen. What is inside is not.
#[derive(Debug, Clone)]
pub struct EnemyWorks<S = String> {
    pub id: S,
    pub kind: S,
    pub at: Axial,
}

/// All that a side sees.
#[derive(Debug, Clone)]
pub struct Observation {
    pub clock: Tick,
    pub side: SideId,
    pub own_units: Vec<OwnUnit>,
    pub enemy_units: Vec<Contact>,
    pub objectives: Vec<Objective>,
    pub facilities: Vec<Works>,
    pub enemy_fortifications: Vec<EnemyWorks>,
    pub minefields: Vec<Axial>,
}

/// All that a side sees, in contracts.
pub struct ObservationV {
    pub clock: Tick,
    pub side: SideId,
    pub own_units: Seq<OwnUnit<Id>>,
    pub enemy_units: Seq<Contact<Id>>,
    pub objectives: Seq<Objective<Id>>,
    pub facilities: Seq<Works<Id>>,
    pub enemy_fortifications: Seq<EnemyWorks<Id>>,
    pub minefields: Seq<Axial>,
}

impl View for OwnUnit {
    type V = OwnUnit<Id>;

    open spec fn view(&self) -> OwnUnit<Id> {
        OwnUnit {
            id: self.id@,
            unit_type: self.unit_type,
            at: self.at,
            teams: self.teams,
            facing: self.facing,
            state: self.state,
            weapon_state: self.weapon_state,
            busy_for: self.busy_for,
            mounted_in: opt_text(self.mounted_in),
            altitude: self.altitude,
            inside_facility: opt_text(self.inside_facility),
            fatigue: self.fatigue,
        }
    }
}

impl View for Contact {
    type V = Contact<Id>;

    open spec fn view(&self) -> Contact<Id> {
        Contact {
            id: self.id@,
            unit_type: self.unit_type,
            at: self.at,
            space_track: self.space_track,
        }
    }
}

impl View for Objective {
    type V = Objective<Id>;

    open spec fn view(&self) -> Objective<Id> {
        Objective {
            id: self.id@,
            at: self.at,
            owner: self.owner,
            priority: opt_text(self.priority),
        }
    }
}

impl View for Works {
    type V = Works<Id>;

    open spec fn view(&self) -> Works<Id> {
        Works {
            id: self.id@,
            kind: self.kind@,
            at: self.at,
            capacity: self.capacity,
            occupant_squads: self.occupant_squads,
        }
    }
}

impl View for EnemyWorks {
    type V = EnemyWorks<Id>;

    open spec fn view(&self) -> EnemyWorks<Id> {
        EnemyWorks { id: self.id@, kind: self.kind@, at: self.at }
    }
}

impl View for Observation {
    type V = ObservationV;

    open spec fn view(&self) -> ObservationV {
        ObservationV {
            clock: self.clock,
            side: self.side,
            own_units: views(self.own_units@),
            enemy_units: views(self.enemy_units@),
            objectives: views(self.objectives@),
            facilities: views(self.facilities@),
            enemy_fortifications: views(self.enemy_fortifications@),
            minefields: self.minefields@,
        }
    }
}

/// A unit type as observations name it.
pub fn unit_type_str(t: UnitType) -> (r: &'static str)
    ensures
        r@ == type_key(t),
{
    mechanics::unit_type_key(t)
}

// ---------- own units ----------

/// The ticks from the clock to `t`; none if it is past.
pub open spec fn ticks_until(t: Tick, clock: Tick) -> Tick {
    if t <= clock {
        0
    } else if t - clock > i64::MAX {
        i64::MAX
    } else {
        (t - clock) as i64
    }
}

/// A unit as its own side sees it.
pub open spec fn own_view(u: UnitV, clock: Tick) -> OwnUnit<Id> {
    OwnUnit {
        id: u.id,
        unit_type: u.unit_type,
        at: u.pos,
        teams: u.teams,
        facing: u.facing,
        state: u.state,
        weapon_state: u.weapon_state,
        busy_for: ticks_until(u.busy_until, clock),
        mounted_in: u.carried_by,
        altitude: if u.unit_type == UnitType::TransportHeli {
            Some(u.heli_alt)
        } else {
            None
        },
        inside_facility: u.inside_facility,
        fatigue: if u.fatigue > 0 {
            Some(u.fatigue)
        } else {
            None
        },
    }
}

/// The units of a side as it sees them, in order of id.
pub open spec fn own_list(e: EngineV, side: SideId) -> Seq<OwnUnit<Id>> {
    keys_where::<String, UnitV>(e.units, live_of(side)).map_values(
        |k: Id| own_view(e.units[k], e.clock),
    )
}

// ---------- the enemy ----------

/// Whether a unit looks out: it is on the board, or in a fortification that can be fired out of.
pub open spec fn looks_out(e: EngineV, u: UnitV) -> bool {
    on_board(u) || match u.inside_facility {
        Some(fac) => fires_out(e, fac),
        None => false,
    }
}

/// A live unit of `side` that looks out and observes `target`.
pub open spec fn observer_of(e: EngineV, side: SideId, target: UnitV) -> spec_fn(Id, UnitV) -> bool {
    |k: Id, o: UnitV|
        o.side == side && o.alive && looks_out(e, o) && observes(e.rules, e.map, o, target)
}

/// A live enemy of `side` on the board that some unit of `side` observes.
pub open spec fn seen_by(e: EngineV, side: SideId) -> spec_fn(Id, UnitV) -> bool {
    |k: Id, u: UnitV|
        u.side != side && u.alive && on_board(u) && some_entry(e.units, observer_of(e, side, u))
}

/// An enemy as far as it is seen.
pub open spec fn contact_of(u: UnitV, space: bool) -> Contact<Id> {
    Contact { id: u.id, unit_type: u.unit_type, at: u.pos, space_track: space }
}

/// The enemies that a side observes, in order of id.
pub open spec fn observed_ids(e: EngineV, side: SideId) -> Seq<Id> {
    keys_where::<String, UnitV>(e.units, seen_by(e, side))
}

/// The enemies that a side tracks from space without observing them, in order of id.
pub open spec fn tracked_ids(e: EngineV, side: SideId) -> Seq<Id> {
    space_track(e.units, side).filter(|k: Id| !seen_by(e, side)(k, e.units[k]))
}

/// The enemies that a side knows of: first those that it observes, then those tracked from space.
pub open spec fn contact_list(e: EngineV, side: SideId) -> Seq<Contact<Id>> {
    observed_ids(e, side).map_values(|k: Id| contact_of(e.units[k], false)) + tracked_ids(
        e,
        side,
    ).map_values(|k: Id| contact_of(e.units[k], true))
}

// ---------- objectives, fortifications, mines ----------

/// A control point with its present owner.
pub open spec fn objective_view(e: EngineV, cp: ControlPoint) -> Objective<Id> {
    Objective {
        id: cp.id@,
        at: cp.at,
        owner: match at(e.control, cp.id@) {
            Some(o) => o,
            None => None,
        },
        priority: opt_text(cp.priority),
    }
}

/// The control points.
pub open spec fn objective_list(e: EngineV) -> Seq<Objective<Id>> {
    e.scenario.objectives@.map_values(|cp: ControlPoint| objective_view(e, cp))
}

/// A live unit of `side` in a fortification.
pub open spec fn own_inside(fac: Id, side: SideId) -> spec_fn(Id, UnitV) -> bool {
    |k: Id, u: UnitV| u.alive && u.side == side && u.inside_facility == Some(fac)
}

/// A sum of teams as a `u32`.
pub open spec fn team_count(n: int) -> u32 {
    if n > u32::MAX {
        u32::MAX
    } else {
        n as u32
    }
}

/// A fortification that `side` may use, with the teams that the side itself has inside.
pub open spec fn works_view(e: EngineV, f: FacilityV, side: SideId) -> Works<Id> {
    Works {
        id: f.id,
        kind: f.kind,
        at: f.at,
        capacity: f.capacity,
        occupant_squads: team_count(
            m::teams_of(e.units, keys_where::<String, UnitV>(e.units, own_inside(f.id, side))),
        ),
    }
}

/// A fortification of `side` or of nobody.
pub open spec fn usable_by(side: SideId) -> spec_fn(Id, FacilityV) -> bool {
    |k: Id, f: FacilityV| f.owner is None || f.owner == Some(side)
}

/// The fortifications that a side may use.
pub open spec fn works_list(e: EngineV, side: SideId) -> Seq<Works<Id>> {
    keys_where::<String, FacilityV>(e.facilities, usable_by(side)).map_values(
        |k: Id| works_view(e, e.facilities[k], side),
    )
}

/// A live unit of `side` that looks out and sees `hex` from within `range`.
pub open spec fn sees_within(e: EngineV, side: SideId, hex: Axial, range: int) -> spec_fn(
    Id,
    UnitV,
) -> bool {
    |k: Id, o: UnitV|
        o.side == side && o.alive && looks_out(e, o) && steps(o.pos, hex) <= range && in_sight(
            e.map,
            o.pos,
            hex,
            altitude_levels(e.rules, e.map, o),
            0,
        )
}

/// The range at which a fortification is seen.
pub open spec fn works_range(e: EngineV, f: FacilityV) -> int {
    match fort_named(f.kind) {
        Some(kind) => fort_range(
            kind,
            match setting(e.rules.fortification, "exposed_range_hexes"@) {
                Some(n) => n as int,
                None => 0,
            },
        ),
        None => 0,
    }
}

/// Whether a side sees a fortification.
pub open spec fn works_seen(e: EngineV, f: FacilityV, side: SideId) -> bool {
    works_range(e, f) > 0 && some_entry(e.units, sees_within(e, side, f.at, works_range(e, f)))
}

/// An enemy fortification that `side` sees.
pub open spec fn enemy_works(e: EngineV, side: SideId) -> spec_fn(Id, FacilityV) -> bool {
    |k: Id, f: FacilityV| f.owner is Some && f.owner != Some(side) && works_seen(e, f, side)
}

/// The enemy fortifications that a side sees.
pub open spec fn enemy_works_list(e: EngineV, side: SideId) -> Seq<EnemyWorks<Id>> {
    keys_where::<String, FacilityV>(e.facilities, enemy_works(e, side)).map_values(
        |k: Id|
            EnemyWorks {
                id: e.facilities[k].id,
                kind: e.facilities[k].kind,
                at: e.facilities[k].at,
            },
    )
}

/// A live ground unit of `side` on the board that sees `hex` from within `range`.
pub open spec fn spots_mines(e: EngineV, side: SideId, hex: Axial, range: int) -> spec_fn(Id, UnitV) -> bool {
    |k: Id, o: UnitV|
        o.side == side && o.alive && on_board(o) && ground(o.unit_type) && steps(o.pos, hex)
            <= range && in_sight(e.map, o.pos, hex, altitude_levels(e.rules, e.map, o), 0)
}

/// The range at which minefields in the open are seen.
pub open spec fn mine_range(e: EngineV) -> int {
    match setting(e.rules.minefield, "observe_range_hexes"@) {
        Some(n) => n as int,
        None => 0,
    }
}

/// The range at which a minefield at `hex` is seen: towns and woods halve it.
pub open spec fn mine_range_at(e: EngineV, hex: Axial) -> int {
    let t = terrain_of(e.map, hex);
    if t == Some(Terrain::Urban) || t == Some(Terrain::Forest) {
        halved(mine_range(e))
    } else {
        mine_range(e)
    }
}

/// A minefield that `side` laid or sees.
pub open spec fn known_mines(e: EngineV, side: SideId) -> spec_fn(Axial, RuntimeMinefield) -> bool {
    |k: Axial, f: RuntimeMinefield|
        f.owner == Some(side) || some_entry(
            e.units,
            spots_mines(e, side, f.at, mine_range_at(e, f.at)),
        )
}

/// The hexes of the minefields that a side knows of.
pub open spec fn mine_list(e: EngineV, side: SideId) -> Seq<Axial> {
    keys_where::<Axial, RuntimeMinefield>(e.minefields, known_mines(e, side)).map_values(
        |k: Axial| e.minefields[k].at,
    )
}

/// All that a side sees.
pub open spec fn observation(e: EngineV, side: SideId) -> ObservationV {
    ObservationV {
        clock: e.clock,
        side,
        own_units: own_list(e, side),
        enemy_units: contact_list(e, side),
        objectives: objective_list(e),
        facilities: works_list(e, side),
        enemy_fortifications: enemy_works_list(e, side),
        minefields: mine_list(e, side),
    }
}

impl Engine {
    fn own_units(&self, side: SideId) -> (r: Vec<OwnUnit>)
        ensures
            views(r@) == own_list(self@, side),
    {
        let ids: Vec<String> = self.state.units_of(side);
        let ghost ks = views(ids@);
        let ghost f = |k: Id| own_view(self@.units[k], self@.clock);
        let mut out: Vec<OwnUnit> = Vec::new();
        let mut i: usize = 0;
        while i < ids.len()
            invariant
                i <= ids@.len(),
                ks == views(ids@),
                f == (|k: Id| own_view(self@.units[k], self@.clock)),
                forall|j: int|
                    0 <= j < ids@.len() ==> self@.units.contains_key((#[trigger] ids@[j])@),
                views(out@) =~= ks.take(i as int).map_values(f),
            decreases ids@.len() - i,
        {
            let ghost was = views(out@);
            assert(ks[i as int] == ids@[i as int]@);
            match self.state.units.get(&ids[i]) {
                Some(u) => {
                    let clock: Tick = self.state.clock;
                    let busy_for: Tick = if u.busy_until <= clock {
                        0
                    } else if u.busy_until as i128 - clock as i128 > i64::MAX as i128 {
                        i64::MAX
                    } else {
                        (u.busy_until as i128 - clock as i128) as i64
                    };
                    let own: OwnUnit = OwnUnit {
                        id: u.id.clone(),
                        unit_type: u.unit_type,
                        at: u.pos,
                        teams: u.teams,
                        facing: u.facing,
                        state: u.state,
                        weapon_state: u.weapon_state,
                        busy_for,
                        mounted_in: dup_opt(&u.carried_by),
                        altitude: if u.unit_type == UnitType::TransportHeli {
                            Some(u.heli_alt)
                        } else {
                            None
                        },
                        inside_facility: dup_opt(&u.inside_facility),
                        fatigue: if u.fatigue > 0 { Some(u.fatigue) } else { None },
                    };
                    out.push(own);
                    proof {
                        assert(views(out@) =~= was.push(own@));
                        assert(own@ == f(ks[i as int]));
                    }
                },
                None => {},
            }
            proof {
                assert(ks.take(i + 1) =~= ks.take(i as int).push(ks[i as int]));
                assert(ks.take(i + 1).map_values(f) =~= ks.take(i as int).map_values(f).push(
                    f(ks[i as int]),
                ));
            }
            i += 1;
        }
        proof {
            assert(ks.take(ks.len() as int) =~= ks);
        }
        out
    }

    /// Whether a garrison may fire and look out.
    fn garrison_can_fire_out(&self, u: &RuntimeUnit) -> (r: bool)
        ensures
            on_board(u@) || r == looks_out(self@, u@),
    {
        match &u.inside_facility {
            Some(fac) => match self.state.facilities.get(fac) {
                Some(f) => match FortKind::from_facility_kind(f.kind.as_str()) {
                    Some(kind) => mechanics::fortification_can_engage(kind),
                    None => false,
                },
                None => false,
            },
            None => false,
        }
    }

    fn looks_out(&self, u: &RuntimeUnit) -> (r: bool)
        ensures
            r == looks_out(self@, u@),
    {
        u.is_on_board() || self.garrison_can_fire_out(u)
    }

    fn is_seen(&self, side: SideId, u: &RuntimeUnit) -> (r: bool)
        ensures
            forall|k: Id| r == #[trigger] seen_by(self@, side)(k, u@),
    {
        if !(u.side != side && u.alive && u.is_on_board()) {
            return false;
        }
        let ghost p = observer_of(self@, side, u@);
        let f = |k: &String, o: &RuntimeUnit| -> (b: bool)
            ensures b == p(k@, o@)
        {
            o.side == side && o.alive && self.looks_out(o) && mechanics::can_observe(
                &self.rules,
                &self.map,
                o,
                u,
            )
        };
        self.state.units.any(f, Ghost(p))
    }

    fn push_contacts(&self, out: &mut Vec<Contact>, ids: &Vec<String>, space: bool)
        requires
            forall|j: int| 0 <= j < ids@.len() ==> self@.units.contains_key((#[trigger] ids@[j])@),
        ensures
            views(final(out)@) == views(old(out)@) + views(ids@).map_values(
                |k: Id| contact_of(self@.units[k], space),
            ),
    {
        let ghost ks = views(ids@);
        let ghost f = |k: Id| contact_of(self@.units[k], space);
        let ghost start = views(out@);
        let mut i: usize = 0;
        proof {
            assert(views(out@) =~= start + ks.take(0).map_values(f));
        }
        while i < ids.len()
            invariant
                i <= ids@.len(),
                ks == views(ids@),
                f == (|k: Id| contact_of(self@.units[k], space)),
                forall|j: int|
                    0 <= j < ids@.len() ==> self@.units.contains_key((#[trigger] ids@[j])@),
                views(out@) == start + ks.take(i as int).map_values(f),
            decreases ids@.len() - i,
        {
            let ghost was = views(out@);
            assert(ks[i as int] == ids@[i as int]@);
            match self.state.units.get(&ids[i]) {
                Some(u) => {
                    let c: Contact = Contact {
                        id: u.id.clone(),
                        unit_type: u.unit_type,
                        at: u.pos,
                        space_track: space,
                    };
                    out.push(c);
                    proof {
                        assert(views(out@) =~= was.push(c@));
                        assert(c@ == f(ks[i as int]));
                    }
                },
                None => {},
            }
            proof {
                assert(ks.take(i + 1) =~= ks.take(i as int).push(ks[i as int]));
                assert(start + ks.take(i + 1).map_values(f) =~= was.push(f(ks[i as int])));
            }
            i += 1;
        }
        proof {
            assert(ks.take(ks.len() as int) =~= ks);
        }
    }

    fn space_tracks(&self, side: SideId) -> (r: Vec<String>)
        ensures
            views(r@) == tracked_ids(self@, side),
            forall|j: int| 0 <= j < r@.len() ==> self@.units.contains_key((#[trigger] r@[j])@),
    {
        let ids: Vec<String> = mechanics::space_recon_reveals(&self.state, side);
        let ghost ks = views(ids@);
        let ghost q = |k: Id| !seen_by(self@, side)(k, self@.units[k]);
        let mut out: Vec<String> = Vec::new();
        let mut i: usize = 0;
        proof {
            reveal(Seq::filter);
            assert(views(out@) =~= ks.take(0).filter(q));
        }
        while i < ids.len()
            invariant
                i <= ids@.len(),
                ks == views(ids@),
                q == (|k: Id| !seen_by(self@, side)(k, self@.units[k])),
                forall|j: int|
                    0 <= j < ids@.len() ==> self@.units.contains_key((#[trigger] ids@[j])@),
                forall|j: int|
                    0 <= j < out@.len() ==> self@.units.contains_key((#[trigger] out@[j])@),
                views(out@) == ks.take(i as int).filter(q),
            decreases ids@.len() - i,
        {
            proof {
                reveal(Seq::filter);
                let t = ks.take(i + 1);
                assert(t.drop_last() =~= ks.take(i as int));
                assert(t.last() == ids@[i as int]@);
            }
            match self.state.units.get(&ids[i]) {
                Some(u) => {
                    if !self.is_seen(side, u) {
                        let ghost was = out@;
                        out.push(ids[i].clone());
                        proof {
                            assert(views(out@) =~= views(was).push(ids@[i as int]@));
                        }
                    }
                },
                None => {},
            }
            i += 1;
        }
        proof {
            assert(ks.take(ks.len() as int) =~= ks);
        }
        out
    }

    fn contacts(&self, side: SideId) -> (r: Vec<Contact>)
        ensures
            views(r@) == contact_list(self@, side),
    {
        let ghost p = seen_by(self@, side);
        let f = |k: &String, u: &RuntimeUnit| -> (b: bool)
            ensures b == p(k@, u@)
        {
            self.is_seen(side, u)
        };
        let seen: Vec<String> = self.state.units.select(f, Ghost(p));
        let mut out: Vec<Contact> = Vec::new();
        self.push_contacts(&mut out, &seen, false);
        let tracks: Vec<String> = self.space_tracks(side);
        self.push_contacts(&mut out, &tracks, true);
        proof {
            assert(views(out@) =~= contact_list(self@, side));
        }
        out
    }

    fn objectives(&self) -> (r: Vec<Objective>)
        ensures
            views(r@) == objective_list(self@),
    {
        let points: &Vec<ControlPoint> = &self.scenario.objectives;
        let mut out: Vec<Objective> = Vec::new();
        let mut i: usize = 0;
        while i < points.len()
            invariant
                i <= points@.len(),
                points@ == self@.scenario.objectives@,
                out@.len() == i,
                forall|j: int|
                    0 <= j < i ==> (#[trigger] out@[j])@ == objective_view(self@, points@[j]),
            decreases points@.len() - i,
        {
            let cp: &ControlPoint = &points[i];
            out.push(
                Objective {
                    id: cp.id.clone(),
                    at: cp.at,
                    owner: match self.state.control.get(&cp.id) {
                        Some(o) => *o,
                        None => None,
                    },
                    priority: dup_opt(&cp.priority),
                },
            );
            i += 1;
        }
        proof {
            assert(views(out@) =~= objective_list(self@));
        }
        out
    }

    fn squads_inside(&self, fac: &String, side: SideId) -> (r: u32)
        ensures
            r == team_count(
                m::teams_of(
                    self@.units,
                    keys_where::<String, UnitV>(self@.units, own_inside(fac@, side)),
                ),
            ),
    {
        let ghost p = own_inside(fac@, side);
        let f = |k: &String, u: &RuntimeUnit| -> (b: bool)
            ensures b == p(k@, u@)
        {
            u.alive && u.side == side && opt_is(&u.inside_facility, fac.as_str())
        };
        let ids: Vec<String> = self.state.units.select(f, Ghost(p));
        let n: u128 = self.teams_of(&ids);
        if n > u32::MAX as u128 {
            u32::MAX
        } else {
            n as u32
        }
    }

    fn usable_works(&self, side: SideId) -> (r: Vec<Works>)
        ensures
            views(r@) == works_list(self@, side),
    {
        let ghost p = usable_by(side);
        let f = |k: &String, w: &RuntimeFacility| -> (b: bool)
            ensures b == p(k@, w@)
        {
            match w.owner {
                Some(o) => o == side,
                None => true,
            }
        };
        let ids: Vec<String> = self.state.facilities.select(f, Ghost(p));
        let ghost ks = views(ids@);
        let mut out: Vec<Works> = Vec::new();
        let mut i: usize = 0;
        while i < ids.len()
            invariant
                i <= ids@.len(),
                ks == views(ids@),
                out@.len() == i,
                forall|j: int|
                    0 <= j < ids@.len() ==> self@.facilities.contains_key((#[trigger] ids@[j])@),
                forall|j: int|
                    0 <= j < i ==> (#[trigger] out@[j])@ == works_view(
                        self@,
                        self@.facilities[ks[j]],
                        side,
                    ),
            decreases ids@.len() - i,
        {
            assert(ks[i as int] == ids@[i as int]@);
            match self.state.facilities.get(&ids[i]) {
                Some(w) => {
                    out.push(
                        Works {
                            id: w.id.clone(),
                            kind: w.kind.clone(),
                            at: w.at,
                            capacity: w.capacity,
                            occupant_squads: self.squads_inside(&w.id, side),
                        },
                    );
                },
                None => {
                    assert(false);
                    return out;
                },
            }
            i += 1;
        }
        proof {
            assert(views(out@) =~= works_list(self@, side));
        }
        out
    }

    /// Whether a side sees a fortification.
    fn facility_observed_by(&self, w: &RuntimeFacility, side: SideId) -> (r: bool)
        ensures
            r == works_seen(self@, w@, side),
    {
        let kind: FortKind = match FortKind::from_facility_kind(w.kind.as_str()) {
            Some(k) => k,
            None => return false,
        };
        let exposed: i64 = match self.rules.fortification_exposed_range() {
            Some(n) => n,
            None => 0,
        };
        let range: i64 = mechanics::fortification_observe_range(kind, exposed);
        if range <= 0 {
            return false;
        }
        let hex: Axial = w.at;
        let ghost p = sees_within(self@, side, hex, range as int);
        let f = |k: &String, o: &RuntimeUnit| -> (b: bool)
            ensures b == p(k@, o@)
        {
            o.side == side && o.alive && self.looks_out(o) && o.pos.distance(&hex) as i64 <= range
                && mechanics::line_of_sight_alt(
                &self.map,
                &o.pos,
                &hex,
                mechanics::air_altitude_levels(&self.rules, &self.map, o),
                0,
            )
        };
        self.state.units.any(f, Ghost(p))
    }

    fn enemy_works(&self, side: SideId) -> (r: Vec<EnemyWorks>)
        ensures
            views(r@) == enemy_works_list(self@, side),
    {
        let ghost p = enemy_works(self@, side);
        let f = |k: &String, w: &RuntimeFacility| -> (b: bool)
            ensures b == p(k@, w@)
        {
            let hostile: bool = match w.owner {
                Some(o) => o != side,
                None => false,
            };
            hostile && self.facility_observed_by(w, side)
        };
        let ids: Vec<String> = self.state.facilities.select(f, Ghost(p));
        let ghost ks = views(ids@);
        let mut out: Vec<EnemyWorks> = Vec::new();
        let mut i: usize = 0;
        while i < ids.len()
            invariant
                i <= ids@.len(),
                ks == views(ids@),
                out@.len() == i,
                forall|j: int|
                    0 <= j < ids@.len() ==> self@.facilities.contains_key((#[trigger] ids@[j])@),
                forall|j: int|
                    0 <= j < i ==> (#[trigger] out@[j])@ == (EnemyWorks {
                        id: self@.facilities[ks[j]].id,
                        kind: self@.facilities[ks[j]].kind,
                        at: self@.facilities[ks[j]].at,
                    }),
            decreases ids@.len() - i,
        {
            assert(ks[i as int] == ids@[i as int]@);
            match self.state.facilities.get(&ids[i]) {
                Some(w) => {
                    out.push(EnemyWorks { id: w.id.clone(), kind: w.kind.clone(), at: w.at });
                },
                None => {
                    assert(false);
                    return out;
                },
            }
            i += 1;
        }
        proof {
            assert(views(out@) =~= enemy_works_list(self@, side));
        }
        out
    }

    fn mines_spotted(&self, side: SideId, hex: Axial, range: i64) -> (r: bool)
        ensures
            r == some_entry(self@.units, spots_mines(self@, side, hex, range as int)),
    {
        let ghost p = spots_mines(self@, side, hex, range as int);
        let f = |k: &String, o: &RuntimeUnit| -> (b: bool)
            ensures b == p(k@, o@)
        {
            o.side == side && o.alive && o.is_on_board() && mechanics::is_ground(o.unit_type)
                && o.pos.distance(&hex) as i64 <= range && mechanics::line_of_sight_alt(
                &self.map,
                &o.pos,
                &hex,
                mechanics::air_altitude_levels(&self.rules, &self.map, o),
                0,
            )
        };
        self.state.units.any(f, Ghost(p))
    }

    fn mine_range_at(&self, hex: &Axial) -> (r: i64)
        ensures
            r == mine_range_at(self@, *hex),
    {
        let range: i64 = match self.rules.minefield_observe_range() {
            Some(n) => n,
            None => 0,
        };
        match mechanics::terrain_at(&self.map, hex) {
            Some(Terrain::Urban) | Some(Terrain::Forest) => mechanics::half_of(range),
            _ => range,
        }
    }

    fn known_mines(&self, side: SideId) -> (r: Vec<Axial>)
        ensures
            r@ == mine_list(self@, side),
    {
        let ghost p = known_mines(self@, side);
        let f = |k: &Axial, w: &RuntimeMinefield| -> (b: bool)
            ensures b == p(k@, w@)
        {
            let mine: bool = match w.owner {
                Some(o) => o == side,
                None => false,
            };
            mine || self.mines_spotted(side, w.at, self.mine_range_at(&w.at))
        };
        let ids: Vec<Axial> = self.state.minefields.select(f, Ghost(p));
        let ghost ks = views(ids@);
        let mut out: Vec<Axial> = Vec::new();
        let mut i: usize = 0;
        while i < ids.len()
            invariant
                i <= ids@.len(),
                ks == views(ids@),
                out@.len() == i,
                forall|j: int|
                    0 <= j < ids@.len() ==> self@.minefields.contains_key((#[trigger] ids@[j])@),
                forall|j: int| 0 <= j < i ==> #[trigger] out@[j] == self@.minefields[ks[j]].at,
            decreases ids@.len() - i,
        {
            assert(ks[i as int] == ids@[i as int]@);
            match self.state.minefields.get(&ids[i]) {
                Some(w) => {
                    out.push(w.at);
                },
                None => {
                    assert(false);
                    return out;
                },
            }
            i += 1;
        }
        proof {
            assert(out@ =~= mine_list(self@, side));
        }
        out
    }

    /// What a side sees.
    pub fn observe(&self, side: SideId) -> (r: Observation)
        ensures
            r@ == observation(self@, side),
    {
        Observation {
            clock: self.state.clock,
            side,
            own_units: self.own_units(side),
            enemy_units: self.contacts(side),
            objectives: self.objectives(),
            facilities: self.usable_works(side),
            enemy_fortifications: self.enemy_works(side),
            minefields: self.known_mines(side),
        }
    }
}

} // verus!
