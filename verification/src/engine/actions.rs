//! The other orders: capture, radar, altitude, boarding, fortifications, mines, merging and
//! splitting, indirect fire and launches.
use crate::combat::IndirectBase;
use crate::engine::effects::bump;
use crate::engine::model as m;
use crate::engine::model::{
    refused, AggSplitInTransit, AggSplitKind, Done, EngineV, Event, Id, IndirectPlan, MountInTransit,
    MountKind, PlanV,
};
use crate::engine::orders::{
    busy, busy_error, free_id, garrison_error, garrisoned, hex_in, id_of, idle_id, march_error,
    marching, mounted, no_unit, own, own_id, parse_axial, text_in, text_under, unit_id,
};
use crate::engine::Engine;
use crate::error::{command, command2, res, rules_error, EngineError, ErrV};
use crate::hex::{steps, Axial};
use crate::json::{field, jget, jnat, nat_of, val, Json};
use crate::mechanics;
use crate::mechanics::{
    aggregates, captures, contests, fort_admits, fort_named, halves, merged, personnel, stack_room,
    terrain_of, FortKind,
};
use crate::ordmap::{keys_where, some_entry, views};
use crate::rules::{at, setting};
use crate::time::{later, next, next_of, tick_sum, Tick};
use crate::types::{
    altitude_named, altitudes_adjacent, cell_at, dup_opt, opt_is, ControlPoint, FacilityV, HeliAlt,
    RuntimeFacility, RuntimeUnit, SideId, Terrain, UnitState, UnitType, UnitV,
};
use vstd::prelude::*;
use vstd::string::*;

verus! {

// ---------- capture ----------

/// The first control point at a hex.
pub open spec fn objective_at(points: Seq<ControlPoint>, pos: Axial) -> Option<ControlPoint>
    decreases points.len(),
{
    if points.len() == 0 {
        None
    } else if points[0].at == pos {
        Some(points[0])
    } else {
        objective_at(points.drop_first(), pos)
    }
}

/// `capture`: a ground unit on a control point takes it at once, if no enemy ground unit is near.
pub open spec fn do_capture(e: EngineV, side: SideId, cmd: Json, t: Tick) -> Done {
    match free_id(e, side, cmd) {
        Err(x) => (e, Err(x)),
        Ok(id) => {
            let u = e.units[id];
            if !captures(u.unit_type) {
                refused(e, "air units and artillery cannot capture (三.5c)"@)
            } else {
                match objective_at(e.scenario.objectives@, u.pos) {
                    None => refused(e, "not on a control point"@),
                    Some(cp) => match setting(e.rules.control, "capture_no_enemy_radius_hexes"@) {
                        None => (
                            e,
                            Err(
                                EngineError::Rules(
                                    "missing control.capture_no_enemy_radius_hexes"@,
                                ),
                            ),
                        ),
                        Some(radius) => if some_entry(e.units, contests(side, cp.at, radius)) {
                            refused(e, "control point contested by enemy ground units (三.5a)"@)
                        } else {
                            (
                                EngineV { control: e.control.insert(cp.id@, Some(side)), ..e },
                                Ok(()),
                            )
                        },
                    },
                }
            }
        },
    }
}

impl Engine {
    fn objective_at(&self, pos: Axial) -> (r: Option<&ControlPoint>)
        ensures
            val(r) == objective_at(self@.scenario.objectives@, pos),
    {
        let points: &Vec<ControlPoint> = &self.scenario.objectives;
        let mut i: usize = 0;
        proof {
            assert(points@.skip(0) =~= points@);
        }
        while i < points.len()
            invariant
                i <= points@.len(),
                objective_at(points@, pos) == objective_at(points@.skip(i as int), pos),
                points@ == self@.scenario.objectives@,
            decreases points@.len() - i,
        {
            let ghost rest = points@.skip(i as int);
            assert(rest[0] == points@[i as int]);
            assert(rest.drop_first() =~= points@.skip(i + 1));
            if points[i].at == pos {
                return Some(&points[i]);
            }
            i += 1;
        }
        None
    }

    pub(crate) fn op_capture(&mut self, side: SideId, cmd: &Json, t: Tick) -> (r: Result<
        (),
        EngineError,
    >)
        ensures
            ({
                let d = do_capture(old(self)@, side, *cmd, t);
                final(self).became(old(self), d.0) && res(r) == d.1
            }),
    {
        let id: String = match self.free_id(side, cmd) {
            Ok(id) => id,
            Err(x) => return Err(x),
        };
        let (ut, pos): (UnitType, Axial) = match self.state.units.get(&id) {
            Some(u) => (u.unit_type, u.pos),
            None => return Err(command("no controllable unit")),
        };
        if !mechanics::can_capture(ut) {
            return Err(command("air units and artillery cannot capture (三.5c)"));
        }
        let (cp_id, center): (String, Axial) = match self.objective_at(pos) {
            Some(cp) => (cp.id.clone(), cp.at),
            None => return Err(command("not on a control point")),
        };
        let radius: i64 = match self.rules.capture_radius() {
            Some(n) => n,
            None => return Err(rules_error("missing control.capture_no_enemy_radius_hexes")),
        };
        if !mechanics::capture_zone_clear(&self.state, center, side, radius) {
            return Err(command("control point contested by enemy ground units (三.5a)"));
        }
        self.state.control.insert(cp_id, Some(side));
        Ok(())
    }
}

// ---------- radar ----------

/// `radar_on`: a stopped radar vehicle spins up; once it is on, all friendly salvos are spotted.
pub open spec fn do_radar_on(e: EngineV, side: SideId, cmd: Json, t: Tick) -> Done {
    match free_id(e, side, cmd) {
        Err(x) => (e, Err(x)),
        Ok(id) => {
            let u = e.units[id];
            if u.unit_type != UnitType::RadarVehicle {
                refused(e, "that unit is not a 炮兵校射雷达"@)
            } else if u.state != UnitState::Stopped {
                refused(e, "the radar must be stopped to spin up (三.19d)"@)
            } else if m::suppressed(e.units, id, t) {
                refused(e, "the radar is suppressed and cannot spin up (三.19d)"@)
            } else if e.radar_on.contains_key(id) || e.radar_spinup.contains_key(id) {
                refused(e, "the radar is already on or spinning up"@)
            } else {
                match m::need(e, "radar_spinup"@) {
                    Err(x) => (e, Err(x)),
                    Ok(d) => {
                        let done = tick_sum(t, d);
                        let gen = next_of(e.radar_gen_ctr);
                        let e1 = EngineV {
                            radar_gen_ctr: gen,
                            radar_spinup: e.radar_spinup.insert(id, gen),
                            ..e
                        };
                        (
                            m::schedule(
                                m::set_busy(e1, id, done),
                                done,
                                Event::RadarReady { vehicle: id, gen },
                            ),
                            Ok(()),
                        )
                    },
                }
            }
        },
    }
}

impl Engine {
    pub(crate) fn op_radar_on(&mut self, side: SideId, cmd: &Json, t: Tick) -> (r: Result<
        (),
        EngineError,
    >)
        ensures
            ({
                let d = do_radar_on(old(self)@, side, *cmd, t);
                final(self).became(old(self), d.0) && res(r) == d.1
            }),
    {
        let id: String = match self.free_id(side, cmd) {
            Ok(id) => id,
            Err(x) => return Err(x),
        };
        let (ut, state): (UnitType, UnitState) = match self.state.units.get(&id) {
            Some(u) => (u.unit_type, u.state),
            None => return Err(command("no controllable unit")),
        };
        if ut != UnitType::RadarVehicle {
            return Err(command("that unit is not a 炮兵校射雷达"));
        }
        if state != UnitState::Stopped {
            return Err(command("the radar must be stopped to spin up (三.19d)"));
        }
        if self.is_suppressed(&id, t) {
            return Err(command("the radar is suppressed and cannot spin up (三.19d)"));
        }
        if self.radar_on.contains_key(&id) || self.radar_spinup.contains_key(&id) {
            return Err(command("the radar is already on or spinning up"));
        }
        let d: Tick = match self.require_timing("radar_spinup") {
            Ok(d) => d,
            Err(x) => return Err(x),
        };
        let done: Tick = later(t, d);
        let gen: u64 = next(self.radar_gen_ctr);
        self.radar_gen_ctr = gen;
        self.radar_spinup.insert(id.clone(), gen);
        self.set_busy(&id, done);
        self.schedule(done, Event::RadarReady { vehicle: id, gen });
        Ok(())
    }
}

// ---------- altitude ----------

/// `switch_altitude`: a transport helicopter changes to a neighbouring altitude after a time.
pub open spec fn do_switch_altitude(e: EngineV, side: SideId, cmd: Json, t: Tick) -> Done {
    match own_id(e, side, cmd) {
        Err(x) => (e, Err(x)),
        Ok(id) => {
            let u = e.units[id];
            let to = match text_in(cmd, "altitude"@) {
                Some(s) => altitude_named(s),
                None => None,
            };
            if busy(e, id, t) {
                (e, Err(busy_error(id)))
            } else if u.unit_type != UnitType::TransportHeli {
                refused(e, "only a 运输直升机 has altitude states"@)
            } else {
                match to {
                    None => refused(e, "switch_altitude needs altitude high/low/very_low"@),
                    Some(to) => if u.heli_alt == to {
                        (e, Ok(()))
                    } else if !altitudes_adjacent(u.heli_alt, to) {
                        refused(e, "can only switch to an adjacent altitude (三.16d)"@)
                    } else {
                        match m::need(e, "heli_altitude_switch"@) {
                            Err(x) => (e, Err(x)),
                            Ok(d) => {
                                let done = tick_sum(t, d);
                                (
                                    m::schedule(
                                        m::set_busy(e, id, done),
                                        done,
                                        Event::HeliAltReady { heli: id, to },
                                    ),
                                    Ok(()),
                                )
                            },
                        }
                    },
                }
            }
        },
    }
}

impl Engine {
    pub(crate) fn op_switch_altitude(&mut self, side: SideId, cmd: &Json, t: Tick) -> (r: Result<
        (),
        EngineError,
    >)
        ensures
            ({
                let d = do_switch_altitude(old(self)@, side, *cmd, t);
                final(self).became(old(self), d.0) && res(r) == d.1
            }),
    {
        let id: String = match self.own_id(side, cmd) {
            Ok(id) => id,
            Err(x) => return Err(x),
        };
        if self.is_busy(&id, t) {
            return Err(self.busy_refusal(&id));
        }
        let (ut, cur): (UnitType, HeliAlt) = match self.state.units.get(&id) {
            Some(u) => (u.unit_type, u.heli_alt),
            None => return Err(command("no controllable unit")),
        };
        if ut != UnitType::TransportHeli {
            return Err(command("only a 运输直升机 has altitude states"));
        }
        let named: Option<HeliAlt> = match text_under(cmd, "altitude") {
            Some(s) => HeliAlt::parse(s),
            None => None,
        };
        let to: HeliAlt = match named {
            Some(a) => a,
            None => return Err(command("switch_altitude needs altitude high/low/very_low")),
        };
        if cur == to {
            return Ok(());
        }
        if !cur.adjacent(to) {
            return Err(command("can only switch to an adjacent altitude (三.16d)"));
        }
        let d: Tick = match self.require_timing("heli_altitude_switch") {
            Ok(d) => d,
            Err(x) => return Err(x),
        };
        let done: Tick = later(t, d);
        self.set_busy(&id, done);
        self.schedule(done, Event::HeliAltReady { heli: id, to });
        Ok(())
    }
}

// ---------- boarding ----------

/// The vehicles that carry passengers.
pub open spec fn carrier(t: UnitType) -> bool {
    t == UnitType::Ifv || t == UnitType::TransportHeli || t == UnitType::Pickup
}

/// Whether a vehicle carries passengers.
pub fn is_carrier(t: UnitType) -> (r: bool)
    ensures
        r == carrier(t),
{
    t == UnitType::Ifv || t == UnitType::TransportHeli || t == UnitType::Pickup
}

/// Whether a unit rides as a passenger: infantry and missile squads.
pub fn can_be_passenger(t: UnitType) -> (r: bool)
    ensures
        r == personnel(t),
{
    mechanics::is_personnel(t)
}

/// A live unit inside a vehicle.
pub open spec fn rides_in(vehicle: Id) -> spec_fn(Id, UnitV) -> bool {
    |k: Id, u: UnitV| u.alive && u.carried_by == Some(vehicle)
}

/// The squads that a transport helicopter holds.
pub open spec fn heli_room(e: EngineV) -> u64 {
    match jnat(jget(Some(e.rules.air), "heli_capacity_squads"@)) {
        Some(n) => n,
        None => 0,
    }
}

/// Why a unit may not board a vehicle.
pub open spec fn boarding_barred(e: EngineV, p: UnitV, v: UnitV, vehicle: Id) -> Option<Seq<char>> {
    if p.carried_by is Some {
        Some("unit is already mounted"@)
    } else if !personnel(p.unit_type) {
        Some("only dismounted infantry-type squads can mount a vehicle"@)
    } else if !carrier(v.unit_type) {
        Some("that unit cannot carry passengers"@)
    } else if p.pos != v.pos {
        Some("passenger and vehicle must share a hex to mount (三.2a)"@)
    } else if p.state != UnitState::Stopped || v.state != UnitState::Stopped {
        Some("both must be stopped to mount (三.2a)"@)
    } else if v.unit_type == UnitType::TransportHeli && some_entry(e.units, rides_in(vehicle)) {
        Some("the 运输直升机 must be 空载 to load (三.16f)"@)
    } else if v.unit_type == UnitType::TransportHeli && p.teams > heli_room(e) {
        Some("too many 班 for the 运输直升机 — 解聚 first (三.16f)"@)
    } else {
        None
    }
}

/// Why a unit may not leave a vehicle.
pub open spec fn leaving_barred(e: EngineV, passenger: Id, p: UnitV, v: UnitV) -> Option<Seq<char>> {
    if !stack_room(e.units, p.side, v.pos, passenger, e.stacking_cap) {
        Some("no room to dismount here — the hex stack is full (三.4)"@)
    } else if v.state != UnitState::Stopped {
        Some("the vehicle must be stopped to dismount (三.2a)"@)
    } else if p.pos != v.pos {
        Some("passenger is not co-located with its carrier (三.2a)"@)
    } else {
        None
    }
}

/// Why nobody may board or leave a helicopter: it flies too high, or not over open ground.
pub open spec fn hovering_barred(e: EngineV, v: UnitV) -> Option<Seq<char>> {
    if v.unit_type != UnitType::TransportHeli {
        None
    } else if v.heli_alt != HeliAlt::VeryLow {
        Some("the 运输直升机 must be at 超低空 to load/unload (三.16e)"@)
    } else if terrain_of(e.map, v.pos) != Some(Terrain::Open) {
        Some("索降 needs 开阔地 (open terrain) (三.16e)"@)
    } else {
        None
    }
}

/// Passenger and vehicle are busy until the passenger is in or out.
pub open spec fn transfer(e: EngineV, passenger: Id, vehicle: Id, kind: MountKind, done: Tick) -> EngineV {
    let gen = next_of(e.mount_gen_ctr);
    let e1 = EngineV {
        mount_gen_ctr: gen,
        mount_op: e.mount_op.insert(passenger, MountInTransit { gen, vehicle, kind }),
        ..e
    };
    m::schedule(
        m::set_busy(m::set_busy(e1, passenger, done), vehicle, done),
        done,
        Event::MountComplete { passenger, gen },
    )
}

/// A passenger begins to board or leave a vehicle.
pub open spec fn begin_mount(e: EngineV, passenger: Id, vehicle: Id, kind: MountKind, t: Tick) -> Done {
    if busy(e, passenger, t) {
        (e, Err(busy_error(passenger)))
    } else if busy(e, vehicle, t) {
        (e, Err(busy_error(vehicle)))
    } else if m::suppressed(e.units, passenger, t) || m::suppressed(e.units, vehicle, t) {
        refused(e, "cannot mount/dismount while suppressed (三.2c)"@)
    } else {
        match (at(e.units, passenger), at(e.units, vehicle)) {
            (Some(p), Some(v)) => match hovering_barred(e, v) {
                Some(why) => refused(e, why),
                None => {
                    let barred = match kind {
                        MountKind::Mount => boarding_barred(e, p, v, vehicle),
                        MountKind::Dismount => leaving_barred(e, passenger, p, v),
                    };
                    match barred {
                        Some(why) => refused(e, why),
                        None => match m::need(e, "mount_dismount"@) {
                            Err(x) => (e, Err(x)),
                            Ok(d) => (
                                transfer(e, passenger, vehicle, kind, tick_sum(t, d)),
                                Ok(()),
                            ),
                        },
                    }
                },
            },
            _ => refused(e, "no controllable unit"@),
        }
    }
}

/// `mount`: a passenger boards a vehicle after a time.
pub open spec fn do_mount(e: EngineV, side: SideId, cmd: Json, t: Tick) -> Done {
    match own_id(e, side, cmd) {
        Err(x) => (e, Err(x)),
        Ok(id) => match text_in(cmd, "vehicleId"@) {
            None => refused(e, "mount missing vehicleId"@),
            Some(vehicle) => if !own(e, side, vehicle) {
                (e, Err(no_unit(vehicle)))
            } else {
                begin_mount(e, id, vehicle, MountKind::Mount, t)
            },
        },
    }
}

/// `dismount`: a passenger leaves its vehicle after a time.
pub open spec fn do_dismount(e: EngineV, side: SideId, cmd: Json, t: Tick) -> Done {
    match own_id(e, side, cmd) {
        Err(x) => (e, Err(x)),
        Ok(id) => match e.units[id].carried_by {
            None => refused(e, "unit is not mounted"@),
            Some(vehicle) => begin_mount(e, id, vehicle, MountKind::Dismount, t),
        },
    }
}

impl Engine {
    fn has_riders(&self, vehicle: &String) -> (r: bool)
        ensures
            r == some_entry(self@.units, rides_in(vehicle@)),
    {
        let ghost p = rides_in(vehicle@);
        let f = |k: &String, u: &RuntimeUnit| -> (b: bool)
            ensures b == p(k@, u@)
        {
            u.alive && opt_is(&u.carried_by, vehicle.as_str())
        };
        self.state.units.any(f, Ghost(p))
    }

    fn boarding_refusal(&self, p: &RuntimeUnit, v: &RuntimeUnit, vehicle: &String) -> (r: Option<
        &'static str,
    >)
        ensures
            match r {
                Some(s) => boarding_barred(self@, p@, v@, vehicle@) == Some(s@),
                None => boarding_barred(self@, p@, v@, vehicle@) is None,
            },
    {
        if p.carried_by.is_some() {
            return Some("unit is already mounted");
        }
        if !can_be_passenger(p.unit_type) {
            return Some("only dismounted infantry-type squads can mount a vehicle");
        }
        if !is_carrier(v.unit_type) {
            return Some("that unit cannot carry passengers");
        }
        if p.pos != v.pos {
            return Some("passenger and vehicle must share a hex to mount (三.2a)");
        }
        if p.state != UnitState::Stopped || v.state != UnitState::Stopped {
            return Some("both must be stopped to mount (三.2a)");
        }
        if v.unit_type == UnitType::TransportHeli {
            if self.has_riders(vehicle) {
                return Some("the 运输直升机 must be 空载 to load (三.16f)");
            }
            let room: u64 = match nat_of(field(Some(&self.rules.air), "heli_capacity_squads")) {
                Some(n) => n,
                None => 0,
            };
            if p.teams as u64 > room {
                return Some("too many 班 for the 运输直升机 — 解聚 first (三.16f)");
            }
        }
        None
    }

    fn leaving_refusal(&self, passenger: &String, p: &RuntimeUnit, v: &RuntimeUnit) -> (r: Option<
        &'static str,
    >)
        ensures
            match r {
                Some(s) => leaving_barred(self@, passenger@, p@, v@) == Some(s@),
                None => leaving_barred(self@, passenger@, p@, v@) is None,
            },
    {
        if !mechanics::stacking_allows_entry(
            &self.state,
            p.side,
            v.pos,
            passenger.as_str(),
            self.stacking_cap,
        ) {
            return Some("no room to dismount here — the hex stack is full (三.4)");
        }
        if v.state != UnitState::Stopped {
            return Some("the vehicle must be stopped to dismount (三.2a)");
        }
        if p.pos != v.pos {
            return Some("passenger is not co-located with its carrier (三.2a)");
        }
        None
    }

    fn hovering_refusal(&self, v: &RuntimeUnit) -> (r: Option<&'static str>)
        ensures
            match r {
                Some(s) => hovering_barred(self@, v@) == Some(s@),
                None => hovering_barred(self@, v@) is None,
            },
    {
        if v.unit_type != UnitType::TransportHeli {
            return None;
        }
        if v.heli_alt != HeliAlt::VeryLow {
            return Some("the 运输直升机 must be at 超低空 to load/unload (三.16e)");
        }
        match mechanics::terrain_at(&self.map, &v.pos) {
            Some(Terrain::Open) => None,
            _ => Some("索降 needs 开阔地 (open terrain) (三.16e)"),
        }
    }

    fn transfer(&mut self, passenger: &String, vehicle: &String, kind: MountKind, done: Tick)
        ensures
            final(self).became(old(self), transfer(old(self)@, passenger@, vehicle@, kind, done)),
    {
        let gen: u64 = next(self.mount_gen_ctr);
        self.mount_gen_ctr = gen;
        self.mount_op.insert(
            passenger.clone(),
            MountInTransit { gen, vehicle: vehicle.clone(), kind },
        );
        self.set_busy(passenger, done);
        self.set_busy(vehicle, done);
        self.schedule(done, Event::MountComplete { passenger: passenger.clone(), gen });
    }

    /// A passenger begins to board or leave a vehicle.
    fn begin_mount(&mut self, passenger: &String, vehicle: &String, kind: MountKind, t: Tick) -> (r:
        Result<(), EngineError>)
        ensures
            ({
                let d = begin_mount(old(self)@, passenger@, vehicle@, kind, t);
                final(self).became(old(self), d.0) && res(r) == d.1
            }),
    {
        if self.is_busy(passenger, t) {
            return Err(self.busy_refusal(passenger));
        }
        if self.is_busy(vehicle, t) {
            return Err(self.busy_refusal(vehicle));
        }
        if self.is_suppressed(passenger, t) || self.is_suppressed(vehicle, t) {
            return Err(command("cannot mount/dismount while suppressed (三.2c)"));
        }
        let barred: Option<&'static str> = match (
            self.state.units.get(passenger),
            self.state.units.get(vehicle),
        ) {
            (Some(p), Some(v)) => match self.hovering_refusal(v) {
                Some(why) => Some(why),
                None => match kind {
                    MountKind::Mount => self.boarding_refusal(p, v, vehicle),
                    MountKind::Dismount => self.leaving_refusal(passenger, p, v),
                },
            },
            _ => Some("no controllable unit"),
        };
        match barred {
            Some(why) => return Err(command(why)),
            None => {},
        }
        let d: Tick = match self.require_timing("mount_dismount") {
            Ok(d) => d,
            Err(x) => return Err(x),
        };
        self.transfer(passenger, vehicle, kind, later(t, d));
        Ok(())
    }

    pub(crate) fn op_mount(&mut self, side: SideId, cmd: &Json, t: Tick) -> (r: Result<
        (),
        EngineError,
    >)
        ensures
            ({
                let d = do_mount(old(self)@, side, *cmd, t);
                final(self).became(old(self), d.0) && res(r) == d.1
            }),
    {
        let id: String = match self.own_id(side, cmd) {
            Ok(id) => id,
            Err(x) => return Err(x),
        };
        let vehicle: String = match text_under(cmd, "vehicleId") {
            Some(s) => s.to_owned(),
            None => return Err(command("mount missing vehicleId")),
        };
        match self.require_own_unit(side, &vehicle) {
            Ok(_) => {},
            Err(x) => return Err(x),
        }
        self.begin_mount(&id, &vehicle, MountKind::Mount, t)
    }

    pub(crate) fn op_dismount(&mut self, side: SideId, cmd: &Json, t: Tick) -> (r: Result<
        (),
        EngineError,
    >)
        ensures
            ({
                let d = do_dismount(old(self)@, side, *cmd, t);
                final(self).became(old(self), d.0) && res(r) == d.1
            }),
    {
        let id: String = match self.own_id(side, cmd) {
            Ok(id) => id,
            Err(x) => return Err(x),
        };
        let carried: Option<String> = match self.state.units.get(&id) {
            Some(u) => dup_opt(&u.carried_by),
            None => None,
        };
        match carried {
            Some(vehicle) => self.begin_mount(&id, &vehicle, MountKind::Dismount, t),
            None => Err(command("unit is not mounted")),
        }
    }
}

// ---------- fortifications ----------

/// The fortification under an id that a side may use: its own or a neutral one.
pub open spec fn usable_works(e: EngineV, side: SideId, id: Id) -> Option<FacilityV> {
    match at(e.facilities, id) {
        Some(f) => if f.owner is None || f.owner == Some(side) {
            Some(f)
        } else {
            None
        },
        None => None,
    }
}

/// Why a unit may not enter a fortification.
pub open spec fn entry_barred(e: EngineV, u: UnitV, fac: Id, f: FacilityV) -> Option<Seq<char>> {
    match fort_named(f.kind) {
        None => Some("facility is not a 工事"@),
        Some(kind) => if !fort_admits(kind, u.unit_type) {
            Some("this 算子 cannot garrison that 工事 (三.20c)"@)
        } else if u.pos != f.at {
            Some("must be on the 工事's hex to enter (三.20)"@)
        } else if u.state != UnitState::Stopped {
            Some("must be stopped to enter a 工事 (三.20)"@)
        } else if m::teams_of(e.units, keys_where::<String, UnitV>(e.units, m::inside(fac)))
            + u.teams > f.capacity {
            Some("工事 has no room for that many 班 (三.20d)"@)
        } else {
            None
        },
    }
}

/// `enter_facility`: a unit garrisons a fortification after a time. A fortification that the side
/// may not use is told as if it were not there.
pub open spec fn do_enter(e: EngineV, side: SideId, cmd: Json, t: Tick) -> Done {
    match idle_id(e, side, cmd, t) {
        Err(x) => (e, Err(x)),
        Ok(id) => if marching(e, id) {
            (e, Err(march_error(id)))
        } else if garrisoned(e, id) {
            refused(e, "unit is already inside a 工事"@)
        } else if m::suppressed(e.units, id, t) {
            refused(e, "cannot enter a 工事 while suppressed"@)
        } else {
            match text_in(cmd, "facilityId"@) {
                None => refused(e, "enter_facility needs facilityId"@),
                Some(fac) => match usable_works(e, side, fac) {
                    None => refused(e, "no usable 工事 with that id"@),
                    Some(f) => match entry_barred(e, e.units[id], fac, f) {
                        Some(why) => refused(e, why),
                        None => match m::need(e, "fortification_transition"@) {
                            Err(x) => (e, Err(x)),
                            Ok(d) => {
                                let done = tick_sum(t, d);
                                let gen = m::fresh(e.facility_gen, id);
                                let e1 = EngineV {
                                    facility_gen: m::bumped(e.facility_gen, id),
                                    ..e
                                };
                                (
                                    m::schedule(
                                        m::set_busy(e1, id, done),
                                        done,
                                        Event::FacilityEnterReady { unit: id, facility: fac, gen },
                                    ),
                                    Ok(()),
                                )
                            },
                        },
                    },
                },
            }
        },
    }
}

/// `exit_facility`: a unit leaves its fortification after a time, if its hex has room.
pub open spec fn do_exit(e: EngineV, side: SideId, cmd: Json, t: Tick) -> Done {
    match own_id(e, side, cmd) {
        Err(x) => (e, Err(x)),
        Ok(id) => {
            let u = e.units[id];
            if busy(e, id, t) {
                (e, Err(busy_error(id)))
            } else if u.inside_facility is None {
                refused(e, "unit is not inside a 工事"@)
            } else if !stack_room(e.units, u.side, u.pos, id, e.stacking_cap) {
                refused(e, "no room to exit — the hex stack is full (三.4)"@)
            } else {
                match m::need(e, "fortification_transition"@) {
                    Err(x) => (e, Err(x)),
                    Ok(d) => {
                        let done = tick_sum(t, d);
                        let gen = m::fresh(e.facility_gen, id);
                        let e1 = EngineV { facility_gen: m::bumped(e.facility_gen, id), ..e };
                        (
                            m::schedule(
                                m::set_busy(e1, id, done),
                                done,
                                Event::FacilityExitReady { unit: id, gen },
                            ),
                            Ok(()),
                        )
                    },
                }
            }
        },
    }
}

impl Engine {
    fn entry_refusal(&self, u: &RuntimeUnit, fac: &String, f: &RuntimeFacility) -> (r: Option<
        &'static str,
    >)
        ensures
            match r {
                Some(s) => entry_barred(self@, u@, fac@, f@) == Some(s@),
                None => entry_barred(self@, u@, fac@, f@) is None,
            },
    {
        let kind: FortKind = match FortKind::from_facility_kind(f.kind.as_str()) {
            Some(k) => k,
            None => return Some("facility is not a 工事"),
        };
        if !mechanics::fortification_admits(kind, u.unit_type) {
            return Some("this 算子 cannot garrison that 工事 (三.20c)");
        }
        if u.pos != f.at {
            return Some("must be on the 工事's hex to enter (三.20)");
        }
        if u.state != UnitState::Stopped {
            return Some("must be stopped to enter a 工事 (三.20)");
        }
        let ids: Vec<String> = self.occupants(fac);
        let inside: u128 = self.teams_of(&ids);
        if inside + u.teams as u128 > f.capacity as u128 {
            return Some("工事 has no room for that many 班 (三.20d)");
        }
        None
    }

    pub(crate) fn op_enter(&mut self, side: SideId, cmd: &Json, t: Tick) -> (r: Result<
        (),
        EngineError,
    >)
        ensures
            ({
                let d = do_enter(old(self)@, side, *cmd, t);
                final(self).became(old(self), d.0) && res(r) == d.1
            }),
    {
        let id: String = match self.idle_id(side, cmd, t) {
            Ok(id) => id,
            Err(x) => return Err(x),
        };
        if self.is_marching(&id) {
            return Err(self.march_refusal(&id));
        }
        if self.is_garrisoned(&id) {
            return Err(command("unit is already inside a 工事"));
        }
        if self.is_suppressed(&id, t) {
            return Err(command("cannot enter a 工事 while suppressed"));
        }
        let fac: String = match text_under(cmd, "facilityId") {
            Some(s) => s.to_owned(),
            None => return Err(command("enter_facility needs facilityId")),
        };
        let f: &RuntimeFacility = match self.state.facilities.get(&fac) {
            Some(f) => f,
            None => return Err(command("no usable 工事 with that id")),
        };
        let usable: bool = match f.owner {
            Some(o) => o == side,
            None => true,
        };
        if !usable {
            return Err(command("no usable 工事 with that id"));
        }
        match self.state.units.get(&id) {
            Some(u) => {
                match self.entry_refusal(u, &fac, f) {
                    Some(why) => return Err(command(why)),
                    None => {},
                }
            },
            None => return Err(command("no controllable unit")),
        }
        let d: Tick = match self.require_timing("fortification_transition") {
            Ok(d) => d,
            Err(x) => return Err(x),
        };
        let done: Tick = later(t, d);
        let gen: u64 = bump(&mut self.facility_gen, &id);
        self.set_busy(&id, done);
        self.schedule(done, Event::FacilityEnterReady { unit: id, facility: fac, gen });
        Ok(())
    }

    pub(crate) fn op_exit(&mut self, side: SideId, cmd: &Json, t: Tick) -> (r: Result<
        (),
        EngineError,
    >)
        ensures
            ({
                let d = do_exit(old(self)@, side, *cmd, t);
                final(self).became(old(self), d.0) && res(r) == d.1
            }),
    {
        let id: String = match self.own_id(side, cmd) {
            Ok(id) => id,
            Err(x) => return Err(x),
        };
        if self.is_busy(&id, t) {
            return Err(self.busy_refusal(&id));
        }
        let (pos, own_side, inside): (Axial, SideId, bool) = match self.state.units.get(&id) {
            Some(u) => (u.pos, u.side, u.inside_facility.is_some()),
            None => return Err(command("no controllable unit")),
        };
        if !inside {
            return Err(command("unit is not inside a 工事"));
        }
        if !mechanics::stacking_allows_entry(
            &self.state,
            own_side,
            pos,
            id.as_str(),
            self.stacking_cap,
        ) {
            return Err(command("no room to exit — the hex stack is full (三.4)"));
        }
        let d: Tick = match self.require_timing("fortification_transition") {
            Ok(d) => d,
            Err(x) => return Err(x),
        };
        let done: Tick = later(t, d);
        let gen: u64 = bump(&mut self.facility_gen, &id);
        self.set_busy(&id, done);
        self.schedule(done, Event::FacilityExitReady { unit: id, gen });
        Ok(())
    }
}

// ---------- mines ----------

/// A setting as a count; 0 where it is absent or no `u32`.
pub open spec fn count_setting(n: Option<i64>) -> u32 {
    match n {
        Some(n) => if 0 <= n <= u32::MAX {
            n as u32
        } else {
            0
        },
        None => 0,
    }
}

/// How many minefields a minelayer has laid.
pub open spec fn lays_of(e: EngineV, id: Id) -> u32 {
    match at(e.minelayer_lays, id) {
        Some(n) => n,
        None => 0,
    }
}

/// The distance that a minelayer reaches.
pub open spec fn lay_reach(e: EngineV) -> int {
    match setting(e.rules.minefield, "lay_range_hexes"@) {
        Some(n) => n as int,
        None => 0,
    }
}

/// `lay_mines`: a stopped minelayer lays a minefield within its range after a time, as long as it
/// has any left.
pub open spec fn do_lay(e: EngineV, side: SideId, cmd: Json, t: Tick) -> Done {
    match idle_id(e, side, cmd, t) {
        Err(x) => (e, Err(x)),
        Ok(id) => {
            let u = e.units[id];
            if marching(e, id) {
                (e, Err(march_error(id)))
            } else if u.unit_type != UnitType::Minelayer {
                refused(e, "only a 火箭布雷车 may 布雷 (三.21b)"@)
            } else if m::suppressed(e.units, id, t) {
                refused(e, "cannot 布雷 while suppressed (三.21d)"@)
            } else if u.state != UnitState::Stopped {
                refused(e, "must be stopped to 布雷 (三.21d)"@)
            } else {
                match hex_in(jget(Some(cmd), "targetHex"@)) {
                    None => refused(e, "lay_mines needs targetHex {q,r}"@),
                    Some(target) => if cell_at(e.map, target) is None {
                        refused(e, "lay_mines target is off-map"@)
                    } else if e.minefields.contains_key(target) {
                        refused(e, "that hex already holds a 雷场 (三.21c)"@)
                    } else if steps(u.pos, target) > lay_reach(e) {
                        refused(e, "target is beyond 布雷 range (三.21c)"@)
                    } else if lays_of(e, id) >= count_setting(
                        setting(e.rules.minefield, "max_lays_per_vehicle"@),
                    ) {
                        refused(e, "this 火箭布雷车 has used all its 布雷 (三.21c)"@)
                    } else {
                        match m::need(e, "minefield_lay"@) {
                            Err(x) => (e, Err(x)),
                            Ok(d) => {
                                let done = tick_sum(t, d);
                                let gen = m::fresh(e.minelayer_gen, id);
                                let e1 = EngineV {
                                    minelayer_gen: m::bumped(e.minelayer_gen, id),
                                    minelay_in_flight: e.minelay_in_flight.insert(id, ()),
                                    ..e
                                };
                                (
                                    m::schedule(
                                        m::set_busy(e1, id, done),
                                        done,
                                        Event::MineLayReady { unit: id, at: target, gen },
                                    ),
                                    Ok(()),
                                )
                            },
                        }
                    },
                }
            }
        },
    }
}

fn as_count(n: Option<i64>) -> (r: u32)
    ensures
        r == count_setting(n),
{
    match n {
        Some(n) => if n >= 0 && n <= u32::MAX as i64 {
            n as u32
        } else {
            0
        },
        None => 0,
    }
}

impl Engine {
    pub(crate) fn op_lay(&mut self, side: SideId, cmd: &Json, t: Tick) -> (r: Result<
        (),
        EngineError,
    >)
        ensures
            ({
                let d = do_lay(old(self)@, side, *cmd, t);
                final(self).became(old(self), d.0) && res(r) == d.1
            }),
    {
        let id: String = match self.idle_id(side, cmd, t) {
            Ok(id) => id,
            Err(x) => return Err(x),
        };
        if self.is_marching(&id) {
            return Err(self.march_refusal(&id));
        }
        let (ut, pos, state): (UnitType, Axial, UnitState) = match self.state.units.get(&id) {
            Some(u) => (u.unit_type, u.pos, u.state),
            None => return Err(command("no controllable unit")),
        };
        if !mechanics::can_lay_mines(ut) {
            return Err(command("only a 火箭布雷车 may 布雷 (三.21b)"));
        }
        if self.is_suppressed(&id, t) {
            return Err(command("cannot 布雷 while suppressed (三.21d)"));
        }
        if state != UnitState::Stopped {
            return Err(command("must be stopped to 布雷 (三.21d)"));
        }
        let target: Axial = match parse_axial(field(Some(cmd), "targetHex")) {
            Some(h) => h,
            None => return Err(command("lay_mines needs targetHex {q,r}")),
        };
        if self.map.cell(&target).is_none() {
            return Err(command("lay_mines target is off-map"));
        }
        if self.state.minefields.contains_key(&target) {
            return Err(command("that hex already holds a 雷场 (三.21c)"));
        }
        let range: i64 = match self.rules.minefield_lay_range() {
            Some(n) => n,
            None => 0,
        };
        if pos.distance(&target) as i64 > range {
            return Err(command("target is beyond 布雷 range (三.21c)"));
        }
        let laid: u32 = match self.minelayer_lays.get(&id) {
            Some(n) => *n,
            None => 0,
        };
        if laid >= as_count(self.rules.minefield_max_lays()) {
            return Err(command("this 火箭布雷车 has used all its 布雷 (三.21c)"));
        }
        let d: Tick = match self.require_timing("minefield_lay") {
            Ok(d) => d,
            Err(x) => return Err(x),
        };
        let done: Tick = later(t, d);
        let gen: u64 = bump(&mut self.minelayer_gen, &id);
        self.minelay_in_flight.insert(id.clone(), ());
        self.set_busy(&id, done);
        self.schedule(done, Event::MineLayReady { unit: id, at: target, gen });
        Ok(())
    }
}

// ---------- merging and splitting ----------

/// A live unit that belongs to a vehicle.
pub open spec fn belongs_to(vehicle: Id) -> spec_fn(Id, UnitV) -> bool {
    |k: Id, u: UnitV| u.alive && u.affiliated_to == Some(vehicle)
}

/// Whether a unit may be merged or split now, with its type, hex and teams if it may.
pub open spec fn agg_check(e: EngineV, side: SideId, id: Id, t: Tick) -> Result<
    (UnitType, Axial, u8),
    ErrV,
> {
    let u = e.units[id];
    if !own(e, side, id) {
        Err(no_unit(id))
    } else if mounted(e, id) {
        Err(EngineError::Command(id + " is mounted; dismount first"@))
    } else if garrisoned(e, id) {
        Err(garrison_error(id))
    } else if marching(e, id) {
        Err(march_error(id))
    } else if busy(e, id, t) {
        Err(busy_error(id))
    } else if m::suppressed(e.units, id, t) {
        Err(EngineError::Command(id + " cannot 聚合/解聚 while 压制 (三.17d)"@))
    } else if !aggregates(u.unit_type) {
        Err(
            EngineError::Command(
                "this unit type cannot 聚合/解聚 (三.17a/i: 地面算子, 非炮兵)"@,
            ),
        )
    } else if u.state != UnitState::Stopped {
        Err(EngineError::Command("must be stopped to 聚合/解聚 (三.17b)"@))
    } else if e.same_hex.contains_key(u.pos) {
        Err(EngineError::Command("cannot 聚合/解聚 during a 同格交战 (三.17d)"@))
    } else if some_entry(e.units, rides_in(id)) {
        Err(EngineError::Command("unload 搭载 before 聚合/解聚 (三.17f)"@))
    } else if some_entry(e.loitering_parent, m::launched_from(id)) {
        Err(EngineError::Command("a 发射车 with a 巡飞弹 aloft cannot 聚合/解聚 (三.17e)"@))
    } else {
        Ok((u.unit_type, u.pos, u.teams))
    }
}

/// The most teams that a unit may have; 0 where the rules give no byte.
pub open spec fn squad_cap(e: EngineV) -> u8 {
    match setting(e.rules.control, "max_squads_per_unit"@) {
        Some(n) => if 0 <= n <= 255 {
            n as u8
        } else {
            0
        },
        None => 0,
    }
}

/// The merge or split that `id` begins.
pub open spec fn begin_agg(e: EngineV, id: Id, kind: AggSplitKind<Id>, done: Tick) -> EngineV {
    let gen = m::fresh(e.aggsplit_gen, id);
    let e1 = EngineV {
        aggsplit_gen: m::bumped(e.aggsplit_gen, id),
        aggsplit_op: e.aggsplit_op.insert(id, AggSplitInTransit { gen, kind }),
        ..e
    };
    let e2 = m::set_busy(e1, id, done);
    let e3 = match kind {
        AggSplitKind::Aggregate { other } => m::set_busy(e2, other, done),
        AggSplitKind::Split => e2,
    };
    m::schedule(e3, done, Event::AggSplitComplete { unit: id, gen })
}

/// `aggregate`: two like units in one hex become one after a time.
pub open spec fn do_aggregate(e: EngineV, side: SideId, cmd: Json, t: Tick) -> Done {
    match id_of(cmd) {
        Err(x) => (e, Err(x)),
        Ok(id) => match text_in(cmd, "targetUnit"@) {
            None => refused(e, "aggregate needs targetUnit"@),
            Some(other) => if other == id {
                refused(e, "cannot 聚合 a unit with itself"@)
            } else {
                match (agg_check(e, side, id, t), agg_check(e, side, other, t)) {
                    (Err(x), _) => (e, Err(x)),
                    (Ok(_), Err(x)) => (e, Err(x)),
                    (Ok(a), Ok(b)) => if a.0 != b.0 {
                        refused(e, "聚合 requires the same unit type (三.17b)"@)
                    } else if a.1 != b.1 {
                        refused(e, "聚合 requires both units in the same hex (三.17b)"@)
                    } else if some_entry(e.units, belongs_to(other)) {
                        refused(e, "cannot 聚合 a unit that a 无人战车 is 隶属 to (三.13d/三.17)"@)
                    } else if merged(a.2, b.2, 0, 0, squad_cap(e)) is None {
                        refused(e, "聚合 would exceed the 班 cap (三.17b)"@)
                    } else {
                        match m::need(e, "aggregate_split"@) {
                            Err(x) => (e, Err(x)),
                            Ok(d) => (
                                begin_agg(
                                    e,
                                    id,
                                    AggSplitKind::Aggregate { other },
                                    tick_sum(t, d),
                                ),
                                Ok(()),
                            ),
                        }
                    },
                }
            },
        },
    }
}

/// `split`: a unit of two or more teams becomes two after a time, if the hex has room.
pub open spec fn do_split(e: EngineV, side: SideId, cmd: Json, t: Tick) -> Done {
    match id_of(cmd) {
        Err(x) => (e, Err(x)),
        Ok(id) => match agg_check(e, side, id, t) {
            Err(x) => (e, Err(x)),
            Ok(a) => if halves(a.2, squad_cap(e)) is None {
                refused(e, "解聚 needs at least 2 班 (三.17c)"@)
            } else if !stack_room(e.units, side, a.1, "#probe"@, e.stacking_cap) {
                refused(e, "no stacking room for the 解聚 child (三.4)"@)
            } else {
                match m::need(e, "aggregate_split"@) {
                    Err(x) => (e, Err(x)),
                    Ok(d) => (begin_agg(e, id, AggSplitKind::Split, tick_sum(t, d)), Ok(())),
                }
            },
        },
    }
}

impl Engine {
    fn has_affiliates(&self, vehicle: &String) -> (r: bool)
        ensures
            r == some_entry(self@.units, belongs_to(vehicle@)),
    {
        let ghost p = belongs_to(vehicle@);
        let f = |k: &String, u: &RuntimeUnit| -> (b: bool)
            ensures b == p(k@, u@)
        {
            u.alive && opt_is(&u.affiliated_to, vehicle.as_str())
        };
        self.state.units.any(f, Ghost(p))
    }

    pub(crate) fn has_aloft(&self, vehicle: &String) -> (r: bool)
        ensures
            r == some_entry(self@.loitering_parent, m::launched_from(vehicle@)),
    {
        let ghost p = m::launched_from(vehicle@);
        let f = |k: &String, v: &String| -> (b: bool)
            ensures b == p(k@, v@)
        {
            *v == *vehicle
        };
        self.loitering_parent.any(f, Ghost(p))
    }

    /// Whether a unit may be merged or split now.
    fn aggsplit_check(&self, side: SideId, id: &String, t: Tick) -> (r: Result<
        (UnitType, Axial, u8),
        EngineError,
    >)
        ensures
            res(r) == agg_check(self@, side, id@, t),
    {
        match self.require_own_unit(side, id) {
            Ok(_) => {},
            Err(x) => return Err(x),
        }
        if self.is_carried(id) {
            return Err(command2(id.as_str(), " is mounted; dismount first"));
        }
        if self.is_garrisoned(id) {
            return Err(self.garrison_refusal(id));
        }
        if self.is_marching(id) {
            return Err(self.march_refusal(id));
        }
        if self.is_busy(id, t) {
            return Err(self.busy_refusal(id));
        }
        if self.is_suppressed(id, t) {
            return Err(command2(id.as_str(), " cannot 聚合/解聚 while 压制 (三.17d)"));
        }
        let (ut, pos, teams, state): (UnitType, Axial, u8, UnitState) = match self.state.units.get(
            id,
        ) {
            Some(u) => (u.unit_type, u.pos, u.teams, u.state),
            None => return Err(command("no controllable unit")),
        };
        if !mechanics::supports_aggregation(ut) {
            return Err(
                command("this unit type cannot 聚合/解聚 (三.17a/i: 地面算子, 非炮兵)"),
            );
        }
        if state != UnitState::Stopped {
            return Err(command("must be stopped to 聚合/解聚 (三.17b)"));
        }
        if self.same_hex.contains_key(&pos) {
            return Err(command("cannot 聚合/解聚 during a 同格交战 (三.17d)"));
        }
        if self.has_riders(id) {
            return Err(command("unload 搭载 before 聚合/解聚 (三.17f)"));
        }
        if self.has_aloft(id) {
            return Err(command("a 发射车 with a 巡飞弹 aloft cannot 聚合/解聚 (三.17e)"));
        }
        Ok((ut, pos, teams))
    }

    pub(crate) fn squad_cap(&self) -> (r: u8)
        ensures
            r == squad_cap(self@),
    {
        match self.rules.max_squads() {
            Some(n) => if n >= 0 && n <= 255 {
                n as u8
            } else {
                0
            },
            None => 0,
        }
    }

    pub(crate) fn op_aggregate(&mut self, side: SideId, cmd: &Json, t: Tick) -> (r: Result<
        (),
        EngineError,
    >)
        ensures
            ({
                let d = do_aggregate(old(self)@, side, *cmd, t);
                final(self).became(old(self), d.0) && res(r) == d.1
            }),
    {
        let id: String = match unit_id(cmd) {
            Ok(id) => id,
            Err(x) => return Err(x),
        };
        let other: String = match text_under(cmd, "targetUnit") {
            Some(s) => s.to_owned(),
            None => return Err(command("aggregate needs targetUnit")),
        };
        if other == id {
            return Err(command("cannot 聚合 a unit with itself"));
        }
        let a: (UnitType, Axial, u8) = match self.aggsplit_check(side, &id, t) {
            Ok(a) => a,
            Err(x) => return Err(x),
        };
        let b: (UnitType, Axial, u8) = match self.aggsplit_check(side, &other, t) {
            Ok(b) => b,
            Err(x) => return Err(x),
        };
        if a.0 != b.0 {
            return Err(command("聚合 requires the same unit type (三.17b)"));
        }
        if a.1 != b.1 {
            return Err(command("聚合 requires both units in the same hex (三.17b)"));
        }
        if self.has_affiliates(&other) {
            return Err(command("cannot 聚合 a unit that a 无人战车 is 隶属 to (三.13d/三.17)"));
        }
        if mechanics::aggregate(a.2, b.2, 0, 0, self.squad_cap()).is_none() {
            return Err(command("聚合 would exceed the 班 cap (三.17b)"));
        }
        let d: Tick = match self.require_timing("aggregate_split") {
            Ok(d) => d,
            Err(x) => return Err(x),
        };
        let done: Tick = later(t, d);
        let gen: u64 = bump(&mut self.aggsplit_gen, &id);
        self.aggsplit_op.insert(
            id.clone(),
            AggSplitInTransit { gen, kind: AggSplitKind::Aggregate { other: other.clone() } },
        );
        self.set_busy(&id, done);
        self.set_busy(&other, done);
        self.schedule(done, Event::AggSplitComplete { unit: id, gen });
        Ok(())
    }

    pub(crate) fn op_split(&mut self, side: SideId, cmd: &Json, t: Tick) -> (r: Result<
        (),
        EngineError,
    >)
        ensures
            ({
                let d = do_split(old(self)@, side, *cmd, t);
                final(self).became(old(self), d.0) && res(r) == d.1
            }),
    {
        let id: String = match unit_id(cmd) {
            Ok(id) => id,
            Err(x) => return Err(x),
        };
        let a: (UnitType, Axial, u8) = match self.aggsplit_check(side, &id, t) {
            Ok(a) => a,
            Err(x) => return Err(x),
        };
        if mechanics::split_squads(a.2, self.squad_cap()).is_none() {
            return Err(command("解聚 needs at least 2 班 (三.17c)"));
        }
        if !mechanics::stacking_allows_entry(&self.state, side, a.1, "#probe", self.stacking_cap) {
            return Err(command("no stacking room for the 解聚 child (三.4)"));
        }
        let d: Tick = match self.require_timing("aggregate_split") {
            Ok(d) => d,
            Err(x) => return Err(x),
        };
        let done: Tick = later(t, d);
        let gen: u64 = bump(&mut self.aggsplit_gen, &id);
        self.aggsplit_op.insert(id.clone(), AggSplitInTransit { gen, kind: AggSplitKind::Split });
        self.set_busy(&id, done);
        self.schedule(done, Event::AggSplitComplete { unit: id, gen });
        Ok(())
    }
}

// ---------- indirect fire ----------

/// The tick from which artillery may plan again.
pub open spec fn cooled_at(e: EngineV, id: Id) -> Tick {
    match at(e.indirect_cd, id) {
        Some(t) => t,
        None => 0,
    }
}

/// `plan_indirect`: artillery fires a salvo at a hex, which flies for a time.
pub open spec fn do_plan(e: EngineV, side: SideId, cmd: Json, t: Tick) -> Done {
    match free_id(e, side, cmd) {
        Err(x) => (e, Err(x)),
        Ok(id) => if e.units[id].unit_type != UnitType::Artillery {
            refused(e, "间瞄 is artillery-only (三.9.1a)"@)
        } else if m::suppressed(e.units, id, t) {
            refused(e, "cannot plan 间瞄 while suppressed"@)
        } else {
            match hex_in(jget(Some(cmd), "targetHex"@)) {
                None => refused(e, "plan_indirect needs targetHex {q,r}"@),
                Some(target) => if cell_at(e.map, target) is None {
                    refused(e, "plan_indirect target is off-map"@)
                } else if cooled_at(e, id) > t {
                    refused(e, "artillery is on 间瞄 cooldown (三.9.1c)"@)
                } else {
                    match (m::need(e, "indirect_fly"@), m::need(e, "indirect_cooldown"@)) {
                        (Err(x), _) => (e, Err(x)),
                        (Ok(_), Err(x)) => (e, Err(x)),
                        (Ok(fly), Ok(cd)) => {
                            let plan = next_of(e.indirect_plan_ctr);
                            let e1 = EngineV {
                                indirect_cd: e.indirect_cd.insert(id, tick_sum(t, cd)),
                                indirect_plan_ctr: plan,
                                indirect_plans: e.indirect_plans.insert(
                                    plan,
                                    IndirectPlan {
                                        artillery: id,
                                        plan_hex: target,
                                        impact: None,
                                        base: IndirectBase::NoEffect,
                                        gun_count: 0,
                                    },
                                ),
                                ..e
                            };
                            (m::schedule(e1, tick_sum(t, fly), Event::IndirectFly { plan }), Ok(()))
                        },
                    }
                },
            }
        },
    }
}

/// A salvo of an artillery unit that is still in flight.
pub open spec fn in_flight(id: Id) -> spec_fn(u64, PlanV) -> bool {
    |k: u64, p: PlanV| p.artillery == id && p.impact is None
}

/// The salvos without several of them.
pub open spec fn without_plans(plans: Map<u64, PlanV>, ids: Seq<u64>) -> Map<u64, PlanV>
    decreases ids.len(),
{
    if ids.len() == 0 {
        plans
    } else {
        without_plans(plans, ids.drop_last()).remove(ids.last())
    }
}

/// `cancel_indirect`: the salvos of an artillery unit that are in flight are called off, and it may
/// plan again.
pub open spec fn do_cancel(e: EngineV, side: SideId, cmd: Json, t: Tick) -> Done {
    match own_id(e, side, cmd) {
        Err(x) => (e, Err(x)),
        Ok(id) => {
            let flying = keys_where::<u64, PlanV>(e.indirect_plans, in_flight(id));
            if flying.len() == 0 {
                refused(e, "no flying 间瞄 plan to cancel (三.9.1d)"@)
            } else {
                (
                    EngineV {
                        indirect_plans: without_plans(e.indirect_plans, flying),
                        indirect_cd: e.indirect_cd.remove(id),
                        ..e
                    },
                    Ok(()),
                )
            }
        },
    }
}

impl Engine {
    pub(crate) fn op_plan(&mut self, side: SideId, cmd: &Json, t: Tick) -> (r: Result<
        (),
        EngineError,
    >)
        ensures
            ({
                let d = do_plan(old(self)@, side, *cmd, t);
                final(self).became(old(self), d.0) && res(r) == d.1
            }),
    {
        let id: String = match self.free_id(side, cmd) {
            Ok(id) => id,
            Err(x) => return Err(x),
        };
        let ut: UnitType = match self.state.units.get(&id) {
            Some(u) => u.unit_type,
            None => return Err(command("no controllable unit")),
        };
        if ut != UnitType::Artillery {
            return Err(command("间瞄 is artillery-only (三.9.1a)"));
        }
        if self.is_suppressed(&id, t) {
            return Err(command("cannot plan 间瞄 while suppressed"));
        }
        let target: Axial = match parse_axial(field(Some(cmd), "targetHex")) {
            Some(h) => h,
            None => return Err(command("plan_indirect needs targetHex {q,r}")),
        };
        if self.map.cell(&target).is_none() {
            return Err(command("plan_indirect target is off-map"));
        }
        let cooled: Tick = match self.indirect_cd.get(&id) {
            Some(c) => *c,
            None => 0,
        };
        if cooled > t {
            return Err(command("artillery is on 间瞄 cooldown (三.9.1c)"));
        }
        let fly: Tick = match self.require_timing("indirect_fly") {
            Ok(d) => d,
            Err(x) => return Err(x),
        };
        let cd: Tick = match self.require_timing("indirect_cooldown") {
            Ok(d) => d,
            Err(x) => return Err(x),
        };
        self.indirect_cd.insert(id.clone(), later(t, cd));
        let plan: u64 = next(self.indirect_plan_ctr);
        self.indirect_plan_ctr = plan;
        self.indirect_plans.insert(
            plan,
            IndirectPlan {
                artillery: id,
                plan_hex: target,
                impact: None,
                base: IndirectBase::NoEffect,
                gun_count: 0,
            },
        );
        self.schedule(later(t, fly), Event::IndirectFly { plan });
        Ok(())
    }

    pub(crate) fn drop_plans(&mut self, ids: &Vec<u64>)
        ensures
            final(self).became(
                old(self),
                EngineV {
                    indirect_plans: without_plans(old(self)@.indirect_plans, views(ids@)),
                    ..old(self)@
                },
            ),
    {
        let ghost ks = views(ids@);
        let ghost plans = self@.indirect_plans;
        let mut i: usize = 0;
        while i < ids.len()
            invariant
                i <= ids@.len(),
                ks == views(ids@),
                self.became(
                    old(self),
                    EngineV {
                        indirect_plans: without_plans(plans, ks.take(i as int)),
                        ..old(self)@
                    },
                ),
            decreases ids@.len() - i,
        {
            proof {
                let p = ks.take(i + 1);
                assert(p.drop_last() =~= ks.take(i as int));
                assert(p.last() == ids@[i as int]);
            }
            let _ = self.indirect_plans.remove(&ids[i]);
            i += 1;
        }
        proof {
            assert(ks.take(ks.len() as int) =~= ks);
        }
    }

    pub(crate) fn op_cancel(&mut self, side: SideId, cmd: &Json, t: Tick) -> (r: Result<
        (),
        EngineError,
    >)
        ensures
            ({
                let d = do_cancel(old(self)@, side, *cmd, t);
                final(self).became(old(self), d.0) && res(r) == d.1
            }),
    {
        let id: String = match self.own_id(side, cmd) {
            Ok(id) => id,
            Err(x) => return Err(x),
        };
        let ghost p = in_flight(id@);
        let f = |k: &u64, plan: &IndirectPlan| -> (b: bool)
            ensures b == p(k@, plan@)
        {
            plan.artillery == id && plan.impact.is_none()
        };
        let flying: Vec<u64> = self.indirect_plans.select(f, Ghost(p));
        proof {
            assert(views(flying@).len() == flying@.len());
        }
        if flying.len() == 0 {
            return Err(command("no flying 间瞄 plan to cancel (三.9.1d)"));
        }
        self.drop_plans(&flying);
        let _ = self.indirect_cd.remove(&id);
        Ok(())
    }
}

// ---------- launches ----------

/// Another munition of a vehicle that is being launched.
pub open spec fn launching(id: Id, vehicle: Id, t: Tick) -> spec_fn(Id, UnitV) -> bool {
    |k: Id, u: UnitV|
        u.id != id && u.carried_by == Some(vehicle) && u.unit_type == UnitType::LoiteringMunition
            && u.busy_until > t
}

/// `launch_loitering`: a vehicle launches a munition; it keeps at most one in the air.
pub open spec fn do_launch(e: EngineV, side: SideId, cmd: Json, t: Tick) -> Done {
    match own_id(e, side, cmd) {
        Err(x) => (e, Err(x)),
        Ok(id) => {
            let u = e.units[id];
            if u.unit_type != UnitType::LoiteringMunition {
                refused(e, "that unit is not a 巡飞弹"@)
            } else {
                match u.carried_by {
                    None => refused(e, "巡飞弹 is not loaded on a carrier"@),
                    Some(parent) => if marching(e, parent) {
                        (e, Err(march_error(parent)))
                    } else if busy(e, id, t) {
                        (e, Err(busy_error(id)))
                    } else {
                        match hex_in(jget(Some(cmd), "targetArea"@)) {
                            None => refused(e, "launch_loitering needs targetArea {q,r}"@),
                            Some(target) => if cell_at(e.map, target) is None {
                                refused(e, "launch_loitering targetArea is off-map"@)
                            } else if some_entry(e.loitering_parent, m::launched_from(parent))
                                || some_entry(e.units, launching(id, parent, t)) {
                                refused(
                                    e,
                                    "the carrier already has a 巡飞弹 aloft or launching (三.10e)"@,
                                )
                            } else {
                                match (
                                    m::need(e, "loitering_endurance"@),
                                    m::need(e, "loitering_launch"@),
                                ) {
                                    (Err(x), _) => (e, Err(x)),
                                    (Ok(_), Err(x)) => (e, Err(x)),
                                    (Ok(_), Ok(d)) => {
                                        let done = tick_sum(t, d);
                                        let e1 = m::set_busy(e, id, done);
                                        let e2 = EngineV {
                                            loitering_target: e1.loitering_target.insert(
                                                id,
                                                target,
                                            ),
                                            ..e1
                                        };
                                        (
                                            m::schedule(
                                                e2,
                                                done,
                                                Event::LoiteringLaunched { munition: id },
                                            ),
                                            Ok(()),
                                        )
                                    },
                                }
                            },
                        }
                    },
                }
            }
        },
    }
}

impl Engine {
    pub(crate) fn op_launch(&mut self, side: SideId, cmd: &Json, t: Tick) -> (r: Result<
        (),
        EngineError,
    >)
        ensures
            ({
                let d = do_launch(old(self)@, side, *cmd, t);
                final(self).became(old(self), d.0) && res(r) == d.1
            }),
    {
        let id: String = match self.own_id(side, cmd) {
            Ok(id) => id,
            Err(x) => return Err(x),
        };
        let (ut, carried): (UnitType, Option<String>) = match self.state.units.get(&id) {
            Some(u) => (u.unit_type, dup_opt(&u.carried_by)),
            None => return Err(command("no controllable unit")),
        };
        if ut != UnitType::LoiteringMunition {
            return Err(command("that unit is not a 巡飞弹"));
        }
        let parent: String = match carried {
            Some(p) => p,
            None => return Err(command("巡飞弹 is not loaded on a carrier")),
        };
        if self.is_marching(&parent) {
            return Err(self.march_refusal(&parent));
        }
        if self.is_busy(&id, t) {
            return Err(self.busy_refusal(&id));
        }
        let target: Axial = match parse_axial(field(Some(cmd), "targetArea")) {
            Some(h) => h,
            None => return Err(command("launch_loitering needs targetArea {q,r}")),
        };
        if self.map.cell(&target).is_none() {
            return Err(command("launch_loitering targetArea is off-map"));
        }
        let aloft: bool = self.has_aloft(&parent);
        let ghost p = launching(id@, parent@, t);
        let f = |k: &String, u: &RuntimeUnit| -> (b: bool)
            ensures b == p(k@, u@)
        {
            u.id != id && opt_is(&u.carried_by, parent.as_str()) && u.unit_type
                == UnitType::LoiteringMunition && u.busy_until > t
        };
        if aloft || self.state.units.any(f, Ghost(p)) {
            return Err(command("the carrier already has a 巡飞弹 aloft or launching (三.10e)"));
        }
        match self.require_timing("loitering_endurance") {
            Ok(_) => {},
            Err(x) => return Err(x),
        }
        let d: Tick = match self.require_timing("loitering_launch") {
            Ok(d) => d,
            Err(x) => return Err(x),
        };
        let done: Tick = later(t, d);
        self.set_busy(&id, done);
        self.loitering_target.insert(id.clone(), target);
        self.schedule(done, Event::LoiteringLaunched { munition: id });
        Ok(())
    }
}

} // verus!
