//! Orders to fire.
use crate::combat;
use crate::combat::{
    aa_salvo, direct_step, guided_step, guides, loadout_of, noted, strike_step, works_step, AaOutcome,
    FireOutcome,
};
use crate::engine::model as m;
use crate::engine::model::{refused, Done, EngineV, Event, Id};
use crate::engine::orders::{
    busy, busy_error, free_id, garrison_error, garrisoned, march_error, marching, no_unit, own,
    own_id, text_in, text_under,
};
use crate::engine::Engine;
use crate::error::{command, res, rules_error, EngineError, ErrV};
use crate::hex::{steps, Axial};
use crate::json::{field, jget, jnat, nat_of, text_of, jtext, Json};
use crate::mechanics;
use crate::mechanics::{
    air, fort_engages, fort_named, fort_range, observes, targetable, type_key, FortKind,
};
use crate::ordmap::{views, Dup};
use crate::prob::Outcome;
use crate::rng::PcgRng;
use crate::rules::{at, setting};
use crate::text::str_eq;
use crate::time::{later, tick_sum, Tick};
use crate::types::{
    on_board, opt_is, Armor, FacilityV, RuntimeFacility, RuntimeUnit, SideId, UnitState, UnitType,
    UnitV, WeaponState,
};
use vstd::prelude::*;
use vstd::string::*;

verus! {

/// A unit as it fires: out of cover.
pub open spec fn as_firing(u: UnitV) -> UnitV {
    RuntimeUnit {
        state: if u.state == UnitState::Cover {
            UnitState::Stopped
        } else {
            u.state
        },
        ..u
    }
}

/// The enemy of `side` under an id, if it is alive, on the board and can be fired upon.
pub open spec fn target_of(e: EngineV, side: SideId, id: Id) -> Option<UnitV> {
    match at(e.units, id) {
        Some(u) => if u.side != side && u.alive && on_board(u) && targetable(u.unit_type) {
            Some(u)
        } else {
            None
        },
        None => None,
    }
}

/// What the firing side is told of a rejected shot. That a target is not observed is told as if
/// there were no such target.
pub open spec fn told(why: Seq<char>) -> Seq<char> {
    if why == "target not observed"@ {
        "invalid fire target"@
    } else {
        why
    }
}

/// A shot has been taken: the firer leaves its cover, and a tank its change into cover.
pub open spec fn fired(e: EngineV, id: Id) -> EngineV {
    match at(e.units, id) {
        None => e,
        Some(u) => {
            let e1 = m::put_unit(e, id, as_firing(u));
            if u.unit_type == UnitType::Tank {
                m::interrupt_cover(e1, id)
            } else {
                e1
            }
        },
    }
}

/// The weapon of a unit cools for the time of the rules.
pub open spec fn cool(e: EngineV, id: Id, t: Tick) -> Done {
    match m::need(e, "weapon_cooldown_direct"@) {
        Err(x) => (e, Err(x)),
        Ok(cd) => (
            m::schedule(
                m::set_weapon(e, id, WeaponState::Cooling),
                tick_sum(t, cd),
                Event::WeaponReady { unit: id },
            ),
            Ok(()),
        ),
    }
}

/// The state after a shot was drawn and noted.
pub open spec fn drawn(e: EngineV, rec: Option<combat::RecV>, rng: u128) -> EngineV {
    EngineV { rng, shots: noted(e.shots, rec), ..e }
}

/// A direct shot at a unit. A target that the firer does not observe is none. Nobody fires into a
/// fight within a hex from outside it.
pub open spec fn fire_at_unit(e: EngineV, side: SideId, id: Id, weapon: Seq<char>, target_id: Id, t: Tick) -> Done {
    match target_of(e, side, target_id) {
        None => refused(e, "invalid fire target"@),
        Some(target) => {
            let shooter = as_firing(e.units[id]);
            if !observes(e.rules, e.map, shooter, target) {
                refused(e, "invalid fire target"@)
            } else if e.same_hex.contains_key(target.pos) && shooter.pos != target.pos {
                refused(e, "cannot fire into a 同格交战 (三.15c)"@)
            } else {
                let r = direct_step::<PcgRng>(
                    e.tables,
                    e.map,
                    e.rng,
                    e.rules,
                    shooter,
                    weapon,
                    target,
                );
                match r.0 {
                    FireOutcome::Rejected(why) => refused(e, why),
                    FireOutcome::Resolved(outcome) => {
                        let e1 = fired(drawn(e, r.1, r.2), id);
                        match m::apply_fire(e1, target_id, outcome, t) {
                            (e2, Err(x)) => (e2, Err(x)),
                            (e2, Ok(_)) => cool(e2, id, t),
                        }
                    },
                }
            }
        },
    }
}

/// The enemy fortification under an id, if it can be fired upon.
pub open spec fn works_target(e: EngineV, side: SideId, id: Id) -> Option<(FacilityV, FortKind)> {
    match at(e.facilities, id) {
        Some(f) => match fort_named(f.kind) {
            Some(kind) => if fort_engages(kind) && f.owner is Some && f.owner != Some(side) {
                Some((f, kind))
            } else {
                None
            },
            None => None,
        },
        None => None,
    }
}

/// A direct shot at a fortification. A vehicle fortification absorbs it; in a combat fortification
/// those inside take it.
pub open spec fn fire_at_facility(e: EngineV, side: SideId, id: Id, weapon: Seq<char>, fac: Id, t: Tick) -> Done {
    match works_target(e, side, fac) {
        None => refused(e, "invalid fire target"@),
        Some((f, kind)) => {
            let exposed = match setting(e.rules.fortification, "exposed_range_hexes"@) {
                Some(n) => n as int,
                None => 0,
            };
            let r = works_step::<PcgRng>(
                e.tables,
                e.map,
                e.rng,
                e.rules,
                as_firing(e.units[id]),
                weapon,
                f.at,
                f.armor,
                fort_range(kind, exposed),
            );
            match r.0 {
                FireOutcome::Rejected(why) => refused(e, told(why)),
                FireOutcome::Resolved(outcome) => {
                    let e1 = fired(drawn(e, r.1, r.2), id);
                    let d = if kind == FortKind::Vehicle {
                        (m::vehicle_works_hit(e1, fac, outcome), Ok(()))
                    } else {
                        m::personnel_works_hit(e1, fac, outcome, t)
                    };
                    match d {
                        (e2, Err(x)) => (e2, Err(x)),
                        (e2, Ok(_)) => cool(e2, id, t),
                    }
                },
            }
        },
    }
}

/// `fire_direct`: a direct shot at a unit or a fortification. A suppressed unit does not fire.
pub open spec fn do_fire(e: EngineV, side: SideId, cmd: Json, t: Tick) -> Done {
    match free_id(e, side, cmd) {
        Err(x) => (e, Err(x)),
        Ok(id) => if m::suppressed(e.units, id, t) {
            refused(e, "cannot fire while suppressed"@)
        } else {
            match (text_in(cmd, "weapon"@), text_in(cmd, "targetFacility"@), text_in(cmd, "targetUnit"@)) {
                (None, _, _) => refused(e, "fire_direct missing weapon"@),
                (Some(w), Some(fac), _) => fire_at_facility(e, side, id, w, fac, t),
                (Some(w), None, None) => refused(e, "fire_direct missing targetUnit"@),
                (Some(w), None, Some(target)) => fire_at_unit(e, side, id, w, target, t),
            }
        },
    }
}

impl Engine {
    /// The firer as it fires.
    fn firing_copy(&self, id: &String) -> (r: Option<RuntimeUnit>)
        ensures
            match r {
                Some(u) => self@.units.contains_key(id@) && u@ == as_firing(self@.units[id@]),
                None => !self@.units.contains_key(id@),
            },
    {
        match self.state.units.get(id) {
            Some(u) => {
                let mut c: RuntimeUnit = u.dup();
                if c.state == UnitState::Cover {
                    c.state = UnitState::Stopped;
                }
                Some(c)
            },
            None => None,
        }
    }

    fn target_copy(&self, side: SideId, id: &String) -> (r: Option<RuntimeUnit>)
        ensures
            match r {
                Some(u) => target_of(self@, side, id@) == Some(u@),
                None => target_of(self@, side, id@) is None,
            },
    {
        match self.state.units.get(id) {
            Some(u) => if u.side != side && u.alive && u.is_on_board()
                && mechanics::can_be_targeted(u.unit_type) {
                Some(u.dup())
            } else {
                None
            },
            None => None,
        }
    }

    fn fired(&mut self, id: &String)
        ensures
            final(self).became(old(self), fired(old(self)@, id@)),
    {
        let mut tank: bool = false;
        match self.state.units.get_mut(id) {
            Some(u) => {
                if u.state == UnitState::Cover {
                    u.state = UnitState::Stopped;
                }
                tank = u.unit_type == UnitType::Tank;
            },
            None => {},
        }
        if tank {
            self.interrupt_cover(id);
        }
    }

    fn cool(&mut self, id: &String, t: Tick) -> (r: Result<(), EngineError>)
        ensures
            ({
                let d = cool(old(self)@, id@, t);
                final(self).became(old(self), d.0) && res(r) == d.1
            }),
    {
        match self.require_timing("weapon_cooldown_direct") {
            Ok(cd) => {
                self.set_weapon(id, WeaponState::Cooling);
                self.schedule(later(t, cd), Event::WeaponReady { unit: id.clone() });
                Ok(())
            },
            Err(x) => Err(x),
        }
    }

    fn fire_direct_at_unit(
        &mut self,
        side: SideId,
        id: &String,
        weapon: &str,
        target_id: &String,
        t: Tick,
    ) -> (r: Result<(), EngineError>)
        requires
            old(self)@.units.contains_key(id@),
        ensures
            ({
                let d = fire_at_unit(old(self)@, side, id@, weapon@, target_id@, t);
                final(self).became(old(self), d.0) && res(r) == d.1
            }),
    {
        let shooter: RuntimeUnit = match self.firing_copy(id) {
            Some(u) => u,
            None => return Err(command("no controllable unit")),
        };
        let target: RuntimeUnit = match self.target_copy(side, target_id) {
            Some(u) => u,
            None => return Err(command("invalid fire target")),
        };
        if !mechanics::can_observe(&self.rules, &self.map, &shooter, &target) {
            return Err(command("invalid fire target"));
        }
        if self.same_hex.contains_key(&target.pos) && shooter.pos != target.pos {
            return Err(command("cannot fire into a 同格交战 (三.15c)"));
        }
        match combat::direct_fire(
            &self.tables,
            &self.map,
            &mut self.rng,
            &mut self.log,
            &self.rules,
            &shooter,
            weapon,
            &target,
        ) {
            FireOutcome::Rejected(why) => Err(command(why)),
            FireOutcome::Resolved(outcome) => {
                self.fired(id);
                match self.apply_direct_fire(target_id, outcome, t) {
                    Ok(_) => self.cool(id, t),
                    Err(x) => Err(x),
                }
            },
        }
    }

    fn works_copy(&self, side: SideId, id: &String) -> (r: Option<(Axial, Armor, FortKind)>)
        ensures
            match r {
                Some((pos, armor, kind)) => match works_target(self@, side, id@) {
                    Some((f, k)) => f.at == pos && f.armor == armor && k == kind,
                    None => false,
                },
                None => works_target(self@, side, id@) is None,
            },
    {
        let f: &RuntimeFacility = match self.state.facilities.get(id) {
            Some(f) => f,
            None => return None,
        };
        let kind: FortKind = match FortKind::from_facility_kind(f.kind.as_str()) {
            Some(k) => k,
            None => return None,
        };
        let hostile: bool = match f.owner {
            Some(o) => o != side,
            None => false,
        };
        if mechanics::fortification_can_engage(kind) && hostile {
            Some((f.at, f.armor, kind))
        } else {
            None
        }
    }

    /// A direct shot at a fortification.
    fn fire_direct_at_facility(
        &mut self,
        side: SideId,
        id: &String,
        weapon: &str,
        fac_id: &String,
        t: Tick,
    ) -> (r: Result<(), EngineError>)
        requires
            old(self)@.units.contains_key(id@),
        ensures
            ({
                let d = fire_at_facility(old(self)@, side, id@, weapon@, fac_id@, t);
                final(self).became(old(self), d.0) && res(r) == d.1
            }),
    {
        let shooter: RuntimeUnit = match self.firing_copy(id) {
            Some(u) => u,
            None => return Err(command("no controllable unit")),
        };
        let (pos, armor, kind) = match self.works_copy(side, fac_id) {
            Some(w) => w,
            None => return Err(command("invalid fire target")),
        };
        let exposed: i64 = match self.rules.fortification_exposed_range() {
            Some(n) => n,
            None => 0,
        };
        let range: i64 = mechanics::fortification_observe_range(kind, exposed);
        match combat::direct_fire_at_works(
            &self.tables,
            &self.map,
            &mut self.rng,
            &mut self.log,
            &self.rules,
            &shooter,
            weapon,
            pos,
            armor,
            range,
        ) {
            FireOutcome::Rejected(why) => {
                if str_eq(why, "target not observed") {
                    Err(command("invalid fire target"))
                } else {
                    Err(command(why))
                }
            },
            FireOutcome::Resolved(outcome) => {
                self.fired(id);
                if kind == FortKind::Vehicle {
                    self.apply_fire_to_vehicle_works(fac_id, outcome);
                } else {
                    match self.apply_fire_to_personnel_works(fac_id, outcome, t) {
                        Ok(_) => {},
                        Err(x) => return Err(x),
                    }
                }
                self.cool(id, t)
            },
        }
    }

    pub(crate) fn op_fire(&mut self, side: SideId, cmd: &Json, t: Tick) -> (r: Result<(), EngineError>)
        ensures
            ({
                let d = do_fire(old(self)@, side, *cmd, t);
                final(self).became(old(self), d.0) && res(r) == d.1
            }),
    {
        let id: String = match self.free_id(side, cmd) {
            Ok(id) => id,
            Err(x) => return Err(x),
        };
        if self.is_suppressed(&id, t) {
            return Err(command("cannot fire while suppressed"));
        }
        let weapon: &str = match text_under(cmd, "weapon") {
            Some(w) => w,
            None => return Err(command("fire_direct missing weapon")),
        };
        match text_under(cmd, "targetFacility") {
            Some(fac) => return self.fire_direct_at_facility(side, &id, weapon, &fac.to_owned(), t),
            None => {},
        }
        match text_under(cmd, "targetUnit") {
            Some(target) => self.fire_direct_at_unit(side, &id, weapon, &target.to_owned(), t),
            None => Err(command("fire_direct missing targetUnit")),
        }
    }
}

// ---------- air defence ----------

/// What the rules say of an air-defence unit type: weapon, number of shots, ticks between shots.
pub open spec fn aa_rules(e: EngineV, t: UnitType) -> Result<(Seq<char>, u32, Tick), ErrV> {
    match jget(jget(Some(e.rules.air), "aa"@), type_key(t)) {
        None => Err(EngineError::Command("unit is not a 防空算子 (三.18)"@)),
        Some(aa) => match (
            jtext(jget(Some(aa), "weapon"@)),
            jnat(jget(Some(aa), "max_shots"@)),
            at(e.rules.paces.aa_interval@, type_key(t)),
        ) {
            (None, _, _) => Err(EngineError::Rules("air.aa missing weapon"@)),
            (Some(_), None, _) => Err(EngineError::Rules("air.aa missing max_shots"@)),
            (Some(_), Some(_), None) => Err(EngineError::Rules("air.aa missing interval"@)),
            (Some(w), Some(n), Some(pause)) => Ok((w, (n % 0x1_0000_0000) as u32, pause)),
        },
    }
}

/// The shots that an air-defence unit has fired.
pub open spec fn shots_fired(e: EngineV, id: Id) -> u32 {
    match at(e.aa_shots, id) {
        Some(n) => n,
        None => 0,
    }
}

/// A salvo at an air unit: its shot is spent and the weapon cools, whatever comes of it.
pub open spec fn aa_salvo_at(
    e: EngineV,
    id: Id,
    target_id: Id,
    target: UnitV,
    weapon: Seq<char>,
    pause: Tick,
    t: Tick,
) -> Done {
    let u = e.units[id];
    let r = aa_salvo::<PcgRng>(
        e.tables,
        e.rng,
        weapon,
        u.teams,
        steps(u.pos, target.pos) as int,
    );
    match r.0 {
        None => refused(e, "target out of AA range (三.18)"@),
        Some(o) => {
            let e1 = EngineV { rng: r.1, ..e };
            let d = if o.destroyed {
                m::apply_fire(e1, target_id, Outcome::Kill, t)
            } else {
                (e1, Ok(()))
            };
            match d {
                (e2, Err(x)) => (e2, Err(x)),
                (e2, Ok(_)) => {
                    let n = shots_fired(e2, id);
                    let e3 = EngineV {
                        aa_shots: e2.aa_shots.insert(
                            id,
                            if n == u32::MAX {
                                n
                            } else {
                                (n + 1) as u32
                            },
                        ),
                        ..e2
                    };
                    (
                        m::schedule(
                            m::set_weapon(e3, id, WeaponState::Cooling),
                            tick_sum(t, pause),
                            Event::WeaponReady { unit: id },
                        ),
                        Ok(()),
                    )
                },
            }
        },
    }
}

/// `aa_fire`: an air-defence unit fires at an air unit that it observes, as long as it has shots and
/// its weapon is ready. A target that it does not observe is told as if it were not there.
pub open spec fn do_aa_fire(e: EngineV, side: SideId, cmd: Json, t: Tick) -> Done {
    match free_id(e, side, cmd) {
        Err(x) => (e, Err(x)),
        Ok(id) => if m::suppressed(e.units, id, t) {
            refused(e, "cannot fire while suppressed"@)
        } else {
            let u = e.units[id];
            match aa_rules(e, u.unit_type) {
                Err(x) => (e, Err(x)),
                Ok((weapon, max_shots, pause)) => if shots_fired(e, id) >= max_shots {
                    refused(e, "防空算子 out of shots (三.18g)"@)
                } else if u.weapon_state != WeaponState::Deployed {
                    refused(e, "防空武器 still cooling (三.18)"@)
                } else if busy(e, id, t) {
                    (e, Err(busy_error(id)))
                } else {
                    match text_in(cmd, "targetUnit"@) {
                        None => refused(e, "aa_fire missing targetUnit"@),
                        Some(target_id) => match target_of(e, side, target_id) {
                            None => refused(e, "invalid fire target"@),
                            Some(target) => if !observes(e.rules, e.map, u, target) {
                                refused(e, "invalid fire target"@)
                            } else if marching(e, id) {
                                (e, Err(march_error(id)))
                            } else if !air(target.unit_type) {
                                refused(e, "防空武器 only engages air targets (三.18)"@)
                            } else {
                                aa_salvo_at(e, id, target_id, target, weapon, pause, t)
                            },
                        },
                    }
                },
            }
        },
    }
}

impl Engine {
    fn aa_rules(&self, ut: UnitType) -> (r: Result<(String, u32, Tick), EngineError>)
        ensures
            match r {
                Ok((w, n, p)) => aa_rules(self@, ut) == Ok::<(Seq<char>, u32, Tick), ErrV>((w@, n, p)),
                Err(x) => aa_rules(self@, ut) == Err::<(Seq<char>, u32, Tick), ErrV>(x@),
            },
    {
        let key: &str = mechanics::unit_type_key(ut);
        let aa: Option<&Json> = field(field(Some(&self.rules.air), "aa"), key);
        if aa.is_none() {
            return Err(command("unit is not a 防空算子 (三.18)"));
        }
        let weapon: &str = match text_of(field(aa, "weapon")) {
            Some(w) => w,
            None => return Err(rules_error("air.aa missing weapon")),
        };
        let n: u64 = match nat_of(field(aa, "max_shots")) {
            Some(n) => n,
            None => return Err(rules_error("air.aa missing max_shots")),
        };
        match self.rules.paces.aa_interval.get(&key.to_owned()) {
            Some(p) => Ok((weapon.to_owned(), (n % 0x1_0000_0000) as u32, *p)),
            None => Err(rules_error("air.aa missing interval")),
        }
    }

    fn shots_fired(&self, id: &String) -> (r: u32)
        ensures
            r == shots_fired(self@, id@),
    {
        match self.aa_shots.get(id) {
            Some(n) => *n,
            None => 0,
        }
    }

    fn aa_salvo_at(
        &mut self,
        id: &String,
        target_id: &String,
        target: &RuntimeUnit,
        weapon: &str,
        pause: Tick,
        t: Tick,
    ) -> (r: Result<(), EngineError>)
        requires
            old(self)@.units.contains_key(id@),
        ensures
            ({
                let d = aa_salvo_at(old(self)@, id@, target_id@, target@, weapon@, pause, t);
                final(self).became(old(self), d.0) && res(r) == d.1
            }),
    {
        let (teams, pos): (u8, Axial) = match self.state.units.get(id) {
            Some(u) => (u.teams, u.pos),
            None => return Err(command("no controllable unit")),
        };
        let outcome: AaOutcome = match combat::air_defense(
            &self.tables,
            &mut self.rng,
            weapon,
            teams,
            pos.distance(&target.pos),
        ) {
            Some(o) => o,
            None => return Err(command("target out of AA range (三.18)")),
        };
        if outcome.destroyed {
            match self.apply_direct_fire(target_id, Outcome::Kill, t) {
                Ok(_) => {},
                Err(x) => return Err(x),
            }
        }
        let n: u32 = self.shots_fired(id);
        self.aa_shots.insert(id.clone(), if n == u32::MAX { n } else { n + 1 });
        self.set_weapon(id, WeaponState::Cooling);
        self.schedule(later(t, pause), Event::WeaponReady { unit: id.clone() });
        Ok(())
    }

    pub(crate) fn op_aa_fire(&mut self, side: SideId, cmd: &Json, t: Tick) -> (r: Result<
        (),
        EngineError,
    >)
        ensures
            ({
                let d = do_aa_fire(old(self)@, side, *cmd, t);
                final(self).became(old(self), d.0) && res(r) == d.1
            }),
    {
        let id: String = match self.free_id(side, cmd) {
            Ok(id) => id,
            Err(x) => return Err(x),
        };
        if self.is_suppressed(&id, t) {
            return Err(command("cannot fire while suppressed"));
        }
        let shooter: RuntimeUnit = match self.state.units.get(&id) {
            Some(u) => u.dup(),
            None => return Err(command("no controllable unit")),
        };
        let (weapon, max_shots, pause) = match self.aa_rules(shooter.unit_type) {
            Ok(x) => x,
            Err(x) => return Err(x),
        };
        if self.shots_fired(&id) >= max_shots {
            return Err(command("防空算子 out of shots (三.18g)"));
        }
        if shooter.weapon_state != WeaponState::Deployed {
            return Err(command("防空武器 still cooling (三.18)"));
        }
        if self.is_busy(&id, t) {
            return Err(self.busy_refusal(&id));
        }
        let target_id: String = match text_under(cmd, "targetUnit") {
            Some(s) => s.to_owned(),
            None => return Err(command("aa_fire missing targetUnit")),
        };
        let target: RuntimeUnit = match self.target_copy(side, &target_id) {
            Some(u) => u,
            None => return Err(command("invalid fire target")),
        };
        if !mechanics::can_observe(&self.rules, &self.map, &shooter, &target) {
            return Err(command("invalid fire target"));
        }
        if self.is_marching(&id) {
            return Err(self.march_refusal(&id));
        }
        if !mechanics::is_air(target.unit_type) {
            return Err(command("防空武器 only engages air targets (三.18)"));
        }
        self.aa_salvo_at(&id, &target_id, &target, weapon.as_str(), pause, t)
    }
}

// ---------- guided fire ----------

/// Why a guide may not guide a vehicle: it is no guide, it is carried or not stopped, or it does not
/// belong to the vehicle. A drone guides any vehicle.
pub open spec fn guide_barred(g: UnitV, vehicle: Id) -> Option<Seq<char>> {
    if !guides(g.unit_type) {
        Some("this unit cannot guide (三.14a)"@)
    } else if g.unit_type == UnitType::Uav {
        None
    } else if g.carried_by is Some {
        Some("a 被载 guide must dismount first (三.13c)"@)
    } else if g.unit_type == UnitType::Ugv && g.state != UnitState::Stopped {
        Some("a 无人战车 must be stopped to guide (三.13c)"@)
    } else if g.affiliated_to != Some(vehicle) {
        Some("步兵/无人战车 may only guide its 隶属 vehicle (三.14b)"@)
    } else {
        None
    }
}

/// The unit prepares its next shot until `ready`.
pub open spec fn prepare(e: EngineV, id: Id, ready: Tick) -> EngineV {
    m::schedule(
        m::set_busy(m::set_weapon(e, id, WeaponState::Cooling), id, ready),
        ready,
        Event::WeaponReady { unit: id },
    )
}

/// A guided shot at a unit; then vehicle and guide prepare the next.
pub open spec fn guided_at(
    e: EngineV,
    side: SideId,
    id: Id,
    guide: Id,
    weapon: Seq<char>,
    target_id: Id,
    t: Tick,
) -> Done {
    match target_of(e, side, target_id) {
        None => refused(e, "invalid fire target"@),
        Some(target) => if !observes(e.rules, e.map, e.units[guide], target) {
            refused(e, "invalid fire target"@)
        } else {
            let r = guided_step::<PcgRng>(
                e.tables,
                e.map,
                e.rng,
                e.rules,
                e.units[guide],
                e.units[id],
                weapon,
                target,
            );
            match r.0 {
                FireOutcome::Rejected(why) => refused(e, why),
                FireOutcome::Resolved(outcome) => match m::apply_fire(
                    drawn(e, r.1, r.2),
                    target_id,
                    outcome,
                    t,
                ) {
                    (e1, Err(x)) => (e1, Err(x)),
                    (e1, Ok(_)) => match m::need(e1, "weapon_cooldown_direct"@) {
                        Err(x) => (e1, Err(x)),
                        Ok(d) => (
                            prepare(prepare(e1, id, tick_sum(t, d)), guide, tick_sum(t, d)),
                            Ok(()),
                        ),
                    },
                },
            }
        },
    }
}

/// `guide_fire`: a guide lets a missile vehicle fire at a unit that the guide observes.
pub open spec fn do_guide_fire(e: EngineV, side: SideId, cmd: Json, t: Tick) -> Done {
    match free_id(e, side, cmd) {
        Err(x) => (e, Err(x)),
        Ok(id) => match text_in(cmd, "guideId"@) {
            None => refused(e, "guide_fire missing guideId"@),
            Some(guide) => if !own(e, side, guide) {
                (e, Err(no_unit(guide)))
            } else if garrisoned(e, guide) {
                (e, Err(garrison_error(guide)))
            } else if busy(e, guide, t) {
                (e, Err(busy_error(guide)))
            } else {
                match (text_in(cmd, "weapon"@), text_in(cmd, "targetUnit"@)) {
                    (None, _) => refused(e, "guide_fire missing weapon"@),
                    (Some(_), None) => refused(e, "guide_fire missing targetUnit"@),
                    (Some(weapon), Some(target_id)) => match guide_barred(e.units[guide], id) {
                        Some(why) => refused(e, why),
                        None => if m::suppressed(e.units, guide, t) {
                            refused(e, "guide is suppressed (三.14d)"@)
                        } else {
                            guided_at(e, side, id, guide, weapon, target_id, t)
                        },
                    },
                }
            },
        },
    }
}

fn guide_refusal(g: &RuntimeUnit, vehicle: &String) -> (r: Option<&'static str>)
    ensures
        match r {
            Some(s) => guide_barred(g@, vehicle@) == Some(s@),
            None => guide_barred(g@, vehicle@) is None,
        },
{
    if !combat::can_guide(g.unit_type) {
        return Some("this unit cannot guide (三.14a)");
    }
    if g.unit_type == UnitType::Uav {
        return None;
    }
    if g.carried_by.is_some() {
        return Some("a 被载 guide must dismount first (三.13c)");
    }
    if g.unit_type == UnitType::Ugv && g.state != UnitState::Stopped {
        return Some("a 无人战车 must be stopped to guide (三.13c)");
    }
    if !opt_is(&g.affiliated_to, vehicle.as_str()) {
        return Some("步兵/无人战车 may only guide its 隶属 vehicle (三.14b)");
    }
    None
}

impl Engine {
    fn prepare(&mut self, id: &String, ready: Tick)
        ensures
            final(self).became(old(self), prepare(old(self)@, id@, ready)),
    {
        self.set_weapon(id, WeaponState::Cooling);
        self.set_busy(id, ready);
        self.schedule(ready, Event::WeaponReady { unit: id.clone() });
    }

    fn guided_at(
        &mut self,
        side: SideId,
        id: &String,
        guide: &String,
        weapon: &str,
        target_id: &String,
        t: Tick,
    ) -> (r: Result<(), EngineError>)
        requires
            old(self)@.units.contains_key(id@),
            old(self)@.units.contains_key(guide@),
        ensures
            ({
                let d = guided_at(old(self)@, side, id@, guide@, weapon@, target_id@, t);
                final(self).became(old(self), d.0) && res(r) == d.1
            }),
    {
        let guide_u: RuntimeUnit = match self.state.units.get(guide) {
            Some(u) => u.dup(),
            None => return Err(command("no controllable unit")),
        };
        let vehicle_u: RuntimeUnit = match self.state.units.get(id) {
            Some(u) => u.dup(),
            None => return Err(command("no controllable unit")),
        };
        let target: RuntimeUnit = match self.target_copy(side, target_id) {
            Some(u) => u,
            None => return Err(command("invalid fire target")),
        };
        if !mechanics::can_observe(&self.rules, &self.map, &guide_u, &target) {
            return Err(command("invalid fire target"));
        }
        match combat::guided_fire(
            &self.tables,
            &self.map,
            &mut self.rng,
            &mut self.log,
            &self.rules,
            &guide_u,
            &vehicle_u,
            weapon,
            &target,
        ) {
            FireOutcome::Rejected(why) => Err(command(why)),
            FireOutcome::Resolved(outcome) => {
                match self.apply_direct_fire(target_id, outcome, t) {
                    Ok(_) => {},
                    Err(x) => return Err(x),
                }
                let d: Tick = match self.require_timing("weapon_cooldown_direct") {
                    Ok(d) => d,
                    Err(x) => return Err(x),
                };
                let ready: Tick = later(t, d);
                self.prepare(id, ready);
                self.prepare(guide, ready);
                Ok(())
            },
        }
    }

    pub(crate) fn op_guide_fire(&mut self, side: SideId, cmd: &Json, t: Tick) -> (r: Result<
        (),
        EngineError,
    >)
        ensures
            ({
                let d = do_guide_fire(old(self)@, side, *cmd, t);
                final(self).became(old(self), d.0) && res(r) == d.1
            }),
    {
        let id: String = match self.free_id(side, cmd) {
            Ok(id) => id,
            Err(x) => return Err(x),
        };
        let guide: String = match text_under(cmd, "guideId") {
            Some(s) => s.to_owned(),
            None => return Err(command("guide_fire missing guideId")),
        };
        match self.require_own_unit(side, &guide) {
            Ok(_) => {},
            Err(x) => return Err(x),
        }
        if self.is_garrisoned(&guide) {
            return Err(self.garrison_refusal(&guide));
        }
        if self.is_busy(&guide, t) {
            return Err(self.busy_refusal(&guide));
        }
        let weapon: &str = match text_under(cmd, "weapon") {
            Some(w) => w,
            None => return Err(command("guide_fire missing weapon")),
        };
        let target_id: String = match text_under(cmd, "targetUnit") {
            Some(s) => s.to_owned(),
            None => return Err(command("guide_fire missing targetUnit")),
        };
        match self.state.units.get(&guide) {
            Some(g) => {
                match guide_refusal(g, &id) {
                    Some(why) => return Err(command(why)),
                    None => {},
                }
            },
            None => return Err(command("no controllable unit")),
        }
        if self.is_suppressed(&guide, t) {
            return Err(command("guide is suppressed (三.14d)"));
        }
        self.guided_at(side, &id, &guide, weapon, &target_id, t)
    }
}

// ---------- loitering munitions ----------

/// `strike_loitering`: a munition in the air strikes a unit that it observes and is spent.
pub open spec fn do_strike(e: EngineV, side: SideId, cmd: Json, t: Tick) -> Done {
    match own_id(e, side, cmd) {
        Err(x) => (e, Err(x)),
        Ok(id) => {
            let u = e.units[id];
            if !e.loitering_parent.contains_key(id) || u.carried_by is Some {
                refused(e, "only a deployed 巡飞弹 may 打击 (三.10f)"@)
            } else {
                let weapons = loadout_of(e.rules, UnitType::LoiteringMunition);
                match text_in(cmd, "targetUnit"@) {
                    None => refused(e, "strike_loitering missing targetUnit"@),
                    Some(target_id) => if weapons.len() == 0 {
                        (
                            e,
                            Err(
                                EngineError::Rules(
                                    "no 巡飞弹 loadout weapon (rules.loadout.loitering_munition)"@,
                                ),
                            ),
                        )
                    } else {
                        match target_of(e, side, target_id) {
                            None => refused(e, "invalid 打击 target"@),
                            Some(target) => if !observes(e.rules, e.map, u, target) {
                                refused(e, "invalid 打击 target"@)
                            } else {
                                strike_at(e, id, weapons[0], target_id, target, t)
                            },
                        }
                    },
                }
            }
        },
    }
}

/// The strike of a munition.
pub open spec fn strike_at(e: EngineV, id: Id, weapon: Seq<char>, target_id: Id, target: UnitV, t: Tick) -> Done {
    let r = strike_step::<PcgRng>(e.tables, e.map, e.rng, e.units[id], weapon, target);
    match r.0 {
        FireOutcome::Rejected(why) => refused(e, why),
        FireOutcome::Resolved(outcome) => match m::apply_fire(
            drawn(e, r.1, r.2),
            target_id,
            outcome,
            t,
        ) {
            (e1, Err(x)) => (e1, Err(x)),
            (e1, Ok(_)) => (m::expend(e1, id), Ok(())),
        },
    }
}

impl Engine {
    fn strike_at(
        &mut self,
        id: &String,
        munition: &RuntimeUnit,
        weapon: &str,
        target_id: &String,
        target: &RuntimeUnit,
        t: Tick,
    ) -> (r: Result<(), EngineError>)
        requires
            old(self)@.units.contains_key(id@),
            munition@ == old(self)@.units[id@],
        ensures
            ({
                let d = strike_at(old(self)@, id@, weapon@, target_id@, target@, t);
                final(self).became(old(self), d.0) && res(r) == d.1
            }),
    {
        match combat::loitering_strike(
            &self.tables,
            &self.map,
            &mut self.rng,
            &mut self.log,
            munition,
            weapon,
            target,
        ) {
            FireOutcome::Rejected(why) => Err(command(why)),
            FireOutcome::Resolved(outcome) => {
                match self.apply_direct_fire(target_id, outcome, t) {
                    Ok(_) => {
                        self.expend(id);
                        Ok(())
                    },
                    Err(x) => Err(x),
                }
            },
        }
    }

    pub(crate) fn op_strike(&mut self, side: SideId, cmd: &Json, t: Tick) -> (r: Result<
        (),
        EngineError,
    >)
        ensures
            ({
                let d = do_strike(old(self)@, side, *cmd, t);
                final(self).became(old(self), d.0) && res(r) == d.1
            }),
    {
        let id: String = match self.own_id(side, cmd) {
            Ok(id) => id,
            Err(x) => return Err(x),
        };
        let munition: RuntimeUnit = match self.state.units.get(&id) {
            Some(u) => u.dup(),
            None => return Err(command("no controllable unit")),
        };
        if !self.loitering_parent.contains_key(&id) || munition.carried_by.is_some() {
            return Err(command("only a deployed 巡飞弹 may 打击 (三.10f)"));
        }
        let target_id: String = match text_under(cmd, "targetUnit") {
            Some(s) => s.to_owned(),
            None => return Err(command("strike_loitering missing targetUnit")),
        };
        let weapons: Vec<String> = combat::unit_loadout(&self.rules, UnitType::LoiteringMunition);
        proof {
            assert(views(weapons@).len() == weapons@.len());
        }
        if weapons.len() == 0 {
            return Err(rules_error("no 巡飞弹 loadout weapon (rules.loadout.loitering_munition)"));
        }
        assert(views(weapons@)[0] == weapons@[0]@);
        let target: RuntimeUnit = match self.target_copy(side, &target_id) {
            Some(u) => u,
            None => return Err(command("invalid 打击 target")),
        };
        if !mechanics::can_observe(&self.rules, &self.map, &munition, &target) {
            return Err(command("invalid 打击 target"));
        }
        self.strike_at(&id, &munition, weapons[0].as_str(), &target_id, &target, t)
    }
}

} // verus!
