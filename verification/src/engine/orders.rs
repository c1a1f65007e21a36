//! Orders: what each asks for, and what it is refused for.
use crate::engine::effects::bump;
use crate::engine::model as m;
use crate::engine::model::{refused, Done, EngineV, Event, Id};
use crate::engine::actions::{
    do_aggregate, do_cancel, do_capture, do_dismount, do_enter, do_exit, do_launch, do_lay, do_mount,
    do_plan, do_radar_on, do_split, do_switch_altitude,
};
use crate::engine::fire::{do_aa_fire, do_fire, do_guide_fire, do_strike};
use crate::engine::moves::plan_hop;
use crate::engine::Engine;
use crate::error::{command, command2, command3, res, EngineError, ErrV};
use crate::hex::Axial;
use crate::json::{field, int_of, jget, jint, jtext, text_of, val, Json};
use crate::mechanics;
use crate::mechanics::{fort_engages, fort_named, march_ticks, mode_allowed, vehicle, FortKind};
use crate::rules::at;
use crate::text::{debug_quoted, quoted, str_eq};
use crate::time::{later, next, next_of, tick_sum, Tick};
use crate::types::{cell_at, RuntimeUnit, SideId, UnitState, UnitType, UnitV};
use vstd::prelude::*;
use vstd::string::*;

verus! {

// ---------- reading an order ----------

/// The text under a key of an order.
pub open spec fn text_in(cmd: Json, key: Seq<char>) -> Option<Id> {
    jtext(jget(Some(cmd), key))
}

pub(crate) fn text_under<'a>(cmd: &'a Json, key: &str) -> (r: Option<&'a str>)
    ensures
        match r {
            Some(s) => text_in(*cmd, key@) == Some(s@),
            None => text_in(*cmd, key@) is None,
        },
{
    text_of(field(Some(cmd), key))
}

/// A hex written as an object with `q` and `r`.
pub open spec fn hex_in(o: Option<Json>) -> Option<Axial> {
    match (jint(jget(o, "q"@)), jint(jget(o, "r"@))) {
        (Some(q), Some(r)) => if i32::MIN <= q <= i32::MAX && i32::MIN <= r <= i32::MAX {
            Some(Axial { q: q as i32, r: r as i32 })
        } else {
            None
        },
        _ => None,
    }
}

/// Reads a hex written as an object with `q` and `r`.
pub fn parse_axial(v: Option<&Json>) -> (r: Option<Axial>)
    ensures
        r == hex_in(val(v)),
{
    match (int_of(field(v, "q")), int_of(field(v, "r"))) {
        (Some(q), Some(r)) => if q >= i32::MIN as i64 && q <= i32::MAX as i64 && r >= i32::MIN as i64
            && r <= i32::MAX as i64 {
            Some(Axial { q: q as i32, r: r as i32 })
        } else {
            None
        },
        _ => None,
    }
}

/// The unit that an order is for.
pub open spec fn id_of(cmd: Json) -> Result<Id, ErrV> {
    match text_in(cmd, "unitId"@) {
        Some(id) => Ok(id),
        None => Err(EngineError::Command("missing unitId"@)),
    }
}

/// A result whose value is a text, in contract form.
pub open spec fn res_text(r: Result<String, EngineError>) -> Result<Id, ErrV> {
    match r {
        Ok(s) => Ok(s@),
        Err(x) => Err(x@),
    }
}

/// The unit that an order is for.
pub fn unit_id(cmd: &Json) -> (r: Result<String, EngineError>)
    ensures
        res_text(r) == id_of(*cmd),
{
    match text_under(cmd, "unitId") {
        Some(s) => Ok(s.to_owned()),
        None => Err(command("missing unitId")),
    }
}

/// The posture that a mode of movement names.
pub open spec fn mode_named(mode: Seq<char>) -> Result<UnitState, ErrV> {
    if mode == "normal"@ {
        Ok(UnitState::Normal)
    } else if mode == "charge1"@ {
        Ok(UnitState::Charge1)
    } else if mode == "charge2"@ {
        Ok(UnitState::Charge2)
    } else if mode == "half"@ {
        Ok(UnitState::Half)
    } else if mode == "march"@ {
        Ok(UnitState::March)
    } else if mode == "cover"@ {
        Ok(UnitState::Cover)
    } else {
        Err(EngineError::Command("unknown movement mode "@ + debug_quoted(mode)))
    }
}

/// The posture that a mode of movement names.
pub fn movement_state_from_mode(mode: &str) -> (r: Result<UnitState, EngineError>)
    ensures
        res(r) == mode_named(mode@),
{
    if str_eq(mode, "normal") {
        Ok(UnitState::Normal)
    } else if str_eq(mode, "charge1") {
        Ok(UnitState::Charge1)
    } else if str_eq(mode, "charge2") {
        Ok(UnitState::Charge2)
    } else if str_eq(mode, "half") {
        Ok(UnitState::Half)
    } else if str_eq(mode, "march") {
        Ok(UnitState::March)
    } else if str_eq(mode, "cover") {
        Ok(UnitState::Cover)
    } else {
        Err(command2("unknown movement mode ", quoted(mode).as_str()))
    }
}

// ---------- whom a side may order ----------

/// Whether a unit is a live unit of `side`.
pub open spec fn own(e: EngineV, side: SideId, id: Id) -> bool {
    match at(e.units, id) {
        Some(u) => u.side == side && u.alive,
        None => false,
    }
}

/// The one answer for a unit that is not there, not one's own, or dead.
pub open spec fn no_unit(id: Id) -> ErrV {
    EngineError::Command("no controllable unit "@ + debug_quoted(id))
}

pub open spec fn mounted(e: EngineV, id: Id) -> bool {
    match at(e.units, id) {
        Some(u) => u.carried_by is Some,
        None => false,
    }
}

pub open spec fn busy(e: EngineV, id: Id, t: Tick) -> bool {
    match at(e.units, id) {
        Some(u) => u.busy_until > t,
        None => false,
    }
}

pub open spec fn busy_error(id: Id) -> ErrV {
    EngineError::Command(id + " is mid-transition; cannot accept a new movement order yet"@)
}

pub open spec fn marching(e: EngineV, id: Id) -> bool {
    match at(e.units, id) {
        Some(u) => u.state == UnitState::March,
        None => false,
    }
}

pub open spec fn march_error(id: Id) -> ErrV {
    EngineError::Command(id + " is 行军; stop the march first (三.1.3e)"@)
}

pub open spec fn garrisoned(e: EngineV, id: Id) -> bool {
    match at(e.units, id) {
        Some(u) => u.inside_facility is Some,
        None => false,
    }
}

pub open spec fn garrison_error(id: Id) -> ErrV {
    EngineError::Command(id + " is inside a 工事; exit it first (三.20)"@)
}

/// The own unit that an order is for.
pub open spec fn own_id(e: EngineV, side: SideId, cmd: Json) -> Result<Id, ErrV> {
    match id_of(cmd) {
        Ok(id) => if own(e, side, id) {
            Ok(id)
        } else {
            Err(no_unit(id))
        },
        Err(x) => Err(x),
    }
}

/// The own unit that an order is for, if it is not inside a vehicle.
pub open spec fn free_id(e: EngineV, side: SideId, cmd: Json) -> Result<Id, ErrV> {
    match own_id(e, side, cmd) {
        Ok(id) => if mounted(e, id) {
            Err(EngineError::Command(id + " is mounted; dismount first"@))
        } else {
            Ok(id)
        },
        Err(x) => Err(x),
    }
}

/// The own unit that an order is for, if it is not inside a vehicle and not busy.
pub open spec fn idle_id(e: EngineV, side: SideId, cmd: Json, t: Tick) -> Result<Id, ErrV> {
    match free_id(e, side, cmd) {
        Ok(id) => if busy(e, id, t) {
            Err(busy_error(id))
        } else {
            Ok(id)
        },
        Err(x) => Err(x),
    }
}

impl Engine {
    pub(crate) fn is_own(&self, side: SideId, id: &String) -> (r: bool)
        ensures
            r == own(self@, side, id@),
    {
        match self.state.units.get(id) {
            Some(u) => u.side == side && u.alive,
            None => false,
        }
    }

    pub(crate) fn require_own_unit(&self, side: SideId, id: &String) -> (r: Result<(), EngineError>)
        ensures
            res(r) == (if own(self@, side, id@) {
                Ok(())
            } else {
                Err(no_unit(id@))
            }),
    {
        if self.is_own(side, id) {
            Ok(())
        } else {
            Err(command2("no controllable unit ", quoted(id.as_str()).as_str()))
        }
    }

    pub(crate) fn is_carried(&self, id: &String) -> (r: bool)
        ensures
            r == mounted(self@, id@),
    {
        match self.state.units.get(id) {
            Some(u) => u.carried_by.is_some(),
            None => false,
        }
    }

    pub(crate) fn is_busy(&self, id: &String, t: Tick) -> (r: bool)
        ensures
            r == busy(self@, id@, t),
    {
        match self.state.units.get(id) {
            Some(u) => u.busy_until > t,
            None => false,
        }
    }

    pub(crate) fn busy_refusal(&self, id: &String) -> (r: EngineError)
        ensures
            r@ == busy_error(id@),
    {
        command2(id.as_str(), " is mid-transition; cannot accept a new movement order yet")
    }

    pub(crate) fn is_marching(&self, id: &String) -> (r: bool)
        ensures
            r == marching(self@, id@),
    {
        match self.state.units.get(id) {
            Some(u) => u.state == UnitState::March,
            None => false,
        }
    }

    pub(crate) fn march_refusal(&self, id: &String) -> (r: EngineError)
        ensures
            r@ == march_error(id@),
    {
        command2(id.as_str(), " is 行军; stop the march first (三.1.3e)")
    }

    pub(crate) fn is_garrisoned(&self, id: &String) -> (r: bool)
        ensures
            r == garrisoned(self@, id@),
    {
        match self.state.units.get(id) {
            Some(u) => u.inside_facility.is_some(),
            None => false,
        }
    }

    pub(crate) fn garrison_refusal(&self, id: &String) -> (r: EngineError)
        ensures
            r@ == garrison_error(id@),
    {
        command2(id.as_str(), " is inside a 工事; exit it first (三.20)")
    }

    pub(crate) fn own_id(&self, side: SideId, cmd: &Json) -> (r: Result<String, EngineError>)
        ensures
            res_text(r) == own_id(self@, side, *cmd),
    {
        match unit_id(cmd) {
            Ok(id) => match self.require_own_unit(side, &id) {
                Ok(_) => Ok(id),
                Err(x) => Err(x),
            },
            Err(x) => Err(x),
        }
    }

    pub(crate) fn free_id(&self, side: SideId, cmd: &Json) -> (r: Result<String, EngineError>)
        ensures
            res_text(r) == free_id(self@, side, *cmd),
    {
        match self.own_id(side, cmd) {
            Ok(id) => if self.is_carried(&id) {
                Err(command2(id.as_str(), " is mounted; dismount first"))
            } else {
                Ok(id)
            },
            Err(x) => Err(x),
        }
    }

    pub(crate) fn idle_id(&self, side: SideId, cmd: &Json, t: Tick) -> (r: Result<String, EngineError>)
        ensures
            res_text(r) == idle_id(self@, side, *cmd, t),
    {
        match self.free_id(side, cmd) {
            Ok(id) => if self.is_busy(&id, t) {
                Err(self.busy_refusal(&id))
            } else {
                Ok(id)
            },
            Err(x) => Err(x),
        }
    }
}

// ---------- stop ----------

/// `stop`: the unit comes to a halt after a time.
pub open spec fn do_stop(e: EngineV, side: SideId, cmd: Json, t: Tick) -> Done {
    match idle_id(e, side, cmd, t) {
        Err(x) => (e, Err(x)),
        Ok(id) => match m::need(e, "move_to_stop"@) {
            Err(x) => (e, Err(x)),
            Ok(d) => {
                let done = tick_sum(t, d);
                (
                    m::schedule(
                        m::set_busy(e, id, done),
                        done,
                        Event::TransitionComplete {
                            unit: id,
                            to: UnitState::Stopped,
                            cover_gen: None,
                        },
                    ),
                    Ok(()),
                )
            },
        },
    }
}

impl Engine {
    pub(crate) fn op_stop(&mut self, side: SideId, cmd: &Json, t: Tick) -> (r: Result<(), EngineError>)
        ensures
            ({
                let d = do_stop(old(self)@, side, *cmd, t);
                final(self).became(old(self), d.0) && res(r) == d.1
            }),
    {
        let id: String = match self.idle_id(side, cmd, t) {
            Ok(id) => id,
            Err(x) => return Err(x),
        };
        let d: Tick = match self.require_timing("move_to_stop") {
            Ok(d) => d,
            Err(x) => return Err(x),
        };
        let done: Tick = later(t, d);
        self.set_busy(&id, done);
        self.schedule(
            done,
            Event::TransitionComplete { unit: id, to: UnitState::Stopped, cover_gen: None },
        );
        Ok(())
    }
}

// ---------- move_to ----------

/// The speed that a `move_to` asks for: none for plain movement.
pub open spec fn speed_in(cmd: Json) -> Result<Option<UnitState>, ErrV> {
    match text_in(cmd, "mode"@) {
        None => Ok(None),
        Some(s) => if s == "normal"@ {
            Ok(None)
        } else if s == "half"@ {
            Ok(Some(UnitState::Half))
        } else if s == "charge1"@ {
            Ok(Some(UnitState::Charge1))
        } else if s == "charge2"@ {
            Ok(Some(UnitState::Charge2))
        } else {
            Err(
                EngineError::Command(
                    "move_to mode "@ + debug_quoted(s)
                        + " is not a per-move speed (use half/charge1/charge2)"@,
                ),
            )
        },
    }
}

/// Why a unit may not move at a speed: only infantry charges, and not when it is too tired.
pub open spec fn speed_barred(u: UnitV, speed: Option<UnitState>) -> Option<Seq<char>> {
    let charge = speed == Some(UnitState::Charge1) || speed == Some(UnitState::Charge2);
    let mode = match speed {
        Some(s) => s,
        None => UnitState::Moving,
    };
    if charge && u.unit_type != UnitType::Infantry {
        Some("只有步兵可冲锋 (三.1.4)"@)
    } else if u.unit_type == UnitType::Infantry && !mode_allowed(mode, u.fatigue) {
        Some("活体疲劳过高,无法以该姿态机动 (三.1.4)"@)
    } else {
        None
    }
}

/// The unit sets out for `target` at a speed. A marching unit keeps marching.
pub open spec fn set_out(e: EngineV, id: Id, speed: Option<UnitState>, target: Axial, t: Tick) -> EngineV {
    let e1 = EngineV {
        move_gen: m::bumped(e.move_gen, id),
        fatigue_gen: m::bumped(e.fatigue_gen, id),
        ..e
    };
    let e2 = match at(e1.units, id) {
        Some(u) => m::put_unit(
            e1,
            id,
            RuntimeUnit {
                state: if u.state == UnitState::March {
                    u.state
                } else {
                    match speed {
                        Some(s) => s,
                        None => UnitState::Moving,
                    }
                },
                ..u
            },
        ),
        None => e1,
    };
    plan_hop(e2, id, m::fresh(e.move_gen, id), target, t)
}

/// What leaving its hex costs a unit: a radar goes off, and a fight that is left fires at it.
pub open spec fn leave_hex(e: EngineV, id: Id, t: Tick) -> EngineV {
    let e1 = EngineV { radar_on: e.radar_on.remove(id), ..e };
    let from = e.units[id].pos;
    if e1.same_hex.contains_key(from) {
        m::punish(e1, id, from, t)
    } else {
        e1
    }
}

/// `move_to`: the unit walks hex by hex towards a target. A move to where it is does nothing; a unit
/// that dies leaving a fight does not move.
pub open spec fn do_move(e: EngineV, side: SideId, cmd: Json, t: Tick) -> Done {
    match idle_id(e, side, cmd, t) {
        Err(x) => (e, Err(x)),
        Ok(id) => match hex_in(jget(Some(cmd), "target"@)) {
            None => refused(e, "move_to needs target {q,r}"@),
            Some(target) => if cell_at(e.map, target) is None {
                refused(e, "move_to target is off-map"@)
            } else if e.units[id].pos == target {
                (e, Ok(()))
            } else {
                let e1 = leave_hex(e, id, t);
                match at(e1.units, id) {
                    None => (e1, Ok(())),
                    Some(u) => if !u.alive {
                        (e1, Ok(()))
                    } else {
                        match speed_in(cmd) {
                            Err(x) => (e1, Err(x)),
                            Ok(speed) => match speed_barred(u, speed) {
                                Some(why) => refused(e1, why),
                                None => (set_out(e1, id, speed, target, t), Ok(())),
                            },
                        }
                    },
                }
            },
        },
    }
}

fn speed_of(cmd: &Json) -> (r: Result<Option<UnitState>, EngineError>)
    ensures
        res(r) == speed_in(*cmd),
{
    match text_under(cmd, "mode") {
        None => Ok(None),
        Some(s) => if str_eq(s, "normal") {
            Ok(None)
        } else if str_eq(s, "half") {
            Ok(Some(UnitState::Half))
        } else if str_eq(s, "charge1") {
            Ok(Some(UnitState::Charge1))
        } else if str_eq(s, "charge2") {
            Ok(Some(UnitState::Charge2))
        } else {
            Err(
                command3(
                    "move_to mode ",
                    quoted(s).as_str(),
                    " is not a per-move speed (use half/charge1/charge2)",
                ),
            )
        },
    }
}

impl Engine {
    fn leave_hex(&mut self, id: &String, t: Tick)
        requires
            old(self)@.units.contains_key(id@),
        ensures
            final(self).became(old(self), leave_hex(old(self)@, id@, t)),
    {
        let _ = self.radar_on.remove(id);
        match self.state.units.get(id) {
            Some(u) => {
                let from: Axial = u.pos;
                if self.same_hex.contains_key(&from) {
                    self.same_hex_punish(id, from, t);
                }
            },
            None => {},
        }
    }

    fn set_out(&mut self, id: &String, speed: Option<UnitState>, target: Axial, t: Tick)
        ensures
            final(self).became(old(self), set_out(old(self)@, id@, speed, target, t)),
    {
        let gen: u64 = bump(&mut self.move_gen, id);
        let _ = bump(&mut self.fatigue_gen, id);
        match self.state.units.get_mut(id) {
            Some(u) => {
                if u.state != UnitState::March {
                    u.state = match speed {
                        Some(s) => s,
                        None => UnitState::Moving,
                    };
                }
            },
            None => {},
        }
        self.plan_hop(id, gen, target, t);
    }

    pub(crate) fn op_move(&mut self, side: SideId, cmd: &Json, t: Tick) -> (r: Result<(), EngineError>)
        ensures
            ({
                let d = do_move(old(self)@, side, *cmd, t);
                final(self).became(old(self), d.0) && res(r) == d.1
            }),
    {
        let id: String = match self.idle_id(side, cmd, t) {
            Ok(id) => id,
            Err(x) => return Err(x),
        };
        let target: Axial = match parse_axial(field(Some(cmd), "target")) {
            Some(h) => h,
            None => return Err(command("move_to needs target {q,r}")),
        };
        if self.map.cell(&target).is_none() {
            return Err(command("move_to target is off-map"));
        }
        match self.state.units.get(&id) {
            Some(u) => {
                if u.pos == target {
                    return Ok(());
                }
            },
            None => {},
        }
        self.leave_hex(&id, t);
        let (alive, unit_type, fatigue): (bool, UnitType, i64) = match self.state.units.get(&id) {
            Some(u) => (u.alive, u.unit_type, u.fatigue),
            None => return Ok(()),
        };
        if !alive {
            return Ok(());
        }
        let speed: Option<UnitState> = match speed_of(cmd) {
            Ok(s) => s,
            Err(x) => return Err(x),
        };
        let charge: bool = match speed {
            Some(s) => s == UnitState::Charge1 || s == UnitState::Charge2,
            None => false,
        };
        if charge && unit_type != UnitType::Infantry {
            return Err(command("只有步兵可冲锋 (三.1.4)"));
        }
        let mode: UnitState = match speed {
            Some(s) => s,
            None => UnitState::Moving,
        };
        if unit_type == UnitType::Infantry && !mechanics::infantry_mode_allowed(mode, fatigue) {
            return Err(command("活体疲劳过高,无法以该姿态机动 (三.1.4)"));
        }
        self.set_out(&id, speed, target, t);
        Ok(())
    }
}

// ---------- set_mode ----------

/// Whether a unit stands on a road that it can march on.
pub open spec fn on_marchable_road(e: EngineV, u: UnitV) -> bool {
    match cell_at(e.map, u.pos) {
        Some(c) => match c.road {
            Some(r) => march_ticks(e.rules, r.kind@) is Some,
            None => false,
        },
        None => false,
    }
}

/// The ticks of a change of posture. A vehicle on a road locks its weapon before it marches.
pub open spec fn change_ticks(e: EngineV, id: Id, to: UnitState) -> Result<Tick, ErrV> {
    if to == UnitState::March {
        let u = e.units[id];
        if !vehicle(u.unit_type) || u.unit_type == UnitType::Artillery {
            Err(EngineError::Command("only a 车辆 may 行军 (三.1.3)"@))
        } else if !on_marchable_road(e, u) {
            Err(EngineError::Command("must be on a marchable road hex to 行军 (三.1.3a/b)"@))
        } else {
            match (m::need(e, "weapon_lock"@), m::need(e, "move_state_transition"@)) {
                (Ok(a), Ok(b)) => Ok(tick_sum(a, b)),
                (Err(x), _) => Err(x),
                (_, Err(x)) => Err(x),
            }
        }
    } else {
        m::need(e, "move_state_transition"@)
    }
}

/// The unit begins to change its posture. A march begins at once; a change into cover is numbered,
/// so that it can be interrupted.
pub open spec fn begin_change(e: EngineV, id: Id, to: UnitState, done: Tick) -> EngineV {
    let e1 = match at(e.units, id) {
        Some(u) => m::put_unit(
            e,
            id,
            RuntimeUnit {
                busy_until: done,
                state: if to == UnitState::March {
                    UnitState::March
                } else {
                    u.state
                },
                ..u
            },
        ),
        None => e,
    };
    if to == UnitState::Cover {
        let g = next_of(e1.cover_gen_ctr);
        m::schedule(
            EngineV {
                cover_gen_ctr: g,
                cover_transition: e1.cover_transition.insert(id, g),
                ..e1
            },
            done,
            Event::TransitionComplete { unit: id, to, cover_gen: Some(g) },
        )
    } else {
        m::schedule(e1, done, Event::TransitionComplete { unit: id, to, cover_gen: None })
    }
}

/// `set_mode`: the unit changes its posture after a time. Half speed and charges are no postures; a
/// suppressed unit takes no cover.
pub open spec fn do_set_mode(e: EngineV, side: SideId, cmd: Json, t: Tick) -> Done {
    match idle_id(e, side, cmd, t) {
        Err(x) => (e, Err(x)),
        Ok(id) => match text_in(cmd, "mode"@) {
            None => refused(e, "set_mode missing mode"@),
            Some(mode) => match mode_named(mode) {
                Err(x) => (e, Err(x)),
                Ok(to) => if to == UnitState::Half {
                    refused(
                        e,
                        "半速 is a per-move choice — use move_to mode:\"half\", not set_mode"@,
                    )
                } else if to == UnitState::Charge1 || to == UnitState::Charge2 {
                    refused(
                        e,
                        "一二级冲锋 is a per-move choice — use move_to mode:\"charge1\"/\"charge2\" (三.1.4)"@,
                    )
                } else if to == UnitState::Cover && m::suppressed(e.units, id, t) {
                    refused(e, "cannot take cover while suppressed (三.3e)"@)
                } else {
                    match change_ticks(e, id, to) {
                        Err(x) => (e, Err(x)),
                        Ok(d) => (begin_change(e, id, to, tick_sum(t, d)), Ok(())),
                    }
                },
            },
        },
    }
}

impl Engine {
    fn change_ticks(&self, id: &String, to: UnitState) -> (r: Result<Tick, EngineError>)
        requires
            self@.units.contains_key(id@),
        ensures
            res(r) == change_ticks(self@, id@, to),
    {
        if to != UnitState::March {
            return self.require_timing("move_state_transition");
        }
        let (unit_type, pos): (UnitType, Axial) = match self.state.units.get(id) {
            Some(u) => (u.unit_type, u.pos),
            None => return Err(command("only a 车辆 may 行军 (三.1.3)")),
        };
        if !mechanics::is_vehicle(unit_type) || unit_type == UnitType::Artillery {
            return Err(command("only a 车辆 may 行军 (三.1.3)"));
        }
        let marchable: bool = match self.map.cell(&pos) {
            Some(c) => match &c.road {
                Some(road) => mechanics::march_step_ticks(
                    &self.rules,
                    road.kind.as_str(),
                ).is_some(),
                None => false,
            },
            None => false,
        };
        if !marchable {
            return Err(command("must be on a marchable road hex to 行军 (三.1.3a/b)"));
        }
        match self.require_timing("weapon_lock") {
            Ok(a) => match self.require_timing("move_state_transition") {
                Ok(b) => Ok(later(a, b)),
                Err(x) => Err(x),
            },
            Err(x) => Err(x),
        }
    }

    fn begin_change(&mut self, id: &String, to: UnitState, done: Tick)
        ensures
            final(self).became(old(self), begin_change(old(self)@, id@, to, done)),
    {
        match self.state.units.get_mut(id) {
            Some(u) => {
                u.busy_until = done;
                if to == UnitState::March {
                    u.state = UnitState::March;
                }
            },
            None => {},
        }
        if to == UnitState::Cover {
            let g: u64 = next(self.cover_gen_ctr);
            self.cover_gen_ctr = g;
            self.cover_transition.insert(id.clone(), g);
            self.schedule(
                done,
                Event::TransitionComplete { unit: id.clone(), to, cover_gen: Some(g) },
            );
        } else {
            self.schedule(
                done,
                Event::TransitionComplete { unit: id.clone(), to, cover_gen: None },
            );
        }
    }

    pub(crate) fn op_set_mode(&mut self, side: SideId, cmd: &Json, t: Tick) -> (r: Result<(), EngineError>)
        ensures
            ({
                let d = do_set_mode(old(self)@, side, *cmd, t);
                final(self).became(old(self), d.0) && res(r) == d.1
            }),
    {
        let id: String = match self.idle_id(side, cmd, t) {
            Ok(id) => id,
            Err(x) => return Err(x),
        };
        let mode: &str = match text_under(cmd, "mode") {
            Some(s) => s,
            None => return Err(command("set_mode missing mode")),
        };
        let to: UnitState = match movement_state_from_mode(mode) {
            Ok(s) => s,
            Err(x) => return Err(x),
        };
        if to == UnitState::Half {
            return Err(
                command("半速 is a per-move choice — use move_to mode:\"half\", not set_mode"),
            );
        }
        if to == UnitState::Charge1 || to == UnitState::Charge2 {
            return Err(
                command(
                    "一二级冲锋 is a per-move choice — use move_to mode:\"charge1\"/\"charge2\" (三.1.4)",
                ),
            );
        }
        if to == UnitState::Cover && self.is_suppressed(&id, t) {
            return Err(command("cannot take cover while suppressed (三.3e)"));
        }
        let d: Tick = match self.change_ticks(&id, to) {
            Ok(d) => d,
            Err(x) => return Err(x),
        };
        self.begin_change(&id, to, later(t, d));
        Ok(())
    }
}

// ---------- all orders ----------

/// Whether a garrison may fire out of the fortification that it is in.
pub open spec fn fires_out(e: EngineV, fac: Id) -> bool {
    match at(e.facilities, fac) {
        Some(f) => match fort_named(f.kind) {
            Some(kind) => fort_engages(kind),
            None => false,
        },
        None => false,
    }
}

/// Whether an order is barred because its unit, one of the side's own, is inside a fortification:
/// it may only wait or leave, or fire out where that can be done.
pub open spec fn garrison_bars(e: EngineV, side: SideId, cmd: Json, op: Seq<char>) -> bool {
    match text_in(cmd, "unitId"@) {
        None => false,
        Some(id) => match at(e.units, id) {
            None => false,
            Some(u) => match u.inside_facility {
                None => false,
                Some(fac) => op != "exit_facility"@ && op != "wait"@ && u.side == side && !(
                fires_out(e, fac) && (op == "fire_direct"@ || op == "aa_fire"@)),
            },
        },
    }
}

/// What the orders of movement do; nothing for the name of another order.
#[verifier::opaque]
pub open spec fn movement_order(e: EngineV, side: SideId, cmd: Json, op: Seq<char>, t: Tick) -> Option<Done> {
    if op == "stop"@ {
        Some(do_stop(e, side, cmd, t))
    } else if op == "move_to"@ {
        Some(do_move(e, side, cmd, t))
    } else if op == "set_mode"@ {
        Some(do_set_mode(e, side, cmd, t))
    } else {
        None
    }
}

/// What the orders to fire do; nothing for the name of another order.
#[verifier::opaque]
pub open spec fn fire_order(e: EngineV, side: SideId, cmd: Json, op: Seq<char>, t: Tick) -> Option<Done> {
    if op == "fire_direct"@ {
        Some(do_fire(e, side, cmd, t))
    } else if op == "aa_fire"@ {
        Some(do_aa_fire(e, side, cmd, t))
    } else if op == "guide_fire"@ {
        Some(do_guide_fire(e, side, cmd, t))
    } else if op == "strike_loitering"@ {
        Some(do_strike(e, side, cmd, t))
    } else {
        None
    }
}

/// What the orders of boarding, fortifications and altitude do; nothing for the name of another order.
#[verifier::opaque]
pub open spec fn transport_order(e: EngineV, side: SideId, cmd: Json, op: Seq<char>, t: Tick) -> Option<Done> {
    if op == "switch_altitude"@ {
        Some(do_switch_altitude(e, side, cmd, t))
    } else if op == "mount"@ {
        Some(do_mount(e, side, cmd, t))
    } else if op == "dismount"@ {
        Some(do_dismount(e, side, cmd, t))
    } else if op == "enter_facility"@ {
        Some(do_enter(e, side, cmd, t))
    } else if op == "exit_facility"@ {
        Some(do_exit(e, side, cmd, t))
    } else {
        None
    }
}

/// What the orders of capture, radar, mines and salvos do; nothing for the name of another order.
#[verifier::opaque]
pub open spec fn support_order(e: EngineV, side: SideId, cmd: Json, op: Seq<char>, t: Tick) -> Option<Done> {
    if op == "capture"@ {
        Some(do_capture(e, side, cmd, t))
    } else if op == "radar_on"@ {
        Some(do_radar_on(e, side, cmd, t))
    } else if op == "lay_mines"@ {
        Some(do_lay(e, side, cmd, t))
    } else if op == "plan_indirect"@ {
        Some(do_plan(e, side, cmd, t))
    } else if op == "cancel_indirect"@ {
        Some(do_cancel(e, side, cmd, t))
    } else {
        None
    }
}

/// What the orders of merging, splitting and launching do; nothing for the name of another order.
#[verifier::opaque]
pub open spec fn formation_order(e: EngineV, side: SideId, cmd: Json, op: Seq<char>, t: Tick) -> Option<Done> {
    if op == "aggregate"@ {
        Some(do_aggregate(e, side, cmd, t))
    } else if op == "split"@ {
        Some(do_split(e, side, cmd, t))
    } else if op == "launch_loitering"@ {
        Some(do_launch(e, side, cmd, t))
    } else {
        None
    }
}

/// What an order does by its name.
pub open spec fn dispatch(e: EngineV, side: SideId, cmd: Json, op: Seq<char>, t: Tick) -> Done {
    if op == "wait"@ {
        (e, Ok(()))
    } else if let Some(d) = movement_order(e, side, cmd, op, t) {
        d
    } else if let Some(d) = fire_order(e, side, cmd, op, t) {
        d
    } else if let Some(d) = transport_order(e, side, cmd, op, t) {
        d
    } else if let Some(d) = support_order(e, side, cmd, op, t) {
        d
    } else if let Some(d) = formation_order(e, side, cmd, op, t) {
        d
    } else {
        (e, Err(EngineError::Unimplemented(op)))
    }
}

/// An order of `side` at tick `t`.
pub open spec fn submit(e: EngineV, side: SideId, cmd: Json, t: Tick) -> Done {
    match text_in(cmd, "op"@) {
        None => refused(e, "missing op"@),
        Some(op) => if garrison_bars(e, side, cmd, op) {
            (e, Err(garrison_error(text_in(cmd, "unitId"@)->0)))
        } else {
            dispatch(e, side, cmd, op, t)
        },
    }
}

/// The result of an order that may not have been given.
spec fn res_opt(r: Option<Result<(), EngineError>>) -> Option<Result<(), ErrV>> {
    match r {
        Some(x) => Some(res(x)),
        None => None,
    }
}

impl Engine {
    fn garrison_bars(&self, side: SideId, cmd: &Json, op: &str) -> (r: bool)
        ensures
            r == garrison_bars(self@, side, *cmd, op@),
    {
        let id: String = match text_under(cmd, "unitId") {
            Some(s) => s.to_owned(),
            None => return false,
        };
        let u: &RuntimeUnit = match self.state.units.get(&id) {
            Some(u) => u,
            None => return false,
        };
        let fac: &String = match &u.inside_facility {
            Some(f) => f,
            None => return false,
        };
        if str_eq(op, "exit_facility") || str_eq(op, "wait") || u.side != side {
            return false;
        }
        let out: bool = match self.state.facilities.get(fac) {
            Some(f) => match FortKind::from_facility_kind(f.kind.as_str()) {
                Some(kind) => mechanics::fortification_can_engage(kind),
                None => false,
            },
            None => false,
        };
        !(out && (str_eq(op, "fire_direct") || str_eq(op, "aa_fire")))
    }

    /// Whether this engine is what `was` became by an order that was given, or is `was` where
    /// none was.
    spec fn did(&self, was: &Engine, r: Option<Result<(), ErrV>>, d: Option<Done>) -> bool {
        match (r, d) {
            (Some(r), Some(d)) => self.became(was, d.0) && r == d.1,
            (None, None) => self.became(was, was@),
            _ => false,
        }
    }

    fn movement_order(&mut self, side: SideId, cmd: &Json, op: &str, t: Tick) -> (r: Option<
        Result<(), EngineError>,
    >)
        ensures
            final(self).did(old(self), res_opt(r), movement_order(old(self)@, side, *cmd, op@, t)),
    {
        proof {
            reveal(movement_order);
        }
        if str_eq(op, "stop") {
            Some(self.op_stop(side, cmd, t))
        } else if str_eq(op, "move_to") {
            Some(self.op_move(side, cmd, t))
        } else if str_eq(op, "set_mode") {
            Some(self.op_set_mode(side, cmd, t))
        } else {
            None
        }
    }

    fn fire_order(&mut self, side: SideId, cmd: &Json, op: &str, t: Tick) -> (r: Option<
        Result<(), EngineError>,
    >)
        ensures
            final(self).did(old(self), res_opt(r), fire_order(old(self)@, side, *cmd, op@, t)),
    {
        proof {
            reveal(fire_order);
        }
        if str_eq(op, "fire_direct") {
            Some(self.op_fire(side, cmd, t))
        } else if str_eq(op, "aa_fire") {
            Some(self.op_aa_fire(side, cmd, t))
        } else if str_eq(op, "guide_fire") {
            Some(self.op_guide_fire(side, cmd, t))
        } else if str_eq(op, "strike_loitering") {
            Some(self.op_strike(side, cmd, t))
        } else {
            None
        }
    }

    fn transport_order(&mut self, side: SideId, cmd: &Json, op: &str, t: Tick) -> (r: Option<
        Result<(), EngineError>,
    >)
        ensures
            final(self).did(old(self), res_opt(r), transport_order(old(self)@, side, *cmd, op@, t)),
    {
        proof {
            reveal(transport_order);
        }
        if str_eq(op, "switch_altitude") {
            Some(self.op_switch_altitude(side, cmd, t))
        } else if str_eq(op, "mount") {
            Some(self.op_mount(side, cmd, t))
        } else if str_eq(op, "dismount") {
            Some(self.op_dismount(side, cmd, t))
        } else if str_eq(op, "enter_facility") {
            Some(self.op_enter(side, cmd, t))
        } else if str_eq(op, "exit_facility") {
            Some(self.op_exit(side, cmd, t))
        } else {
            None
        }
    }

    fn support_order(&mut self, side: SideId, cmd: &Json, op: &str, t: Tick) -> (r: Option<
        Result<(), EngineError>,
    >)
        ensures
            final(self).did(old(self), res_opt(r), support_order(old(self)@, side, *cmd, op@, t)),
    {
        proof {
            reveal(support_order);
        }
        if str_eq(op, "capture") {
            Some(self.op_capture(side, cmd, t))
        } else if str_eq(op, "radar_on") {
            Some(self.op_radar_on(side, cmd, t))
        } else if str_eq(op, "lay_mines") {
            Some(self.op_lay(side, cmd, t))
        } else if str_eq(op, "plan_indirect") {
            Some(self.op_plan(side, cmd, t))
        } else if str_eq(op, "cancel_indirect") {
            Some(self.op_cancel(side, cmd, t))
        } else {
            None
        }
    }

    fn formation_order(&mut self, side: SideId, cmd: &Json, op: &str, t: Tick) -> (r: Option<
        Result<(), EngineError>,
    >)
        ensures
            final(self).did(old(self), res_opt(r), formation_order(old(self)@, side, *cmd, op@, t)),
    {
        proof {
            reveal(formation_order);
        }
        if str_eq(op, "aggregate") {
            Some(self.op_aggregate(side, cmd, t))
        } else if str_eq(op, "split") {
            Some(self.op_split(side, cmd, t))
        } else if str_eq(op, "launch_loitering") {
            Some(self.op_launch(side, cmd, t))
        } else {
            None
        }
    }

    fn dispatch(&mut self, side: SideId, cmd: &Json, op: &str, t: Tick) -> (r: Result<
        (),
        EngineError,
    >)
        ensures
            ({
                let d = dispatch(old(self)@, side, *cmd, op@, t);
                final(self).became(old(self), d.0) && res(r) == d.1
            }),
    {
        if str_eq(op, "wait") {
            return Ok(());
        }
        match self.movement_order(side, cmd, op, t) {
            Some(r) => return r,
            None => {},
        }
        match self.fire_order(side, cmd, op, t) {
            Some(r) => return r,
            None => {},
        }
        match self.transport_order(side, cmd, op, t) {
            Some(r) => return r,
            None => {},
        }
        match self.support_order(side, cmd, op, t) {
            Some(r) => return r,
            None => {},
        }
        match self.formation_order(side, cmd, op, t) {
            Some(r) => return r,
            None => {},
        }
        Err(EngineError::Unimplemented(op.to_owned()))
    }

    /// Gives an order of `side` at tick `t`.
    pub fn submit(&mut self, side: SideId, cmd: &Json, t: Tick) -> (r: Result<(), EngineError>)
        ensures
            ({
                let d = submit(old(self)@, side, *cmd, t);
                final(self).became(old(self), d.0) && res(r) == d.1
            }),
    {
        let op: &str = match text_under(cmd, "op") {
            Some(s) => s,
            None => return Err(command("missing op")),
        };
        if self.garrison_bars(side, cmd, op) {
            let id: String = match text_under(cmd, "unitId") {
                Some(s) => s.to_owned(),
                None => String::new(),
            };
            return Err(self.garrison_refusal(&id));
        }
        self.dispatch(side, cmd, op, t)
    }
}

} // verus!
