//! Movement, hex by hex.
use crate::engine::model as m;
use crate::engine::model::{EngineV, Event, Id};
use crate::engine::Engine;
use crate::hex::{hex_distance, line_hex, line_point, Axial};
use crate::mechanics;
use crate::mechanics::{
    air, foot_ticks, gait_ticks, ground_gait, halts_march, march_ticks, mode_allowed, road_exits,
    stack_room, steep_on_foot, type_key,
};
use crate::ordmap::some_entry;
use crate::rules::at;
use crate::text::str_eq;
use crate::time::{later, tick_sum, Tick};
use crate::types::{
    cell_at, Facility, GameMap, HeliAlt, HexCell, Scenario, SideId, UnitState, UnitType,
};
use vstd::prelude::*;

verus! {

/// The direction (0..6) from a hex to an adjacent one.
pub open spec fn dir_to(from: Axial, to: Axial) -> Option<u8> {
    let dq = to.q - from.q;
    let dr = to.r - from.r;
    if dq == 1 && dr == 0 {
        Some(0)
    } else if dq == 1 && dr == -1 {
        Some(1)
    } else if dq == 0 && dr == -1 {
        Some(2)
    } else if dq == -1 && dr == 0 {
        Some(3)
    } else if dq == -1 && dr == 1 {
        Some(4)
    } else if dq == 0 && dr == 1 {
        Some(5)
    } else {
        None
    }
}

/// The direction (0..6) from a hex to an adjacent one; `None` if they are not one step apart.
pub fn hex_dir(from: Axial, to: Axial) -> (r: Option<u8>)
    ensures
        r == dir_to(from, to),
{
    let dq: i64 = to.q as i64 - from.q as i64;
    let dr: i64 = to.r as i64 - from.r as i64;
    if dq == 1 && dr == 0 {
        Some(0)
    } else if dq == 1 && dr == -1 {
        Some(1)
    } else if dq == 0 && dr == -1 {
        Some(2)
    } else if dq == -1 && dr == 0 {
        Some(3)
    } else if dq == -1 && dr == 1 {
        Some(4)
    } else if dq == 0 && dr == 1 {
        Some(5)
    } else {
        None
    }
}

/// Whether a roadblock stands on `hex`.
pub open spec fn roadblocked(s: Scenario, hex: Axial) -> bool {
    exists|i: int|
        0 <= i < s.facilities@.len() && (#[trigger] s.facilities@[i]).kind@ == "roadblock"@
            && s.facilities@[i].at == hex
}

/// A helicopter's altitude; low for a unit that is not there.
pub open spec fn altitude_of(e: EngineV, id: Id) -> HeliAlt {
    match at(e.units, id) {
        Some(u) => u.heli_alt,
        None => HeliAlt::Low,
    }
}

/// The posture of a unit; moving for a unit that is not there.
pub open spec fn posture(e: EngineV, id: Id) -> UnitState {
    match at(e.units, id) {
        Some(u) => u.state,
        None => UnitState::Moving,
    }
}

/// The ticks that a unit takes from a hex to the next, or nothing if it cannot go there. Air units
/// fly over everything; a roadblock stops every ground unit; a marching vehicle keeps to the speed
/// of the road that it leaves.
pub open spec fn step_ticks(e: EngineV, id: Id, t: UnitType, from: Axial, to: Axial) -> Option<Tick> {
    match (cell_at(e.map, from), cell_at(e.map, to)) {
        (Some(a), Some(b)) => if air(t) {
            match at(e.rules.paces.flight@, type_key(t)) {
                Some(p) => if t == UnitType::TransportHeli && altitude_of(e, id)
                    == HeliAlt::VeryLow {
                    Some(p.very_low)
                } else {
                    Some(p.normal)
                },
                None => None,
            }
        } else if roadblocked(e.scenario, to) {
            None
        } else if posture(e, id) == UnitState::March {
            match a.road {
                Some(road) => march_ticks(e.rules, road.kind@),
                None => None,
            }
        } else if t == UnitType::Infantry {
            let unit = match e.map.elevation_unit_meters {
                Some(n) => n as i32,
                None => 0,
            };
            foot_ticks(
                if steep_on_foot(e.rules, unit as int, a.elevation, b.elevation) {
                    e.rules.paces.foot_steep
                } else {
                    e.rules.paces.foot
                },
                posture(e, id),
            )
        } else {
            gait_ticks(
                ground_gait(e.rules, t, b.terrain, a.elevation, b.elevation),
                posture(e, id),
            )
        },
        _ => None,
    }
}

/// Whether a road runs from a hex to the next and back.
pub open spec fn on_route(map: GameMap, from: Axial, to: Axial) -> bool {
    match (dir_to(from, to), cell_at(map, from), cell_at(map, to)) {
        (Some(d), Some(a), Some(b)) => road_exits(a, d) && road_exits(b, ((d + 3) % 6) as u8),
        _ => false,
    }
}

/// Plans a unit's next hex on the way to `target`. It halts if it has arrived, is too tired for its
/// mode, cannot go on along its road, cannot enter the hex, or finds no room there. An order that no
/// longer stands, and a dead unit, plan nothing.
pub open spec fn plan_hop(e: EngineV, id: Id, gen: u64, target: Axial, now: Tick) -> EngineV {
    match at(e.units, id) {
        None => e,
        Some(u) => if at(e.move_gen, id) != Some(gen) || !u.alive {
            e
        } else if u.pos == target || (u.unit_type == UnitType::Infantry && !mode_allowed(
            u.state,
            u.fatigue,
        )) {
            m::settle_stopped(e, id)
        } else {
            let next = line_hex(u.pos, target, hex_distance(u.pos, target), 1);
            let held = u.state == UnitState::March && (!on_route(e.map, u.pos, next) || some_entry(
                e.units,
                halts_march(next),
            ));
            match step_ticks(e, id, u.unit_type, u.pos, next) {
                Some(step) => if held || !stack_room(e.units, u.side, next, id, e.stacking_cap) {
                    m::settle_stopped(e, id)
                } else {
                    let arrive = tick_sum(
                        now,
                        if step > 1 {
                            step
                        } else {
                            1
                        },
                    );
                    m::schedule(
                        m::set_busy(e, id, arrive),
                        arrive,
                        Event::MoveArrive { unit: id, gen, to: next, target },
                    )
                },
                None => m::settle_stopped(e, id),
            }
        },
    }
}

impl Engine {
    fn has_roadblock(&self, hex: Axial) -> (r: bool)
        ensures
            r == roadblocked(self@.scenario, hex),
    {
        let mut i: usize = 0;
        while i < self.scenario.facilities.len()
            invariant
                i <= self.scenario.facilities@.len(),
                forall|j: int|
                    0 <= j < i ==> !((#[trigger] self.scenario.facilities@[j]).kind@
                        == "roadblock"@ && self.scenario.facilities@[j].at == hex),
            decreases self.scenario.facilities@.len() - i,
        {
            let f: &Facility = &self.scenario.facilities[i];
            if str_eq(f.kind.as_str(), "roadblock") && f.at == hex {
                assert(self.scenario.facilities@[i as int].kind@ == "roadblock"@);
                return true;
            }
            i += 1;
        }
        false
    }

    pub(crate) fn heli_alt(&self, id: &String) -> (r: HeliAlt)
        ensures
            r == altitude_of(self@, id@),
    {
        match self.state.units.get(id) {
            Some(u) => u.heli_alt,
            None => HeliAlt::Low,
        }
    }

    fn posture(&self, id: &String) -> (r: UnitState)
        ensures
            r == posture(self@, id@),
    {
        match self.state.units.get(id) {
            Some(u) => u.state,
            None => UnitState::Moving,
        }
    }

    /// The ticks that a unit takes from a hex to the next.
    fn step_ticks(&self, id: &String, ut: UnitType, from: Axial, to: Axial) -> (r: Option<Tick>)
        ensures
            r == step_ticks(self@, id@, ut, from, to),
    {
        let a: &HexCell = match self.map.cell(&from) {
            Some(c) => c,
            None => return None,
        };
        let b: &HexCell = match self.map.cell(&to) {
            Some(c) => c,
            None => return None,
        };
        if mechanics::is_air(ut) {
            let key: String = mechanics::unit_type_key(ut).to_owned();
            return match self.rules.paces.flight.get(&key) {
                Some(p) => if ut == UnitType::TransportHeli && self.heli_alt(id)
                    == HeliAlt::VeryLow {
                    Some(p.very_low)
                } else {
                    Some(p.normal)
                },
                None => None,
            };
        }
        if self.has_roadblock(to) {
            return None;
        }
        let mode: UnitState = self.posture(id);
        if mode == UnitState::March {
            return match &a.road {
                Some(road) => mechanics::march_step_ticks(&self.rules, road.kind.as_str()),
                None => None,
            };
        }
        if ut == UnitType::Infantry {
            let unit: i32 = match self.map.elevation_unit_meters {
                Some(n) => n as i32,
                None => 0,
            };
            mechanics::infantry_step_ticks(&self.rules, unit, a.elevation, b.elevation, mode)
        } else {
            mechanics::ground_step_ticks(
                &self.rules,
                ut,
                b.terrain,
                a.elevation,
                b.elevation,
                mode,
            )
        }
    }

    fn road_leads(&self, from: Axial, to: Axial) -> (r: bool)
        ensures
            r == on_route(self@.map, from, to),
    {
        let d: u8 = match hex_dir(from, to) {
            Some(d) => d,
            None => return false,
        };
        match (self.map.cell(&from), self.map.cell(&to)) {
            (Some(a), Some(b)) => mechanics::road_allows_direction(a, d)
                && mechanics::road_allows_direction(b, (d + 3) % 6),
            _ => false,
        }
    }

    /// Plans a unit's next hex on the way to `target`.
    pub(crate) fn plan_hop(&mut self, id: &String, gen: u64, target: Axial, now: Tick)
        ensures
            final(self).became(old(self), plan_hop(old(self)@, id@, gen, target, now)),
    {
        let (ut, side, cur, alive, mode, fatigue): (
            UnitType,
            SideId,
            Axial,
            bool,
            UnitState,
            i64,
        ) = match self.state.units.get(id) {
            Some(u) => (u.unit_type, u.side, u.pos, u.alive, u.state, u.fatigue),
            None => return,
        };
        let stands: bool = match self.move_gen.get(id) {
            Some(g) => *g == gen,
            None => false,
        };
        if !stands || !alive {
            return;
        }
        if cur == target || (ut == UnitType::Infantry && !mechanics::infantry_mode_allowed(
            mode,
            fatigue,
        )) {
            self.settle_stopped(id);
            return;
        }
        let n: i64 = cur.distance_wide(&target);
        proof {
            crate::hex::distance_symmetric(cur, target);
        }
        let next: Axial = line_point(&cur, &target, n, 1);
        let held: bool = mode == UnitState::March && (!self.road_leads(cur, next)
            || !mechanics::march_allows_entry(&self.state, next));
        let step: Tick = match self.step_ticks(id, ut, cur, next) {
            Some(s) => s,
            None => {
                self.settle_stopped(id);
                return;
            },
        };
        if held || !mechanics::stacking_allows_entry(
            &self.state,
            side,
            next,
            id.as_str(),
            self.stacking_cap,
        ) {
            self.settle_stopped(id);
            return;
        }
        let arrive: Tick = later(now, if step > 1 { step } else { 1 });
        self.set_busy(id, arrive);
        self.schedule(arrive, Event::MoveArrive { unit: id.clone(), gen, to: next, target });
    }
}

} // verus!
