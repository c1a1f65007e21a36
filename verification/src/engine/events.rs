//! What happens when an event comes due.
use crate::combat;
use crate::combat::mine_loss;
use crate::engine::actions::squad_cap;
use crate::engine::actions::without_plans;
use crate::engine::effects::bump;
use crate::engine::model as m;
use crate::engine::model::{
    AggSplitKind, EngineV, Event, EventV, Id, IndirectPlan, MountKind, PlanV,
};
use crate::engine::moves::plan_hop;
use crate::engine::Engine;
use crate::hex::Axial;
use crate::mechanics;
use crate::mechanics::{
    clears_mines, fatigue_per_hex, fort_named, ground, halts_march, halves, merged, personnel,
    stack_room, FortKind,
};
use crate::ordmap::{Dup, keys_where, some_entry, views};
use crate::prob::Outcome;
use crate::rng::{dice, PcgRng};
use crate::rules::{at, timing_of};
use crate::text::{dec, join3, u64_text};
use crate::time::{later, next, next_of, tick_sum, Tick};
use crate::types::{
    dup_opt, on_board, opt_is, side_in, with_side, Armor, FacilityV, HeliAlt, RuntimeMinefield,
    RuntimeUnit, SideId, SideSet, UnitState, UnitType, UnitV, WeaponState,
};
use vstd::prelude::*;
use vstd::string::*;

verus! {

// ---------- arrival ----------

/// A unit inside a vehicle, alive or not.
pub open spec fn rider_of(vehicle: Id) -> spec_fn(Id, UnitV) -> bool {
    |k: Id, u: UnitV| u.carried_by == Some(vehicle)
}

/// The unit is at `hex`, where there is such a unit.
pub open spec fn set_pos(e: EngineV, id: Id, hex: Axial) -> EngineV {
    match at(e.units, id) {
        Some(u) => m::put_unit(e, id, RuntimeUnit { pos: hex, ..u }),
        None => e,
    }
}

pub open spec fn set_pos_f(hex: Axial) -> spec_fn(EngineV, Id) -> EngineV {
    |e: EngineV, id: Id| set_pos(e, id, hex)
}

/// The unit enters `to` with its passengers, tired by a charge, as the last to enter. Its leaving
/// may end a fight in the hex that it comes from.
pub open spec fn step_onto(e: EngineV, id: Id, u: UnitV, to: Axial) -> EngineV {
    let e1 = m::put_unit(
        e,
        id,
        RuntimeUnit {
            pos: to,
            fatigue: tick_sum(u.fatigue, fatigue_per_hex(e.rules, u.state)),
            ..u
        },
    );
    let e2 = m::stamp_entry(e1, id);
    let e3 = if u.pos != to {
        m::end_same_hex(e2, u.pos)
    } else {
        e2
    };
    m::each(e3, keys_where::<String, UnitV>(e3.units, rider_of(id)), set_pos_f(to))
}

/// A detonating salvo of an artillery unit.
pub open spec fn own_boom(id: Id) -> spec_fn(u64, PlanV) -> bool {
    |k: u64, p: PlanV| p.artillery == id && p.impact is Some
}

/// A salvo that detonates over `hex`.
pub open spec fn boom_over(hex: Axial) -> spec_fn(u64, PlanV) -> bool {
    |k: u64, p: PlanV| p.impact == Some(hex)
}

/// A unit takes several detonating salvos in turn.
pub open spec fn take_booms(e: EngineV, plans: Map<u64, PlanV>, ids: Seq<u64>, id: Id) -> EngineV
    decreases ids.len(),
{
    if ids.len() == 0 {
        e
    } else {
        let e1 = take_booms(e, plans, ids.drop_last(), id);
        let p = plans[ids.last()];
        m::take_salvo(e1, id, p.base, p.gun_count, e1.clock)
    }
}

/// Artillery that moves calls off its detonating salvos; then the unit takes those that detonate
/// over the hex that it has entered.
pub open spec fn meet_salvos(e: EngineV, id: Id, to: Axial) -> EngineV {
    let e1 = EngineV {
        indirect_plans: without_plans(
            e.indirect_plans,
            keys_where::<u64, PlanV>(e.indirect_plans, own_boom(id)),
        ),
        ..e
    };
    take_booms(
        e1,
        e1.indirect_plans,
        keys_where::<u64, PlanV>(e1.indirect_plans, boom_over(to)),
        id,
    )
}

/// The outcome of so many teams lost to mines.
pub open spec fn mine_outcome(loss: int) -> Outcome {
    if loss <= 0 {
        Outcome::NoEffect
    } else if loss > 255 {
        Outcome::Destroyed(255)
    } else {
        Outcome::Destroyed(loss as u8)
    }
}

/// A live ground unit enters a minefield. A clearing vehicle at half speed opens a lane for its
/// side; along a lane of its side personnel passes freely and a vehicle at half speed; any other
/// unit takes the mines.
pub open spec fn meet_mines(e: EngineV, id: Id, to: Axial) -> EngineV {
    match (at(e.minefields, to), at(e.units, id)) {
        (Some(f), Some(u)) => {
            let lane = side_in(f.cleared_by, u.side);
            let half = u.state == UnitState::Half;
            if !u.alive || !ground(u.unit_type) {
                e
            } else if clears_mines(u.unit_type) && half && !lane {
                EngineV {
                    minefields: e.minefields.insert(
                        to,
                        RuntimeMinefield { cleared_by: with_side(f.cleared_by, u.side), ..f },
                    ),
                    ..e
                }
            } else if lane && (personnel(u.unit_type) || half) {
                e
            } else {
                let roll = dice::<PcgRng>(e.rng, 2);
                m::take_fire(
                    EngineV { rng: roll.1, ..e },
                    id,
                    mine_outcome(mine_loss(e.tables, u.unit_type, u.armor, roll.0)),
                    e.clock,
                )
            }
        },
        _ => e,
    }
}

/// A live enemy of `side` in a concealed fortification at `hex`.
pub open spec fn hidden_at(facilities: Map<Id, FacilityV>, hex: Axial, side: SideId) -> spec_fn(
    Id,
    UnitV,
) -> bool {
    |k: Id, u: UnitV|
        u.alive && u.pos == hex && u.side != side && match u.inside_facility {
            Some(f) => match at(facilities, f) {
                Some(w) => fort_named(w.kind) == Some(FortKind::PersonnelConcealment),
                None => false,
            },
            None => false,
        }
}

/// A hidden unit is found and leaves its fortification at once.
pub open spec fn uncover(e: EngineV, id: Id) -> EngineV {
    let e1 = match at(e.units, id) {
        Some(u) => m::put_unit(e, id, RuntimeUnit { inside_facility: None, busy_until: 0, ..u }),
        None => e,
    };
    EngineV { facility_gen: m::bumped(e1.facility_gen, id), ..e1 }
}

pub open spec fn uncover_f() -> spec_fn(EngineV, Id) -> EngineV {
    |e: EngineV, id: Id| uncover(e, id)
}

/// A unit reaches `to` on its way to `target`. It halts before the hex if there is no room, or if it
/// marches and the column is blocked. In the hex it meets salvos, then mines; if it lives, hidden
/// enemies are found, a fight may begin, and it plans its next hex.
pub open spec fn arrive(e: EngineV, id: Id, gen: u64, to: Axial, target: Axial) -> EngineV {
    match at(e.units, id) {
        None => e,
        Some(u) => if at(e.move_gen, id) != Some(gen) || !u.alive {
            e
        } else if !stack_room(e.units, u.side, to, id, e.stacking_cap) || (u.state
            == UnitState::March && some_entry(e.units, halts_march(to))) {
            m::settle_stopped(e, id)
        } else {
            let e1 = meet_mines(meet_salvos(step_onto(e, id, u, to), id, to), id, to);
            match at(e1.units, id) {
                None => e1,
                Some(v) => if !v.alive {
                    e1
                } else {
                    let e2 = m::each(
                        e1,
                        keys_where::<String, UnitV>(
                            e1.units,
                            hidden_at(e1.facilities, to, v.side),
                        ),
                        uncover_f(),
                    );
                    let e3 = m::trigger_same_hex(e2, to, e2.clock);
                    plan_hop(e3, id, gen, target, e3.clock)
                },
            }
        },
    }
}

impl Engine {
    fn set_pos(&mut self, id: &String, hex: Axial)
        ensures
            final(self).became(old(self), set_pos(old(self)@, id@, hex)),
    {
        match self.state.units.get_mut(id) {
            Some(u) => {
                u.pos = hex;
            },
            None => {},
        }
    }

    fn step_onto(&mut self, id: &String, to: Axial)
        requires
            old(self)@.units.contains_key(id@),
        ensures
            final(self).became(
                old(self),
                step_onto(old(self)@, id@, old(self)@.units[id@], to),
            ),
    {
        let (prev, state): (Axial, UnitState) = match self.state.units.get(id) {
            Some(u) => (u.pos, u.state),
            None => return,
        };
        let tired: i64 = mechanics::infantry_fatigue_per_hex(&self.rules, state);
        match self.state.units.get_mut(id) {
            Some(u) => {
                u.pos = to;
                u.fatigue = later(u.fatigue, tired);
            },
            None => {},
        }
        self.stamp_entry(id);
        if prev != to {
            self.end_same_hex_if_resolved(prev);
        }
        let ghost p = rider_of(id@);
        let f = |k: &String, u: &RuntimeUnit| -> (b: bool)
            ensures b == p(k@, u@)
        {
            opt_is(&u.carried_by, id.as_str())
        };
        let ids: Vec<String> = self.state.units.select(f, Ghost(p));
        let ghost ks = views(ids@);
        let ghost e0 = self@;
        let ghost g = set_pos_f(to);
        let mut i: usize = 0;
        while i < ids.len()
            invariant
                i <= ids@.len(),
                ks == views(ids@),
                g == set_pos_f(to),
                self.became(old(self), m::each(e0, ks.take(i as int), g)),
            decreases ids@.len() - i,
        {
            proof {
                m::each_next(e0, ks, i as int, g);
                assert(ks[i as int] == ids@[i as int]@);
            }
            self.set_pos(&ids[i], to);
            i += 1;
        }
        proof {
            assert(ks.take(ks.len() as int) =~= ks);
        }
    }

    fn meet_salvos(&mut self, id: &String, to: Axial)
        ensures
            final(self).became(old(self), meet_salvos(old(self)@, id@, to)),
    {
        let ghost p = own_boom(id@);
        let f = |k: &u64, plan: &IndirectPlan| -> (b: bool)
            ensures b == p(k@, plan@)
        {
            plan.artillery == *id && plan.impact.is_some()
        };
        let mine: Vec<u64> = self.indirect_plans.select(f, Ghost(p));
        self.drop_plans(&mine);
        let ghost q = boom_over(to);
        let g = |k: &u64, plan: &IndirectPlan| -> (b: bool)
            ensures b == q(k@, plan@)
        {
            match plan.impact {
                Some(h) => h == to,
                None => false,
            }
        };
        let ids: Vec<u64> = self.indirect_plans.select(g, Ghost(q));
        let ghost ks = views(ids@);
        let ghost e1 = self@;
        let ghost plans = e1.indirect_plans;
        let mut booms: Vec<(combat::IndirectBase, u8)> = Vec::new();
        let mut k: usize = 0;
        while k < ids.len()
            invariant
                k <= ids@.len(),
                ks == views(ids@),
                plans == self@.indirect_plans,
                booms@.len() == k,
                forall|j: int| 0 <= j < ids@.len() ==> plans.contains_key((#[trigger] ids@[j])@),
                forall|j: int|
                    0 <= j < k ==> (#[trigger] booms@[j]).0 == plans[ks[j]].base && booms@[j].1
                        == plans[ks[j]].gun_count,
            decreases ids@.len() - k,
        {
            assert(ks[k as int] == ids@[k as int]@);
            match self.indirect_plans.get(&ids[k]) {
                Some(plan) => {
                    booms.push((plan.base, plan.gun_count));
                },
                None => {
                    assert(false);
                    return;
                },
            }
            k += 1;
        }
        let mut i: usize = 0;
        while i < ids.len()
            invariant
                i <= ids@.len(),
                ks == views(ids@),
                booms@.len() == ids@.len(),
                forall|j: int|
                    0 <= j < ids@.len() ==> (#[trigger] booms@[j]).0 == plans[ks[j]].base
                        && booms@[j].1 == plans[ks[j]].gun_count,
                self.became(old(self), take_booms(e1, plans, ks.take(i as int), id@)),
            decreases ids@.len() - i,
        {
            proof {
                let t = ks.take(i + 1);
                assert(t.drop_last() =~= ks.take(i as int));
                assert(t.last() == ks[i as int]);
            }
            let (base, guns) = booms[i];
            self.take_salvo(id, base, guns, self.state.clock);
            i += 1;
        }
        proof {
            assert(ks.take(ks.len() as int) =~= ks);
        }
    }

    fn meet_mines(&mut self, id: &String, to: Axial)
        ensures
            final(self).became(old(self), meet_mines(old(self)@, id@, to)),
    {
        let field: RuntimeMinefield = match self.state.minefields.get(&to) {
            Some(f) => *f,
            None => return,
        };
        let (side, ut, armor, state, alive): (SideId, UnitType, Armor, UnitState, bool) =
            match self.state.units.get(id) {
            Some(u) => (u.side, u.unit_type, u.armor, u.state, u.alive),
            None => return,
        };
        if !alive || !mechanics::is_ground(ut) {
            return;
        }
        let lane: bool = field.cleared_by.contains(side);
        let half: bool = state == UnitState::Half;
        if mechanics::can_clear_minefield(ut) && half && !lane {
            let mut opened: RuntimeMinefield = field;
            opened.cleared_by.insert(side);
            self.state.minefields.insert(to, opened);
            return;
        }
        if lane && (mechanics::is_personnel(ut) || half) {
            return;
        }
        let loss: u32 = combat::minefield_damage(&self.tables, &mut self.rng, ut, armor);
        let outcome: Outcome = if loss == 0 {
            Outcome::NoEffect
        } else if loss > 255 {
            Outcome::Destroyed(255)
        } else {
            Outcome::Destroyed(loss as u8)
        };
        self.take_fire(id, outcome, self.state.clock);
    }

    fn is_hidden(&self, u: &RuntimeUnit, hex: Axial, side: SideId) -> (r: bool)
        ensures
            forall|k: Id| r == #[trigger] hidden_at(self@.facilities, hex, side)(k, u@),
    {
        u.alive && u.pos == hex && u.side != side && match &u.inside_facility {
            Some(f) => match self.state.facilities.get(f) {
                Some(w) => match FortKind::from_facility_kind(w.kind.as_str()) {
                    Some(k) => k == FortKind::PersonnelConcealment,
                    None => false,
                },
                None => false,
            },
            None => false,
        }
    }

    fn uncover(&mut self, id: &String)
        ensures
            final(self).became(old(self), uncover(old(self)@, id@)),
    {
        match self.state.units.get_mut(id) {
            Some(u) => {
                u.inside_facility = None;
                u.busy_until = 0;
            },
            None => {},
        }
        let _ = bump(&mut self.facility_gen, id);
    }

    fn uncover_all(&mut self, hex: Axial, side: SideId)
        ensures
            final(self).became(
                old(self),
                m::each(
                    old(self)@,
                    keys_where::<String, UnitV>(
                        old(self)@.units,
                        hidden_at(old(self)@.facilities, hex, side),
                    ),
                    uncover_f(),
                ),
            ),
    {
        let ghost p = hidden_at(self@.facilities, hex, side);
        let ids: Vec<String> = {
            let f = |k: &String, u: &RuntimeUnit| -> (b: bool)
                ensures b == p(k@, u@)
            {
                self.is_hidden(u, hex, side)
            };
            self.state.units.select(f, Ghost(p))
        };
        let ghost ks = views(ids@);
        let ghost e0 = self@;
        let ghost g = uncover_f();
        let mut i: usize = 0;
        while i < ids.len()
            invariant
                i <= ids@.len(),
                ks == views(ids@),
                g == uncover_f(),
                self.became(old(self), m::each(e0, ks.take(i as int), g)),
            decreases ids@.len() - i,
        {
            proof {
                m::each_next(e0, ks, i as int, g);
                assert(ks[i as int] == ids@[i as int]@);
            }
            self.uncover(&ids[i]);
            i += 1;
        }
        proof {
            assert(ks.take(ks.len() as int) =~= ks);
        }
    }

    fn arrive(&mut self, id: &String, gen: u64, to: Axial, target: Axial)
        ensures
            final(self).became(old(self), arrive(old(self)@, id@, gen, to, target)),
    {
        let (side, state, alive): (SideId, UnitState, bool) = match self.state.units.get(id) {
            Some(u) => (u.side, u.state, u.alive),
            None => return,
        };
        let stands: bool = match self.move_gen.get(id) {
            Some(g) => *g == gen,
            None => false,
        };
        if !stands || !alive {
            return;
        }
        if !mechanics::stacking_allows_entry(&self.state, side, to, id.as_str(), self.stacking_cap)
            || (state == UnitState::March && !mechanics::march_allows_entry(&self.state, to)) {
            self.settle_stopped(id);
            return;
        }
        self.step_onto(id, to);
        self.meet_salvos(id, to);
        self.meet_mines(id, to);
        let (side, alive): (SideId, bool) = match self.state.units.get(id) {
            Some(u) => (u.side, u.alive),
            None => return,
        };
        if !alive {
            return;
        }
        self.uncover_all(to, side);
        self.maybe_trigger_same_hex(to, self.state.clock);
        self.plan_hop(id, gen, target, self.state.clock);
    }
}

// ---------- boarding ----------

/// A passenger is in or out of its vehicle. If the hex has filled up meanwhile, it stays inside.
pub open spec fn finish_mount(e: EngineV, p: Id, gen: u64) -> EngineV {
    match at(e.mount_op, p) {
        None => e,
        Some(op) => if op.gen != gen {
            e
        } else {
            let e1 = EngineV { mount_op: e.mount_op.remove(p), ..e };
            let full = match (at(e.units, p), at(e.units, op.vehicle)) {
                (Some(u), Some(v)) => op.kind == MountKind::Dismount && !stack_room(
                    e.units,
                    u.side,
                    v.pos,
                    p,
                    e.stacking_cap,
                ),
                _ => false,
            };
            let e2 = match at(e.units, p) {
                None => e1,
                Some(u) => m::put_unit(
                    e1,
                    p,
                    RuntimeUnit {
                        busy_until: 0,
                        carried_by: if full {
                            u.carried_by
                        } else {
                            match op.kind {
                                MountKind::Mount => Some(op.vehicle),
                                MountKind::Dismount => None,
                            }
                        },
                        pos: match at(e.units, op.vehicle) {
                            Some(v) => if full {
                                u.pos
                            } else {
                                v.pos
                            },
                            None => u.pos,
                        },
                        ..u
                    },
                ),
            };
            m::set_busy(e2, op.vehicle, 0)
        },
    }
}

impl Engine {
    fn finish_mount(&mut self, p: &String, gen: u64)
        ensures
            final(self).became(old(self), finish_mount(old(self)@, p@, gen)),
    {
        let (vehicle, kind): (String, MountKind) = match self.mount_op.get(p) {
            Some(op) => {
                if op.gen != gen {
                    return;
                }
                (op.vehicle.clone(), op.kind)
            },
            None => return,
        };
        let _ = self.mount_op.remove(p);
        let vpos: Option<Axial> = match self.state.units.get(&vehicle) {
            Some(v) => Some(v.pos),
            None => None,
        };
        let side: Option<SideId> = match self.state.units.get(p) {
            Some(u) => Some(u.side),
            None => None,
        };
        let full: bool = match (side, vpos) {
            (Some(side), Some(vp)) => kind == MountKind::Dismount
                && !mechanics::stacking_allows_entry(
                &self.state,
                side,
                vp,
                p.as_str(),
                self.stacking_cap,
            ),
            _ => false,
        };
        match self.state.units.get_mut(p) {
            Some(u) => {
                u.busy_until = 0;
                if !full {
                    u.carried_by = match kind {
                        MountKind::Mount => Some(vehicle.clone()),
                        MountKind::Dismount => None,
                    };
                    match vpos {
                        Some(vp) => {
                            u.pos = vp;
                        },
                        None => {},
                    }
                }
            },
            None => {},
        }
        self.set_busy(&vehicle, 0);
    }
}

// ---------- loitering munitions ----------

/// A munition is in the air and will destroy itself when its time is up. If its vehicle has one in
/// the air already, it stays loaded.
pub open spec fn finish_launch(e: EngineV, id: Id) -> EngineV {
    match at(e.units, id) {
        None => e,
        Some(u) => if !u.alive {
            e
        } else {
            let taken = match u.carried_by {
                Some(p) => some_entry(e.loitering_parent, m::launched_from(p)),
                None => false,
            };
            if taken {
                m::set_busy(e, id, 0)
            } else {
                let e1 = match u.carried_by {
                    Some(p) => EngineV { loitering_parent: e.loitering_parent.insert(id, p), ..e },
                    None => e,
                };
                let from = match u.carried_by {
                    Some(p) => at(e.units, p),
                    None => None,
                };
                let e2 = m::put_unit(
                    e1,
                    id,
                    RuntimeUnit {
                        carried_by: None,
                        busy_until: 0,
                        pos: match from {
                            Some(v) => v.pos,
                            None => u.pos,
                        },
                        ..u
                    },
                );
                let life = match timing_of(e2.rules, "loitering_endurance"@) {
                    Some(n) => n,
                    None => 0,
                };
                m::schedule(
                    e2,
                    tick_sum(e2.clock, life),
                    Event::LoiteringSelfDestruct { munition: id },
                )
            }
        },
    }
}

/// A munition's time is up. A dead one only loses its vehicle.
pub open spec fn self_destruct(e: EngineV, id: Id) -> EngineV {
    let e1 = EngineV {
        loitering_parent: e.loitering_parent.remove(id),
        loitering_target: e.loitering_target.remove(id),
        ..e
    };
    match at(e1.units, id) {
        Some(u) => if u.alive {
            m::set_dead(e1, id)
        } else {
            e1
        },
        None => e1,
    }
}

impl Engine {
    fn finish_launch(&mut self, id: &String)
        ensures
            final(self).became(old(self), finish_launch(old(self)@, id@)),
    {
        let (alive, carried): (bool, Option<String>) = match self.state.units.get(id) {
            Some(u) => (u.alive, dup_opt(&u.carried_by)),
            None => return,
        };
        if !alive {
            return;
        }
        let mut from: Option<Axial> = None;
        match carried {
            Some(p) => {
                if self.has_aloft(&p) {
                    self.set_busy(id, 0);
                    return;
                }
                from = match self.state.units.get(&p) {
                    Some(v) => Some(v.pos),
                    None => None,
                };
                self.loitering_parent.insert(id.clone(), p);
            },
            None => {},
        }
        match self.state.units.get_mut(id) {
            Some(u) => {
                u.carried_by = None;
                u.busy_until = 0;
                match from {
                    Some(h) => {
                        u.pos = h;
                    },
                    None => {},
                }
            },
            None => {},
        }
        let life: Tick = match self.rules.timing("loitering_endurance") {
            Some(n) => n,
            None => 0,
        };
        self.schedule(
            later(self.state.clock, life),
            Event::LoiteringSelfDestruct { munition: id.clone() },
        );
    }

    fn self_destruct(&mut self, id: &String)
        ensures
            final(self).became(old(self), self_destruct(old(self)@, id@)),
    {
        let _ = self.loitering_parent.remove(id);
        let _ = self.loitering_target.remove(id);
        let alive: bool = match self.state.units.get(id) {
            Some(u) => u.alive,
            None => false,
        };
        if alive {
            self.set_dead(id);
        }
    }
}

// ---------- fortifications ----------

/// A live unit on the board at `hex` that is no unit of `side`.
pub open spec fn enemy_at(hex: Axial, side: SideId) -> spec_fn(Id, UnitV) -> bool {
    |k: Id, u: UnitV| u.alive && on_board(u) && u.side != side && u.pos == hex
}

/// The room of a fortification; none where there is no such fortification.
pub open spec fn room_of(e: EngineV, fac: Id) -> int {
    match at(e.facilities, fac) {
        Some(f) => f.capacity as int,
        None => 0,
    }
}

/// Whether a unit that has come to the door of a fortification goes in: it is alive, outside,
/// stopped and not suppressed, no enemy is in the hex, and there is room.
pub open spec fn goes_in(e: EngineV, id: Id, u: UnitV, fac: Id) -> bool {
    u.alive && u.inside_facility is None && u.state == UnitState::Stopped && !m::suppressed(
        e.units,
        id,
        e.clock,
    ) && !some_entry(e.units, enemy_at(u.pos, u.side)) && m::teams_of(
        e.units,
        keys_where::<String, UnitV>(e.units, m::inside(fac)),
    ) + u.teams <= room_of(e, fac)
}

/// A unit has come to the door of a fortification. Once inside, it counts as having entered the hex
/// then.
pub open spec fn finish_enter(e: EngineV, id: Id, fac: Id, gen: u64) -> EngineV {
    if at(e.facility_gen, id) != Some(gen) {
        e
    } else {
        let e1 = match at(e.units, id) {
            Some(u) => if goes_in(e, id, u, fac) {
                m::stamp_entry(
                    m::put_unit(e, id, RuntimeUnit { inside_facility: Some(fac), ..u }),
                    id,
                )
            } else {
                e
            },
            None => e,
        };
        m::set_busy(e1, id, 0)
    }
}

/// A unit has come out of a fortification, if the hex has room; that may begin a fight.
pub open spec fn finish_exit(e: EngineV, id: Id, gen: u64) -> EngineV {
    if at(e.facility_gen, id) != Some(gen) {
        e
    } else {
        match at(e.units, id) {
            None => e,
            Some(u) => if !u.alive || u.inside_facility is None || !stack_room(
                e.units,
                u.side,
                u.pos,
                id,
                e.stacking_cap,
            ) {
                m::set_busy(e, id, 0)
            } else {
                let e1 = m::stamp_entry(
                    m::put_unit(e, id, RuntimeUnit { inside_facility: None, busy_until: 0, ..u }),
                    id,
                );
                m::trigger_same_hex(e1, u.pos, e1.clock)
            },
        }
    }
}

impl Engine {
    fn is_gen(&self, id: &String, gen: u64) -> (r: bool)
        ensures
            r == (at(self@.facility_gen, id@) == Some(gen)),
    {
        match self.facility_gen.get(id) {
            Some(g) => *g == gen,
            None => false,
        }
    }

    fn enemy_at(&self, hex: Axial, side: SideId) -> (r: bool)
        ensures
            r == some_entry(self@.units, enemy_at(hex, side)),
    {
        let ghost p = enemy_at(hex, side);
        let f = |k: &String, u: &RuntimeUnit| -> (b: bool)
            ensures b == p(k@, u@)
        {
            u.alive && u.is_on_board() && u.side != side && u.pos == hex
        };
        self.state.units.any(f, Ghost(p))
    }

    fn goes_in(&self, id: &String, u: &RuntimeUnit, fac: &String) -> (r: bool)
        ensures
            r == goes_in(self@, id@, u@, fac@),
    {
        if !(u.alive && u.inside_facility.is_none() && u.state == UnitState::Stopped) {
            return false;
        }
        if self.is_suppressed(id, self.state.clock) || self.enemy_at(u.pos, u.side) {
            return false;
        }
        let cap: u8 = match self.state.facilities.get(fac) {
            Some(f) => f.capacity,
            None => 0,
        };
        let ids: Vec<String> = self.occupants(fac);
        let inside: u128 = self.teams_of(&ids);
        inside + u.teams as u128 <= cap as u128
    }

    fn finish_enter(&mut self, id: &String, fac: String, gen: u64)
        ensures
            final(self).became(old(self), finish_enter(old(self)@, id@, fac@, gen)),
    {
        if !self.is_gen(id, gen) {
            return;
        }
        let enters: bool = match self.state.units.get(id) {
            Some(u) => self.goes_in(id, u, &fac),
            None => false,
        };
        if enters {
            match self.state.units.get_mut(id) {
                Some(u) => {
                    u.inside_facility = Some(fac);
                },
                None => {},
            }
            self.stamp_entry(id);
        }
        self.set_busy(id, 0);
    }

    fn finish_exit(&mut self, id: &String, gen: u64)
        ensures
            final(self).became(old(self), finish_exit(old(self)@, id@, gen)),
    {
        if !self.is_gen(id, gen) {
            return;
        }
        let (pos, side, out): (Axial, SideId, bool) = match self.state.units.get(id) {
            Some(u) => (u.pos, u.side, !u.alive || u.inside_facility.is_none()),
            None => return,
        };
        if out || !mechanics::stacking_allows_entry(
            &self.state,
            side,
            pos,
            id.as_str(),
            self.stacking_cap,
        ) {
            self.set_busy(id, 0);
            return;
        }
        match self.state.units.get_mut(id) {
            Some(u) => {
                u.inside_facility = None;
                u.busy_until = 0;
            },
            None => {},
        }
        self.stamp_entry(id);
        self.maybe_trigger_same_hex(pos, self.state.clock);
    }
}

// ---------- mines ----------

/// A minelayer has laid a minefield, if it is still at it: alive, stopped, not suppressed and not
/// under a newer order. A minefield that is there already stays as it is.
pub open spec fn finish_lay(e: EngineV, id: Id, hex: Axial, gen: u64) -> EngineV {
    let e1 = EngineV { minelay_in_flight: e.minelay_in_flight.remove(id), ..e };
    match at(e.units, id) {
        None => e1,
        Some(u) => if at(e.minelayer_gen, id) != Some(gen) || u.busy_until != e.clock {
            e1
        } else if u.alive && u.state == UnitState::Stopped && !m::suppressed(
            e.units,
            id,
            e.clock,
        ) {
            let n = crate::engine::actions::lays_of(e1, id);
            let e2 = EngineV {
                minefields: if e1.minefields.contains_key(hex) {
                    e1.minefields
                } else {
                    e1.minefields.insert(
                        hex,
                        RuntimeMinefield {
                            at: hex,
                            owner: Some(u.side),
                            cleared_by: SideSet { red: false, blue: false },
                        },
                    )
                },
                minelayer_lays: e1.minelayer_lays.insert(
                    id,
                    if n == u32::MAX {
                        n
                    } else {
                        (n + 1) as u32
                    },
                ),
                ..e1
            };
            m::set_busy(e2, id, 0)
        } else {
            m::set_busy(e1, id, 0)
        },
    }
}

impl Engine {
    fn finish_lay(&mut self, id: &String, hex: Axial, gen: u64)
        ensures
            final(self).became(old(self), finish_lay(old(self)@, id@, hex, gen)),
    {
        let _ = self.minelay_in_flight.remove(id);
        let stands: bool = match self.minelayer_gen.get(id) {
            Some(g) => *g == gen,
            None => false,
        };
        let (side, busy_until, ready): (SideId, Tick, bool) = match self.state.units.get(id) {
            Some(u) => (u.side, u.busy_until, u.alive && u.state == UnitState::Stopped),
            None => return,
        };
        if !stands || busy_until != self.state.clock {
            return;
        }
        if ready && !self.is_suppressed(id, self.state.clock) {
            let n: u32 = match self.minelayer_lays.get(id) {
                Some(n) => *n,
                None => 0,
            };
            if !self.state.minefields.contains_key(&hex) {
                self.state.minefields.insert(
                    hex,
                    RuntimeMinefield { at: hex, owner: Some(side), cleared_by: SideSet::empty() },
                );
            }
            self.minelayer_lays.insert(id.clone(), if n == u32::MAX { n } else { n + 1 });
        }
        self.set_busy(id, 0);
    }
}

// ---------- fatigue ----------

/// A rested unit loses a point of fatigue, and goes on resting.
pub open spec fn rest(e: EngineV, id: Id, gen: u64) -> EngineV {
    if at(e.fatigue_gen, id) != Some(gen) {
        e
    } else {
        let e1 = match at(e.units, id) {
            Some(u) => m::put_unit(
                e,
                id,
                RuntimeUnit {
                    fatigue: if u.fatigue > 0 {
                        (u.fatigue - 1) as i64
                    } else {
                        u.fatigue
                    },
                    ..u
                },
            ),
            None => e,
        };
        m::arm_fatigue_decay(e1, id)
    }
}

impl Engine {
    fn rest(&mut self, id: &String, gen: u64)
        ensures
            final(self).became(old(self), rest(old(self)@, id@, gen)),
    {
        let stands: bool = match self.fatigue_gen.get(id) {
            Some(g) => *g == gen,
            None => false,
        };
        if !stands {
            return;
        }
        match self.state.units.get_mut(id) {
            Some(u) => {
                if u.fatigue > 0 {
                    u.fatigue = u.fatigue - 1;
                }
            },
            None => {},
        }
        self.arm_fatigue_decay(id);
    }
}

// ---------- merging and splitting ----------

/// Whether a unit is still held by a transition that ends now.
pub open spec fn held_now(e: EngineV, id: Id) -> bool {
    match at(e.units, id) {
        Some(u) => u.busy_until == e.clock,
        None => false,
    }
}

/// The teams of two units that are merged now, if they still may be.
pub open spec fn merged_teams(e: EngineV, id: Id, other: Id) -> Option<u8> {
    let (a, b) = (e.units[id], e.units[other]);
    if a.alive && b.alive && a.state == UnitState::Stopped && b.state == UnitState::Stopped && a.pos
        == b.pos && a.unit_type == b.unit_type && !e.same_hex.contains_key(a.pos) && !m::suppressed(
        e.units,
        id,
        e.clock,
    ) && !m::suppressed(e.units, other, e.clock) {
        match merged(a.teams, b.teams, 0, 0, squad_cap(e)) {
            Some((n, _)) => Some(n),
            None => None,
        }
    } else {
        None
    }
}

/// Two units become one, and the other leaves the board; if they no longer may, both are free.
pub open spec fn finish_merge(e: EngineV, id: Id, other: Id) -> EngineV {
    match merged_teams(e, id, other) {
        Some(n) => {
            let e1 = m::put_unit(e, id, RuntimeUnit { teams: n, busy_until: 0, ..e.units[id] });
            let e2 = m::lose(e1, other);
            EngineV { same_hex_order: e2.same_hex_order.remove(other), ..e2 }
        },
        None => m::set_busy(m::set_busy(e, id, 0), other, 0),
    }
}

/// The teams of the two units that a unit is split into now, if it still may be.
pub open spec fn split_teams(e: EngineV, id: Id) -> Option<(u8, u8)> {
    let u = e.units[id];
    if u.alive && u.state == UnitState::Stopped && !e.same_hex.contains_key(u.pos)
        && !m::suppressed(e.units, id, e.clock) && stack_room(
        e.units,
        u.side,
        u.pos,
        "#probe"@,
        e.stacking_cap,
    ) {
        halves(u.teams, squad_cap(e))
    } else {
        None
    }
}

/// The id of the unit that is split off as number `n`.
pub open spec fn child_id(parent: Id, n: u64) -> Id {
    parent + "#"@ + dec(n as nat)
}

/// The unit that is split off another.
pub open spec fn child_of(u: UnitV, id: Id, teams: u8) -> UnitV {
    RuntimeUnit {
        id,
        side: u.side,
        unit_type: u.unit_type,
        armor: u.armor,
        teams,
        pos: u.pos,
        facing: u.facing,
        state: UnitState::Stopped,
        weapon_state: WeaponState::Deployed,
        busy_until: 0,
        suppressed_until: 0,
        alive: true,
        carried_by: None,
        affiliated_to: u.affiliated_to,
        heli_alt: HeliAlt::Low,
        inside_facility: None,
        fatigue: 0,
    }
}

/// A unit becomes two; if it no longer may, or the new id is taken, it is free.
pub open spec fn finish_split(e: EngineV, id: Id) -> EngineV {
    let u = e.units[id];
    match split_teams(e, id) {
        None => m::set_busy(e, id, 0),
        Some((keep, off)) => {
            let n = next_of(e.spawn_ctr);
            let child = child_id(id, n);
            let e1 = EngineV { spawn_ctr: n, ..e };
            if e1.units.contains_key(child) {
                m::set_busy(e1, id, 0)
            } else {
                let e2 = m::put_unit(e1, child, child_of(u, child, off));
                let e3 = m::put_unit(e2, id, RuntimeUnit { teams: keep, busy_until: 0, ..u });
                let e4 = m::stamp_entry(m::stamp_entry(e3, id), child);
                m::trigger_same_hex(e4, u.pos, e4.clock)
            }
        },
    }
}

/// A merge or split ends, if nothing has interrupted it and no newer order holds its units.
pub open spec fn finish_agg(e: EngineV, id: Id, gen: u64) -> EngineV {
    match at(e.aggsplit_op, id) {
        None => e,
        Some(op) => if op.gen != gen {
            e
        } else {
            let e1 = EngineV { aggsplit_op: e.aggsplit_op.remove(id), ..e };
            match op.kind {
                AggSplitKind::Aggregate { other } => if held_now(e1, id) && held_now(e1, other) {
                    finish_merge(e1, id, other)
                } else {
                    e1
                },
                AggSplitKind::Split => if held_now(e1, id) {
                    finish_split(e1, id)
                } else {
                    e1
                },
            }
        },
    }
}

impl Engine {
    fn held_now(&self, id: &String) -> (r: bool)
        ensures
            r == held_now(self@, id@),
    {
        match self.state.units.get(id) {
            Some(u) => u.busy_until == self.state.clock,
            None => false,
        }
    }

    fn merged_teams(&self, id: &String, other: &String) -> (r: Option<u8>)
        requires
            self@.units.contains_key(id@),
            self@.units.contains_key(other@),
        ensures
            r == merged_teams(self@, id@, other@),
    {
        let cap: u8 = self.squad_cap();
        match (self.state.units.get(id), self.state.units.get(other)) {
            (Some(a), Some(b)) => if a.alive && b.alive && a.state == UnitState::Stopped && b.state
                == UnitState::Stopped && a.pos == b.pos && a.unit_type == b.unit_type
                && !self.same_hex.contains_key(&a.pos) && !self.is_suppressed(id, self.state.clock)
                && !self.is_suppressed(other, self.state.clock) {
                match mechanics::aggregate(a.teams, b.teams, 0, 0, cap) {
                    Some((n, _)) => Some(n),
                    None => None,
                }
            } else {
                None
            },
            _ => None,
        }
    }

    fn finish_merge(&mut self, id: &String, other: &String)
        requires
            old(self)@.units.contains_key(id@),
            old(self)@.units.contains_key(other@),
        ensures
            final(self).became(old(self), finish_merge(old(self)@, id@, other@)),
    {
        match self.merged_teams(id, other) {
            Some(n) => {
                match self.state.units.get_mut(id) {
                    Some(u) => {
                        u.teams = n;
                        u.busy_until = 0;
                    },
                    None => {},
                }
                self.set_dead(other);
                self.set_busy(other, 0);
                let _ = self.same_hex_order.remove(other);
            },
            None => {
                self.set_busy(id, 0);
                self.set_busy(other, 0);
            },
        }
    }

    fn split_teams(&self, id: &String) -> (r: Option<(u8, u8)>)
        requires
            self@.units.contains_key(id@),
        ensures
            r == split_teams(self@, id@),
    {
        let u: &RuntimeUnit = match self.state.units.get(id) {
            Some(u) => u,
            None => return None,
        };
        if u.alive && u.state == UnitState::Stopped && !self.same_hex.contains_key(&u.pos)
            && !self.is_suppressed(id, self.state.clock) && mechanics::stacking_allows_entry(
            &self.state,
            u.side,
            u.pos,
            "#probe",
            self.stacking_cap,
        ) {
            mechanics::split_squads(u.teams, self.squad_cap())
        } else {
            None
        }
    }

    fn finish_split(&mut self, id: &String)
        requires
            old(self)@.units.contains_key(id@),
        ensures
            final(self).became(old(self), finish_split(old(self)@, id@)),
    {
        let (keep, off): (u8, u8) = match self.split_teams(id) {
            Some(h) => h,
            None => {
                self.set_busy(id, 0);
                return;
            },
        };
        let n: u64 = next(self.spawn_ctr);
        self.spawn_ctr = n;
        let child: String = join3(id.as_str(), "#", u64_text(n).as_str());
        if self.state.units.contains_key(&child) {
            self.set_busy(id, 0);
            return;
        }
        let u: RuntimeUnit = match self.state.units.get(id) {
            Some(u) => u.dup(),
            None => return,
        };
        let pos: Axial = u.pos;
        self.state.units.insert(
            child.clone(),
            RuntimeUnit {
                id: child.clone(),
                side: u.side,
                unit_type: u.unit_type,
                armor: u.armor,
                teams: off,
                pos: u.pos,
                facing: u.facing,
                state: UnitState::Stopped,
                weapon_state: WeaponState::Deployed,
                busy_until: 0,
                suppressed_until: 0,
                alive: true,
                carried_by: None,
                affiliated_to: u.affiliated_to,
                heli_alt: HeliAlt::Low,
                inside_facility: None,
                fatigue: 0,
            },
        );
        match self.state.units.get_mut(id) {
            Some(u) => {
                u.teams = keep;
                u.busy_until = 0;
            },
            None => {},
        }
        self.stamp_entry(id);
        self.stamp_entry(&child);
        self.maybe_trigger_same_hex(pos, self.state.clock);
    }

    fn finish_agg(&mut self, id: &String, gen: u64)
        ensures
            final(self).became(old(self), finish_agg(old(self)@, id@, gen)),
    {
        let other: Option<String> = match self.aggsplit_op.get(id) {
            Some(op) => {
                if op.gen != gen {
                    return;
                }
                match &op.kind {
                    AggSplitKind::Aggregate { other } => Some(other.clone()),
                    AggSplitKind::Split => None,
                }
            },
            None => return,
        };
        let _ = self.aggsplit_op.remove(id);
        match other {
            Some(other) => {
                if self.held_now(id) && self.held_now(&other) {
                    self.finish_merge(id, &other);
                }
            },
            None => {
                if self.held_now(id) {
                    self.finish_split(id);
                }
            },
        }
    }
}

// ---------- all events ----------

/// A change of posture is complete, unless it was a change into cover that was interrupted.
pub open spec fn finish_change(e: EngineV, id: Id, to: UnitState, cover_gen: Option<u64>) -> EngineV {
    if cover_gen is Some && at(e.cover_transition, id) != cover_gen {
        e
    } else {
        let e1 = if cover_gen is Some {
            EngineV { cover_transition: e.cover_transition.remove(id), ..e }
        } else {
            e
        };
        match at(e1.units, id) {
            Some(u) => m::put_unit(e1, id, RuntimeUnit { state: to, busy_until: 0, ..u }),
            None => e1,
        }
    }
}

/// Suppression ends, unless a later one still lasts.
pub open spec fn end_suppression(e: EngineV, id: Id) -> EngineV {
    match at(e.units, id) {
        Some(u) => if u.suppressed_until <= e.clock {
            m::put_unit(
                e,
                id,
                RuntimeUnit {
                    state: if u.state == UnitState::Suppressed {
                        UnitState::Normal
                    } else {
                        u.state
                    },
                    suppressed_until: 0,
                    ..u
                },
            )
        } else {
            e
        },
        None => e,
    }
}

/// A radar is on, unless its spin-up was interrupted.
pub open spec fn finish_spinup(e: EngineV, id: Id, gen: u64) -> EngineV {
    if at(e.radar_spinup, id) != Some(gen) {
        e
    } else {
        let e1 = EngineV { radar_spinup: e.radar_spinup.remove(id), ..e };
        let alive = match at(e1.units, id) {
            Some(u) => u.alive,
            None => false,
        };
        m::set_busy(
            if alive {
                EngineV { radar_on: e1.radar_on.insert(id, ()), ..e1 }
            } else {
                e1
            },
            id,
            0,
        )
    }
}

/// A helicopter is at its new altitude.
pub open spec fn finish_altitude(e: EngineV, id: Id, to: HeliAlt) -> EngineV {
    match at(e.units, id) {
        Some(u) => m::put_unit(e, id, RuntimeUnit { heli_alt: to, busy_until: 0, ..u }),
        None => e,
    }
}

/// What an event makes of the state.
pub open spec fn handle(e: EngineV, event: EventV) -> EngineV {
    match event {
        Event::TransitionComplete { unit, to, cover_gen } => finish_change(e, unit, to, cover_gen),
        Event::WeaponReady { unit } => m::set_weapon(e, unit, WeaponState::Deployed),
        Event::SuppressEnd { unit } => end_suppression(e, unit),
        Event::MoveArrive { unit, gen, to, target } => arrive(e, unit, gen, to, target),
        Event::MountComplete { passenger, gen } => finish_mount(e, passenger, gen),
        Event::IndirectFly { plan } => m::salvo_arrives(e, plan, e.clock),
        Event::IndirectBoomEnd { plan } => EngineV {
            indirect_plans: e.indirect_plans.remove(plan),
            ..e
        },
        Event::LoiteringLaunched { munition } => finish_launch(e, munition),
        Event::LoiteringSelfDestruct { munition } => self_destruct(e, munition),
        Event::RadarReady { vehicle, gen } => finish_spinup(e, vehicle, gen),
        Event::HeliAltReady { heli, to } => finish_altitude(e, heli, to),
        Event::SameHexEngage { hex, gen } => m::same_hex_round(e, hex, gen, e.clock),
        Event::FacilityEnterReady { unit, facility, gen } => finish_enter(e, unit, facility, gen),
        Event::FacilityExitReady { unit, gen } => finish_exit(e, unit, gen),
        Event::MineLayReady { unit, at, gen } => finish_lay(e, unit, at, gen),
        Event::FatigueDecay { unit, gen } => rest(e, unit, gen),
        Event::AggSplitComplete { unit, gen } => finish_agg(e, unit, gen),
        Event::CaptureCheck => e,
    }
}

impl Engine {
    fn finish_change(&mut self, id: &String, to: UnitState, cover_gen: Option<u64>)
        ensures
            final(self).became(old(self), finish_change(old(self)@, id@, to, cover_gen)),
    {
        match cover_gen {
            Some(g) => {
                let live: bool = match self.cover_transition.get(id) {
                    Some(n) => *n == g,
                    None => false,
                };
                if !live {
                    return;
                }
                let _ = self.cover_transition.remove(id);
            },
            None => {},
        }
        match self.state.units.get_mut(id) {
            Some(u) => {
                u.state = to;
                u.busy_until = 0;
            },
            None => {},
        }
    }

    fn end_suppression(&mut self, id: &String)
        ensures
            final(self).became(old(self), end_suppression(old(self)@, id@)),
    {
        let clock: Tick = self.state.clock;
        let over: bool = match self.state.units.get(id) {
            Some(u) => u.suppressed_until <= clock,
            None => false,
        };
        if !over {
            return;
        }
        match self.state.units.get_mut(id) {
            Some(u) => {
                if u.state == UnitState::Suppressed {
                    u.state = UnitState::Normal;
                }
                u.suppressed_until = 0;
            },
            None => {},
        }
    }

    fn finish_spinup(&mut self, id: &String, gen: u64)
        ensures
            final(self).became(old(self), finish_spinup(old(self)@, id@, gen)),
    {
        let live: bool = match self.radar_spinup.get(id) {
            Some(g) => *g == gen,
            None => false,
        };
        if !live {
            return;
        }
        let _ = self.radar_spinup.remove(id);
        let alive: bool = match self.state.units.get(id) {
            Some(u) => u.alive,
            None => false,
        };
        if alive {
            self.radar_on.insert(id.clone(), ());
        }
        self.set_busy(id, 0);
    }

    fn finish_altitude(&mut self, id: &String, to: HeliAlt)
        ensures
            final(self).became(old(self), finish_altitude(old(self)@, id@, to)),
    {
        match self.state.units.get_mut(id) {
            Some(u) => {
                u.heli_alt = to;
                u.busy_until = 0;
            },
            None => {},
        }
    }

    /// Handles an event that has come due.
    pub(crate) fn handle(&mut self, event: Event)
        ensures
            final(self).became(old(self), handle(old(self)@, event@)),
    {
        match event {
            Event::TransitionComplete { unit, to, cover_gen } => {
                self.finish_change(&unit, to, cover_gen);
            },
            Event::WeaponReady { unit } => {
                self.set_weapon(&unit, WeaponState::Deployed);
            },
            Event::SuppressEnd { unit } => {
                self.end_suppression(&unit);
            },
            Event::MoveArrive { unit, gen, to, target } => {
                self.arrive(&unit, gen, to, target);
            },
            Event::MountComplete { passenger, gen } => {
                self.finish_mount(&passenger, gen);
            },
            Event::IndirectFly { plan } => {
                self.adjudicate_indirect(plan, self.state.clock);
            },
            Event::IndirectBoomEnd { plan } => {
                let _ = self.indirect_plans.remove(&plan);
            },
            Event::LoiteringLaunched { munition } => {
                self.finish_launch(&munition);
            },
            Event::LoiteringSelfDestruct { munition } => {
                self.self_destruct(&munition);
            },
            Event::RadarReady { vehicle, gen } => {
                self.finish_spinup(&vehicle, gen);
            },
            Event::HeliAltReady { heli, to } => {
                self.finish_altitude(&heli, to);
            },
            Event::SameHexEngage { hex, gen } => {
                self.run_same_hex_round(hex, gen, self.state.clock);
            },
            Event::FacilityEnterReady { unit, facility, gen } => {
                self.finish_enter(&unit, facility, gen);
            },
            Event::FacilityExitReady { unit, gen } => {
                self.finish_exit(&unit, gen);
            },
            Event::MineLayReady { unit, at, gen } => {
                self.finish_lay(&unit, at, gen);
            },
            Event::FatigueDecay { unit, gen } => {
                self.rest(&unit, gen);
            },
            Event::AggSplitComplete { unit, gen } => {
                self.finish_agg(&unit, gen);
            },
            Event::CaptureCheck => {},
        }
    }
}

} // verus!
