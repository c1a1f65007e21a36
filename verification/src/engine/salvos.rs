//! Indirect fire, and fire at fortifications.
use crate::combat;
use crate::combat::{
    GunClass, IndirectBase, IndirectMods, IndirectSpotting, Scatter, TargetTerrain,
};
use crate::engine::effects::bump;
use crate::engine::model as m;
use crate::engine::model::Event;
use crate::engine::Engine;
use crate::error::{res, EngineError};
use crate::hex::{direction_step, Axial};
use crate::mechanics;
use crate::mechanics::FortKind;
use crate::ordmap::{keys_where, some_entry, views};
use crate::prob::Outcome;
use crate::rng::Rng;
use crate::time::{later, Tick};
use crate::types::{opt_is, Armor, FacilityV, RuntimeFacility, RuntimeUnit, SideId, UnitState, UnitType, UnitV};
use vstd::prelude::*;

verus! {

/// Whether a unit type spots for artillery: ground units and drones.
pub fn can_spot(t: UnitType) -> (r: bool)
    ensures
        r == m::spots(t),
{
    mechanics::is_ground(t) || t == UnitType::Uav
}

/// The hex `n` steps from `hex` in a direction.
fn offset(hex: Axial, dir: usize, n: u32) -> (r: Axial)
    requires
        dir < 6,
    ensures
        r == m::offset_hex(hex, dir as int, n as int),
{
    let (dq, dr) = direction_step(dir);
    proof {
        assert(-1 <= dq <= 1 && -1 <= dr <= 1);
        assert(-0x1_0000_0000 <= dq * n <= 0x1_0000_0000) by (nonlinear_arith)
            requires
                -1 <= dq <= 1,
                0 <= n <= 0x1_0000_0000,
        ;
        assert(-0x1_0000_0000 <= dr * n <= 0x1_0000_0000) by (nonlinear_arith)
            requires
                -1 <= dr <= 1,
                0 <= n <= 0x1_0000_0000,
        ;
    }
    Axial {
        q: (hex.q as i64 + dq as i64 * n as i64) as i32,
        r: (hex.r as i64 + dr as i64 * n as i64) as i32,
    }
}

impl Engine {
    // ---------- spotting ----------

    fn observes_at(&self, hex: Axial, side: SideId, s: &RuntimeUnit) -> (r: bool)
        ensures
            r == some_entry(self@.units, m::observed_at(self@, hex, side, s@)),
    {
        let ghost p = m::observed_at(self@, hex, side, s@);
        let f = |k: &String, u: &RuntimeUnit| -> (b: bool)
            ensures b == p(k@, u@)
        {
            u.alive && u.is_on_board() && u.side != side && u.pos == hex && mechanics::can_observe(
                &self.rules,
                &self.map,
                s,
                u,
            )
        };
        self.state.units.any(f, Ghost(p))
    }

    fn radar_works(&self, v: &String, side: SideId) -> (r: bool)
        ensures
            r == m::radar_works(self@, side)(v@, ()),
    {
        let own: bool = match self.state.units.get(v) {
            Some(u) => u.alive && u.side == side,
            None => false,
        };
        own && !self.is_suppressed(v, self.state.clock)
    }

    /// How well a side sees a hex that artillery fires at.
    pub fn spotting_level(&self, plan_hex: Axial, side: SideId) -> (r: IndirectSpotting)
        ensures
            r == m::spotting(self@, plan_hex, side),
    {
        let ghost p = m::spots_target(self@, plan_hex, side);
        let f = |k: &String, s: &RuntimeUnit| -> (b: bool)
            ensures b == p(k@, s@)
        {
            s.alive && s.side == side && s.is_on_board() && can_spot(s.unit_type)
                && self.observes_at(plan_hex, side, s)
        };
        if self.state.units.any(f, Ghost(p)) {
            return IndirectSpotting::Target;
        }
        let ghost q = m::spots_hex(self@, plan_hex, side);
        let g = |k: &String, s: &RuntimeUnit| -> (b: bool)
            ensures b == q(k@, s@)
        {
            s.alive && s.side == side && s.is_on_board() && can_spot(s.unit_type)
                && mechanics::line_of_sight(&self.map, &s.pos, &plan_hex)
        };
        if self.state.units.any(g, Ghost(q)) {
            return IndirectSpotting::InHex;
        }
        let ghost w = m::radar_works(self@, side);
        let h = |v: &String, x: &()| -> (b: bool)
            ensures b == w(v@, x@)
        {
            self.radar_works(v, side)
        };
        if self.radar_on.any(h, Ghost(w)) {
            IndirectSpotting::InHex
        } else {
            IndirectSpotting::Unspotted
        }
    }

    // ---------- salvos ----------

    fn stacked_at(&self, hex: Axial) -> (r: bool)
        ensures
            r == (keys_where::<String, UnitV>(self@.units, m::stands_at(hex)).len() > 1),
    {
        let ghost p = m::stands_at(hex);
        let f = |k: &String, u: &RuntimeUnit| -> (b: bool)
            ensures b == p(k@, u@)
        {
            u.alive && u.is_on_board() && mechanics::is_ground(u.unit_type) && u.pos == hex
        };
        let there: Vec<String> = self.state.units.select(f, Ghost(p));
        proof {
            assert(views(there@).len() == there@.len());
        }
        there.len() > 1
    }

    fn salvo_mods(&self, u: &RuntimeUnit, guns: u8) -> (r: IndirectMods)
        ensures
            r == m::salvo_mods(self@, u@, guns),
    {
        IndirectMods {
            target_terrain: combat::target_terrain(&self.map, u),
            target_cover: u.state == UnitState::Cover,
            target_moving_personnel: u.unit_type == UnitType::Infantry && combat::in_motion(u),
            target_stacked: self.stacked_at(u.pos),
            target_march: u.state == UnitState::March,
            armor: u.armor,
            gun_count: guns,
        }
    }

    /// A unit takes a salvo's base result with its own correction.
    pub(crate) fn take_salvo(&mut self, id: &String, base: IndirectBase, guns: u8, t: Tick)
        ensures
            final(self).became(old(self), m::take_salvo(old(self)@, id@, base, guns, t)),
    {
        let mods: IndirectMods = match self.state.units.get(id) {
            Some(u) => self.salvo_mods(u, guns),
            None => return,
        };
        let outcome: Outcome = combat::apply_indirect_to_target(
            &self.tables,
            &mut self.rng,
            base,
            &mods,
        );
        self.take_fire(id, outcome, t);
    }

    fn works_on(&self, hex: Axial) -> (r: Vec<String>)
        ensures
            views(r@) == keys_where::<String, FacilityV>(self@.facilities, m::works_at(hex)),
            forall|i: int|
                0 <= i < r@.len() ==> self@.facilities.contains_key((#[trigger] r@[i])@),
    {
        let ghost p = m::works_at(hex);
        let f = |k: &String, w: &RuntimeFacility| -> (b: bool)
            ensures b == p(k@, w@)
        {
            w.at == hex && match FortKind::from_facility_kind(w.kind.as_str()) {
                Some(kind) => mechanics::fortification_can_engage(kind),
                None => false,
            }
        };
        self.state.facilities.select(f, Ghost(p))
    }

    /// A salvo lands on `hex`.
    pub fn apply_indirect_at(&mut self, hex: Axial, base: IndirectBase, guns: u8, t: Tick)
        ensures
            final(self).became(old(self), m::salvo_lands(old(self)@, hex, base, guns, t)),
    {
        let ghost p = m::exposed_at(hex);
        let f = |k: &String, u: &RuntimeUnit| -> (b: bool)
            ensures b == p(k@, u@)
        {
            u.alive && u.is_on_board() && mechanics::can_be_targeted(u.unit_type) && u.pos == hex
        };
        let ids: Vec<String> = self.state.units.select(f, Ghost(p));
        let ghost ks = views(ids@);
        let ghost e0 = self@;
        let ghost g = m::take_salvo_f(base, guns, t);
        let mut i: usize = 0;
        while i < ids.len()
            invariant
                i <= ids@.len(),
                ks == views(ids@),
                g == m::take_salvo_f(base, guns, t),
                self.became(old(self), m::each(e0, ks.take(i as int), g)),
            decreases ids@.len() - i,
        {
            proof {
                m::each_next(e0, ks, i as int, g);
                assert(ks[i as int] == ids@[i as int]@);
            }
            self.take_salvo(&ids[i], base, guns, t);
            i += 1;
        }
        proof {
            assert(ks.take(ks.len() as int) =~= ks);
        }
        let works: Vec<String> = self.works_on(hex);
        proof {
            assert(views(works@).len() == works@.len());
        }
        if works.len() == 0 {
            return;
        }
        assert(views(works@)[0] == works@[0]@);
        let (armor, vehicle): (Armor, bool) = match self.state.facilities.get(&works[0]) {
            Some(w) => (
                w.armor,
                match FortKind::from_facility_kind(w.kind.as_str()) {
                    Some(FortKind::Vehicle) => true,
                    _ => false,
                },
            ),
            None => return,
        };
        let mods: IndirectMods = IndirectMods {
            target_terrain: TargetTerrain::UrbanOrWorks,
            target_cover: false,
            target_moving_personnel: false,
            target_stacked: false,
            target_march: false,
            armor,
            gun_count: guns,
        };
        let outcome: Outcome = combat::apply_indirect_to_target(
            &self.tables,
            &mut self.rng,
            base,
            &mods,
        );
        if vehicle {
            self.apply_fire_to_vehicle_works(&works[0], outcome);
        } else {
            let _ = self.apply_fire_to_personnel_works(&works[0], outcome, t);
        }
    }

    /// A salvo's flight ends.
    pub(crate) fn adjudicate_indirect(&mut self, plan_id: u64, t: Tick)
        ensures
            final(self).became(old(self), m::salvo_arrives(old(self)@, plan_id, t)),
    {
        let (plan_hex, artillery): (Axial, String) = match self.indirect_plans.get(&plan_id) {
            Some(p) => (p.plan_hex, p.artillery.clone()),
            None => return,
        };
        let (side, pos, teams): (SideId, Axial, u8) = match self.state.units.get(&artillery) {
            Some(u) => {
                if !u.alive {
                    let _ = self.indirect_plans.remove(&plan_id);
                    return;
                }
                (u.side, u.pos, u.teams)
            },
            None => {
                let _ = self.indirect_plans.remove(&plan_id);
                return;
            },
        };
        let spotting: IndirectSpotting = self.spotting_level(plan_hex, side);
        let dist: i64 = pos.distance(&plan_hex) as i64;
        let (scatter, base) = combat::resolve_indirect_plan(
            &self.tables,
            &mut self.rng,
            spotting,
            dist,
            GunClass::Medium,
        );
        let dir: u32 = self.rng.next_u32_below(6);
        let impact: Axial = match scatter {
            Scatter::Hexes(n) => offset(plan_hex, dir as usize, n),
            _ => plan_hex,
        };
        match self.indirect_plans.get_mut(&plan_id) {
            Some(p) => {
                p.impact = Some(impact);
                p.base = base;
                p.gun_count = teams;
            },
            None => {},
        }
        self.apply_indirect_at(impact, base, teams, t);
        let boom: Tick = match self.rules.timing("indirect_boom") {
            Some(b) => b,
            None => 0,
        };
        self.schedule(later(t, boom), Event::IndirectBoomEnd { plan: plan_id });
    }

    // ---------- fortifications ----------

    pub(crate) fn occupants(&self, fac_id: &String) -> (r: Vec<String>)
        ensures
            views(r@) == keys_where::<String, UnitV>(self@.units, m::inside(fac_id@)),
            forall|i: int| 0 <= i < r@.len() ==> self@.units.contains_key((#[trigger] r@[i])@),
    {
        let ghost p = m::inside(fac_id@);
        let f = |k: &String, u: &RuntimeUnit| -> (b: bool)
            ensures b == p(k@, u@)
        {
            u.alive && opt_is(&u.inside_facility, fac_id.as_str())
        };
        self.state.units.select(f, Ghost(p))
    }

    fn any_teams(&self, ids: &Vec<String>) -> (r: bool)
        requires
            forall|i: int| 0 <= i < ids@.len() ==> self@.units.contains_key((#[trigger] ids@[i])@),
        ensures
            r == exists|i: int|
                0 <= i < views(ids@).len() && self@.units[#[trigger] views(ids@)[i]].teams > 0,
    {
        let ghost ks = views(ids@);
        let mut i: usize = 0;
        while i < ids.len()
            invariant
                i <= ids@.len(),
                ks == views(ids@),
                forall|j: int|
                    0 <= j < ids@.len() ==> self@.units.contains_key((#[trigger] ids@[j])@),
                forall|j: int| 0 <= j < i ==> !(self@.units[#[trigger] ks[j]].teams > 0),
            decreases ids@.len() - i,
        {
            assert(ks[i as int] == ids@[i as int]@);
            match self.state.units.get(&ids[i]) {
                Some(u) => {
                    if u.teams > 0 {
                        return true;
                    }
                },
                None => {},
            }
            i += 1;
        }
        false
    }

    fn garrison_losses(&mut self, ids: &Vec<String>, n: u8, t: Tick, ticks: Tick)
        ensures
            final(self).became(
                old(self),
                m::garrison_losses(old(self)@, views(ids@), n, t, ticks).0,
            ),
    {
        let ghost ks = views(ids@);
        let ghost e0 = self@;
        let mut left: u8 = n;
        let mut i: usize = 0;
        while i < ids.len()
            invariant
                i <= ids@.len(),
                ks == views(ids@),
                self.became(old(self), m::garrison_losses(e0, ks.take(i as int), n, t, ticks).0),
                left == m::garrison_losses(e0, ks.take(i as int), n, t, ticks).1,
            decreases ids@.len() - i,
        {
            proof {
                let p = ks.take(i + 1);
                assert(p.drop_last() =~= ks.take(i as int));
                assert(p.last() == ids@[i as int]@);
            }
            let teams: u8 = match self.state.units.get(&ids[i]) {
                Some(u) => u.teams,
                None => 0,
            };
            let k: u8 = if left < teams { left } else { teams };
            if k > 0 {
                self.hit_whole(&ids[i], Outcome::Destroyed(k), t, ticks);
                left = left - k;
            }
            i += 1;
        }
        proof {
            assert(ks.take(ks.len() as int) =~= ks);
        }
    }

    fn hit_each(&mut self, ids: &Vec<String>, outcome: Outcome, t: Tick, ticks: Tick)
        ensures
            final(self).became(
                old(self),
                m::each(old(self)@, views(ids@), m::hit_whole_f(outcome, t, ticks)),
            ),
    {
        let ghost ks = views(ids@);
        let ghost e0 = self@;
        let ghost g = m::hit_whole_f(outcome, t, ticks);
        let mut i: usize = 0;
        while i < ids.len()
            invariant
                i <= ids@.len(),
                ks == views(ids@),
                g == m::hit_whole_f(outcome, t, ticks),
                self.became(old(self), m::each(e0, ks.take(i as int), g)),
            decreases ids@.len() - i,
        {
            proof {
                m::each_next(e0, ks, i as int, g);
                assert(ks[i as int] == ids@[i as int]@);
            }
            self.hit_whole(&ids[i], outcome, t, ticks);
            i += 1;
        }
        proof {
            assert(ks.take(ks.len() as int) =~= ks);
        }
    }

    /// A shot at a personnel fortification: those inside take it.
    pub(crate) fn apply_fire_to_personnel_works(
        &mut self,
        fac_id: &String,
        outcome: Outcome,
        t: Tick,
    ) -> (r: Result<(), EngineError>)
        ensures
            ({
                let d = m::personnel_works_hit(old(self)@, fac_id@, outcome, t);
                final(self).became(old(self), d.0) && res(r) == d.1
            }),
    {
        let ids: Vec<String> = self.occupants(fac_id);
        proof {
            assert(views(ids@).len() == ids@.len());
        }
        match self.require_timing("suppress_duration") {
            Err(x) => {
                let reaches: bool = match outcome {
                    Outcome::Destroyed(n) => n > 0 && self.any_teams(&ids),
                    Outcome::NoEffect => false,
                    _ => ids.len() > 0,
                };
                if reaches {
                    Err(x)
                } else {
                    Ok(())
                }
            },
            Ok(ticks) => {
                match outcome {
                    Outcome::Destroyed(n) => {
                        self.garrison_losses(&ids, n, t, ticks);
                    },
                    Outcome::NoEffect => {},
                    _ => {
                        self.hit_each(&ids, outcome, t, ticks);
                    },
                }
                Ok(())
            },
        }
    }

    /// The teams of several units.
    pub(crate) fn teams_of(&self, ids: &Vec<String>) -> (r: u128)
        ensures
            r == m::teams_of(self@.units, views(ids@)),
            r <= 0xff_ffff_ffff_ffff_ffff,
    {
        let ghost ks = views(ids@);
        let mut sum: u128 = 0;
        let mut i: usize = 0;
        let n: usize = ids.len();
        while i < n
            invariant
                i <= n,
                n == ids@.len(),
                ks == views(ids@),
                sum == m::teams_of(self@.units, ks.take(i as int)),
                sum <= 255 * i,
            decreases ids@.len() - i,
        {
            proof {
                let p = ks.take(i + 1);
                assert(p.drop_last() =~= ks.take(i as int));
                assert(p.last() == ids@[i as int]@);
            }
            match self.state.units.get(&ids[i]) {
                Some(u) => {
                    sum = sum + u.teams as u128;
                },
                None => {},
            }
            i += 1;
        }
        proof {
            assert(ks.take(ks.len() as int) =~= ks);
        }
        sum
    }

    fn expel(&mut self, id: &String)
        ensures
            final(self).became(old(self), m::expel(old(self)@, id@)),
    {
        match self.state.units.get_mut(id) {
            Some(u) => {
                u.inside_facility = None;
                u.busy_until = 0;
            },
            None => {},
        }
        let _ = bump(&mut self.facility_gen, id);
        if !self.same_hex_order.contains_key(id) {
            self.stamp_entry(id);
        }
    }

    /// A shot at a vehicle fortification: it loses capacity and may lose its garrison.
    pub(crate) fn apply_fire_to_vehicle_works(&mut self, fac_id: &String, outcome: Outcome)
        ensures
            final(self).became(old(self), m::vehicle_works_hit(old(self)@, fac_id@, outcome)),
    {
        let loss: u8 = match outcome {
            Outcome::Destroyed(n) => n,
            Outcome::Kill => 255,
            _ => 0,
        };
        if loss == 0 {
            return;
        }
        let mut cap: u8 = 0;
        match self.state.facilities.get_mut(fac_id) {
            Some(f) => {
                f.capacity = if f.capacity > loss { f.capacity - loss } else { 0 };
                cap = f.capacity;
            },
            None => {},
        }
        let ids: Vec<String> = self.occupants(fac_id);
        let occupied: u128 = self.teams_of(&ids);
        if occupied <= cap as u128 {
            return;
        }
        let ghost ks = views(ids@);
        let pos: Axial = match self.state.units.get(&ids[ids.len() - 1]) {
            Some(u) => u.pos,
            None => return,
        };
        let ghost e0 = self@;
        let ghost g = m::expel_f();
        let mut i: usize = 0;
        while i < ids.len()
            invariant
                i <= ids@.len(),
                ks == views(ids@),
                g == m::expel_f(),
                self.became(old(self), m::each(e0, ks.take(i as int), g)),
            decreases ids@.len() - i,
        {
            proof {
                m::each_next(e0, ks, i as int, g);
                assert(ks[i as int] == ids@[i as int]@);
            }
            self.expel(&ids[i]);
            i += 1;
        }
        proof {
            assert(ks.take(ks.len() as int) =~= ks);
        }
        self.maybe_trigger_same_hex(pos, self.state.clock);
    }
}

} // verus!
