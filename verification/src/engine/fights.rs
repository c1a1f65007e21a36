//! Fights within a hex.
use crate::combat;
use crate::combat::pick_target;
use crate::engine::effects::{entry_place_at, number};
use crate::engine::model as m;
use crate::engine::model::{EngineV, Event, SameHexState, SAME_HEX_MAX_DRY_ROUNDS};
use crate::engine::Engine;
use crate::hex::Axial;
use crate::mechanics;
use crate::ordmap::{Dup, keys_where, views};
use crate::prob::Outcome;
use crate::rng::PcgRng;
use crate::text::str_lt;
use crate::time::{later, next, Tick};
use crate::types::{RuntimeUnit, SideId, UnitState, UnitV, WeaponState};
use vstd::prelude::*;

verus! {

impl Engine {
    /// Applies an outcome and passes over a missing rule.
    pub(crate) fn take_fire(&mut self, id: &String, outcome: Outcome, t: Tick)
        ensures
            final(self).became(old(self), m::take_fire(old(self)@, id@, outcome, t)),
    {
        let _ = self.apply_direct_fire(id, outcome, t);
    }

    /// A shot within a hex; gives back whether it destroyed a team.
    fn same_hex_shot(&mut self, attacker_id: &String, target_id: &String, t: Tick) -> (r: bool)
        ensures
            ({
                let d = m::same_hex_shot(old(self)@, attacker_id@, target_id@, t);
                final(self).became(old(self), d.0) && r == d.1
            }),
    {
        let attacker: RuntimeUnit = match self.state.units.get(attacker_id) {
            Some(u) => u.dup(),
            None => return false,
        };
        let target: RuntimeUnit = match self.state.units.get(target_id) {
            Some(u) => u.dup(),
            None => return false,
        };
        if !attacker.alive || !target.alive {
            return false;
        }
        let before: u8 = target.teams;
        let weapons: Vec<String> = combat::unit_loadout(&self.rules, attacker.unit_type);
        let outcome: Outcome = combat::same_hex_engage(
            &self.tables,
            &self.map,
            &mut self.rng,
            &mut self.log,
            &weapons,
            &attacker,
            &target,
        );
        self.take_fire(target_id, outcome, t);
        match self.rules.timing("weapon_cooldown_direct") {
            Some(cd) => {
                self.set_weapon(attacker_id, WeaponState::Cooling);
                self.schedule(later(t, cd), Event::WeaponReady { unit: attacker_id.clone() });
            },
            None => {},
        }
        match self.state.units.get(target_id) {
            Some(u) => u.teams < before,
            None => true,
        }
    }

    /// Whether a unit fires in a fight within a hex.
    fn same_hex_can_fire(&self, id: &String) -> (r: bool)
        ensures
            r == m::same_hex_fires(self@.units, id@),
    {
        match self.state.units.get(id) {
            Some(u) => u.alive && u.state != UnitState::March && u.is_on_board(),
            None => false,
        }
    }

    fn fighters(&self, hex: Axial) -> (r: Vec<String>)
        ensures
            views(r@) == keys_where::<String, UnitV>(self@.units, m::fights_at(hex)),
    {
        let ghost p = m::fights_at(hex);
        let f = |k: &String, u: &RuntimeUnit| -> (b: bool)
            ensures b == p(k@, u@)
        {
            u.alive && u.pos == hex && u.is_on_board() && mechanics::is_ground(u.unit_type)
                && mechanics::can_be_targeted(u.unit_type)
        };
        self.state.units.select(f, Ghost(p))
    }

    fn entered_first(&self, a: &String, b: &String) -> (r: bool)
        ensures
            r == m::entered_before(self@.same_hex_order, a@, b@),
    {
        let x: u64 = number(&self.same_hex_order, a);
        let y: u64 = number(&self.same_hex_order, b);
        x < y || (x == y && str_lt(a.as_str(), b.as_str()))
    }

    /// The units that fight at `hex`, in order of entry.
    fn same_hex_attackers(&self, hex: Axial) -> (r: Vec<String>)
        ensures
            views(r@) == m::attackers(self@, hex),
    {
        let ids: Vec<String> = self.fighters(hex);
        let ghost ks = views(ids@);
        let ghost order = self@.same_hex_order;
        let mut out: Vec<String> = Vec::new();
        let mut i: usize = 0;
        proof {
            assert(views(out@) =~= m::by_entry(order, ks.take(0)));
        }
        while i < ids.len()
            invariant
                i <= ids@.len(),
                ks == views(ids@),
                order == self@.same_hex_order,
                views(out@) == m::by_entry(order, ks.take(i as int)),
            decreases ids@.len() - i,
        {
            proof {
                let t = ks.take(i + 1);
                assert(t.drop_last() =~= ks.take(i as int));
                assert(t.last() == ids@[i as int]@);
            }
            let ghost sorted = views(out@);
            let mut j: usize = out.len();
            while j > 0 && self.entered_first(&ids[i], &out[j - 1])
                invariant
                    i < ids@.len(),
                    j <= out@.len(),
                    sorted == views(out@),
                    order == self@.same_hex_order,
                    forall|k: int|
                        j <= k < sorted.len() ==> m::entered_before(
                            order,
                            ids@[i as int]@,
                            #[trigger] sorted[k],
                        ),
                decreases j,
            {
                j -= 1;
                assert(sorted[j as int] == out@[j as int]@);
            }
            proof {
                if j > 0 {
                    assert(sorted[j - 1] == out@[j - 1]@);
                }
                entry_place_at(order, sorted, ids@[i as int]@, j as int);
            }
            out.insert(j, ids[i].clone());
            proof {
                assert(views(out@) =~= sorted.insert(j as int, ids@[i as int]@));
            }
            i += 1;
        }
        proof {
            assert(ks.take(ks.len() as int) =~= ks);
        }
        out
    }

    /// The target that a unit of `side` picks in `hex`, drawing among equals.
    fn pick_in_hex(&mut self, side: SideId, hex: Axial) -> (r: Option<String>)
        ensures
            ({
                let here = keys_where::<String, UnitV>(old(self)@.units, m::ground_at(hex));
                let p = pick_target::<PcgRng>(
                    m::units_under(old(self)@.units, here),
                    side,
                    old(self)@.rng,
                );
                &&& final(self).became(old(self), EngineV { rng: p.1, ..old(self)@ })
                &&& match r {
                    Some(id) => p.0 is Some && p.0->0.id == id@,
                    None => p.0 is None,
                }
            }),
    {
        let ghost p = m::ground_at(hex);
        let f = |k: &String, u: &RuntimeUnit| -> (b: bool)
            ensures b == p(k@, u@)
        {
            u.alive && u.pos == hex && mechanics::is_ground(u.unit_type)
        };
        let ids: Vec<String> = self.state.units.select(f, Ghost(p));
        let ghost ks = views(ids@);
        let ghost units = self.state.units@;
        let mut refs: Vec<&RuntimeUnit> = Vec::new();
        let mut i: usize = 0;
        proof {
            assert(views(refs@) =~= m::units_under(units, ks.take(0)));
        }
        while i < ids.len()
            invariant
                i <= ids@.len(),
                ks == views(ids@),
                units == self.state.units@,
                forall|j: int| 0 <= j < ids@.len() ==> units.contains_key((#[trigger] ids@[j])@),
                views(refs@) == m::units_under(units, ks.take(i as int)),
            decreases ids@.len() - i,
        {
            let ghost was = views(refs@);
            match self.state.units.get(&ids[i]) {
                Some(u) => {
                    refs.push(u);
                    proof {
                        assert(views(refs@) =~= was.push(u@));
                    }
                },
                None => {},
            }
            proof {
                assert(ks.take(i + 1) =~= ks.take(i as int).push(ids@[i as int]@));
                assert(m::units_under(units, ks.take(i + 1)) =~= was.push(
                    units[ids@[i as int]@],
                ));
            }
            i += 1;
        }
        proof {
            assert(ks.take(ks.len() as int) =~= ks);
        }
        match combat::pick_same_hex_target(&mut self.rng, side, &refs) {
            Some(u) => Some(u.id.clone()),
            None => None,
        }
    }

    fn attack_turn(&mut self, attacker: &String, hex: Axial, t: Tick, loss: bool) -> (r: bool)
        ensures
            ({
                let d = m::attack_turn((old(self)@, loss), attacker@, hex, t);
                final(self).became(old(self), d.0) && r == d.1
            }),
    {
        if !self.same_hex_can_fire(attacker) {
            return loss;
        }
        let side: SideId = match self.state.units.get(attacker) {
            Some(u) => u.side,
            None => return loss,
        };
        match self.pick_in_hex(side, hex) {
            Some(target) => {
                let more: bool = self.same_hex_shot(attacker, &target, t);
                loss || more
            },
            None => loss,
        }
    }

    /// A round of the fight at `hex`.
    pub(crate) fn run_same_hex_round(&mut self, hex: Axial, gen: u64, t: Tick)
        ensures
            final(self).became(old(self), m::same_hex_round(old(self)@, hex, gen, t)),
    {
        match self.same_hex.get(&hex) {
            Some(s) => {
                if s.gen != gen {
                    return;
                }
            },
            None => return,
        }
        let (red, blue) = self.sides_on_hex(hex);
        if !(red && blue) {
            let _ = self.same_hex.remove(&hex);
            return;
        }
        let ids: Vec<String> = self.same_hex_attackers(hex);
        let ghost ks = views(ids@);
        let ghost e0 = self@;
        let mut loss: bool = false;
        let mut i: usize = 0;
        while i < ids.len()
            invariant
                i <= ids@.len(),
                ks == views(ids@),
                self.became(old(self), m::attack_turns(e0, ks.take(i as int), hex, t).0),
                loss == m::attack_turns(e0, ks.take(i as int), hex, t).1,
            decreases ids@.len() - i,
        {
            proof {
                let p = ks.take(i + 1);
                assert(p.drop_last() =~= ks.take(i as int));
                assert(p.last() == ids@[i as int]@);
            }
            loss = self.attack_turn(&ids[i], hex, t, loss);
            i += 1;
        }
        proof {
            assert(ks.take(ks.len() as int) =~= ks);
        }
        let (red, blue) = self.sides_on_hex(hex);
        if !(red && blue) {
            let _ = self.same_hex.remove(&hex);
            return;
        }
        let s1: SameHexState = match self.same_hex.get(&hex) {
            Some(s) => *s,
            None => return,
        };
        let dry: u32 = if loss {
            0
        } else if s1.dry_rounds == u32::MAX {
            u32::MAX
        } else {
            s1.dry_rounds + 1
        };
        if dry >= SAME_HEX_MAX_DRY_ROUNDS {
            let _ = self.same_hex.remove(&hex);
            return;
        }
        self.same_hex.insert(hex, SameHexState { gen: s1.gen, dry_rounds: dry });
        let pause: Tick = match self.rules.timing("same_hex_engage_interval") {
            Some(n) => n,
            None => 2500,
        };
        self.schedule(later(t, pause), Event::SameHexEngage { hex, gen });
    }

    fn drawn_in(&mut self, id: &String)
        ensures
            final(self).became(old(self), m::drawn_in(old(self)@, id@)),
    {
        self.interrupt_cover(id);
        self.interrupt_mounts_on_suppress(id);
        let _ = self.radar_spinup.remove(id);
        let cooling: bool = match self.state.units.get(id) {
            Some(u) => u.weapon_state == WeaponState::Cooling,
            None => false,
        };
        if cooling {
            self.set_weapon(id, WeaponState::Deployed);
        }
    }

    /// A fight begins at `hex` if both sides are there and none is on.
    pub(crate) fn maybe_trigger_same_hex(&mut self, hex: Axial, t: Tick)
        ensures
            final(self).became(old(self), m::trigger_same_hex(old(self)@, hex, t)),
    {
        if self.same_hex.contains_key(&hex) {
            return;
        }
        let (red, blue) = self.sides_on_hex(hex);
        if !(red && blue) {
            return;
        }
        let gen: u64 = next(self.same_hex_ctr);
        self.same_hex_ctr = gen;
        self.same_hex.insert(hex, SameHexState { gen, dry_rounds: 0 });
        let ghost p = m::live_at(hex);
        let f = |k: &String, u: &RuntimeUnit| -> (b: bool)
            ensures b == p(k@, u@)
        {
            u.alive && u.pos == hex
        };
        let ids: Vec<String> = self.state.units.select(f, Ghost(p));
        let ghost ks = views(ids@);
        let ghost e0 = self@;
        let ghost g = m::drawn_in_f();
        let mut i: usize = 0;
        while i < ids.len()
            invariant
                i <= ids@.len(),
                ks == views(ids@),
                g == m::drawn_in_f(),
                self.became(old(self), m::each(e0, ks.take(i as int), g)),
            decreases ids@.len() - i,
        {
            proof {
                m::each_next(e0, ks, i as int, g);
                assert(ks[i as int] == ids@[i as int]@);
            }
            self.drawn_in(&ids[i]);
            i += 1;
        }
        proof {
            assert(ks.take(ks.len() as int) =~= ks);
        }
        self.run_same_hex_round(hex, gen, t);
    }

    fn punish_shot(&mut self, attacker: &String, leaver: &String, t: Tick)
        ensures
            final(self).became(old(self), m::punish_shot(old(self)@, attacker@, leaver@, t)),
    {
        let alive: bool = match self.state.units.get(leaver) {
            Some(u) => u.alive,
            None => false,
        };
        if alive {
            let _ = self.same_hex_shot(attacker, leaver, t);
        }
    }

    /// A unit that leaves a fight is fired at once by every enemy in it.
    pub(crate) fn same_hex_punish(&mut self, leaver: &String, hex: Axial, t: Tick)
        ensures
            final(self).became(old(self), m::punish(old(self)@, leaver@, hex, t)),
    {
        let side: SideId = match self.state.units.get(leaver) {
            Some(u) => u.side,
            None => return,
        };
        let ghost p = m::punisher(hex, side);
        let f = |k: &String, u: &RuntimeUnit| -> (b: bool)
            ensures b == p(k@, u@)
        {
            u.alive && u.pos == hex && u.is_on_board() && mechanics::is_ground(u.unit_type)
                && mechanics::can_be_targeted(u.unit_type) && u.side != side && u.state
                != UnitState::March
        };
        let ids: Vec<String> = self.state.units.select(f, Ghost(p));
        let ghost ks = views(ids@);
        let ghost e0 = self@;
        let ghost g = m::punish_shot_f(leaver@, t);
        let mut i: usize = 0;
        while i < ids.len()
            invariant
                i <= ids@.len(),
                ks == views(ids@),
                g == m::punish_shot_f(leaver@, t),
                self.became(old(self), m::each(e0, ks.take(i as int), g)),
            decreases ids@.len() - i,
        {
            proof {
                m::each_next(e0, ks, i as int, g);
                assert(ks[i as int] == ids@[i as int]@);
            }
            self.punish_shot(&ids[i], leaver, t);
            i += 1;
        }
        proof {
            assert(ks.take(ks.len() as int) =~= ks);
        }
    }
}

} // verus!
