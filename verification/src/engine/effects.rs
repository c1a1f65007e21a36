//! The effects that orders and events are made of.
use crate::engine::model as m;
use crate::engine::model::{
    AggSplitInTransit, AggSplitKind, Event, MountInTransit, MountKind, Timed, TimedV,
};
use crate::engine::Engine;
use crate::error::{res, EngineError};
use crate::hex::Axial;
use crate::mechanics;
use crate::ordmap::{keys_where, some_entry, views, OrdMap};
use crate::prob::Outcome;
use crate::rules::at;
use crate::text::{join2, quoted};
use crate::time::{later, next, whole_secs_to_ticks, Tick};
use crate::types::{opt_is, RuntimeUnit, SideId, UnitState, UnitType, UnitV, WeaponState};
use vstd::prelude::*;
use vstd::string::*;

verus! {

// ---------- places in ordered lists ----------

proof fn enqueue_at(q: Seq<TimedV>, x: TimedV, i: int)
    requires
        0 <= i <= q.len(),
        i == 0 || !m::sooner(x, q[i - 1]),
        forall|j: int| i <= j < q.len() ==> m::sooner(x, #[trigger] q[j]),
    ensures
        m::enqueue(q, x) == q.insert(i, x),
    decreases q.len(),
{
    if i == q.len() {
        assert(q.insert(i, x) =~= q.push(x));
    } else {
        assert(m::sooner(x, q.last()));
        enqueue_at(q.drop_last(), x, i);
        assert(q.drop_last().insert(i, x).push(q.last()) =~= q.insert(i, x));
    }
}

pub(crate) proof fn entry_place_at(order: Map<m::Id, u64>, ids: Seq<m::Id>, id: m::Id, i: int)
    requires
        0 <= i <= ids.len(),
        i == 0 || !m::entered_before(order, id, ids[i - 1]),
        forall|j: int| i <= j < ids.len() ==> m::entered_before(order, id, #[trigger] ids[j]),
    ensures
        m::place_by_entry(order, ids, id) == ids.insert(i, id),
    decreases ids.len(),
{
    if i == ids.len() {
        assert(ids.insert(i, id) =~= ids.push(id));
    } else {
        assert(m::entered_before(order, id, ids.last()));
        entry_place_at(order, ids.drop_last(), id, i);
        assert(ids.drop_last().insert(i, id).push(ids.last()) =~= ids.insert(i, id));
    }
}

/// Gives out the next number under an id.
pub(crate) fn bump(map: &mut OrdMap<String, u64>, id: &String) -> (r: u64)
    ensures
        final(map)@ == m::bumped(old(map)@, id@),
        r == m::fresh(old(map)@, id@),
{
    let n: u64 = match map.get(id) {
        Some(n) => next(*n),
        None => next(0),
    };
    map.insert(id.clone(), n);
    n
}

/// The number under an id; 0 where there is none.
pub(crate) fn number(map: &OrdMap<String, u64>, id: &String) -> (r: u64)
    ensures
        r == m::number_of(map@, id@),
{
    match map.get(id) {
        Some(n) => *n,
        None => 0,
    }
}

impl Engine {
    // ---------- small changes ----------

    pub(crate) fn set_busy(&mut self, id: &String, t: Tick)
        ensures
            final(self).became(old(self), m::set_busy(old(self)@, id@, t)),
    {
        match self.state.units.get_mut(id) {
            Some(u) => {
                u.busy_until = t;
            },
            None => {},
        }
    }

    pub(crate) fn set_weapon(&mut self, id: &String, w: WeaponState)
        ensures
            final(self).became(old(self), m::set_weapon(old(self)@, id@, w)),
    {
        match self.state.units.get_mut(id) {
            Some(u) => {
                u.weapon_state = w;
            },
            None => {},
        }
    }

    pub(crate) fn set_dead(&mut self, id: &String)
        ensures
            final(self).became(old(self), m::set_dead(old(self)@, id@)),
    {
        match self.state.units.get_mut(id) {
            Some(u) => {
                u.alive = false;
                u.teams = 0;
            },
            None => {},
        }
    }

    pub(crate) fn schedule(&mut self, t: Tick, event: Event)
        ensures
            final(self).became(old(self), m::schedule(old(self)@, t, event@)),
    {
        let n: u64 = next(self.seq);
        self.seq = n;
        let x: Timed = Timed { t, seq: n, event };
        let ghost q = views(self.queue@);
        let ghost was = self.queue@;
        let mut i: usize = self.queue.len();
        while i > 0 && (t < self.queue[i - 1].t || (t == self.queue[i - 1].t && n < self.queue[i
            - 1].seq))
            invariant
                i <= self.queue@.len(),
                q == views(self.queue@),
                x.t == t,
                x.seq == n,
                forall|j: int| i <= j < q.len() ==> m::sooner(x@, #[trigger] q[j]),
            decreases i,
        {
            i -= 1;
            assert(q[i as int] == self.queue@[i as int]@);
        }
        proof {
            if i > 0 {
                assert(q[i - 1] == self.queue@[i - 1]@);
            }
            enqueue_at(q, x@, i as int);
        }
        self.queue.insert(i, x);
        proof {
            assert(views(self.queue@) =~= q.insert(i as int, x@));
        }
    }

    pub(crate) fn stamp_entry(&mut self, id: &String)
        ensures
            final(self).became(old(self), m::stamp_entry(old(self)@, id@)),
    {
        self.entry_seq = next(self.entry_seq);
        self.same_hex_order.insert(id.clone(), self.entry_seq);
    }

    /// A duration that the rules must hold.
    pub(crate) fn require_timing(&self, key: &str) -> (r: Result<Tick, EngineError>)
        ensures
            res(r) == m::need(self@, key@),
    {
        match self.rules.timing(key) {
            Some(t) => Ok(t),
            None => Err(
                EngineError::Rules(join2("missing rule timing ", quoted(key).as_str())),
            ),
        }
    }

    // ---------- interruptions ----------

    fn abort_agg(&mut self, init: &String)
        ensures
            final(self).became(old(self), m::abort_agg(old(self)@, init@)),
    {
        match self.aggsplit_op.remove(init) {
            None => {
                proof {
                    assert(old(self)@.aggsplit_op.remove(init@) =~= old(self)@.aggsplit_op);
                }
            },
            Some(op) => {
                let _ = bump(&mut self.aggsplit_gen, init);
                self.set_busy(init, 0);
                match op.kind {
                    AggSplitKind::Aggregate { other } => {
                        self.set_busy(&other, 0);
                    },
                    AggSplitKind::Split => {},
                }
            },
        }
    }

    /// Every merge or split that `id` takes part in is off, and its units are free.
    pub(crate) fn interrupt_aggsplit(&mut self, id: &String)
        ensures
            final(self).became(old(self), m::interrupt_aggsplit(old(self)@, id@)),
    {
        let ghost p = m::agg_involves(id@);
        let f = |k: &String, op: &AggSplitInTransit| -> (b: bool)
            ensures b == p(k@, op@)
        {
            *k == *id || match &op.kind {
                AggSplitKind::Aggregate { other } => *other == *id,
                AggSplitKind::Split => false,
            }
        };
        let ids: Vec<String> = self.aggsplit_op.select(f, Ghost(p));
        let ghost ks = views(ids@);
        let ghost e0 = self@;
        let ghost g = m::abort_agg_f();
        let mut i: usize = 0;
        while i < ids.len()
            invariant
                i <= ids@.len(),
                ks == views(ids@),
                g == m::abort_agg_f(),
                self.became(old(self), m::each(e0, ks.take(i as int), g)),
            decreases ids@.len() - i,
        {
            proof {
                m::each_next(e0, ks, i as int, g);
                assert(ks[i as int] == ids@[i as int]@);
            }
            self.abort_agg(&ids[i]);
            i += 1;
        }
        proof {
            assert(ks.take(ks.len() as int) =~= ks);
        }
    }

    /// A change into cover that `id` is making is off.
    pub(crate) fn interrupt_cover(&mut self, id: &String)
        ensures
            final(self).became(old(self), m::interrupt_cover(old(self)@, id@)),
    {
        if self.cover_transition.contains_key(id) {
            let _ = self.cover_transition.remove(id);
            self.set_busy(id, 0);
        }
    }

    fn abort_mount(&mut self, p: &String)
        ensures
            final(self).became(old(self), m::abort_mount(old(self)@, p@)),
    {
        match self.mount_op.remove(p) {
            None => {
                proof {
                    assert(old(self)@.mount_op.remove(p@) =~= old(self)@.mount_op);
                }
            },
            Some(op) => {
                self.set_busy(p, 0);
                self.set_busy(&op.vehicle, 0);
            },
        }
    }

    fn abort_minelay(&mut self, id: &String)
        ensures
            final(self).became(old(self), m::abort_minelay(old(self)@, id@)),
    {
        if self.minelay_in_flight.contains_key(id) {
            let _ = self.minelay_in_flight.remove(id);
            let _ = bump(&mut self.minelayer_gen, id);
            self.set_busy(id, 0);
        }
    }

    /// What the suppression of `id` interrupts of boarding, mine laying, merging and splitting.
    pub(crate) fn interrupt_mounts_on_suppress(&mut self, id: &String)
        ensures
            final(self).became(old(self), m::interrupt_mounts(old(self)@, id@)),
    {
        let ghost p = m::mount_involves(id@);
        let f = |k: &String, op: &MountInTransit| -> (b: bool)
            ensures b == p(k@, op@)
        {
            op.vehicle == *id || (op.kind == MountKind::Mount && *k == *id)
        };
        let ids: Vec<String> = self.mount_op.select(f, Ghost(p));
        let ghost ks = views(ids@);
        let ghost e0 = self@;
        let ghost g = m::abort_mount_f();
        let mut i: usize = 0;
        while i < ids.len()
            invariant
                i <= ids@.len(),
                ks == views(ids@),
                g == m::abort_mount_f(),
                self.became(old(self), m::each(e0, ks.take(i as int), g)),
            decreases ids@.len() - i,
        {
            proof {
                m::each_next(e0, ks, i as int, g);
                assert(ks[i as int] == ids@[i as int]@);
            }
            self.abort_mount(&ids[i]);
            i += 1;
        }
        proof {
            assert(ks.take(ks.len() as int) =~= ks);
        }
        self.abort_minelay(id);
        self.interrupt_aggsplit(id);
    }

    // ---------- fatigue and halting ----------

    /// A tired unit at rest loses its next point of fatigue after the interval of the rules.
    pub(crate) fn arm_fatigue_decay(&mut self, id: &String)
        ensures
            final(self).became(old(self), m::arm_fatigue_decay(old(self)@, id@)),
    {
        let tired: bool = match self.state.units.get(id) {
            Some(u) => u.fatigue > 0,
            None => false,
        };
        if !tired {
            return;
        }
        let gen: u64 = bump(&mut self.fatigue_gen, id);
        let secs: i64 = mechanics::infantry_fatigue_decay_seconds(&self.rules);
        let at: Tick = later(self.state.clock, whole_secs_to_ticks(secs));
        self.schedule(at, Event::FatigueDecay { unit: id.clone(), gen });
    }

    /// The unit halts where it is and rests. A marching unit stays on the march.
    pub(crate) fn settle_stopped(&mut self, id: &String)
        ensures
            final(self).became(old(self), m::settle_stopped(old(self)@, id@)),
    {
        match self.state.units.get_mut(id) {
            Some(u) => {
                if u.state != UnitState::March {
                    u.state = UnitState::Stopped;
                }
                u.busy_until = 0;
            },
            None => {},
        }
        self.arm_fatigue_decay(id);
    }

    /// Whether a unit is suppressed at `t`, by its timer or its posture.
    pub(crate) fn is_suppressed(&self, id: &String, t: Tick) -> (r: bool)
        ensures
            r == m::suppressed(self@.units, id@, t),
    {
        match self.state.units.get(id) {
            Some(u) => u.suppressed_until > t || u.state == UnitState::Suppressed,
            None => false,
        }
    }

    // ---------- fights within a hex ----------

    fn side_fights_at(&self, hex: Axial, side: SideId) -> (r: bool)
        ensures
            r == some_entry(self@.units, m::side_fights_at(hex, side)),
    {
        let ghost p = m::side_fights_at(hex, side);
        let f = |k: &String, u: &RuntimeUnit| -> (b: bool)
            ensures b == p(k@, u@)
        {
            u.alive && u.pos == hex && u.is_on_board() && mechanics::is_ground(u.unit_type)
                && mechanics::can_be_targeted(u.unit_type) && u.side == side
        };
        self.state.units.any(f, Ghost(p))
    }

    /// Which sides have a unit that fights at `hex`: red, blue.
    pub(crate) fn sides_on_hex(&self, hex: Axial) -> (r: (bool, bool))
        ensures
            (r.0 && r.1) == m::contested(self@.units, hex),
            r.0 == some_entry(self@.units, m::side_fights_at(hex, SideId::Red)),
            r.1 == some_entry(self@.units, m::side_fights_at(hex, SideId::Blue)),
    {
        (self.side_fights_at(hex, SideId::Red), self.side_fights_at(hex, SideId::Blue))
    }

    /// A fight at `hex` ends when one side has no unit left there.
    pub(crate) fn end_same_hex_if_resolved(&mut self, hex: Axial)
        ensures
            final(self).became(old(self), m::end_same_hex(old(self)@, hex)),
    {
        if self.same_hex.contains_key(&hex) {
            let (red, blue) = self.sides_on_hex(hex);
            if !(red && blue) {
                let _ = self.same_hex.remove(&hex);
            }
        }
    }

    // ---------- death ----------

    fn drop_mount(&mut self, p: &String)
        ensures
            final(self).became(old(self), m::drop_mount(old(self)@, p@)),
    {
        let _ = self.mount_op.remove(p);
        self.set_busy(p, 0);
    }

    fn lose(&mut self, id: &String)
        ensures
            final(self).became(old(self), m::lose(old(self)@, id@)),
    {
        self.set_dead(id);
        self.set_busy(id, 0);
    }

    /// The munition is gone.
    pub(crate) fn expend(&mut self, id: &String)
        ensures
            final(self).became(old(self), m::expend(old(self)@, id@)),
    {
        let _ = self.loitering_parent.remove(id);
        let _ = self.loitering_target.remove(id);
        self.set_dead(id);
    }

    fn lose_affiliate(&mut self, id: &String)
        ensures
            final(self).became(old(self), m::lose_affiliate(old(self)@, id@)),
    {
        let pos: Axial = match self.state.units.get(id) {
            Some(u) => u.pos,
            None => return,
        };
        self.lose(id);
        self.end_same_hex_if_resolved(pos);
    }

    /// What dies with a vehicle.
    pub(crate) fn handle_carrier_death(&mut self, vehicle: &String)
        ensures
            final(self).became(old(self), m::carrier_death(old(self)@, vehicle@)),
    {
        let ghost p = m::mounts_on(vehicle@);
        let f = |k: &String, op: &MountInTransit| -> (b: bool)
            ensures b == p(k@, op@)
        {
            op.vehicle == *vehicle
        };
        let ids: Vec<String> = self.mount_op.select(f, Ghost(p));
        let ghost ks = views(ids@);
        let ghost e0 = self@;
        let ghost g = m::drop_mount_f();
        let mut i: usize = 0;
        while i < ids.len()
            invariant
                i <= ids@.len(),
                ks == views(ids@),
                g == m::drop_mount_f(),
                self.became(old(self), m::each(e0, ks.take(i as int), g)),
            decreases ids@.len() - i,
        {
            proof {
                m::each_next(e0, ks, i as int, g);
                assert(ks[i as int] == ids@[i as int]@);
            }
            self.drop_mount(&ids[i]);
            i += 1;
        }
        proof {
            assert(ks.take(ks.len() as int) =~= ks);
        }
        self.lose_riders(vehicle);
        self.lose_munitions(vehicle);
        self.lose_affiliates(vehicle);
    }

    fn lose_riders(&mut self, vehicle: &String)
        ensures
            final(self).became(
                old(self),
                m::each(
                    old(self)@,
                    keys_where::<String, UnitV>(old(self)@.units, m::aboard(vehicle@)),
                    m::lose_f(),
                ),
            ),
    {
        let ghost p = m::aboard(vehicle@);
        let f = |k: &String, u: &RuntimeUnit| -> (b: bool)
            ensures b == p(k@, u@)
        {
            opt_is(&u.carried_by, vehicle.as_str()) && u.alive
        };
        let ids: Vec<String> = self.state.units.select(f, Ghost(p));
        let ghost ks = views(ids@);
        let ghost e0 = self@;
        let ghost g = m::lose_f();
        let mut i: usize = 0;
        while i < ids.len()
            invariant
                i <= ids@.len(),
                ks == views(ids@),
                g == m::lose_f(),
                self.became(old(self), m::each(e0, ks.take(i as int), g)),
            decreases ids@.len() - i,
        {
            proof {
                m::each_next(e0, ks, i as int, g);
                assert(ks[i as int] == ids@[i as int]@);
            }
            self.lose(&ids[i]);
            i += 1;
        }
        proof {
            assert(ks.take(ks.len() as int) =~= ks);
        }
    }

    fn lose_munitions(&mut self, vehicle: &String)
        ensures
            final(self).became(
                old(self),
                m::each(
                    old(self)@,
                    keys_where::<String, m::Id>(
                        old(self)@.loitering_parent,
                        m::launched_from(vehicle@),
                    ),
                    m::expend_f(),
                ),
            ),
    {
        let ghost p = m::launched_from(vehicle@);
        let f = |k: &String, v: &String| -> (b: bool)
            ensures b == p(k@, v@)
        {
            *v == *vehicle
        };
        let ids: Vec<String> = self.loitering_parent.select(f, Ghost(p));
        let ghost ks = views(ids@);
        let ghost e0 = self@;
        let ghost g = m::expend_f();
        let mut i: usize = 0;
        while i < ids.len()
            invariant
                i <= ids@.len(),
                ks == views(ids@),
                g == m::expend_f(),
                self.became(old(self), m::each(e0, ks.take(i as int), g)),
            decreases ids@.len() - i,
        {
            proof {
                m::each_next(e0, ks, i as int, g);
                assert(ks[i as int] == ids@[i as int]@);
            }
            self.expend(&ids[i]);
            i += 1;
        }
        proof {
            assert(ks.take(ks.len() as int) =~= ks);
        }
    }

    fn lose_affiliates(&mut self, vehicle: &String)
        ensures
            final(self).became(
                old(self),
                m::each(
                    old(self)@,
                    keys_where::<String, UnitV>(old(self)@.units, m::affiliate_of(vehicle@)),
                    m::lose_affiliate_f(),
                ),
            ),
    {
        let ghost p = m::affiliate_of(vehicle@);
        let f = |k: &String, u: &RuntimeUnit| -> (b: bool)
            ensures b == p(k@, u@)
        {
            u.alive && u.unit_type == UnitType::Ugv && opt_is(&u.affiliated_to, vehicle.as_str())
        };
        let ids: Vec<String> = self.state.units.select(f, Ghost(p));
        let ghost ks = views(ids@);
        let ghost e0 = self@;
        let ghost g = m::lose_affiliate_f();
        let mut i: usize = 0;
        while i < ids.len()
            invariant
                i <= ids@.len(),
                ks == views(ids@),
                g == m::lose_affiliate_f(),
                self.became(old(self), m::each(e0, ks.take(i as int), g)),
            decreases ids@.len() - i,
        {
            proof {
                m::each_next(e0, ks, i as int, g);
                assert(ks[i as int] == ids@[i as int]@);
            }
            self.lose_affiliate(&ids[i]);
            i += 1;
        }
        proof {
            assert(ks.take(ks.len() as int) =~= ks);
        }
    }

    // ---------- the effect of fire ----------

    fn suppress(&mut self, id: &String, until: Tick)
        ensures
            final(self).became(old(self), m::suppress(old(self)@, id@, until)),
    {
        self.interrupt_cover(id);
        self.interrupt_mounts_on_suppress(id);
        if self.radar_spinup.contains_key(id) {
            let _ = self.radar_spinup.remove(id);
            self.set_busy(id, 0);
        }
        match self.state.units.get_mut(id) {
            Some(u) => {
                u.suppressed_until = until;
                if u.state != UnitState::Cover {
                    u.state = UnitState::Suppressed;
                }
            },
            None => {},
        }
        self.schedule(until, Event::SuppressEnd { unit: id.clone() });
    }

    fn hit(&mut self, id: &String, outcome: Outcome, t: Tick, ticks: Tick)
        ensures
            final(self).became(old(self), m::hit(old(self)@, id@, outcome, t, ticks)),
    {
        let teams: u8 = match self.state.units.get(id) {
            Some(u) => u.teams,
            None => return,
        };
        let left: u8 = match outcome {
            Outcome::Destroyed(n) => if teams > n {
                teams - n
            } else {
                0
            },
            Outcome::Kill => 0,
            _ => teams,
        };
        let dead: bool = match outcome {
            Outcome::Destroyed(_) => left == 0,
            Outcome::Kill => true,
            _ => false,
        };
        if dead {
            self.set_dead(id);
            self.handle_carrier_death(id);
            match self.state.units.get(id) {
                Some(u) => {
                    let pos: Axial = u.pos;
                    self.end_same_hex_if_resolved(pos);
                },
                None => {},
            }
            return;
        }
        match outcome {
            Outcome::NoEffect => {},
            _ => {
                match self.state.units.get_mut(id) {
                    Some(u) => {
                        u.teams = left;
                    },
                    None => {},
                }
                self.suppress(id, later(t, ticks));
            },
        }
    }

    /// The unit takes an outcome, and with a transport helicopter those aboard.
    pub(crate) fn hit_whole(&mut self, id: &String, outcome: Outcome, t: Tick, ticks: Tick)
        ensures
            final(self).became(old(self), m::hit_whole(old(self)@, id@, outcome, t, ticks)),
    {
        let shared: bool = match self.state.units.get(id) {
            Some(u) => {
                let dead: bool = match outcome {
                    Outcome::Destroyed(n) => u.teams <= n,
                    Outcome::Kill => true,
                    _ => false,
                };
                u.unit_type == UnitType::TransportHeli && !dead
            },
            None => false,
        };
        self.hit(id, outcome, t, ticks);
        let passes: bool = match outcome {
            Outcome::Destroyed(_) | Outcome::Suppress => true,
            _ => false,
        };
        if !passes || !shared {
            return;
        }
        let ghost p = m::cargo_of(id@);
        let f = |k: &String, u: &RuntimeUnit| -> (b: bool)
            ensures b == p(k@, u@)
        {
            u.alive && opt_is(&u.carried_by, id.as_str()) && mechanics::is_personnel(u.unit_type)
        };
        let ids: Vec<String> = self.state.units.select(f, Ghost(p));
        let ghost ks = views(ids@);
        let ghost e0 = self@;
        let ghost g = m::hit_f(outcome, t, ticks);
        let mut i: usize = 0;
        while i < ids.len()
            invariant
                i <= ids@.len(),
                ks == views(ids@),
                g == m::hit_f(outcome, t, ticks),
                self.became(old(self), m::each(e0, ks.take(i as int), g)),
            decreases ids@.len() - i,
        {
            proof {
                m::each_next(e0, ks, i as int, g);
                assert(ks[i as int] == ids@[i as int]@);
            }
            self.hit(&ids[i], outcome, t, ticks);
            i += 1;
        }
        proof {
            assert(ks.take(ks.len() as int) =~= ks);
        }
    }

    /// Applies an outcome to a unit.
    pub fn apply_direct_fire(&mut self, id: &String, outcome: Outcome, t: Tick) -> (r: Result<
        (),
        EngineError,
    >)
        ensures
            ({
                let d = m::apply_fire(old(self)@, id@, outcome, t);
                final(self).became(old(self), d.0) && res(r) == d.1
            }),
    {
        match self.require_timing("suppress_duration") {
            Ok(ticks) => {
                self.hit_whole(id, outcome, t, ticks);
                Ok(())
            },
            Err(x) => Err(x),
        }
    }
}

} // verus!
