//! What the engine does, over mathematical state.
//!
//! [`EngineV`] is everything that a match depends on. Each function here says what one operation
//! makes of it.
use crate::combat::{
    loadout_of, moving, noted, pick_target, salvo, salvo_effect, same_hex_fire, terrain_class,
    GunClass, IndirectBase, IndirectMods, IndirectSpotting, RecV, Scatter, TargetTerrain,
};
use crate::error::{EngineError, ErrV};
use crate::hex::{direction, steps, Axial};
use crate::mechanics::{
    fatigue_interval, fort_engages, fort_named, ground, in_sight, observes, personnel, targetable,
    vehicle, FortKind,
};
use crate::ordmap::{keys_where, some_entry};
use crate::prob::Outcome;
use crate::rng::PcgRng;
use crate::rules::{at, timing_of, Rules, Tables};
use crate::text::{debug_quoted, text_lt};
use crate::time::{next_of, seconds_in_ticks, tick_sum, Tick};
use crate::types::{
    on_board, Armor, FacilityV, GameMap, HeliAlt, RuntimeMinefield, RuntimeUnit, Scenario, SideId,
    UnitState, UnitType, UnitV, WeaponState,
};
use vstd::prelude::*;

verus! {

// ---------- what the engine keeps ----------

/// What happens at a tick. Ids are texts of type `S`.
#[derive(Debug, Clone)]
#[allow(inconsistent_fields)]
pub enum Event<S = String> {
    /// A change of posture is complete. A change to cover carries its number; if that is no longer
    /// the unit's, the change was interrupted.
    TransitionComplete { unit: S, to: UnitState, cover_gen: Option<u64> },
    WeaponReady { unit: S },
    SuppressEnd { unit: S },
    /// A moving unit reaches `to` on its way to `target`, if its order still stands.
    MoveArrive { unit: S, gen: u64, to: Axial, target: Axial },
    /// A passenger has boarded or left its vehicle, if nothing interrupted it.
    MountComplete { passenger: S, gen: u64 },
    /// A salvo's flight ends.
    IndirectFly { plan: u64 },
    /// A salvo's detonation ends.
    IndirectBoomEnd { plan: u64 },
    LoiteringLaunched { munition: S },
    LoiteringSelfDestruct { munition: S },
    /// A radar has spun up, if nothing interrupted it.
    RadarReady { vehicle: S, gen: u64 },
    HeliAltReady { heli: S, to: HeliAlt },
    /// A round of the fight within a hex, if it is still the same fight.
    SameHexEngage { hex: Axial, gen: u64 },
    FacilityEnterReady { unit: S, facility: S, gen: u64 },
    FacilityExitReady { unit: S, gen: u64 },
    MineLayReady { unit: S, at: Axial, gen: u64 },
    /// A rested unit loses a point of fatigue, if it has rested all the while.
    FatigueDecay { unit: S, gen: u64 },
    AggSplitComplete { unit: S, gen: u64 },
    CaptureCheck,
}

/// An event in contracts.
pub type EventV = Event<Seq<char>>;

impl View for Event {
    type V = EventV;

    open spec fn view(&self) -> EventV {
        match self {
            Event::TransitionComplete { unit, to, cover_gen } => Event::TransitionComplete {
                unit: unit@,
                to: *to,
                cover_gen: *cover_gen,
            },
            Event::WeaponReady { unit } => Event::WeaponReady { unit: unit@ },
            Event::SuppressEnd { unit } => Event::SuppressEnd { unit: unit@ },
            Event::MoveArrive { unit, gen, to, target } => Event::MoveArrive {
                unit: unit@,
                gen: *gen,
                to: *to,
                target: *target,
            },
            Event::MountComplete { passenger, gen } => Event::MountComplete {
                passenger: passenger@,
                gen: *gen,
            },
            Event::IndirectFly { plan } => Event::IndirectFly { plan: *plan },
            Event::IndirectBoomEnd { plan } => Event::IndirectBoomEnd { plan: *plan },
            Event::LoiteringLaunched { munition } => Event::LoiteringLaunched {
                munition: munition@,
            },
            Event::LoiteringSelfDestruct { munition } => Event::LoiteringSelfDestruct {
                munition: munition@,
            },
            Event::RadarReady { vehicle, gen } => Event::RadarReady { vehicle: vehicle@, gen: *gen },
            Event::HeliAltReady { heli, to } => Event::HeliAltReady { heli: heli@, to: *to },
            Event::SameHexEngage { hex, gen } => Event::SameHexEngage { hex: *hex, gen: *gen },
            Event::FacilityEnterReady { unit, facility, gen } => Event::FacilityEnterReady {
                unit: unit@,
                facility: facility@,
                gen: *gen,
            },
            Event::FacilityExitReady { unit, gen } => Event::FacilityExitReady {
                unit: unit@,
                gen: *gen,
            },
            Event::MineLayReady { unit, at, gen } => Event::MineLayReady {
                unit: unit@,
                at: *at,
                gen: *gen,
            },
            Event::FatigueDecay { unit, gen } => Event::FatigueDecay { unit: unit@, gen: *gen },
            Event::AggSplitComplete { unit, gen } => Event::AggSplitComplete {
                unit: unit@,
                gen: *gen,
            },
            Event::CaptureCheck => Event::CaptureCheck,
        }
    }
}

/// An event with its tick and its place among the events of that tick.
#[derive(Debug, Clone)]
pub struct Timed<S = String> {
    pub t: Tick,
    pub seq: u64,
    pub event: Event<S>,
}

/// A timed event in contracts.
pub type TimedV = Timed<Seq<char>>;

impl View for Timed {
    type V = TimedV;

    open spec fn view(&self) -> TimedV {
        Timed { t: self.t, seq: self.seq, event: self.event@ }
    }
}

/// A fight within a hex: its number, and how many rounds it has gone without a loss.
#[derive(Debug, Clone, Copy, PartialEq, Eq, Structural)]
pub struct SameHexState {
    pub gen: u64,
    pub dry_rounds: u32,
}

impl View for SameHexState {
    type V = SameHexState;

    open spec fn view(&self) -> SameHexState {
        *self
    }
}

/// After so many rounds without a loss a fight within a hex ends.
pub const SAME_HEX_MAX_DRY_ROUNDS: u32 = 16;

/// A salvo in flight, or detonating over `impact`.
#[derive(Debug, Clone)]
pub struct IndirectPlan<S = String> {
    pub artillery: S,
    pub plan_hex: Axial,
    pub impact: Option<Axial>,
    pub base: IndirectBase,
    pub gun_count: u8,
}

/// A salvo in contracts.
pub type PlanV = IndirectPlan<Seq<char>>;

impl View for IndirectPlan {
    type V = PlanV;

    open spec fn view(&self) -> PlanV {
        IndirectPlan {
            artillery: self.artillery@,
            plan_hex: self.plan_hex,
            impact: self.impact,
            base: self.base,
            gun_count: self.gun_count,
        }
    }
}

#[derive(Debug, Clone, Copy, PartialEq, Eq, Structural)]
pub enum MountKind {
    Mount,
    Dismount,
}

/// A passenger on its way in or out of a vehicle.
#[derive(Debug, Clone)]
pub struct MountInTransit<S = String> {
    pub gen: u64,
    pub vehicle: S,
    pub kind: MountKind,
}

/// A passenger on its way, in contracts.
pub type MountV = MountInTransit<Seq<char>>;

impl View for MountInTransit {
    type V = MountV;

    open spec fn view(&self) -> MountV {
        MountInTransit { gen: self.gen, vehicle: self.vehicle@, kind: self.kind }
    }
}

#[derive(Debug, Clone)]
pub enum AggSplitKind<S = String> {
    /// The other unit is merged into the initiator.
    Aggregate { other: S },
    /// The initiator is split.
    Split,
}

/// A merge or split in progress.
#[derive(Debug, Clone)]
pub struct AggSplitInTransit<S = String> {
    pub gen: u64,
    pub kind: AggSplitKind<S>,
}

/// A merge or split in contracts.
pub type AggSplitV = AggSplitInTransit<Seq<char>>;

/// The kind of a merge or split in contracts.
pub open spec fn agg_kind(k: AggSplitKind) -> AggSplitKind<Seq<char>> {
    match k {
        AggSplitKind::Aggregate { other } => AggSplitKind::Aggregate { other: other@ },
        AggSplitKind::Split => AggSplitKind::Split,
    }
}

impl View for AggSplitInTransit {
    type V = AggSplitV;

    open spec fn view(&self) -> AggSplitV {
        AggSplitInTransit { gen: self.gen, kind: agg_kind(self.kind) }
    }
}

/// A text id.
pub type Id = Seq<char>;

/// All that a match depends on.
pub struct EngineV {
    pub map: GameMap,
    pub scenario: Scenario,
    pub rules: Rules,
    pub tables: Tables,
    pub stacking_cap: i64,
    pub clock: Tick,
    pub units: Map<Id, UnitV>,
    pub control: Map<Id, Option<SideId>>,
    pub facilities: Map<Id, FacilityV>,
    pub minefields: Map<Axial, RuntimeMinefield>,
    /// The state of the generator.
    pub rng: u128,
    /// Every direct-fire adjudication so far.
    pub shots: Seq<RecV>,
    /// The events to come, by tick and then by number.
    pub queue: Seq<TimedV>,
    pub seq: u64,
    /// The number of each unit's latest movement order.
    pub move_gen: Map<Id, u64>,
    /// The units on their way into cover.
    pub cover_transition: Map<Id, u64>,
    pub cover_gen_ctr: u64,
    pub mount_op: Map<Id, MountV>,
    pub mount_gen_ctr: u64,
    pub facility_gen: Map<Id, u64>,
    pub minelayer_gen: Map<Id, u64>,
    /// How many minefields each minelayer has laid.
    pub minelayer_lays: Map<Id, u32>,
    pub minelay_in_flight: Map<Id, ()>,
    pub fatigue_gen: Map<Id, u64>,
    pub aggsplit_op: Map<Id, AggSplitV>,
    pub aggsplit_gen: Map<Id, u64>,
    /// How many units have been split off.
    pub spawn_ctr: u64,
    pub indirect_plans: Map<u64, PlanV>,
    /// The earliest tick at which each artillery unit may plan again.
    pub indirect_cd: Map<Id, Tick>,
    pub indirect_plan_ctr: u64,
    /// The vehicle that each munition in the air was launched from.
    pub loitering_parent: Map<Id, Id>,
    pub loitering_target: Map<Id, Axial>,
    pub radar_on: Map<Id, ()>,
    pub radar_spinup: Map<Id, u64>,
    pub radar_gen_ctr: u64,
    pub same_hex: Map<Axial, SameHexState>,
    pub same_hex_ctr: u64,
    /// When each unit entered its hex, as a running number.
    pub same_hex_order: Map<Id, u64>,
    pub entry_seq: u64,
    pub aa_shots: Map<Id, u32>,
}

/// The outcome of an order: the state after it and what the caller is told.
pub type Done = (EngineV, Result<(), ErrV>);

/// A refused order: nothing changes.
pub open spec fn refused(e: EngineV, why: Seq<char>) -> Done {
    (e, Err(EngineError::Command(why)))
}

/// Applies `f` to each id in turn.
pub open spec fn each(e: EngineV, ids: Seq<Id>, f: spec_fn(EngineV, Id) -> EngineV) -> EngineV
    decreases ids.len(),
{
    if ids.len() == 0 {
        e
    } else {
        f(each(e, ids.drop_last(), f), ids.last())
    }
}

/// Applying `f` to one id more.
pub proof fn each_next(e: EngineV, ids: Seq<Id>, i: int, f: spec_fn(EngineV, Id) -> EngineV)
    requires
        0 <= i < ids.len(),
    ensures
        each(e, ids.take(i + 1), f) == f(each(e, ids.take(i), f), ids[i]),
{
    assert(ids.take(i + 1).drop_last() =~= ids.take(i));
}

// ---------- small changes ----------

pub open spec fn put_unit(e: EngineV, id: Id, u: UnitV) -> EngineV {
    EngineV { units: e.units.insert(id, u), ..e }
}

/// The unit is busy until `t`, where there is such a unit.
pub open spec fn set_busy(e: EngineV, id: Id, t: Tick) -> EngineV {
    match at(e.units, id) {
        Some(u) => put_unit(e, id, RuntimeUnit { busy_until: t, ..u }),
        None => e,
    }
}

/// The unit's weapon is in state `w`, where there is such a unit.
pub open spec fn set_weapon(e: EngineV, id: Id, w: WeaponState) -> EngineV {
    match at(e.units, id) {
        Some(u) => put_unit(e, id, RuntimeUnit { weapon_state: w, ..u }),
        None => e,
    }
}

/// The unit is dead and has no teams, where there is such a unit.
pub open spec fn set_dead(e: EngineV, id: Id) -> EngineV {
    match at(e.units, id) {
        Some(u) => put_unit(e, id, RuntimeUnit { alive: false, teams: 0, ..u }),
        None => e,
    }
}

/// Whether a timed event comes before another.
pub open spec fn sooner(a: TimedV, b: TimedV) -> bool {
    a.t < b.t || (a.t == b.t && a.seq < b.seq)
}

/// A queue with one event more, in its place.
pub open spec fn enqueue(q: Seq<TimedV>, x: TimedV) -> Seq<TimedV>
    decreases q.len(),
{
    if q.len() == 0 || !sooner(x, q.last()) {
        q.push(x)
    } else {
        enqueue(q.drop_last(), x).push(q.last())
    }
}

/// An event is due at `t`, after those already due then.
pub open spec fn schedule(e: EngineV, t: Tick, event: EventV) -> EngineV {
    let n = next_of(e.seq);
    EngineV { seq: n, queue: enqueue(e.queue, Timed { t, seq: n, event }), ..e }
}

/// The number under an id; 0 where there is none.
pub open spec fn number_of(m: Map<Id, u64>, id: Id) -> u64 {
    match at(m, id) {
        Some(n) => n,
        None => 0,
    }
}

/// The number that the next use under an id gets.
pub open spec fn fresh(m: Map<Id, u64>, id: Id) -> u64 {
    next_of(number_of(m, id))
}

/// The numbers after one more use under an id.
pub open spec fn bumped(m: Map<Id, u64>, id: Id) -> Map<Id, u64> {
    m.insert(id, fresh(m, id))
}

/// The unit takes the last place in the order of entry.
pub open spec fn stamp_entry(e: EngineV, id: Id) -> EngineV {
    let n = next_of(e.entry_seq);
    EngineV { entry_seq: n, same_hex_order: e.same_hex_order.insert(id, n), ..e }
}

/// A duration that the rules must hold.
pub open spec fn need(e: EngineV, key: Seq<char>) -> Result<Tick, ErrV> {
    match timing_of(e.rules, key) {
        Some(t) => Ok(t),
        None => Err(EngineError::Rules("missing rule timing "@ + debug_quoted(key))),
    }
}

// ---------- interruptions ----------

/// A merge or split that `id` takes part in.
pub open spec fn agg_involves(id: Id) -> spec_fn(Id, AggSplitV) -> bool {
    |k: Id, op: AggSplitV| k == id || op.kind == AggSplitKind::Aggregate { other: id }
}

/// The merge or split that `init` began is off, and its units are free.
pub open spec fn abort_agg(e: EngineV, init: Id) -> EngineV {
    match at(e.aggsplit_op, init) {
        None => e,
        Some(op) => {
            let e1 = EngineV {
                aggsplit_op: e.aggsplit_op.remove(init),
                aggsplit_gen: bumped(e.aggsplit_gen, init),
                ..e
            };
            let e2 = set_busy(e1, init, 0);
            match op.kind {
                AggSplitKind::Aggregate { other } => set_busy(e2, other, 0),
                AggSplitKind::Split => e2,
            }
        },
    }
}

pub open spec fn abort_agg_f() -> spec_fn(EngineV, Id) -> EngineV {
    |e: EngineV, id: Id| abort_agg(e, id)
}

/// Every merge or split that `id` takes part in is off.
pub open spec fn interrupt_aggsplit(e: EngineV, id: Id) -> EngineV {
    each(e, keys_where::<String, AggSplitV>(e.aggsplit_op, agg_involves(id)), abort_agg_f())
}

/// A change into cover that `id` is making is off.
pub open spec fn interrupt_cover(e: EngineV, id: Id) -> EngineV {
    if e.cover_transition.contains_key(id) {
        set_busy(EngineV { cover_transition: e.cover_transition.remove(id), ..e }, id, 0)
    } else {
        e
    }
}

/// A boarding or leaving that the suppression of `id` interrupts: boarding if it is the passenger
/// or the vehicle, leaving if it is the vehicle.
pub open spec fn mount_involves(id: Id) -> spec_fn(Id, MountV) -> bool {
    |p: Id, m: MountV| m.vehicle == id || (m.kind == MountKind::Mount && p == id)
}

/// The passenger's boarding or leaving is off, and both are free.
pub open spec fn abort_mount(e: EngineV, p: Id) -> EngineV {
    match at(e.mount_op, p) {
        None => e,
        Some(m) => set_busy(
            set_busy(EngineV { mount_op: e.mount_op.remove(p), ..e }, p, 0),
            m.vehicle,
            0,
        ),
    }
}

pub open spec fn abort_mount_f() -> spec_fn(EngineV, Id) -> EngineV {
    |e: EngineV, id: Id| abort_mount(e, id)
}

/// The minefield that `id` is laying is off.
pub open spec fn abort_minelay(e: EngineV, id: Id) -> EngineV {
    if e.minelay_in_flight.contains_key(id) {
        set_busy(
            EngineV {
                minelay_in_flight: e.minelay_in_flight.remove(id),
                minelayer_gen: bumped(e.minelayer_gen, id),
                ..e
            },
            id,
            0,
        )
    } else {
        e
    }
}

/// What the suppression of `id` interrupts of boarding, mine laying, merging and splitting.
pub open spec fn interrupt_mounts(e: EngineV, id: Id) -> EngineV {
    let e1 = each(
        e,
        keys_where::<String, MountV>(e.mount_op, mount_involves(id)),
        abort_mount_f(),
    );
    interrupt_aggsplit(abort_minelay(e1, id), id)
}

// ---------- fatigue and halting ----------

/// A tired unit at rest loses its next point of fatigue after the interval of the rules.
pub open spec fn arm_fatigue_decay(e: EngineV, id: Id) -> EngineV {
    let tired = match at(e.units, id) {
        Some(u) => u.fatigue > 0,
        None => false,
    };
    if !tired {
        e
    } else {
        schedule(
            EngineV { fatigue_gen: bumped(e.fatigue_gen, id), ..e },
            tick_sum(e.clock, seconds_in_ticks(fatigue_interval(e.rules)) as i64),
            Event::FatigueDecay { unit: id, gen: fresh(e.fatigue_gen, id) },
        )
    }
}

/// The unit halts where it is and rests. A marching unit stays on the march.
pub open spec fn settle_stopped(e: EngineV, id: Id) -> EngineV {
    let e1 = match at(e.units, id) {
        Some(u) => put_unit(
            e,
            id,
            RuntimeUnit {
                state: if u.state == UnitState::March {
                    u.state
                } else {
                    UnitState::Stopped
                },
                busy_until: 0,
                ..u
            },
        ),
        None => e,
    };
    arm_fatigue_decay(e1, id)
}

/// Whether a unit is suppressed at `t`, by its timer or its posture.
pub open spec fn suppressed(units: Map<Id, UnitV>, id: Id, t: Tick) -> bool {
    match at(units, id) {
        Some(u) => u.suppressed_until > t || u.state == UnitState::Suppressed,
        None => false,
    }
}

// ---------- fights within a hex ----------

/// A live ground unit on the board at `hex` that can be fought.
pub open spec fn fights_at(hex: Axial) -> spec_fn(Id, UnitV) -> bool {
    |k: Id, u: UnitV|
        u.alive && u.pos == hex && on_board(u) && ground(u.unit_type) && targetable(u.unit_type)
}

/// A unit of `side` that fights at `hex`.
pub open spec fn side_fights_at(hex: Axial, side: SideId) -> spec_fn(Id, UnitV) -> bool {
    |k: Id, u: UnitV| fights_at(hex)(k, u) && u.side == side
}

/// Whether both sides have a unit that fights at `hex`.
pub open spec fn contested(units: Map<Id, UnitV>, hex: Axial) -> bool {
    some_entry(units, side_fights_at(hex, SideId::Red)) && some_entry(
        units,
        side_fights_at(hex, SideId::Blue),
    )
}

/// A fight at `hex` ends when one side has no unit left there.
pub open spec fn end_same_hex(e: EngineV, hex: Axial) -> EngineV {
    if e.same_hex.contains_key(hex) && !contested(e.units, hex) {
        EngineV { same_hex: e.same_hex.remove(hex), ..e }
    } else {
        e
    }
}

// ---------- death ----------

/// A passenger's boarding or leaving is off because the vehicle is gone.
pub open spec fn drop_mount(e: EngineV, p: Id) -> EngineV {
    set_busy(EngineV { mount_op: e.mount_op.remove(p), ..e }, p, 0)
}

pub open spec fn drop_mount_f() -> spec_fn(EngineV, Id) -> EngineV {
    |e: EngineV, id: Id| drop_mount(e, id)
}

/// The unit dies and is no longer busy.
pub open spec fn lose(e: EngineV, id: Id) -> EngineV {
    set_busy(set_dead(e, id), id, 0)
}

pub open spec fn lose_f() -> spec_fn(EngineV, Id) -> EngineV {
    |e: EngineV, id: Id| lose(e, id)
}

/// The munition is gone.
pub open spec fn expend(e: EngineV, m: Id) -> EngineV {
    set_dead(
        EngineV {
            loitering_parent: e.loitering_parent.remove(m),
            loitering_target: e.loitering_target.remove(m),
            ..e
        },
        m,
    )
}

pub open spec fn expend_f() -> spec_fn(EngineV, Id) -> EngineV {
    |e: EngineV, id: Id| expend(e, id)
}

/// The unmanned vehicle dies, which may end a fight in its hex.
pub open spec fn lose_affiliate(e: EngineV, id: Id) -> EngineV {
    match at(e.units, id) {
        Some(u) => end_same_hex(lose(e, id), u.pos),
        None => e,
    }
}

pub open spec fn lose_affiliate_f() -> spec_fn(EngineV, Id) -> EngineV {
    |e: EngineV, id: Id| lose_affiliate(e, id)
}

pub open spec fn mounts_on(vehicle: Id) -> spec_fn(Id, MountV) -> bool {
    |p: Id, m: MountV| m.vehicle == vehicle
}

/// A live unit that rides in `vehicle`.
pub open spec fn aboard(vehicle: Id) -> spec_fn(Id, UnitV) -> bool {
    |k: Id, u: UnitV| u.carried_by == Some(vehicle) && u.alive
}

pub open spec fn launched_from(vehicle: Id) -> spec_fn(Id, Id) -> bool {
    |m: Id, p: Id| p == vehicle
}

/// A live unmanned vehicle that belongs to `vehicle`.
pub open spec fn affiliate_of(vehicle: Id) -> spec_fn(Id, UnitV) -> bool {
    |k: Id, u: UnitV|
        u.alive && u.unit_type == UnitType::Ugv && u.affiliated_to == Some(vehicle)
}

/// What dies with a vehicle: those inside, the munitions that it launched, and the unmanned
/// vehicles that belong to it. Those still boarding stay behind.
pub open spec fn carrier_death(e: EngineV, vehicle: Id) -> EngineV {
    let e1 = each(e, keys_where::<String, MountV>(e.mount_op, mounts_on(vehicle)), drop_mount_f());
    let e2 = each(e1, keys_where::<String, UnitV>(e1.units, aboard(vehicle)), lose_f());
    let e3 = each(
        e2,
        keys_where::<String, Id>(e2.loitering_parent, launched_from(vehicle)),
        expend_f(),
    );
    each(e3, keys_where::<String, UnitV>(e3.units, affiliate_of(vehicle)), lose_affiliate_f())
}

// ---------- the effect of fire ----------

/// The survivors of a hit are suppressed until `until`. Cover stays; what they were doing is off.
pub open spec fn suppress(e: EngineV, id: Id, until: Tick) -> EngineV {
    let e1 = interrupt_mounts(interrupt_cover(e, id), id);
    let e2 = if e1.radar_spinup.contains_key(id) {
        set_busy(EngineV { radar_spinup: e1.radar_spinup.remove(id), ..e1 }, id, 0)
    } else {
        e1
    };
    let e3 = match at(e2.units, id) {
        Some(u) => put_unit(
            e2,
            id,
            RuntimeUnit {
                suppressed_until: until,
                state: if u.state == UnitState::Cover {
                    u.state
                } else {
                    UnitState::Suppressed
                },
                ..u
            },
        ),
        None => e2,
    };
    schedule(e3, until, Event::SuppressEnd { unit: id })
}

/// The teams that are left of a unit after an outcome.
pub open spec fn teams_left(u: UnitV, outcome: Outcome) -> u8 {
    match outcome {
        Outcome::Destroyed(n) => if u.teams > n {
            (u.teams - n) as u8
        } else {
            0
        },
        Outcome::Kill => 0,
        _ => u.teams,
    }
}

/// Whether an outcome kills a unit.
pub open spec fn kills(u: UnitV, outcome: Outcome) -> bool {
    match outcome {
        Outcome::Destroyed(_) => teams_left(u, outcome) == 0,
        Outcome::Kill => true,
        _ => false,
    }
}

/// The unit takes an outcome: it dies with what it carries, or its survivors are suppressed for
/// `ticks`, or nothing happens.
pub open spec fn hit(e: EngineV, id: Id, outcome: Outcome, t: Tick, ticks: Tick) -> EngineV {
    match at(e.units, id) {
        None => e,
        Some(u) => if kills(u, outcome) {
            let e1 = carrier_death(
                put_unit(e, id, RuntimeUnit { teams: 0, alive: false, ..u }),
                id,
            );
            match at(e1.units, id) {
                Some(v) => end_same_hex(e1, v.pos),
                None => e1,
            }
        } else {
            match outcome {
                Outcome::NoEffect => e,
                _ => suppress(
                    put_unit(e, id, RuntimeUnit { teams: teams_left(u, outcome), ..u }),
                    id,
                    tick_sum(t, ticks),
                ),
            }
        },
    }
}

pub open spec fn hit_f(outcome: Outcome, t: Tick, ticks: Tick) -> spec_fn(EngineV, Id) -> EngineV {
    |e: EngineV, id: Id| hit(e, id, outcome, t, ticks)
}

/// A live passenger squad of `vehicle`.
pub open spec fn cargo_of(vehicle: Id) -> spec_fn(Id, UnitV) -> bool {
    |k: Id, u: UnitV| u.alive && u.carried_by == Some(vehicle) && personnel(u.unit_type)
}

/// The unit takes an outcome. What hits a transport helicopter that survives hits every squad
/// aboard too.
pub open spec fn hit_whole(e: EngineV, id: Id, outcome: Outcome, t: Tick, ticks: Tick) -> EngineV {
    let e1 = hit(e, id, outcome, t, ticks);
    let shared = match at(e.units, id) {
        Some(u) => u.unit_type == UnitType::TransportHeli && !kills(u, outcome),
        None => false,
    };
    match outcome {
        Outcome::Destroyed(_) | Outcome::Suppress => if shared {
            each(
                e1,
                keys_where::<String, UnitV>(e1.units, cargo_of(id)),
                hit_f(outcome, t, ticks),
            )
        } else {
            e1
        },
        _ => e1,
    }
}

/// Applies an outcome to a unit. The length of suppression must be in the rules.
pub open spec fn apply_fire(e: EngineV, id: Id, outcome: Outcome, t: Tick) -> Done {
    match need(e, "suppress_duration"@) {
        Ok(ticks) => (hit_whole(e, id, outcome, t, ticks), Ok(())),
        Err(x) => (e, Err(x)),
    }
}

// ---------- indirect fire ----------

/// The units that spot for artillery: ground units and drones.
pub open spec fn spots(t: UnitType) -> bool {
    ground(t) || t == UnitType::Uav
}

pub open spec fn spotter_of(side: SideId) -> spec_fn(Id, UnitV) -> bool {
    |k: Id, u: UnitV| u.alive && u.side == side && on_board(u) && spots(u.unit_type)
}

/// A live enemy of `side` on the board at `hex` that `s` observes.
pub open spec fn observed_at(e: EngineV, hex: Axial, side: SideId, s: UnitV) -> spec_fn(Id, UnitV) -> bool {
    |k: Id, u: UnitV|
        u.alive && on_board(u) && u.side != side && u.pos == hex && observes(e.rules, e.map, s, u)
}

/// A spotter of `side` that observes an enemy at `hex`.
pub open spec fn spots_target(e: EngineV, hex: Axial, side: SideId) -> spec_fn(Id, UnitV) -> bool {
    |k: Id, s: UnitV|
        spotter_of(side)(k, s) && some_entry(e.units, observed_at(e, hex, side, s))
}

/// A spotter of `side` that sees `hex`.
pub open spec fn spots_hex(e: EngineV, hex: Axial, side: SideId) -> spec_fn(Id, UnitV) -> bool {
    |k: Id, s: UnitV| spotter_of(side)(k, s) && in_sight(e.map, s.pos, hex, 0, 0)
}

/// A working radar of `side`: on, alive and not suppressed.
pub open spec fn radar_works(e: EngineV, side: SideId) -> spec_fn(Id, ()) -> bool {
    |v: Id, x: ()|
        (match at(e.units, v) {
            Some(u) => u.alive && u.side == side,
            None => false,
        }) && !suppressed(e.units, v, e.clock)
}

/// How well `side` sees `hex`: the target in it, the hex, or neither. A working radar sees every
/// hex.
pub open spec fn spotting(e: EngineV, hex: Axial, side: SideId) -> IndirectSpotting {
    if some_entry(e.units, spots_target(e, hex, side)) {
        IndirectSpotting::Target
    } else if some_entry(e.units, spots_hex(e, hex, side)) || some_entry(
        e.radar_on,
        radar_works(e, side),
    ) {
        IndirectSpotting::InHex
    } else {
        IndirectSpotting::Unspotted
    }
}

/// A live ground unit on the board at `hex`.
pub open spec fn stands_at(hex: Axial) -> spec_fn(Id, UnitV) -> bool {
    |k: Id, u: UnitV| u.alive && on_board(u) && ground(u.unit_type) && u.pos == hex
}

/// What corrects a salvo of `guns` guns for a unit.
pub open spec fn salvo_mods(e: EngineV, u: UnitV, guns: u8) -> IndirectMods {
    IndirectMods {
        target_terrain: terrain_class(e.map, u.pos),
        target_cover: u.state == UnitState::Cover,
        target_moving_personnel: u.unit_type == UnitType::Infantry && moving(u.state),
        target_stacked: keys_where::<String, UnitV>(e.units, stands_at(u.pos)).len() > 1,
        target_march: u.state == UnitState::March,
        armor: u.armor,
        gun_count: guns,
    }
}

/// What corrects a salvo of `guns` guns for a fortification.
pub open spec fn works_salvo_mods(armor: Armor, guns: u8) -> IndirectMods {
    IndirectMods {
        target_terrain: TargetTerrain::UrbanOrWorks,
        target_cover: false,
        target_moving_personnel: false,
        target_stacked: false,
        target_march: false,
        armor,
        gun_count: guns,
    }
}

/// Applies an outcome and passes over a missing rule.
pub open spec fn take_fire(e: EngineV, id: Id, outcome: Outcome, t: Tick) -> EngineV {
    apply_fire(e, id, outcome, t).0
}

/// A unit takes a salvo's base result with its own correction.
pub open spec fn take_salvo(e: EngineV, id: Id, base: IndirectBase, guns: u8, t: Tick) -> EngineV {
    match at(e.units, id) {
        None => e,
        Some(u) => {
            let r = salvo_effect::<PcgRng>(e.tables, e.rng, base, salvo_mods(e, u, guns));
            take_fire(EngineV { rng: r.1, ..e }, id, r.0, t)
        },
    }
}

pub open spec fn take_salvo_f(base: IndirectBase, guns: u8, t: Tick) -> spec_fn(EngineV, Id) -> EngineV {
    |e: EngineV, id: Id| take_salvo(e, id, base, guns, t)
}

/// A live unit on the board at `hex` that can be fired upon.
pub open spec fn exposed_at(hex: Axial) -> spec_fn(Id, UnitV) -> bool {
    |k: Id, u: UnitV| u.alive && on_board(u) && targetable(u.unit_type) && u.pos == hex
}

/// A fortification at `hex` that can be fired upon.
pub open spec fn works_at(hex: Axial) -> spec_fn(Id, FacilityV) -> bool {
    |k: Id, f: FacilityV|
        f.at == hex && match fort_named(f.kind) {
            Some(kind) => fort_engages(kind),
            None => false,
        }
}

/// A salvo lands on `hex`: every unit there takes it, whatever its side, and then the first
/// fortification there that can be fired upon.
pub open spec fn salvo_lands(e: EngineV, hex: Axial, base: IndirectBase, guns: u8, t: Tick) -> EngineV {
    let e1 = each(
        e,
        keys_where::<String, UnitV>(e.units, exposed_at(hex)),
        take_salvo_f(base, guns, t),
    );
    let works = keys_where::<String, FacilityV>(e1.facilities, works_at(hex));
    if works.len() == 0 {
        e1
    } else {
        let f = e1.facilities[works[0]];
        let r = salvo_effect::<PcgRng>(e1.tables, e1.rng, base, works_salvo_mods(f.armor, guns));
        let e2 = EngineV { rng: r.1, ..e1 };
        if fort_named(f.kind) == Some(FortKind::Vehicle) {
            vehicle_works_hit(e2, works[0], r.0)
        } else {
            personnel_works_hit(e2, works[0], r.0, t).0
        }
    }
}

/// The hex `n` steps from `hex` in a direction.
pub open spec fn offset_hex(hex: Axial, dir: int, n: int) -> Axial {
    Axial {
        q: (hex.q + direction(dir).0 * n) as i32,
        r: (hex.r + direction(dir).1 * n) as i32,
    }
}

/// A salvo's flight ends: it scatters, lands, and detonates for a time. A salvo whose artillery is
/// gone is dropped.
pub open spec fn salvo_arrives(e: EngineV, plan_id: u64, t: Tick) -> EngineV {
    match at(e.indirect_plans, plan_id) {
        None => e,
        Some(plan) => {
            let gun = at(e.units, plan.artillery);
            if gun is None || !gun->0.alive {
                EngineV { indirect_plans: e.indirect_plans.remove(plan_id), ..e }
            } else {
                let u = gun->0;
                let r = salvo::<PcgRng>(
                    e.tables,
                    e.rng,
                    spotting(e, plan.plan_hex, u.side),
                    steps(u.pos, plan.plan_hex) as int,
                    GunClass::Medium,
                );
                let d = crate::rng::pcg_below(r.2, 6);
                let impact = match r.0 {
                    Scatter::Hexes(n) => offset_hex(plan.plan_hex, d.0 as int, n as int),
                    _ => plan.plan_hex,
                };
                let e1 = EngineV {
                    rng: d.1,
                    indirect_plans: e.indirect_plans.insert(
                        plan_id,
                        IndirectPlan { impact: Some(impact), base: r.1, gun_count: u.teams, ..plan },
                    ),
                    ..e
                };
                let e2 = salvo_lands(e1, impact, r.1, u.teams, t);
                let boom = match timing_of(e2.rules, "indirect_boom"@) {
                    Some(b) => b,
                    None => 0,
                };
                schedule(e2, tick_sum(t, boom), Event::IndirectBoomEnd { plan: plan_id })
            }
        },
    }
}

// ---------- fire at fortifications ----------

/// A live unit inside a fortification.
pub open spec fn inside(fac: Id) -> spec_fn(Id, UnitV) -> bool {
    |k: Id, u: UnitV| u.alive && u.inside_facility == Some(fac)
}

/// The garrison takes losses in order of id until none are left to give.
pub open spec fn garrison_losses(e: EngineV, occupants: Seq<Id>, n: u8, t: Tick, ticks: Tick) -> (
    EngineV,
    u8,
)
    decreases occupants.len(),
{
    if occupants.len() == 0 {
        (e, n)
    } else {
        let (e1, left) = garrison_losses(e, occupants.drop_last(), n, t, ticks);
        let teams = match at(e1.units, occupants.last()) {
            Some(u) => u.teams,
            None => 0,
        };
        let k = if left < teams {
            left
        } else {
            teams
        };
        if k == 0 {
            (e1, left)
        } else {
            (
                hit_whole(e1, occupants.last(), Outcome::Destroyed(k), t, ticks),
                (left - k) as u8,
            )
        }
    }
}

pub open spec fn hit_whole_f(outcome: Outcome, t: Tick, ticks: Tick) -> spec_fn(EngineV, Id) -> EngineV {
    |e: EngineV, id: Id| hit_whole(e, id, outcome, t, ticks)
}

/// Whether the outcome of a shot at a personnel fortification reaches anybody inside.
pub open spec fn reaches_garrison(e: EngineV, occupants: Seq<Id>, outcome: Outcome) -> bool {
    match outcome {
        Outcome::Destroyed(n) => n > 0 && exists|i: int|
            0 <= i < occupants.len() && e.units[#[trigger] occupants[i]].teams > 0,
        Outcome::NoEffect => false,
        _ => occupants.len() > 0,
    }
}

/// A shot at a personnel fortification: those inside take it.
pub open spec fn personnel_works_hit(e: EngineV, fac: Id, outcome: Outcome, t: Tick) -> Done {
    let occupants = keys_where::<String, UnitV>(e.units, inside(fac));
    match need(e, "suppress_duration"@) {
        Err(x) => if reaches_garrison(e, occupants, outcome) {
            (e, Err(x))
        } else {
            (e, Ok(()))
        },
        Ok(ticks) => match outcome {
            Outcome::Destroyed(n) => (garrison_losses(e, occupants, n, t, ticks).0, Ok(())),
            Outcome::NoEffect => (e, Ok(())),
            _ => (each(e, occupants, hit_whole_f(outcome, t, ticks)), Ok(())),
        },
    }
}

/// The teams of several units.
pub open spec fn teams_of(units: Map<Id, UnitV>, ids: Seq<Id>) -> int
    decreases ids.len(),
{
    if ids.len() == 0 {
        0
    } else {
        teams_of(units, ids.drop_last()) + match at(units, ids.last()) {
            Some(u) => u.teams as int,
            None => 0,
        }
    }
}

/// A unit is put out of a fortification at once. It keeps its place in the order of entry.
pub open spec fn expel(e: EngineV, id: Id) -> EngineV {
    let e1 = match at(e.units, id) {
        Some(u) => put_unit(e, id, RuntimeUnit { inside_facility: None, busy_until: 0, ..u }),
        None => e,
    };
    let e2 = EngineV { facility_gen: bumped(e1.facility_gen, id), ..e1 };
    if e2.same_hex_order.contains_key(id) {
        e2
    } else {
        stamp_entry(e2, id)
    }
}

pub open spec fn expel_f() -> spec_fn(EngineV, Id) -> EngineV {
    |e: EngineV, id: Id| expel(e, id)
}

/// A shot at a vehicle fortification: it loses capacity, and if its garrison no longer fits, all of
/// it is put out, which may begin a fight.
pub open spec fn vehicle_works_hit(e: EngineV, fac: Id, outcome: Outcome) -> EngineV {
    let loss: int = match outcome {
        Outcome::Destroyed(n) => n as int,
        Outcome::Kill => 255,
        _ => 0,
    };
    if loss == 0 {
        e
    } else {
        let (e1, cap) = match at(e.facilities, fac) {
            Some(f) => {
                let left: u8 = if f.capacity > loss {
                    (f.capacity - loss) as u8
                } else {
                    0
                };
                (
                    EngineV {
                        facilities: e.facilities.insert(
                            fac,
                            crate::types::RuntimeFacility { capacity: left, ..f },
                        ),
                        ..e
                    },
                    left as int,
                )
            },
            None => (e, 0int),
        };
        let occupants = keys_where::<String, UnitV>(e1.units, inside(fac));
        if teams_of(e1.units, occupants) > cap {
            let e2 = each(e1, occupants, expel_f());
            trigger_same_hex(e2, e1.units[occupants.last()].pos, e2.clock)
        } else {
            e1
        }
    }
}

// ---------- fights within a hex, round by round ----------

/// A shot within a hex, and whether it destroyed a team. The firer's weapon then cools.
pub open spec fn same_hex_shot(e: EngineV, attacker: Id, target: Id, t: Tick) -> (EngineV, bool) {
    match (at(e.units, attacker), at(e.units, target)) {
        (Some(a), Some(u)) => if !a.alive || !u.alive {
            (e, false)
        } else {
            let r = same_hex_fire::<PcgRng>(
                e.tables,
                e.map,
                e.rng,
                loadout_of(e.rules, a.unit_type),
                a,
                u,
            );
            let e1 = EngineV { rng: r.2, shots: noted(e.shots, r.1), ..e };
            let e2 = take_fire(e1, target, r.0, t);
            let e3 = match timing_of(e2.rules, "weapon_cooldown_direct"@) {
                Some(cd) => schedule(
                    set_weapon(e2, attacker, WeaponState::Cooling),
                    tick_sum(t, cd),
                    Event::WeaponReady { unit: attacker },
                ),
                None => e2,
            };
            (
                e3,
                match at(e3.units, target) {
                    Some(v) => v.teams < u.teams,
                    None => true,
                },
            )
        },
        _ => (e, false),
    }
}

/// Whether a unit fires in a fight within a hex: it is alive, on the board and not marching.
pub open spec fn same_hex_fires(units: Map<Id, UnitV>, id: Id) -> bool {
    match at(units, id) {
        Some(u) => u.alive && u.state != UnitState::March && on_board(u),
        None => false,
    }
}

/// Whether `a` entered its hex before `b`, with the id to settle ties.
pub open spec fn entered_before(order: Map<Id, u64>, a: Id, b: Id) -> bool {
    number_of(order, a) < number_of(order, b) || (number_of(order, a) == number_of(order, b)
        && text_lt(a, b))
}

/// A list in order of entry with one id more, in its place.
pub open spec fn place_by_entry(order: Map<Id, u64>, ids: Seq<Id>, id: Id) -> Seq<Id>
    decreases ids.len(),
{
    if ids.len() == 0 || !entered_before(order, id, ids.last()) {
        ids.push(id)
    } else {
        place_by_entry(order, ids.drop_last(), id).push(ids.last())
    }
}

/// A list in order of entry.
pub open spec fn by_entry(order: Map<Id, u64>, ids: Seq<Id>) -> Seq<Id>
    decreases ids.len(),
{
    if ids.len() == 0 {
        ids
    } else {
        place_by_entry(order, by_entry(order, ids.drop_last()), ids.last())
    }
}

/// The units that fight at `hex`, in order of entry.
pub open spec fn attackers(e: EngineV, hex: Axial) -> Seq<Id> {
    by_entry(e.same_hex_order, keys_where::<String, UnitV>(e.units, fights_at(hex)))
}

/// A live ground unit at `hex`, on the board or not.
pub open spec fn ground_at(hex: Axial) -> spec_fn(Id, UnitV) -> bool {
    |k: Id, u: UnitV| u.alive && u.pos == hex && ground(u.unit_type)
}

/// The units under several ids.
pub open spec fn units_under(units: Map<Id, UnitV>, ids: Seq<Id>) -> Seq<UnitV> {
    ids.map_values(|k: Id| units[k])
}

/// One attacker's turn in a round, and whether there has been a loss so far.
pub open spec fn attack_turn(s: (EngineV, bool), attacker: Id, hex: Axial, t: Tick) -> (EngineV, bool) {
    let e = s.0;
    if !same_hex_fires(e.units, attacker) {
        s
    } else {
        let here = keys_where::<String, UnitV>(e.units, ground_at(hex));
        let p = pick_target::<PcgRng>(
            units_under(e.units, here),
            e.units[attacker].side,
            e.rng,
        );
        let e1 = EngineV { rng: p.1, ..e };
        match p.0 {
            Some(target) => {
                let (e2, loss) = same_hex_shot(e1, attacker, target.id, t);
                (e2, s.1 || loss)
            },
            None => (e1, s.1),
        }
    }
}

/// The turns of several attackers.
pub open spec fn attack_turns(e: EngineV, ids: Seq<Id>, hex: Axial, t: Tick) -> (EngineV, bool)
    decreases ids.len(),
{
    if ids.len() == 0 {
        (e, false)
    } else {
        attack_turn(attack_turns(e, ids.drop_last(), hex, t), ids.last(), hex, t)
    }
}

/// A round of the fight at `hex`: each unit fires once, in order of entry. The fight goes on after
/// the interval of the rules, unless a side is gone or nothing has been destroyed for too long.
pub open spec fn same_hex_round(e: EngineV, hex: Axial, gen: u64, t: Tick) -> EngineV {
    match at(e.same_hex, hex) {
        None => e,
        Some(s) => if s.gen != gen {
            e
        } else if !contested(e.units, hex) {
            EngineV { same_hex: e.same_hex.remove(hex), ..e }
        } else {
            let (e1, loss) = attack_turns(e, attackers(e, hex), hex, t);
            if !contested(e1.units, hex) {
                EngineV { same_hex: e1.same_hex.remove(hex), ..e1 }
            } else {
                match at(e1.same_hex, hex) {
                    None => e1,
                    Some(s1) => {
                        let dry: u32 = if loss {
                            0
                        } else if s1.dry_rounds == u32::MAX {
                            u32::MAX
                        } else {
                            (s1.dry_rounds + 1) as u32
                        };
                        if dry >= SAME_HEX_MAX_DRY_ROUNDS {
                            EngineV { same_hex: e1.same_hex.remove(hex), ..e1 }
                        } else {
                            let pause = match timing_of(e1.rules, "same_hex_engage_interval"@) {
                                Some(n) => n,
                                None => 2500,
                            };
                            schedule(
                                EngineV {
                                    same_hex: e1.same_hex.insert(
                                        hex,
                                        SameHexState { dry_rounds: dry, ..s1 },
                                    ),
                                    ..e1
                                },
                                tick_sum(t, pause),
                                Event::SameHexEngage { hex, gen },
                            )
                        }
                    },
                }
            }
        },
    }
}

/// A live unit at `hex`.
pub open spec fn live_at(hex: Axial) -> spec_fn(Id, UnitV) -> bool {
    |k: Id, u: UnitV| u.alive && u.pos == hex
}

/// A unit in a hex where a fight begins: what it was doing is off, and its weapon is ready.
pub open spec fn drawn_in(e: EngineV, id: Id) -> EngineV {
    let e1 = interrupt_mounts(interrupt_cover(e, id), id);
    let e2 = EngineV { radar_spinup: e1.radar_spinup.remove(id), ..e1 };
    match at(e2.units, id) {
        Some(u) => if u.weapon_state == WeaponState::Cooling {
            set_weapon(e2, id, WeaponState::Deployed)
        } else {
            e2
        },
        None => e2,
    }
}

pub open spec fn drawn_in_f() -> spec_fn(EngineV, Id) -> EngineV {
    |e: EngineV, id: Id| drawn_in(e, id)
}

/// A fight begins at `hex` if both sides are there and none is on, with a round at once.
pub open spec fn trigger_same_hex(e: EngineV, hex: Axial, t: Tick) -> EngineV {
    if e.same_hex.contains_key(hex) || !contested(e.units, hex) {
        e
    } else {
        let gen = next_of(e.same_hex_ctr);
        let e1 = EngineV {
            same_hex_ctr: gen,
            same_hex: e.same_hex.insert(hex, SameHexState { gen, dry_rounds: 0 }),
            ..e
        };
        let e2 = each(e1, keys_where::<String, UnitV>(e1.units, live_at(hex)), drawn_in_f());
        same_hex_round(e2, hex, gen, t)
    }
}

/// An enemy of `side` that fires at a unit leaving the fight at `hex`.
pub open spec fn punisher(hex: Axial, side: SideId) -> spec_fn(Id, UnitV) -> bool {
    |k: Id, u: UnitV| fights_at(hex)(k, u) && u.side != side && u.state != UnitState::March
}

/// One shot at a unit that leaves a fight, as long as it lives.
pub open spec fn punish_shot(e: EngineV, attacker: Id, leaver: Id, t: Tick) -> EngineV {
    match at(e.units, leaver) {
        Some(u) => if u.alive {
            same_hex_shot(e, attacker, leaver, t).0
        } else {
            e
        },
        None => e,
    }
}

pub open spec fn punish_shot_f(leaver: Id, t: Tick) -> spec_fn(EngineV, Id) -> EngineV {
    |e: EngineV, id: Id| punish_shot(e, id, leaver, t)
}

/// A unit that leaves a fight is fired at once by every enemy in it.
pub open spec fn punish(e: EngineV, leaver: Id, hex: Axial, t: Tick) -> EngineV {
    match at(e.units, leaver) {
        Some(u) => each(
            e,
            keys_where::<String, UnitV>(e.units, punisher(hex, u.side)),
            punish_shot_f(leaver, t),
        ),
        None => e,
    }
}

} // verus!
