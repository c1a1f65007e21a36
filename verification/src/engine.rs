//! The simulator: a deterministic discrete-event loop.
use crate::combat::OutcomeLog;
use crate::engine::model::{
    AggSplitInTransit, EngineV, IndirectPlan, MountInTransit, SameHexState, Timed,
};
use crate::hex::Axial;
use crate::ordmap::{views, OrdMap};
use crate::rng::PcgRng;
use crate::rules::{Rules, Tables};
use crate::time::Tick;
use crate::types::{GameMap, Scenario, State};
use vstd::prelude::*;

pub mod actions;
pub mod clock;
pub mod effects;
pub mod events;
pub mod fights;
pub mod fire;
pub mod laws;
pub mod laws_acts;
pub mod laws_calm;
pub mod laws_fights;
pub mod laws_fog;
pub mod laws_moves;
pub mod laws_orders;
pub mod laws_reports;
pub mod laws_rest;
pub mod laws_salvos;
pub mod laws_shots;
pub mod laws_sight;
pub mod laws_stacks;
pub mod laws_start;
pub mod laws_teams;
pub mod laws_time;
pub mod laws_trace;
pub mod laws_units;
pub mod laws_works;
pub mod model;
pub mod moves;
pub mod observe;
pub mod orders;
pub mod salvos;
pub mod setup;

verus! {

/// A match: the board and rules it is played by, its state, and what is to come.
pub struct Engine {
    pub map: GameMap,
    pub scenario: Scenario,
    pub rules: Rules,
    pub tables: Tables,
    pub state: State,
    pub(crate) rng: PcgRng,
    pub(crate) log: OutcomeLog,
    pub(crate) queue: Vec<Timed>,
    pub(crate) seq: u64,
    pub(crate) move_gen: OrdMap<String, u64>,
    pub(crate) cover_transition: OrdMap<String, u64>,
    pub(crate) cover_gen_ctr: u64,
    pub(crate) mount_op: OrdMap<String, MountInTransit>,
    pub(crate) mount_gen_ctr: u64,
    pub(crate) facility_gen: OrdMap<String, u64>,
    pub(crate) minelayer_gen: OrdMap<String, u64>,
    pub(crate) minelayer_lays: OrdMap<String, u32>,
    pub(crate) minelay_in_flight: OrdMap<String, ()>,
    pub(crate) fatigue_gen: OrdMap<String, u64>,
    pub(crate) aggsplit_op: OrdMap<String, AggSplitInTransit>,
    pub(crate) aggsplit_gen: OrdMap<String, u64>,
    pub(crate) spawn_ctr: u64,
    pub(crate) indirect_plans: OrdMap<u64, IndirectPlan>,
    pub(crate) indirect_cd: OrdMap<String, Tick>,
    pub(crate) indirect_plan_ctr: u64,
    pub(crate) loitering_parent: OrdMap<String, String>,
    pub(crate) loitering_target: OrdMap<String, Axial>,
    pub(crate) radar_on: OrdMap<String, ()>,
    pub(crate) radar_spinup: OrdMap<String, u64>,
    pub(crate) radar_gen_ctr: u64,
    /// The fights within a hex.
    pub same_hex: OrdMap<Axial, SameHexState>,
    pub(crate) same_hex_ctr: u64,
    pub(crate) same_hex_order: OrdMap<String, u64>,
    pub(crate) entry_seq: u64,
    /// The shots that each air-defence unit has fired.
    pub aa_shots: OrdMap<String, u32>,
    pub(crate) stacking_cap: i64,
}

impl View for Engine {
    type V = EngineV;

    open(crate) spec fn view(&self) -> EngineV {
        EngineV {
            map: self.map,
            scenario: self.scenario,
            rules: self.rules,
            tables: self.tables,
            stacking_cap: self.stacking_cap,
            clock: self.state.clock,
            units: self.state.units@,
            control: self.state.control@,
            facilities: self.state.facilities@,
            minefields: self.state.minefields@,
            rng: self.rng@,
            shots: self.log@,
            queue: views(self.queue@),
            seq: self.seq,
            move_gen: self.move_gen@,
            cover_transition: self.cover_transition@,
            cover_gen_ctr: self.cover_gen_ctr,
            mount_op: self.mount_op@,
            mount_gen_ctr: self.mount_gen_ctr,
            facility_gen: self.facility_gen@,
            minelayer_gen: self.minelayer_gen@,
            minelayer_lays: self.minelayer_lays@,
            minelay_in_flight: self.minelay_in_flight@,
            fatigue_gen: self.fatigue_gen@,
            aggsplit_op: self.aggsplit_op@,
            aggsplit_gen: self.aggsplit_gen@,
            spawn_ctr: self.spawn_ctr,
            indirect_plans: self.indirect_plans@,
            indirect_cd: self.indirect_cd@,
            indirect_plan_ctr: self.indirect_plan_ctr,
            loitering_parent: self.loitering_parent@,
            loitering_target: self.loitering_target@,
            radar_on: self.radar_on@,
            radar_spinup: self.radar_spinup@,
            radar_gen_ctr: self.radar_gen_ctr,
            same_hex: self.same_hex@,
            same_hex_ctr: self.same_hex_ctr,
            same_hex_order: self.same_hex_order@,
            entry_seq: self.entry_seq,
            aa_shots: self.aa_shots@,
        }
    }
}

impl Engine {
    /// Since when adjudications are recorded, as a place in their history; nothing while they are
    /// not.
    pub open(crate) spec fn recording(&self) -> Option<nat> {
        self.log.recording_since()
    }

    /// Whether this engine is what `was` became by going to the state `e`, without a change to
    /// what is recorded.
    pub open spec fn became(&self, was: &Engine, e: EngineV) -> bool {
        self@ == e && self.recording() == was.recording()
    }
}

} // verus!
