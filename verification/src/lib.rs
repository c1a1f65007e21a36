//! A deterministic, seedable engine for land-warfare games on a hex board.
//!
//! All randomness comes from one seeded generator, all numbers of the game come from the rules and
//! the decision tables, and what can go wrong is returned as an error. The state of a match is a
//! function of its beginning and of the orders given: every operation says in its contract which
//! state it leads to.
use vstd::prelude::*;

pub mod basics_laws;
pub mod combat;
pub mod combat_laws;
pub mod engine;
pub mod error;
pub mod hex;
pub mod json;
pub mod mechanics;
pub mod mechanics_laws;
pub mod ordmap;
pub mod prob;
pub mod prob_laws;
pub mod replay;
pub mod rng;
pub mod rules;
pub mod text;
pub mod time;
pub mod types;
pub mod units;

pub use crate::engine::Engine;
pub use crate::error::EngineError;
pub use crate::hex::Axial;
pub use crate::rules::Rules;
pub use crate::time::Tick;
pub use crate::types::{GameMap, Scenario, Side, State};

verus! {

} // verus!
