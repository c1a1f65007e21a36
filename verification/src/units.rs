//! What is particular to loitering munitions.
use crate::rules::{timing_of, Rules};
use crate::time::Tick;
use crate::types::UnitType;
use vstd::prelude::*;

verus! {

/// The ticks that a loitering munition stays in the air.
pub fn loitering_endurance_ticks(rules: &Rules) -> (r: Option<Tick>)
    ensures
        r == timing_of(*rules, "loitering_endurance"@),
{
    rules.timing("loitering_endurance")
}

/// Whether a unit is a loitering munition.
pub fn is_loitering(t: UnitType) -> (r: bool)
    ensures
        r == (t == UnitType::LoiteringMunition),
{
    t == UnitType::LoiteringMunition
}

} // verus!
