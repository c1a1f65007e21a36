//! What a side cannot learn, and what a refused order does not change.
use crate::engine::actions::{do_aggregate, do_enter, usable_works};
use crate::engine::fire::{
    as_firing, do_aa_fire, do_fire, do_guide_fire, do_strike, fire_at_facility, fire_at_unit,
    guided_at, target_of, works_target,
};
use crate::engine::model::{refused, EngineV, Id};
use crate::engine::observe::works_range;
use crate::engine::orders::{
    do_move, fire_order, formation_order, id_of, leave_hex, movement_order, no_unit, own, submit,
    support_order, text_in, transport_order,
};
use crate::error::{EngineError, ErrV};
use crate::hex::steps;
use crate::json::Json;
use crate::mechanics::{altitude_levels, in_sight, observes};
use crate::rules::at;
use crate::time::Tick;
use crate::types::{SideId, UnitV};
use vstd::prelude::*;

verus! {

// ---------- targets that are not seen ----------

/// Whether an id is nothing that `u` of `side` could know of: no target, or one that it does not
/// observe.
pub open spec fn unknown_to(e: EngineV, side: SideId, u: UnitV, id: Id) -> bool {
    match target_of(e, side, id) {
        Some(v) => !observes(e.rules, e.map, u, v),
        None => true,
    }
}

/// Direct fire at a unit that is not observed is answered like fire at a unit that is not there,
/// and changes nothing.
pub proof fn unseen_target_is_no_target(e: EngineV, side: SideId, id: Id, weapon: Seq<char>, target: Id, t: Tick)
    requires
        unknown_to(e, side, as_firing(e.units[id]), target),
    ensures
        fire_at_unit(e, side, id, weapon, target, t) == refused(e, "invalid fire target"@),
{
}

/// Direct fire at a fortification out of sight is answered like fire at one that is not there, and
/// changes nothing.
pub proof fn unseen_works_are_no_target(e: EngineV, side: SideId, id: Id, weapon: Seq<char>, fac: Id, t: Tick)
    requires
        match works_target(e, side, fac) {
            Some((f, kind)) => {
                let range = works_range(e, f);
                !(steps(e.units[id].pos, f.at) <= range && in_sight(
                    e.map,
                    e.units[id].pos,
                    f.at,
                    altitude_levels(e.rules, e.map, as_firing(e.units[id])),
                    0,
                ))
            },
            None => true,
        },
    ensures
        fire_at_facility(e, side, id, weapon, fac, t) == refused(e, "invalid fire target"@),
{
}

/// Air defence fire at a unit that is not observed is answered like fire at any other id that is
/// unknown to the firer.
pub proof fn unseen_air_target_is_no_target(e: EngineV, side: SideId, a: Json, b: Json, t: Tick)
    requires
        text_in(a, "unitId"@) == text_in(b, "unitId"@),
        match (text_in(a, "unitId"@), text_in(a, "targetUnit"@), text_in(b, "targetUnit"@)) {
            (Some(id), Some(x), Some(y)) => unknown_to(e, side, e.units[id], x) && unknown_to(
                e,
                side,
                e.units[id],
                y,
            ),
            _ => false,
        },
    ensures
        do_aa_fire(e, side, a, t) == do_aa_fire(e, side, b, t),
        do_aa_fire(e, side, a, t).0 == e,
{
}

/// A munition's strike at a unit that it does not observe is answered like a strike at any other id
/// that is unknown to it.
pub proof fn unseen_strike_target_is_no_target(e: EngineV, side: SideId, a: Json, b: Json, t: Tick)
    requires
        text_in(a, "unitId"@) == text_in(b, "unitId"@),
        match (text_in(a, "unitId"@), text_in(a, "targetUnit"@), text_in(b, "targetUnit"@)) {
            (Some(id), Some(x), Some(y)) => unknown_to(e, side, e.units[id], x) && unknown_to(
                e,
                side,
                e.units[id],
                y,
            ),
            _ => false,
        },
    ensures
        do_strike(e, side, a, t) == do_strike(e, side, b, t),
        do_strike(e, side, a, t).0 == e,
{
}

/// Guided fire at a unit that the guide does not observe is answered like fire at a unit that is not
/// there, whatever the weapon, and changes nothing.
pub proof fn unseen_guided_target_is_no_target(
    e: EngineV,
    side: SideId,
    id: Id,
    guide: Id,
    weapon: Seq<char>,
    target: Id,
    t: Tick,
)
    requires
        unknown_to(e, side, e.units[guide], target),
    ensures
        guided_at(e, side, id, guide, weapon, target, t) == refused(e, "invalid fire target"@),
{
}

/// To enter a fortification of the enemy is refused like entering one that is not there.
pub proof fn enemy_works_cannot_be_probed(e: EngineV, side: SideId, a: Json, b: Json, t: Tick)
    requires
        text_in(a, "unitId"@) == text_in(b, "unitId"@),
        match (text_in(a, "facilityId"@), text_in(b, "facilityId"@)) {
            (Some(x), Some(y)) => usable_works(e, side, x) is None && usable_works(
                e,
                side,
                y,
            ) is None,
            _ => false,
        },
    ensures
        do_enter(e, side, a, t) == do_enter(e, side, b, t),
        do_enter(e, side, a, t).0 == e,
{
}

// ---------- units of others ----------

/// Whether an order is one that needs a unit of the side's own.
pub open spec fn needs_own_unit(op: Seq<char>) -> bool {
    op == "stop"@ || op == "move_to"@ || op == "set_mode"@ || op == "fire_direct"@ || op
        == "aa_fire"@ || op == "guide_fire"@ || op == "strike_loitering"@ || op
        == "switch_altitude"@ || op == "mount"@ || op == "dismount"@ || op == "enter_facility"@ || op
        == "exit_facility"@ || op == "capture"@ || op == "radar_on"@ || op == "lay_mines"@ || op
        == "plan_indirect"@ || op == "cancel_indirect"@ || op == "split"@ || op
        == "launch_loitering"@
}

proof fn foreign_movement(e: EngineV, side: SideId, cmd: Json, op: Seq<char>, t: Tick, id: Id)
    requires
        id_of(cmd) == Ok::<Id, ErrV>(id),
        !own(e, side, id),
    ensures
        match movement_order(e, side, cmd, op, t) {
            Some(d) => d == (e, Err::<(), ErrV>(no_unit(id))),
            None => op != "stop"@ && op != "move_to"@ && op != "set_mode"@,
        },
{
    reveal(movement_order);
}

proof fn foreign_fire(e: EngineV, side: SideId, cmd: Json, op: Seq<char>, t: Tick, id: Id)
    requires
        id_of(cmd) == Ok::<Id, ErrV>(id),
        !own(e, side, id),
    ensures
        match fire_order(e, side, cmd, op, t) {
            Some(d) => d == (e, Err::<(), ErrV>(no_unit(id))),
            None => op != "fire_direct"@ && op != "aa_fire"@ && op != "guide_fire"@ && op
                != "strike_loitering"@,
        },
{
    reveal(fire_order);
}

proof fn foreign_transport(e: EngineV, side: SideId, cmd: Json, op: Seq<char>, t: Tick, id: Id)
    requires
        id_of(cmd) == Ok::<Id, ErrV>(id),
        !own(e, side, id),
    ensures
        match transport_order(e, side, cmd, op, t) {
            Some(d) => d == (e, Err::<(), ErrV>(no_unit(id))),
            None => op != "switch_altitude"@ && op != "mount"@ && op != "dismount"@ && op
                != "enter_facility"@ && op != "exit_facility"@,
        },
{
    reveal(transport_order);
}

proof fn foreign_support(e: EngineV, side: SideId, cmd: Json, op: Seq<char>, t: Tick, id: Id)
    requires
        id_of(cmd) == Ok::<Id, ErrV>(id),
        !own(e, side, id),
    ensures
        match support_order(e, side, cmd, op, t) {
            Some(d) => d == (e, Err::<(), ErrV>(no_unit(id))),
            None => op != "capture"@ && op != "radar_on"@ && op != "lay_mines"@ && op
                != "plan_indirect"@ && op != "cancel_indirect"@,
        },
{
    reveal(support_order);
}

proof fn foreign_formation(e: EngineV, side: SideId, cmd: Json, op: Seq<char>, t: Tick, id: Id)
    requires
        id_of(cmd) == Ok::<Id, ErrV>(id),
        !own(e, side, id),
        op != "aggregate"@,
    ensures
        match formation_order(e, side, cmd, op, t) {
            Some(d) => d == (e, Err::<(), ErrV>(no_unit(id))),
            None => op != "split"@ && op != "launch_loitering"@,
        },
{
    reveal(formation_order);
}

proof fn own_unit_orders_named(op: Seq<char>)
    requires
        needs_own_unit(op),
    ensures
        op != "wait"@,
        op != "aggregate"@,
{
    reveal_strlit("wait");
    reveal_strlit("aggregate");
    reveal_strlit("stop");
    reveal_strlit("move_to");
    reveal_strlit("set_mode");
    reveal_strlit("fire_direct");
    reveal_strlit("aa_fire");
    reveal_strlit("guide_fire");
    reveal_strlit("strike_loitering");
    reveal_strlit("switch_altitude");
    reveal_strlit("mount");
    reveal_strlit("dismount");
    reveal_strlit("enter_facility");
    reveal_strlit("exit_facility");
    reveal_strlit("capture");
    reveal_strlit("radar_on");
    reveal_strlit("lay_mines");
    reveal_strlit("plan_indirect");
    reveal_strlit("cancel_indirect");
    reveal_strlit("split");
    reveal_strlit("launch_loitering");
    assert(op[0] != 'w');
    assert(op.len() != 9 || op[0] != 'a');
}

/// An order for a unit of the enemy is answered like an order for a unit that is not there: with one
/// and the same refusal, which changes nothing.
pub proof fn foreign_unit_is_no_unit(e: EngineV, side: SideId, cmd: Json, op: Seq<char>, id: Id, t: Tick)
    requires
        text_in(cmd, "op"@) == Some(op),
        needs_own_unit(op),
        text_in(cmd, "unitId"@) == Some(id),
        match at(e.units, id) {
            Some(u) => u.side != side,
            None => true,
        },
    ensures
        submit(e, side, cmd, t) == (e, Err::<(), ErrV>(no_unit(id))),
{
    own_unit_orders_named(op);
    foreign_movement(e, side, cmd, op, t, id);
    foreign_fire(e, side, cmd, op, t, id);
    foreign_transport(e, side, cmd, op, t, id);
    foreign_support(e, side, cmd, op, t, id);
    foreign_formation(e, side, cmd, op, t, id);
}

/// A merge that an enemy's unit should begin, or be merged in, is answered like one with a unit that
/// is not there.
pub proof fn foreign_unit_is_not_merged(e: EngineV, side: SideId, cmd: Json, id: Id, other: Id, t: Tick)
    requires
        text_in(cmd, "unitId"@) == Some(id),
        text_in(cmd, "targetUnit"@) == Some(other),
        id != other,
    ensures
        !own(e, side, id) ==> do_aggregate(e, side, cmd, t) == (e, Err::<(), ErrV>(no_unit(id))),
        !own(e, side, other) ==> do_aggregate(e, side, cmd, t).0 == e && (crate::engine::actions::agg_check(
            e,
            side,
            id,
            t,
        ) is Ok ==> do_aggregate(e, side, cmd, t).1 == Err::<(), ErrV>(no_unit(other))),
{
}

// ---------- refused orders ----------

/// Whether a result refuses an order, rather than finding a rule missing.
pub open spec fn refuses(r: Result<(), ErrV>) -> bool {
    match r {
        Ok(_) => false,
        Err(EngineError::Rules(_)) => false,
        Err(_) => true,
    }
}

proof fn refused_movement(e: EngineV, side: SideId, cmd: Json, op: Seq<char>, t: Tick)
    requires
        op != "move_to"@,
    ensures
        match movement_order(e, side, cmd, op, t) {
            Some(d) => refuses(d.1) ==> d.0 == e,
            None => true,
        },
{
    reveal(movement_order);
}

proof fn refused_fire(e: EngineV, side: SideId, cmd: Json, op: Seq<char>, t: Tick)
    ensures
        match fire_order(e, side, cmd, op, t) {
            Some(d) => refuses(d.1) ==> d.0 == e,
            None => true,
        },
{
    reveal(fire_order);
    refused_direct(e, side, cmd, t);
    refused_aa(e, side, cmd, t);
    refused_guided(e, side, cmd, t);
    refused_strike(e, side, cmd, t);
}

proof fn refused_direct(e: EngineV, side: SideId, cmd: Json, t: Tick)
    ensures
        refuses(do_fire(e, side, cmd, t).1) ==> do_fire(e, side, cmd, t).0 == e,
{
}

proof fn refused_aa(e: EngineV, side: SideId, cmd: Json, t: Tick)
    ensures
        refuses(do_aa_fire(e, side, cmd, t).1) ==> do_aa_fire(e, side, cmd, t).0 == e,
{
}

proof fn refused_guided(e: EngineV, side: SideId, cmd: Json, t: Tick)
    ensures
        refuses(do_guide_fire(e, side, cmd, t).1) ==> do_guide_fire(e, side, cmd, t).0 == e,
{
}

proof fn refused_strike(e: EngineV, side: SideId, cmd: Json, t: Tick)
    ensures
        refuses(do_strike(e, side, cmd, t).1) ==> do_strike(e, side, cmd, t).0 == e,
{
}

proof fn refused_transport(e: EngineV, side: SideId, cmd: Json, op: Seq<char>, t: Tick)
    ensures
        match transport_order(e, side, cmd, op, t) {
            Some(d) => refuses(d.1) ==> d.0 == e,
            None => true,
        },
{
    reveal(transport_order);
}

proof fn refused_support(e: EngineV, side: SideId, cmd: Json, op: Seq<char>, t: Tick)
    ensures
        match support_order(e, side, cmd, op, t) {
            Some(d) => refuses(d.1) ==> d.0 == e,
            None => true,
        },
{
    reveal(support_order);
}

proof fn refused_formation(e: EngineV, side: SideId, cmd: Json, op: Seq<char>, t: Tick)
    ensures
        match formation_order(e, side, cmd, op, t) {
            Some(d) => refuses(d.1) ==> d.0 == e,
            None => true,
        },
{
    reveal(formation_order);
}

/// A unit that can leave its hex at no cost: no fight is on there, and it has no radar on.
pub open spec fn leaves_freely(e: EngineV, id: Id) -> bool {
    !e.radar_on.contains_key(id) && !e.same_hex.contains_key(e.units[id].pos)
}

proof fn refused_move(e: EngineV, side: SideId, cmd: Json, t: Tick)
    ensures
        refuses(do_move(e, side, cmd, t).1) ==> do_move(e, side, cmd, t).0 == e || (match text_in(
            cmd,
            "unitId"@,
        ) {
            Some(id) => do_move(e, side, cmd, t).0 == leave_hex(e, id, t),
            None => false,
        }),
{
}

/// A unit that can leave its hex at no cost changes nothing by leaving.
pub proof fn leaving_freely(e: EngineV, id: Id, t: Tick)
    requires
        leaves_freely(e, id),
    ensures
        leave_hex(e, id, t) == e,
{
    assert(e.radar_on.remove(id) =~= e.radar_on);
}

/// A refused order changes nothing: no state, no dice, no cover is lost. The one exception is a move
/// that is refused for its speed: a radar that was on is off by then, and a fight that was left has
/// been paid for.
pub proof fn refused_changes_nothing(e: EngineV, side: SideId, cmd: Json, t: Tick)
    ensures
        refuses(submit(e, side, cmd, t).1) ==> submit(e, side, cmd, t).0 == e || (text_in(
            cmd,
            "op"@,
        ) == Some("move_to"@) && match text_in(cmd, "unitId"@) {
            Some(id) => submit(e, side, cmd, t).0 == leave_hex(e, id, t),
            None => false,
        }),
{
    if let Some(op) = text_in(cmd, "op"@) {
        if op == "move_to"@ {
            reveal_strlit("wait");
            reveal_strlit("move_to");
            assert("move_to"@.len() != "wait"@.len());
            moves_are_moves(e, side, cmd, t);
            refused_move(e, side, cmd, t);
        } else {
            refused_movement(e, side, cmd, op, t);
        }
        refused_fire(e, side, cmd, op, t);
        refused_transport(e, side, cmd, op, t);
        refused_support(e, side, cmd, op, t);
        refused_formation(e, side, cmd, op, t);
    }
}

proof fn moves_are_moves(e: EngineV, side: SideId, cmd: Json, t: Tick)
    ensures
        movement_order(e, side, cmd, "move_to"@, t) == Some(do_move(e, side, cmd, t)),
{
    reveal(movement_order);
    reveal_strlit("stop");
    reveal_strlit("move_to");
    assert("stop"@.len() != "move_to"@.len());
}

} // verus!
