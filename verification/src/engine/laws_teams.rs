//! A merge or a split neither gains nor loses teams.
use crate::engine::events::{
    child_id, child_of, finish_merge, finish_split, handle, held_now, merged_teams, split_teams,
};
use crate::engine::laws_rest::{total, whole};
use crate::engine::model as m;
use crate::engine::model::{AggSplitKind, EngineV, Event, Id};
use crate::ordmap::{keys_listed, sorted_keys, MapKey};
use crate::rules::at;
use crate::time::{next_of, Tick};
use crate::types::{RuntimeUnit, SideId, UnitV};
use vstd::prelude::*;

verus! {

// ---------- sums ----------

/// The teams of a unit that counts for a side: a live one of it.
pub open spec fn live_teams(side: SideId) -> spec_fn(UnitV) -> nat {
    |u: UnitV|
        if u.alive && u.side == side {
            u.teams as nat
        } else {
            0
        }
}

/// The teams that a side has left.
pub open spec fn side_teams(units: Map<Id, UnitV>, side: SideId) -> nat {
    whole(units, live_teams(side))
}

spec fn share(units: Map<Id, UnitV>, k: Id, f: spec_fn(UnitV) -> nat) -> nat {
    match at(units, k) {
        Some(u) => f(u),
        None => 0,
    }
}

proof fn total_put(units: Map<Id, UnitV>, ids: Seq<Id>, x: Id, u: UnitV, f: spec_fn(UnitV) -> nat)
    requires
        ids.no_duplicates(),
    ensures
        ids.contains(x) ==> total(units.insert(x, u), ids, f) + share(units, x, f) == total(
            units,
            ids,
            f,
        ) + f(u),
        !ids.contains(x) ==> total(units.insert(x, u), ids, f) == total(units, ids, f),
    decreases ids.len(),
{
    if ids.len() > 0 {
        let rest = ids.drop_last();
        total_put(units, rest, x, u, f);
        if rest.contains(x) {
            let i = rest.index_of(x);
            assert(ids[i] == x && ids[ids.len() - 1] != x);
        } else if ids.contains(x) {
            let i = ids.index_of(x);
            if i < rest.len() {
                assert(rest[i] == x);
            }
        } else {
            assert(ids[ids.len() - 1] != x);
        }
    }
}

proof fn total_without(units: Map<Id, UnitV>, ids: Seq<Id>, i: int, f: spec_fn(UnitV) -> nat)
    requires
        0 <= i < ids.len(),
    ensures
        total(units, ids, f) == total(units, ids.remove(i), f) + share(units, ids[i], f),
    decreases ids.len(),
{
    if i == ids.len() - 1 {
        assert(ids.remove(i) =~= ids.drop_last());
    } else {
        total_without(units, ids.drop_last(), i, f);
        assert(ids.remove(i).drop_last() =~= ids.drop_last().remove(i));
        assert(ids.remove(i).last() == ids.last());
    }
}

/// The sum does not depend on the order in which the units are listed.
proof fn total_relisted(units: Map<Id, UnitV>, s: Seq<Id>, t: Seq<Id>, f: spec_fn(UnitV) -> nat)
    requires
        s.no_duplicates(),
        t.no_duplicates(),
        forall|k: Id| #[trigger] s.contains(k) <==> t.contains(k),
    ensures
        total(units, s, f) == total(units, t, f),
    decreases s.len(),
{
    if s.len() == 0 {
        if t.len() > 0 {
            assert(t.contains(t[0]));
            assert(s.contains(t[0]));
        }
    } else {
        let x = s.last();
        let rest = s.drop_last();
        assert(s.contains(x));
        let i = t.index_of(x);
        let t1 = t.remove(i);
        total_without(units, t, i, f);
        assert(t1.no_duplicates());
        assert forall|k: Id| #[trigger] rest.contains(k) <==> t1.contains(k) by {
            if rest.contains(k) {
                let j = rest.index_of(k);
                assert(s[j] == k);
                assert(s.contains(k));
                let l = t.index_of(k);
                assert(l != i);
                if l < i {
                    assert(t1[l] == k);
                } else {
                    assert(t1[l - 1] == k);
                }
            }
            if t1.contains(k) {
                let l = t1.index_of(k);
                let l0 = if l < i {
                    l
                } else {
                    l + 1
                };
                assert(t[l0] == k);
                assert(t.contains(k));
                assert(s.contains(k));
                let j = s.index_of(k);
                assert(k != x);
                assert(rest[j] == k);
            }
        }
        total_relisted(units, rest, t1, f);
    }
}

proof fn keys_once(dom: Set<Id>)
    requires
        dom.finite(),
    ensures
        sorted_keys::<String>(dom).no_duplicates(),
        forall|k: Id| #[trigger] dom.contains(k) <==> sorted_keys::<String>(dom).contains(k),
{
    keys_listed::<String>(dom);
    <String as MapKey>::order_laws();
    let s = sorted_keys::<String>(dom);
    assert forall|i: int, j: int| 0 <= i < s.len() && 0 <= j < s.len() && i != j implies s[i]
        != s[j] by {
        if i < j {
            assert(String::precedes(s[i], s[j]));
        } else {
            assert(String::precedes(s[j], s[i]));
        }
    }
}

/// Putting a unit in its place changes the sum by what it counts more or less.
proof fn whole_put(units: Map<Id, UnitV>, x: Id, u: UnitV, f: spec_fn(UnitV) -> nat)
    requires
        units.dom().finite(),
    ensures
        whole(units.insert(x, u), f) + share(units, x, f) == whole(units, f) + f(u),
        units.insert(x, u).dom().finite(),
{
    let dom = units.dom();
    let s = sorted_keys::<String>(dom);
    keys_once(dom);
    let after = units.insert(x, u);
    assert(after.dom() =~= dom.insert(x));
    if dom.contains(x) {
        assert(dom.insert(x) =~= dom);
        total_put(units, s, x, u, f);
    } else {
        assert(!s.contains(x));
        let t = sorted_keys::<String>(after.dom());
        keys_once(after.dom());
        let more = s.push(x);
        assert forall|i: int, j: int| 0 <= i < more.len() && 0 <= j < more.len() && i
            != j implies more[i] != more[j] by {
            if i < s.len() {
                assert(s.contains(s[i]));
            }
            if j < s.len() {
                assert(s.contains(s[j]));
            }
        }
        assert forall|k: Id| #[trigger] t.contains(k) <==> more.contains(k) by {
            assert(after.dom().contains(k) <==> t.contains(k));
            if s.contains(k) {
                assert(more[s.index_of(k)] == k);
            }
            assert(more[s.len() as int] == x);
            if more.contains(k) && k != x {
                assert(s[more.index_of(k)] == k);
            }
            assert(dom.contains(k) <==> s.contains(k));
        }
        total_relisted(after, t, more, f);
        assert(more.drop_last() =~= s);
        total_put(units, s, x, u, f);
    }
}

proof fn busy_costs_nothing(e: EngineV, id: Id, t: Tick, side: SideId)
    requires
        e.units.dom().finite(),
    ensures
        side_teams(m::set_busy(e, id, t).units, side) == side_teams(e.units, side),
        m::set_busy(e, id, t).units.dom().finite(),
{
    if e.units.contains_key(id) {
        whole_put(
            e.units,
            id,
            RuntimeUnit { busy_until: t, ..e.units[id] },
            live_teams(side),
        );
    }
}

// ---------- merges and splits ----------

/// Whether a live enemy of a unit stands on its hex.
pub open spec fn enemy_beside(units: Map<Id, UnitV>, id: Id) -> bool {
    exists|k: Id| #[trigger]
        units.contains_key(k) && units[k].alive && units[k].pos == units[id].pos && units[k].side
            != units[id].side
}

proof fn merge_conserves(e: EngineV, id: Id, other: Id, side: SideId)
    requires
        e.units.dom().finite(),
        e.units.contains_key(id),
        e.units.contains_key(other),
        id != other,
        !enemy_beside(e.units, id),
    ensures
        side_teams(finish_merge(e, id, other).units, side) == side_teams(e.units, side),
{
    let f = live_teams(side);
    if let Some(n) = merged_teams(e, id, other) {
        let a = e.units[id];
        let b = e.units[other];
        assert(e.units.contains_key(other));
        assert(b.side == a.side);
        let a1 = RuntimeUnit { teams: n, busy_until: 0, ..a };
        whole_put(e.units, id, a1, f);
        let e1 = m::put_unit(e, id, a1);
        assert(e1.units[other] == b);
        let b1 = RuntimeUnit { alive: false, teams: 0, ..b };
        whole_put(e1.units, other, b1, f);
        let e2 = m::set_dead(e1, other);
        assert(e2.units == e1.units.insert(other, b1));
        busy_costs_nothing(e2, other, 0, side);
    } else {
        busy_costs_nothing(e, id, 0, side);
        busy_costs_nothing(m::set_busy(e, id, 0), other, 0, side);
    }
}

proof fn split_conserves(e: EngineV, id: Id, side: SideId)
    requires
        e.units.dom().finite(),
        e.units.contains_key(id),
        !enemy_beside(e.units, id),
    ensures
        side_teams(finish_split(e, id).units, side) == side_teams(e.units, side),
        split_teams(e, id) is Some && !e.units.contains_key(child_id(id, next_of(e.spawn_ctr)))
            ==> finish_split(e, id).units == split_units(e, id),
{
    let f = live_teams(side);
    let u = e.units[id];
    let n = next_of(e.spawn_ctr);
    let child = child_id(id, n);
    let e1 = EngineV { spawn_ctr: n, ..e };
    busy_costs_nothing(e, id, 0, side);
    busy_costs_nothing(e1, id, 0, side);
    if let Some((keep, off)) = split_teams(e, id) {
        if !e.units.contains_key(child) {
            let v = child_of(u, child, off);
            whole_put(e.units, child, v, f);
            let e2 = m::put_unit(e1, child, v);
            assert(child != id);
            assert(e2.units[id] == u);
            let w = RuntimeUnit { teams: keep, busy_until: 0, ..u };
            whole_put(e2.units, id, w, f);
            let e3 = m::put_unit(e2, id, w);
            let e4 = m::stamp_entry(m::stamp_entry(e3, id), child);
            assert(!m::contested(e4.units, u.pos)) by {
                let foe = if u.side == SideId::Red {
                    SideId::Blue
                } else {
                    SideId::Red
                };
                let p = m::side_fights_at(u.pos, foe);
                assert forall|k: Id| #[trigger] e4.units.contains_key(k) implies !p(
                    k,
                    e4.units[k],
                ) by {
                    if k != id && k != child {
                        assert(e.units.contains_key(k));
                    }
                }
                assert(!crate::ordmap::some_entry(e4.units, p));
            }
        }
    }
}

/// The units after a split that lands: the unit keeps the larger half, and the smaller stands beside
/// it under a new id.
pub open spec fn split_units(e: EngineV, id: Id) -> Map<Id, UnitV> {
    let u = e.units[id];
    let child = child_id(id, next_of(e.spawn_ctr));
    let off = u.teams / 2;
    e.units.insert(child, child_of(u, child, off)).insert(
        id,
        RuntimeUnit { teams: (u.teams - off) as u8, busy_until: 0, ..u },
    )
}

/// Whether the end of a merge or split that is under way for a unit is due.
pub open spec fn ends_now(e: EngineV, id: Id, gen: u64) -> bool {
    e.aggsplit_op.contains_key(id) && e.aggsplit_op[id].gen == gen && held_now(e, id)
        && match e.aggsplit_op[id].kind {
        AggSplitKind::Aggregate { other } => held_now(e, other),
        AggSplitKind::Split => true,
    }
}

/// The end of a merge or split, landed or not, leaves each side as many teams as before, where no
/// enemy stands on the hex and no unit is merged with itself.
pub proof fn merge_and_split_conserve_teams(e: EngineV, id: Id, gen: u64, side: SideId)
    requires
        e.units.dom().finite(),
        !enemy_beside(e.units, id),
        e.aggsplit_op.contains_key(id) ==> e.aggsplit_op[id].kind != (AggSplitKind::Aggregate {
            other: id,
        }),
    ensures
        side_teams(handle(e, Event::AggSplitComplete { unit: id, gen }).units, side) == side_teams(
            e.units,
            side,
        ),
{
    if ends_now(e, id, gen) {
        let e1 = EngineV { aggsplit_op: e.aggsplit_op.remove(id), ..e };
        match e.aggsplit_op[id].kind {
            AggSplitKind::Aggregate { other } => {
                merge_conserves(e1, id, other, side);
            },
            AggSplitKind::Split => {
                split_conserves(e1, id, side);
            },
        }
    }
}

/// A merge that lands gives the unit the teams of both, and leaves the other dead and without teams.
pub proof fn merges_add_up(e: EngineV, id: Id, gen: u64, other: Id)
    requires
        ends_now(e, id, gen),
        e.aggsplit_op[id].kind == (AggSplitKind::Aggregate { other }),
        id != other,
        merged_teams(e, id, other) is Some,
    ensures
        ({
            let e1 = handle(e, Event::AggSplitComplete { unit: id, gen });
            &&& e1.units[id] == (RuntimeUnit {
                teams: (e.units[id].teams + e.units[other].teams) as u8,
                busy_until: 0,
                ..e.units[id]
            })
            &&& !e1.units[other].alive && e1.units[other].teams == 0
        }),
{
    let e1 = EngineV { aggsplit_op: e.aggsplit_op.remove(id), ..e };
    assert(merged_teams(e1, id, other) == merged_teams(e, id, other));
}

/// A split that lands, where no enemy stands on the hex, leaves the unit the larger half of its
/// teams, and adds one live unit of the same side, type and armor at the same hex.
pub proof fn splits_halve(e: EngineV, id: Id, gen: u64)
    requires
        e.units.dom().finite(),
        ends_now(e, id, gen),
        e.aggsplit_op[id].kind == AggSplitKind::<Id>::Split,
        split_teams(e, id) is Some,
        !e.units.contains_key(child_id(id, next_of(e.spawn_ctr))),
        !enemy_beside(e.units, id),
    ensures
        handle(e, Event::AggSplitComplete { unit: id, gen }).units == split_units(e, id),
{
    let e1 = EngineV { aggsplit_op: e.aggsplit_op.remove(id), ..e };
    assert(split_teams(e1, id) == split_teams(e, id));
    split_conserves(e1, id, SideId::Red);
}

/// At the end of a merge it lands exactly if both are still alive, stand still in one hex without a
/// fight, are of one type, not suppressed, and have teams that together are within the cap.
pub proof fn when_a_merge_lands(e: EngineV, id: Id, other: Id, cap: i64)
    requires
        crate::rules::setting(e.rules.control, "max_squads_per_unit"@) == Some(cap),
        0 <= cap <= 255,
        e.units.contains_key(id),
        e.units.contains_key(other),
    ensures
        ({
            let (a, b) = (e.units[id], e.units[other]);
            merged_teams(e, id, other) is Some <==> a.alive && b.alive && a.state
                == crate::types::UnitState::Stopped && b.state == crate::types::UnitState::Stopped
                && a.pos == b.pos && a.unit_type == b.unit_type && !e.same_hex.contains_key(a.pos)
                && a.suppressed_until <= e.clock && b.suppressed_until <= e.clock && a.teams > 0
                && b.teams > 0 && a.teams + b.teams <= cap
        }),
{
}

/// At the end of a split it lands exactly if the unit is still alive, stands still in a hex without a
/// fight and with room for one more, is not suppressed, and has at least two teams and no more than
/// the cap.
pub proof fn when_a_split_lands(e: EngineV, id: Id, cap: i64)
    requires
        crate::rules::setting(e.rules.control, "max_squads_per_unit"@) == Some(cap),
        0 <= cap <= 255,
        e.units.contains_key(id),
    ensures
        ({
            let u = e.units[id];
            split_teams(e, id) is Some <==> u.alive && u.state == crate::types::UnitState::Stopped
                && !e.same_hex.contains_key(u.pos) && u.suppressed_until <= e.clock
                && crate::mechanics::stack_room(e.units, u.side, u.pos, "#probe"@, e.stacking_cap)
                && 2 <= u.teams <= cap
        }),
{
}

/// A regrouping that was called off, or that a newer order holds, changes nobody.
pub proof fn when_a_regrouping_is_off(e: EngineV, id: Id, gen: u64)
    requires
        !ends_now(e, id, gen),
    ensures
        handle(e, Event::AggSplitComplete { unit: id, gen }).units == e.units,
{
}

} // verus!
