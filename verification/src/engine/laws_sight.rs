//! What the observation of a side shows, and what it does not.
use crate::engine::model as m;
use crate::engine::model::{EngineV, Id};
use crate::engine::observe::{
    contact_list, contact_of, enemy_works, enemy_works_list, known_mines, looks_out, mine_list,
    mine_range, observation, observed_ids, observer_of, own_inside, own_list, seen_by, sees_within,
    spots_mines, tracked_ids, works_list, works_range, works_view,
};
use crate::hex::Axial;
use crate::mechanics::{
    altitude_levels, enemy_before, lowest_enemy, observes, recon_of, space_track,
};
use crate::ordmap::{filter_same, keys_where, keys_where_has, keys_where_same, some_entry};
use crate::rules::at;
use crate::types::{live_of, on_board, FacilityV, RuntimeMinefield, SideId, UnitV};
use vstd::prelude::*;

verus! {

/// Every enemy that a side is shown is a live enemy on the board, with its id, type and place and
/// nothing else; and it is shown as observed only if some unit of the side observes it.
pub proof fn shown_enemies_are_known(e: EngineV, side: SideId, i: int)
    requires
        e.units.dom().finite(),
        0 <= i < contact_list(e, side).len(),
    ensures
        exists|k: Id| #[trigger]
            e.units.contains_key(k) && e.units[k].alive && e.units[k].side != side && on_board(
                e.units[k],
            ) && contact_list(e, side)[i] == contact_of(
                e.units[k],
                contact_list(e, side)[i].space_track,
            ) && (contact_list(e, side)[i].space_track || some_entry(
                e.units,
                observer_of(e, side, e.units[k]),
            )) && (contact_list(e, side)[i].space_track ==> some_entry(e.units, recon_of(side))),
{
    let seen = observed_ids(e, side);
    let space = tracked_ids(e, side);
    if i < seen.len() {
        let k = seen[i];
        assert(seen.contains(k));
        keys_where_has::<String, UnitV>(e.units, seen_by(e, side), k);
        assert(e.units.contains_key(k));
    } else {
        let j = i - seen.len();
        let k = space[j];
        let all = space_track(e.units, side);
        assert(space.contains(k));
        kept_by_filter(all, |x: Id| !seen_by(e, side)(x, e.units[x]), k);
        assert(all.contains(k));
        keys_where_has::<String, UnitV>(e.units, lowest_enemy(e.units, side), k);
        assert(e.units.contains_key(k));
    }
}

proof fn kept_by_filter<A>(s: Seq<A>, q: spec_fn(A) -> bool, x: A)
    requires
        s.filter(q).contains(x),
    ensures
        s.contains(x),
        q(x),
    decreases s.len(),
{
    reveal(Seq::filter);
    if s.len() > 0 {
        let t = s.drop_last();
        let f = t.filter(q);
        let i = s.filter(q).index_of(x);
        if i < f.len() {
            assert(f[i] == x);
            kept_by_filter(t, q, x);
            let j = t.index_of(x);
            assert(s[j] == x);
        } else {
            assert(s[s.len() - 1] == x);
        }
    }
}

/// Every enemy on the board that some unit of a side observes is shown to it.
pub proof fn observed_enemies_are_shown(e: EngineV, side: SideId, k: Id)
    requires
        e.units.dom().finite(),
        e.units.contains_key(k),
        seen_by(e, side)(k, e.units[k]),
    ensures
        contact_list(e, side).contains(contact_of(e.units[k], false)),
{
    let seen = observed_ids(e, side);
    keys_where_has::<String, UnitV>(e.units, seen_by(e, side), k);
    let i = seen.index_of(k);
    assert(contact_list(e, side)[i] == contact_of(e.units[k], false));
}

// ---------- what stays hidden ----------

/// Whether two units look the same from outside: they may differ in armor, teams, facing, weapon,
/// busyness, suppression, affiliation and fatigue.
pub open spec fn looks_like(u: UnitV, v: UnitV) -> bool {
    v.id == u.id && v.side == u.side && v.unit_type == u.unit_type && v.pos == u.pos && v.state
        == u.state && v.alive == u.alive && v.carried_by == u.carried_by && v.inside_facility
        == u.inside_facility && v.heli_alt == u.heli_alt
}

/// Whether two states look the same to `side`: they differ at most in what cannot be seen of the
/// other side's units.
pub open spec fn alike_for(a: EngineV, b: EngineV, side: SideId) -> bool {
    &&& a.map == b.map && a.rules == b.rules && a.scenario == b.scenario && a.clock == b.clock
        && a.control == b.control && a.facilities == b.facilities && a.minefields == b.minefields
    &&& a.units.dom() == b.units.dom()
    &&& forall|k: Id| #[trigger]
        a.units.contains_key(k) ==> looks_like(a.units[k], b.units[k]) && (a.units[k].side == side
            ==> a.units[k] == b.units[k])
}

proof fn some_alike(a: EngineV, b: EngineV, side: SideId, p: spec_fn(Id, UnitV) -> bool, q: spec_fn(Id, UnitV) -> bool)
    requires
        alike_for(a, b, side),
        forall|k: Id| #[trigger] a.units.contains_key(k) ==> p(k, a.units[k]) == q(k, b.units[k]),
    ensures
        some_entry(a.units, p) == some_entry(b.units, q),
{
    if some_entry(a.units, p) {
        let k = choose|k: Id| #[trigger] a.units.contains_key(k) && p(k, a.units[k]);
        assert(b.units.dom().contains(k));
        assert(b.units.contains_key(k) && q(k, b.units[k]));
    }
    if some_entry(b.units, q) {
        let k = choose|k: Id| #[trigger] b.units.contains_key(k) && q(k, b.units[k]);
        assert(a.units.dom().contains(k));
        assert(a.units.contains_key(k) && p(k, a.units[k]));
    }
}

proof fn seen_alike(a: EngineV, b: EngineV, side: SideId, k: Id)
    requires
        alike_for(a, b, side),
        a.units.contains_key(k),
    ensures
        seen_by(a, side)(k, a.units[k]) == seen_by(b, side)(k, b.units[k]),
{
    let (u, v) = (a.units[k], b.units[k]);
    let p = observer_of(a, side, u);
    let q = observer_of(b, side, v);
    assert forall|j: Id| #[trigger] a.units.contains_key(j) implies p(j, a.units[j]) == q(
        j,
        b.units[j],
    ) by {
        let o = a.units[j];
        assert(looks_like(o, b.units[j]));
        assert(looks_out(a, o) == looks_out(b, o));
        assert(observes(a.rules, a.map, o, u) == observes(b.rules, b.map, o, v)) by {
            assert(altitude_levels(a.rules, a.map, u) == altitude_levels(b.rules, b.map, v));
        }
    }
    some_alike(a, b, side, p, q);
}

proof fn contacts_alike(a: EngineV, b: EngineV, side: SideId)
    requires
        alike_for(a, b, side),
        a.units.dom().finite(),
    ensures
        contact_list(a, side) == contact_list(b, side),
{
    assert forall|k: Id| #[trigger] a.units.contains_key(k) implies seen_by(a, side)(
        k,
        a.units[k],
    ) == seen_by(b, side)(k, b.units[k]) by {
        seen_alike(a, b, side, k);
    }
    keys_where_same::<String, UnitV, UnitV>(
        a.units,
        b.units,
        seen_by(a, side),
        seen_by(b, side),
    );
    let seen = observed_ids(a, side);
    assert(seen == observed_ids(b, side));
    some_alike(a, b, side, recon_of(side), recon_of(side));
    assert forall|k: Id| #[trigger] a.units.contains_key(k) implies lowest_enemy(a.units, side)(
        k,
        a.units[k],
    ) == lowest_enemy(b.units, side)(k, b.units[k]) by {
        some_alike(
            a,
            b,
            side,
            enemy_before(side, a.units[k].pos, k),
            enemy_before(side, b.units[k].pos, k),
        );
    }
    keys_where_same::<String, UnitV, UnitV>(
        a.units,
        b.units,
        lowest_enemy(a.units, side),
        lowest_enemy(b.units, side),
    );
    let all = space_track(a.units, side);
    assert(all == space_track(b.units, side));
    let p = |k: Id| !seen_by(a, side)(k, a.units[k]);
    let q = |k: Id| !seen_by(b, side)(k, b.units[k]);
    assert forall|i: int| 0 <= i < all.len() implies p(#[trigger] all[i]) == q(all[i]) by {
        assert(all.contains(all[i]));
        keys_where_has::<String, UnitV>(a.units, lowest_enemy(a.units, side), all[i]);
        assert(a.units.contains_key(all[i]));
    }
    filter_same(all, p, q);
    let space = tracked_ids(a, side);
    assert(space == tracked_ids(b, side));
    assert forall|i: int| 0 <= i < seen.len() implies #[trigger] a.units.contains_key(seen[i]) by {
        assert(seen.contains(seen[i]));
        keys_where_has::<String, UnitV>(a.units, seen_by(a, side), seen[i]);
    }
    assert forall|i: int| 0 <= i < space.len() implies #[trigger] a.units.contains_key(space[i]) by {
        assert(space.contains(space[i]));
        kept_by_filter(all, p, space[i]);
        keys_where_has::<String, UnitV>(a.units, lowest_enemy(a.units, side), space[i]);
    }
    let (x, y) = (contact_list(a, side), contact_list(b, side));
    assert forall|i: int| 0 <= i < x.len() implies x[i] == y[i] by {
        if i < seen.len() {
            assert(a.units.contains_key(seen[i]));
            assert(looks_like(a.units[seen[i]], b.units[seen[i]]));
        } else {
            let k = space[i - seen.len()];
            assert(a.units.contains_key(k));
            assert(looks_like(a.units[k], b.units[k]));
        }
    }
    assert(x =~= y);
}

proof fn own_alike(a: EngineV, b: EngineV, side: SideId)
    requires
        alike_for(a, b, side),
        a.units.dom().finite(),
    ensures
        own_list(a, side) == own_list(b, side),
{
    keys_where_same::<String, UnitV, UnitV>(a.units, b.units, live_of(side), live_of(side));
    let ids = keys_where::<String, UnitV>(a.units, live_of(side));
    assert forall|i: int| 0 <= i < ids.len() implies a.units[#[trigger] ids[i]] == b.units[ids[i]] by {
        assert(ids.contains(ids[i]));
        keys_where_has::<String, UnitV>(a.units, live_of(side), ids[i]);
        assert(a.units.contains_key(ids[i]));
    }
    assert(own_list(a, side) =~= own_list(b, side));
}

proof fn teams_alike(a: Map<Id, UnitV>, b: Map<Id, UnitV>, ids: Seq<Id>)
    requires
        forall|i: int|
            0 <= i < ids.len() ==> a.contains_key(#[trigger] ids[i]) && b.contains_key(ids[i])
                && a[ids[i]] == b[ids[i]],
    ensures
        m::teams_of(a, ids) == m::teams_of(b, ids),
    decreases ids.len(),
{
    if ids.len() > 0 {
        let rest = ids.drop_last();
        assert forall|i: int| 0 <= i < rest.len() implies a.contains_key(#[trigger] rest[i])
            && b.contains_key(rest[i]) && a[rest[i]] == b[rest[i]] by {
            assert(rest[i] == ids[i]);
        }
        teams_alike(a, b, rest);
        assert(ids.last() == ids[ids.len() - 1]);
    }
}

proof fn works_alike(a: EngineV, b: EngineV, side: SideId)
    requires
        alike_for(a, b, side),
        a.units.dom().finite(),
        a.facilities.dom().finite(),
    ensures
        works_list(a, side) == works_list(b, side),
        enemy_works_list(a, side) == enemy_works_list(b, side),
{
    assert forall|f: FacilityV| works_view(a, f, side) == works_view(b, f, side) by {
        let p = own_inside(f.id, side);
        assert forall|k: Id| #[trigger] a.units.contains_key(k) implies p(k, a.units[k]) == p(
            k,
            b.units[k],
        ) by {
            assert(looks_like(a.units[k], b.units[k]));
        }
        keys_where_same::<String, UnitV, UnitV>(a.units, b.units, p, p);
        let ids = keys_where::<String, UnitV>(a.units, p);
        assert forall|i: int| 0 <= i < ids.len() implies a.units.contains_key(#[trigger] ids[i])
            && b.units.contains_key(ids[i]) && a.units[ids[i]] == b.units[ids[i]] by {
            assert(ids.contains(ids[i]));
            keys_where_has::<String, UnitV>(a.units, p, ids[i]);
            assert(a.units.contains_key(ids[i]));
            assert(b.units.dom().contains(ids[i]));
        }
        teams_alike(a.units, b.units, ids);
    }
    assert(works_list(a, side) =~= works_list(b, side));
    assert forall|k: Id| #[trigger] a.facilities.contains_key(k) implies enemy_works(a, side)(
        k,
        a.facilities[k],
    ) == enemy_works(b, side)(k, b.facilities[k]) by {
        let f = a.facilities[k];
        let range = works_range(a, f);
        let p = sees_within(a, side, f.at, range);
        let q = sees_within(b, side, f.at, range);
        assert forall|j: Id| #[trigger] a.units.contains_key(j) implies p(j, a.units[j]) == q(
            j,
            b.units[j],
        ) by {
            assert(looks_like(a.units[j], b.units[j]));
            assert(looks_out(a, a.units[j]) == looks_out(b, a.units[j]));
        }
        some_alike(a, b, side, p, q);
    }
    keys_where_same::<String, FacilityV, FacilityV>(
        a.facilities,
        b.facilities,
        enemy_works(a, side),
        enemy_works(b, side),
    );
    assert(enemy_works_list(a, side) =~= enemy_works_list(b, side));
}

proof fn mines_alike(a: EngineV, b: EngineV, side: SideId)
    requires
        alike_for(a, b, side),
        a.minefields.dom().finite(),
    ensures
        mine_list(a, side) == mine_list(b, side),
{
    assert forall|h: Axial| #[trigger] a.minefields.contains_key(h) implies known_mines(a, side)(
        h,
        a.minefields[h],
    ) == known_mines(b, side)(h, b.minefields[h]) by {
        let f = a.minefields[h];
        let p = spots_mines(a, side, f.at, mine_range(a));
        let q = spots_mines(b, side, f.at, mine_range(b));
        assert forall|j: Id| #[trigger] a.units.contains_key(j) implies p(j, a.units[j]) == q(
            j,
            b.units[j],
        ) by {
            assert(looks_like(a.units[j], b.units[j]));
        }
        some_alike(a, b, side, p, q);
    }
    keys_where_same::<Axial, RuntimeMinefield, RuntimeMinefield>(
        a.minefields,
        b.minefields,
        known_mines(a, side),
        known_mines(b, side),
    );
    assert(mine_list(a, side) =~= mine_list(b, side));
}

/// Fog of war: what a side sees does not depend on the armor, teams, facing, weapons, busyness,
/// suppression, affiliation or fatigue of the other side's units.
pub proof fn hidden_things_stay_hidden(a: EngineV, b: EngineV, side: SideId)
    requires
        alike_for(a, b, side),
        a.units.dom().finite(),
        a.facilities.dom().finite(),
        a.minefields.dom().finite(),
    ensures
        observation(a, side) == observation(b, side),
{
    own_alike(a, b, side);
    contacts_alike(a, b, side);
    works_alike(a, b, side);
    mines_alike(a, b, side);
    assert(crate::engine::observe::objective_list(a) =~= crate::engine::observe::objective_list(b));
}

} // verus!
