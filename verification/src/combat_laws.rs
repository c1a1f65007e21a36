//! What shots, salvos and mines come to.
use crate::combat::{
    aa_kill, aa_kills, barrage_effect, addend, terrain_row, aa_level, aa_salvo, additive,
    armor_correction, armor_row, best_place, bound, corrected_level, direct_step, guided_step,
    height_correction, bucket_value, distance_column, in_bucket, in_distance_key, level_of_weapon,
    level_vs_personnel, level_vs_vehicle, loadout_of, mine_loss, mods_of, modified_cell,
    most_urgent, personnel_shot, personnel_verdict, pick_target, place_of_int, place_of_text,
    range_of, salvo, salvo_additive, salvo_effect, same_hex_enemy, same_hex_fire, scatter_named,
    scatter_of, strike_step, strongest, texts_in, unit_shot, urgent_targets, vehicle_shot,
    vehicle_verdict, works_step, FireMods, FireOutcome, GunClass, IndirectBase, IndirectMods,
    IndirectSpotting, Scatter, TargetTerrain,
};
use crate::hex::{steps, Axial};
use crate::json::{jget, jint, jint_or, jitem, jtext, Json};
use crate::mechanics::{altitude_levels, in_sight, observes};
use crate::mechanics_laws::{alike_but_at, typed_as};
use crate::prob::Outcome;
use crate::rng::{dice, die, DrawModel};
use crate::rules::{table_of, Rules, Tables};
use crate::text::dec;
use crate::types::{
    cell_at, Armor, GameMap, SideId, Terrain, UnitState, UnitType, UnitV, WeaponState,
};
use vstd::prelude::*;

verus! {

// ---------- the circumstances of a shot ----------

/// Whether the terrain class of a shot is that of a hex: towns, woods, waters, and anything else.
pub open spec fn ground_is(map: GameMap, hex: Axial, class: TargetTerrain) -> bool {
    match cell_at(map, hex) {
        None => class == TargetTerrain::Open,
        Some(c) => {
            &&& c.terrain == Terrain::Urban <==> class == TargetTerrain::UrbanOrWorks
            &&& c.terrain == Terrain::Forest <==> class == TargetTerrain::Forest
            &&& c.terrain == Terrain::River || c.terrain == Terrain::RiverLarge || c.terrain
                == Terrain::Lake <==> class == TargetTerrain::Water
        },
    }
}

/// Whether a hex is water.
pub open spec fn watery(map: GameMap, hex: Axial) -> bool {
    match cell_at(map, hex) {
        Some(c) => c.terrain == Terrain::River || c.terrain == Terrain::RiverLarge || c.terrain
            == Terrain::Lake,
        None => false,
    }
}

/// The circumstances of a shot: the firer's own posture and, for a tank, the water that it stands
/// in; the target's terrain and posture. The terrain that counts is the target's.
pub proof fn circumstances_of_a_shot(shooter: UnitV, target: UnitV, map: GameMap)
    ensures
        ({
            let c = mods_of(shooter, target, map);
            &&& ground_is(map, target.pos, c.target_terrain)
            &&& c.shooter_suppressed <==> shooter.state == UnitState::Suppressed
            &&& c.shooter_moving <==> shooter.state == UnitState::Moving || shooter.state
                == UnitState::March || shooter.state == UnitState::Charge1 || shooter.state
                == UnitState::Charge2
            &&& c.shooter_water_tank <==> shooter.unit_type == UnitType::Tank && watery(
                map,
                shooter.pos,
            )
            &&& c.target_cover <==> target.state == UnitState::Cover
            &&& c.target_moving <==> target.state == UnitState::Moving || target.state
                == UnitState::March || target.state == UnitState::Charge1 || target.state
                == UnitState::Charge2
            &&& c.target_march <==> target.state == UnitState::March
            &&& !c.target_stacked
        }),
{
}

/// A shot at infantry is adjudicated as one at personnel, any other as one at a vehicle with the
/// target's armor and the height of the firer above it; with the firer's teams, the distance between
/// the two, and the circumstances of both.
pub proof fn shots_of_units<R: DrawModel>(
    t: Tables,
    map: GameMap,
    s: R::V,
    shooter: UnitV,
    weapon: Seq<char>,
    target: UnitV,
    class: TargetTerrain,
    above: int,
)
    requires
        ground_is(map, target.pos, class),
        above == (match cell_at(map, shooter.pos) {
            Some(c) => c.elevation as int,
            None => 0int,
        }) - (match cell_at(map, target.pos) {
            Some(c) => c.elevation as int,
            None => 0int,
        }),
    ensures
        ({
            let r = unit_shot::<R>(t, map, s, shooter, weapon, target);
            let far = steps(shooter.pos, target.pos);
            let mods = FireMods {
                shooter_suppressed: shooter.state == UnitState::Suppressed,
                shooter_moving: shooter.state == UnitState::Moving || shooter.state
                    == UnitState::March || shooter.state == UnitState::Charge1 || shooter.state
                    == UnitState::Charge2,
                shooter_water_tank: shooter.unit_type == UnitType::Tank && watery(
                    map,
                    shooter.pos,
                ),
                target_terrain: class,
                target_cover: target.state == UnitState::Cover,
                target_moving: target.state == UnitState::Moving || target.state == UnitState::March
                    || target.state == UnitState::Charge1 || target.state == UnitState::Charge2,
                target_stacked: false,
                target_march: target.state == UnitState::March,
            };
            &&& target.unit_type == UnitType::Infantry ==> r == personnel_shot::<R>(
                t,
                s,
                weapon,
                shooter.teams,
                far,
                mods,
            )
            &&& target.unit_type != UnitType::Infantry ==> r == vehicle_shot::<R>(
                t,
                s,
                weapon,
                shooter.teams,
                far,
                above,
                target.armor,
                mods,
            )
        }),
{
}

/// Two shots that differ only in what grows where the firer stands, and neither of them over water,
/// come out the same.
pub proof fn own_ground_helps_no_shot<R: DrawModel>(
    t: Tables,
    m1: GameMap,
    m2: GameMap,
    s: R::V,
    shooter: UnitV,
    weapon: Seq<char>,
    target: UnitV,
)
    requires
        alike_but_at(m1, m2, shooter.pos),
        shooter.pos != target.pos,
        !watery(m1, shooter.pos),
        !watery(m2, shooter.pos),
    ensures
        unit_shot::<R>(t, m1, s, shooter, weapon, target) == unit_shot::<R>(
            t,
            m2,
            s,
            shooter,
            weapon,
            target,
        ),
{
    assert(cell_at(m1, target.pos) == cell_at(m2, target.pos));
}

/// A shot asks nothing of the target but its type, armor, posture and place, and nothing of the
/// firer but its type, teams, posture and place.
pub proof fn what_a_shot_asks<R: DrawModel>(
    t: Tables,
    map: GameMap,
    s: R::V,
    a: UnitV,
    a2: UnitV,
    weapon: Seq<char>,
    b: UnitV,
    b2: UnitV,
)
    requires
        a2.unit_type == a.unit_type,
        a2.teams == a.teams,
        a2.state == a.state,
        a2.pos == a.pos,
        b2.unit_type == b.unit_type,
        b2.armor == b.armor,
        b2.state == b.state,
        b2.pos == b.pos,
    ensures
        unit_shot::<R>(t, map, s, a, weapon, b) == unit_shot::<R>(t, map, s, a2, weapon, b2),
{
}

// ---------- when a shot is taken ----------

/// Direct fire is taken exactly if the firer observes the target, its weapon is deployed, it stands
/// still or is a tank that fires its main gun on the move without marching, and the target is within
/// the weapon's range against its kind. Otherwise nothing is drawn or noted.
pub proof fn when_direct_fire_is_taken<R: DrawModel>(
    t: Tables,
    map: GameMap,
    s: R::V,
    rules: Rules,
    shooter: UnitV,
    weapon: Seq<char>,
    target: UnitV,
)
    ensures
        ({
            let r = direct_step::<R>(t, map, s, rules, shooter, weapon, target);
            let far = jint(
                jget(
                    jget(
                        table_of(
                            t,
                            if target.unit_type == UnitType::Infantry {
                                "attack_level_vs_personnel"@
                            } else {
                                "attack_level_vs_vehicle"@
                            },
                            "weapons"@,
                        ),
                        weapon,
                    ),
                    "range"@,
                ),
            );
            let rolling = shooter.unit_type == UnitType::Tank && (weapon == "大号直瞄炮"@ || weapon
                == "中号直瞄炮"@) && (shooter.state == UnitState::Moving || shooter.state
                == UnitState::Charge1 || shooter.state == UnitState::Charge2);
            let taken = observes(rules, map, shooter, target) && shooter.weapon_state
                == WeaponState::Deployed && (shooter.state == UnitState::Stopped || rolling) && far
                is Some && steps(shooter.pos, target.pos) <= far->0;
            &&& taken ==> r == (
                FireOutcome::<Seq<char>>::Resolved(unit_shot::<R>(t, map, s, shooter, weapon, target).0),
                unit_shot::<R>(t, map, s, shooter, weapon, target).1,
                unit_shot::<R>(t, map, s, shooter, weapon, target).2,
            )
            &&& !taken ==> r.0 is Rejected && r.1 is None && r.2 == s
            &&& !observes(rules, map, shooter, target) ==> r.0 == FireOutcome::<Seq<char>>::Rejected(
                "target not observed"@,
            )
        }),
{
}

/// Guided fire is taken exactly with the heavy missile, for a guide that observes the target and is
/// fit to guide, by a vehicle that stands still with its weapon deployed and the target in range;
/// the shot is the vehicle's.
pub proof fn when_guided_fire_is_taken<R: DrawModel>(
    t: Tables,
    map: GameMap,
    s: R::V,
    rules: Rules,
    guide: UnitV,
    vehicle: UnitV,
    weapon: Seq<char>,
    target: UnitV,
)
    ensures
        ({
            let r = guided_step::<R>(t, map, s, rules, guide, vehicle, weapon, target);
            let shot = unit_shot::<R>(t, map, s, vehicle, weapon, target);
            let far = range_of(t, weapon, target.unit_type != UnitType::Infantry);
            let still = guide.state != UnitState::Moving && guide.state != UnitState::March
                && guide.state != UnitState::Charge1 && guide.state != UnitState::Charge2
                && guide.state != UnitState::Suppressed;
            let fit = (guide.unit_type == UnitType::Uav && guide.state == UnitState::Stopped) || ((
            guide.unit_type == UnitType::Infantry || guide.unit_type == UnitType::Ugv) && still
                && guide.weapon_state == WeaponState::Deployed);
            let taken = weapon == "重型导弹"@ && fit && observes(rules, map, guide, target)
                && vehicle.weapon_state == WeaponState::Deployed && vehicle.state
                == UnitState::Stopped && far is Some && steps(vehicle.pos, target.pos) <= far->0;
            &&& taken ==> r == (FireOutcome::<Seq<char>>::Resolved(shot.0), shot.1, shot.2)
            &&& !taken ==> r.0 is Rejected && r.1 is None && r.2 == s
        }),
{
}

/// A loitering munition strikes whatever is in its range against vehicles, as a vehicle with its own
/// armor.
pub proof fn when_a_strike_is_taken<R: DrawModel>(
    t: Tables,
    map: GameMap,
    s: R::V,
    munition: UnitV,
    weapon: Seq<char>,
    target: UnitV,
    above: int,
)
    requires
        above == (match cell_at(map, munition.pos) {
            Some(c) => c.elevation as int,
            None => 0int,
        }) - (match cell_at(map, target.pos) {
            Some(c) => c.elevation as int,
            None => 0int,
        }),
    ensures
        ({
            let r = strike_step::<R>(t, map, s, munition, weapon, target);
            let far = range_of(t, weapon, true);
            let shot = vehicle_shot::<R>(
                t,
                s,
                weapon,
                munition.teams,
                steps(munition.pos, target.pos),
                above,
                target.armor,
                mods_of(munition, target, map),
            );
            if far is Some && steps(munition.pos, target.pos) <= far->0 {
                r == (FireOutcome::<Seq<char>>::Resolved(shot.0), shot.1, shot.2)
            } else {
                r.0 is Rejected && r.1 is None && r.2 == s
            }
        }),
{
}

/// A fortification is fired upon within its own distance of exposure and in sight, as a vehicle with
/// its own armor that stands in a town; nobody's posture but the firer's counts, and that only for
/// whether it may fire.
pub proof fn when_works_are_fired_upon<R: DrawModel>(
    t: Tables,
    map: GameMap,
    s: R::V,
    rules: Rules,
    shooter: UnitV,
    weapon: Seq<char>,
    hex: Axial,
    armor: Armor,
    exposed: int,
    above: int,
)
    requires
        above == (match cell_at(map, shooter.pos) {
            Some(c) => c.elevation as int,
            None => 0int,
        }) - (match cell_at(map, hex) {
            Some(c) => c.elevation as int,
            None => 0int,
        }),
    ensures
        ({
            let r = works_step::<R>(t, map, s, rules, shooter, weapon, hex, armor, exposed);
            let d = steps(shooter.pos, hex);
            let far = range_of(t, weapon, true);
            let rolling = shooter.unit_type == UnitType::Tank && (weapon == "大号直瞄炮"@ || weapon
                == "中号直瞄炮"@) && (shooter.state == UnitState::Moving || shooter.state
                == UnitState::Charge1 || shooter.state == UnitState::Charge2);
            let seen = exposed > 0 && d <= exposed && in_sight(
                map,
                shooter.pos,
                hex,
                altitude_levels(rules, map, shooter),
                0,
            );
            let mods = FireMods {
                shooter_suppressed: false,
                shooter_moving: false,
                shooter_water_tank: false,
                target_terrain: TargetTerrain::UrbanOrWorks,
                target_cover: false,
                target_moving: false,
                target_stacked: false,
                target_march: false,
            };
            let shot = vehicle_shot::<R>(t, s, weapon, shooter.teams, d, above, armor, mods);
            if seen && shooter.weapon_state == WeaponState::Deployed && (shooter.state
                == UnitState::Stopped || rolling) && far is Some && d <= far->0 {
                r == (FireOutcome::<Seq<char>>::Resolved(shot.0), shot.1, shot.2)
            } else {
                r.0 is Rejected && r.1 is None && r.2 == s
            }
        }),
{
}

// ---------- what a shot comes to ----------

/// The correction for height adds to shots downhill what it takes from shots uphill; it is nothing
/// on level ground, and as large as the table's entry for the difference and the distance.
pub proof fn height_favours_the_higher(t: Tables, diff: int, distance: int)
    requires
        diff > 0,
        distance >= 1,
    ensures
        ({
            let cell = jint_or(
                jitem(
                    jget(table_of(t, "height_diff_correction"@, "rows"@), dec(diff as nat)),
                    distance - 1,
                ),
                0,
            );
            &&& height_correction(t, diff, distance) >= 0
            &&& height_correction(t, -diff, distance) == -height_correction(t, diff, distance)
            &&& height_correction(t, 0, distance) == 0
            &&& height_correction(t, diff, distance) == cell || height_correction(t, diff, distance)
                == -cell
        }),
{
}

proof fn place_found(cells: Seq<Json>, x: int, i: int)
    requires
        0 <= i,
    ensures
        match place_of_int(cells, x, i) {
            Some(k) => i <= k < cells.len() && jint(Some(cells[k])) is Some && jint(
                Some(cells[k]),
            )->0 == x && forall|j: int|
                i <= j < k ==> !(jint(Some(#[trigger] cells[j])) is Some && jint(
                    Some(cells[j]),
                )->0 == x),
            None => forall|j: int|
                i <= j < cells.len() ==> !(jint(Some(#[trigger] cells[j])) is Some && jint(
                    Some(cells[j]),
                )->0 == x),
        },
    decreases cells.len() - i,
{
    if i < cells.len() {
        place_found(cells, x, i + 1);
    }
}

/// The attack level corrected for the firer's number of vehicles is the first column, counted from
/// one, under which the raw level stands in the row of that number. A raw level below one comes to
/// nothing.
pub proof fn level_by_column(t: Tables, vehicles: u8, level: int)
    ensures
        level < 1 ==> corrected_level(t, vehicles, level) is None,
        match corrected_level(t, vehicles, level) {
            Some(k) => {
                let row = jget(
                    jget(table_of(t, "result_vs_vehicle"@, "data"@), "stage1"@),
                    dec(vehicles as nat),
                );
                k >= 1 && jint(jitem(row, k - 1)) is Some && jint(jitem(row, k - 1))->0 == level
                    && forall|j: int|
                    1 <= j < k ==> !(jint(#[trigger] jitem(row, j - 1)) is Some && jint(
                        jitem(row, j - 1),
                    )->0 == level)
            },
            None => level >= 1 ==> forall|j: int|
                1 <= j ==> !(jint(
                    #[trigger] jitem(
                        jget(
                            jget(table_of(t, "result_vs_vehicle"@, "data"@), "stage1"@),
                            dec(vehicles as nat),
                        ),
                        j - 1,
                    ),
                ) is Some && jint(
                    jitem(
                        jget(
                            jget(table_of(t, "result_vs_vehicle"@, "data"@), "stage1"@),
                            dec(vehicles as nat),
                        ),
                        j - 1,
                    ),
                )->0 == level),
        },
{
    if let Some(Json::Arr(cells)) = jget(
        jget(table_of(t, "result_vs_vehicle"@, "data"@), "stage1"@),
        dec(vehicles as nat),
    ) {
        place_found(cells@, level, 0);
    }
}

/// What an entry of a block of corrections adds, if its circumstance holds.
pub open spec fn counted(block: Option<Json>, holds: bool, part: Seq<char>, name: Seq<char>) -> int {
    match jint(jget(jget(block, part), name)) {
        Some(n) => if holds {
            n as int
        } else {
            0
        },
        None => 0,
    }
}

/// What corrects a shot is the sum of the entries for its circumstances: for the firer suppressed,
/// on the move and, where the target is a vehicle, a tank in the water; and for the target's terrain,
/// cover, movement, crowd and march. A circumstance that does not hold adds nothing.
pub proof fn corrections_add_up(t: Tables, table: Seq<char>, m: FireMods, vehicle: bool)
    ensures
        ({
            let block = table_of(t, table, "additive_random"@);
            additive(t, table, m, vehicle) == counted(block, m.shooter_suppressed, "shooter"@, "被压制"@) + counted(
                block,
                m.shooter_moving,
                "shooter"@,
                "机动中"@,
            ) + counted(block, m.shooter_water_tank && vehicle, "shooter"@, "水上坦克"@) + counted(
                block,
                m.target_terrain == TargetTerrain::UrbanOrWorks && vehicle,
                "target_terrain"@,
                "居民地/工事"@,
            ) + counted(
                block,
                m.target_terrain == TargetTerrain::UrbanOrWorks && !vehicle,
                "target_terrain"@,
                "居民地"@,
            ) + counted(block, m.target_terrain == TargetTerrain::Forest, "target_terrain"@, "丛林地"@) + counted(
                block,
                m.target_terrain == TargetTerrain::Water,
                "target_terrain"@,
                "水上"@,
            ) + counted(block, m.target_cover, "target_state"@, "掩蔽中"@) + counted(
                block,
                m.target_moving,
                "target_state"@,
                "机动中"@,
            ) + counted(block, m.target_stacked, "target_state"@, "堆叠中"@) + counted(
                block,
                m.target_march,
                "target_state"@,
                "行军中"@,
            )
        }),
{
    reveal(addend);
    let block = table_of(t, table, "additive_random"@);
    let part = "target_terrain"@;
    let urban = m.target_terrain == TargetTerrain::UrbanOrWorks;
    assert(addend(
        block,
        m.target_terrain != TargetTerrain::Open,
        part,
        terrain_row(m.target_terrain, vehicle),
    ) == counted(block, urban && vehicle, part, "居民地/工事"@) + counted(
        block,
        urban && !vehicle,
        part,
        "居民地"@,
    ) + counted(block, m.target_terrain == TargetTerrain::Forest, part, "丛林地"@) + counted(
        block,
        m.target_terrain == TargetTerrain::Water,
        part,
        "水上"@,
    )) by {
        match m.target_terrain {
            TargetTerrain::Open => {},
            TargetTerrain::UrbanOrWorks => {},
            TargetTerrain::Forest => {},
            TargetTerrain::Water => {},
        }
    }
}

/// The attack level of a weapon stands in the table for the kind of target: against personnel in the
/// row of the firer's teams, and at the place of the distance.
pub proof fn levels_by_distance(t: Tables, weapon: Seq<char>, teams: u8, distance: int)
    requires
        distance >= 0,
    ensures
        ({
            let entry = jget(table_of(t, "attack_level_vs_vehicle"@, "weapons"@), weapon);
            &&& level_vs_personnel(t, weapon, teams, distance) == jint(
                jitem(
                    jget(
                        jget(
                            jget(table_of(t, "attack_level_vs_personnel"@, "weapons"@), weapon),
                            "by_squad"@,
                        ),
                        dec(teams as nat),
                    ),
                    distance,
                ),
            )
            &&& jget(entry, "levels"@) is Some && jget(entry, "levels"@)->0 is Arr
                ==> level_vs_vehicle(t, weapon, teams, distance) == jint(
                jitem(jget(entry, "levels"@), distance),
            )
        }),
{
}

/// A shot at personnel. The two dice and the attack level choose a cell: a loss, suppression, or
/// nothing. The third die with the circumstances chooses a correction of it. A loss that is left
/// destroys so many teams, and one that is corrected away suppresses; suppression becomes a loss if
/// the correction is favourable; and what misses, misses.
pub proof fn shots_at_personnel(
    t: Tables,
    weapon: Seq<char>,
    teams: u8,
    distance: i32,
    mods: FireMods,
    roll: int,
    d: int,
)
    ensures
        ({
            let v = personnel_verdict(t, weapon, teams, distance, mods, roll, d);
            let level = level_vs_personnel(t, weapon, teams, distance as int);
            let cell = jitem(
                jget(table_of(t, "result_vs_personnel"@, "rows"@), dec(roll as nat)),
                level->0 - 1,
            );
            let corr = jint_or(
                modified_cell(
                    t,
                    "personnel_loss_correction"@,
                    d + additive(t, "personnel_loss_correction"@, mods, false),
                ),
                0,
            );
            &&& level is None <==> v is None
            &&& v is Some ==> (v->0).0 == level->0
            &&& level is Some && level->0 >= 1 && jtext(cell) != Some("压"@) && jint(cell) is Some
                && jint(cell)->0 > 0 ==> ({
                let left = jint(cell)->0 + corr;
                &&& left <= 0 ==> (v->0).1 == Outcome::Suppress
                &&& 0 < left < 256 ==> (v->0).1 == Outcome::Destroyed(left as u8)
            })
            &&& level is Some && level->0 >= 1 && jtext(cell) == Some("压"@) ==> ({
                &&& corr <= 0 ==> (v->0).1 == Outcome::Suppress
                &&& 0 < corr < 256 ==> (v->0).1 == Outcome::Destroyed(corr as u8)
            })
            &&& level is Some && (level->0 < 1 || (jtext(cell) != Some("压"@) && (jint(cell) is None
                || jint(cell)->0 <= 0))) ==> (v->0).1 == Outcome::NoEffect
        }),
{
}

/// A shot at a vehicle. The attack level, with the correction for height, is looked up for the
/// firer's vehicles; with the two dice it gives a loss. The dice with the circumstances choose a
/// correction by the target's armor. What is left of the loss destroys up to five vehicles; a loss
/// that the armor takes away suppresses; and without one, armor or not, nothing happens unless the
/// correction itself is a loss.
pub proof fn shots_at_vehicles(
    t: Tables,
    weapon: Seq<char>,
    vehicles: u8,
    distance: i32,
    above: int,
    armor: Armor,
    mods: FireMods,
    roll: int,
)
    ensures
        ({
            let v = vehicle_verdict(t, weapon, vehicles, distance, above, armor, mods, roll);
            let raw = level_vs_vehicle(t, weapon, vehicles, distance as int);
            let level = corrected_level(
                t,
                vehicles,
                raw->0 + height_correction(t, above, distance as int),
            );
            let loss = jint_or(
                jitem(
                    jget(
                        jget(table_of(t, "result_vs_vehicle"@, "data"@), "stage2"@),
                        dec(roll as nat),
                    ),
                    level->0 - 1,
                ),
                0,
            );
            let left = loss + armor_correction(
                t,
                roll + additive(t, "vehicle_loss_correction"@, mods, true),
                armor,
            );
            &&& v is Some <==> raw is Some && level is Some
            &&& v is Some ==> (v->0).0 == level->0
            &&& v is Some && left >= 5 ==> (v->0).1 == Outcome::Destroyed(5)
            &&& v is Some && 0 < left <= 5 ==> (v->0).1 == Outcome::Destroyed(left as u8)
            &&& v is Some && left <= 0 && loss > 0 ==> (v->0).1 == Outcome::Suppress
            &&& v is Some && left <= 0 && loss <= 0 ==> (v->0).1 == Outcome::NoEffect
        }),
{
    if let Some(raw) = level_vs_vehicle(t, weapon, vehicles, distance as int) {
        level_by_column(t, vehicles, raw + height_correction(t, above, distance as int));
    }
}

proof fn text_found(cells: Seq<Json>, s: Seq<char>, i: int)
    requires
        0 <= i,
    ensures
        match place_of_text(cells, s, i) {
            Some(k) => i <= k < cells.len() && jtext(Some(cells[k])) == Some(s) && forall|j: int|
                i <= j < k ==> jtext(Some(#[trigger] cells[j])) != Some(s),
            None => forall|j: int| i <= j < cells.len() ==> jtext(Some(#[trigger] cells[j])) != Some(s),
        },
    decreases cells.len() - i,
{
    if i < cells.len() {
        text_found(cells, s, i + 1);
    }
}

/// The correction by armor stands in the column of the armor's name, the first if there are several;
/// an armor without a column has none.
pub proof fn armor_by_column(t: Tables, modified: int, armor: Armor, name: Seq<char>, order: Vec<Json>, col: int)
    requires
        armor == Armor::Composite ==> name == "复合装甲"@,
        armor == Armor::Heavy ==> name == "重型装甲"@,
        armor == Armor::Medium ==> name == "中型装甲"@,
        armor == Armor::Light ==> name == "轻型装甲"@,
        armor == Armor::Unarmored ==> name == "无装甲"@,
        table_of(t, "vehicle_loss_correction"@, "armor_order"@) == Some(Json::Arr(order)),
    ensures
        0 <= col < order@.len() && jtext(Some(order@[col])) == Some(name) && (forall|j: int|
            0 <= j < col ==> jtext(Some(#[trigger] order@[j])) != Some(name)) ==> armor_correction(
            t,
            modified,
            armor,
        ) == jint_or(jitem(modified_cell(t, "vehicle_loss_correction"@, modified), col), 0),
        (forall|j: int| 0 <= j < order@.len() ==> jtext(Some(#[trigger] order@[j])) != Some(name))
            ==> armor_correction(t, modified, armor) == 0,
{
    text_found(order@, name, 0);
}

/// A range key that begins with `<=` holds what is at most its number, one with `>=` what is at
/// least it, one of two numbers what lies between them, and a number itself.
pub proof fn range_keys(key: Seq<char>, v: int)
    requires
        key.len() >= 2,
    ensures
        key[0] == '<' && key[1] == '=' && bound(key.skip(2)) is Some ==> (in_bucket(key, v) <==> v
            <= bound(key.skip(2))->0),
        key[0] == '>' && key[1] == '=' && bound(key.skip(2)) is Some ==> (in_bucket(key, v) <==> v
            >= bound(key.skip(2))->0),
        key[0] != '<' && key[0] != '>' && bound(key) is Some && crate::text::dots_at(key, 0)
            >= key.len() ==> (in_bucket(key, v) <==> v == bound(key)->0),
{
    assert(key.subrange(2, key.len() as int) =~= key.skip(2));
}

// ---------- salvos ----------

/// A salvo draws two dice for where it lands and two for what it does. It does by the table of hits
/// what lands where it was meant to, and by the table of misses what does not.
pub proof fn salvos_land_then_strike<R: DrawModel>(
    t: Tables,
    s: R::V,
    spotting: IndirectSpotting,
    dist: int,
    gun: GunClass,
)
    ensures
        ({
            let r = salvo::<R>(t, s, spotting, dist, gun);
            let first = dice::<R>(s, 2);
            let second = dice::<R>(first.1, 2);
            let cell = jitem(
                jget(
                    table_of(
                        t,
                        "indirect_result"@,
                        if r.0 == Scatter::Hit {
                            "hit"@
                        } else {
                            "miss"@
                        },
                    ),
                    dec(second.0 as nat),
                ),
                match gun {
                    GunClass::Light => 0,
                    GunClass::Medium => 1,
                    GunClass::Heavy => 2,
                },
            );
            &&& r.0 == scatter_of(t, spotting, dist, first.0)
            &&& r.2 == second.1
            &&& jtext(cell) == Some("压制"@) ==> r.1 == IndirectBase::Suppress
            &&& jint(cell) is Some && jint(cell)->0 > 0 ==> r.1 == IndirectBase::Loss(jint(cell)->0)
            &&& jtext(cell) != Some("压制"@) && (jint(cell) is None || jint(cell)->0 <= 0) ==> r.1
                == IndirectBase::NoEffect
        }),
{
    crate::combat_laws::texts_are_no_numbers(
        jitem(
            jget(
                table_of(
                    t,
                    "indirect_result"@,
                    if scatter_of(t, spotting, dist, dice::<R>(s, 2).0) == Scatter::Hit {
                        "hit"@
                    } else {
                        "miss"@
                    },
                ),
                dec(dice::<R>(dice::<R>(s, 2).1, 2).0 as nat),
            ),
            match gun {
                GunClass::Light => 0,
                GunClass::Medium => 1,
                GunClass::Heavy => 2,
            },
        ),
    );
}

proof fn texts_are_no_numbers(cell: Option<Json>)
    ensures
        jtext(cell) is Some ==> jint(cell) is None,
{
}

/// Where a salvo lands stands in the part of the scatter table for how well its aim is seen, under
/// the roll: the less is seen, the other the part.
pub proof fn scatter_by_spotting(t: Tables, dist: int, roll: int, s: IndirectSpotting, part: Seq<char>)
    requires
        s == IndirectSpotting::Unspotted ==> part == "no_spotting"@,
        s == IndirectSpotting::InHex ==> part == "in_hex_spotting"@,
        s == IndirectSpotting::Target ==> part == "target_spotting_single"@,
    ensures
        ({
            let cell = jget(table_of(t, "indirect_scatter"@, part), dec(roll as nat));
            jtext(cell) is Some ==> scatter_of(t, s, dist, roll) == scatter_named(jtext(cell)->0)
        }),
{
}

/// A cell of the scatter table: a hit, within the hex, or so many hexes away.
pub proof fn scatter_cells(n: Seq<char>, k: int)
    requires
        n.len() > 0,
        crate::text::parse_unsigned_of(crate::text::trim(n), u32::MAX as int) == Some(k),
    ensures
        scatter_named("命中"@) == Scatter::Hit,
        scatter_named("散布"@) == Scatter::InHex,
        0 <= k <= u32::MAX ==> scatter_named(seq!['散', '布'] + n + seq!['格']) == Scatter::Hexes(
            k as u32,
        ),
{
    reveal_strlit("命中");
    reveal_strlit("散布");
    assert("命中"@[0] == '命' && "散布"@[0] == '散');
    let s = seq!['散', '布'] + n + seq!['格'];
    assert(s.subrange(2, s.len() - 1) =~= n);
    assert(s.len() >= 4 && "命中"@.len() == 2 && "散布"@.len() == 2);
}

/// A salvo's effect on one target. A loss is corrected by a die and the circumstances of the target:
/// what is left destroys up to five teams, and what is corrected away suppresses. Suppression and
/// nothing stay as they are and draw no die.
pub proof fn salvos_on_a_target<R: DrawModel>(t: Tables, s: R::V, base: IndirectBase, m: IndirectMods)
    ensures
        ({
            let r = salvo_effect::<R>(t, s, base, m);
            match base {
                IndirectBase::NoEffect => r == (Outcome::NoEffect, s),
                IndirectBase::Suppress => r == (Outcome::Suppress, s),
                IndirectBase::Loss(n) => {
                    let d = die::<R>(s);
                    let left = n + jint_or(
                        modified_cell(t, "indirect_correction"@, d.0 + salvo_additive(t, m)),
                        0,
                    );
                    &&& r.1 == d.1
                    &&& left <= 0 ==> r.0 == Outcome::Suppress
                    &&& 0 < left <= 5 ==> r.0 == Outcome::Destroyed(left as u8)
                    &&& left >= 5 ==> r.0 == Outcome::Destroyed(5)
                },
            }
        }),
{
}

/// What corrects a salvo for one target is the sum of the entries for its terrain, cover, movement
/// on foot, crowd and march, for its armor, and for the number of guns, of which four count at most.
pub proof fn salvo_corrections_add_up(t: Tables, m: IndirectMods)
    ensures
        ({
            let block = table_of(t, "indirect_correction"@, "additive_random"@);
            salvo_additive(t, m) == counted(
                block,
                m.target_terrain == TargetTerrain::UrbanOrWorks,
                "target_terrain"@,
                "居民地"@,
            ) + counted(block, m.target_terrain == TargetTerrain::Forest, "target_terrain"@, "丛林地"@) + counted(
                block,
                m.target_cover,
                "target_state"@,
                "掩蔽中"@,
            ) + counted(block, m.target_moving_personnel, "target_state"@, "机动中_人员"@) + counted(
                block,
                m.target_stacked,
                "target_state"@,
                "堆叠"@,
            ) + counted(block, m.target_march, "target_state"@, "行军"@) + counted(
                block,
                m.armor == Armor::Composite,
                "armor"@,
                "复合装甲"@,
            ) + counted(block, m.armor == Armor::Heavy, "armor"@, "重型装甲"@) + counted(
                block,
                m.armor == Armor::Medium,
                "armor"@,
                "中型装甲"@,
            ) + counted(block, m.armor == Armor::Light, "armor"@, "轻型装甲"@) + counted(
                block,
                m.armor == Armor::Unarmored,
                "armor"@,
                "无装甲"@,
            ) + counted(
                block,
                true,
                "gun_count"@,
                dec(
                    if m.gun_count == 0 {
                        1
                    } else if m.gun_count <= 4 {
                        m.gun_count as nat
                    } else {
                        4
                    },
                ),
            )
        }),
{
    reveal(addend);
    let block = table_of(t, "indirect_correction"@, "additive_random"@);
    assert(addend(block, true, "armor"@, armor_row(m.armor)) == counted(
        block,
        m.armor == Armor::Composite,
        "armor"@,
        "复合装甲"@,
    ) + counted(block, m.armor == Armor::Heavy, "armor"@, "重型装甲"@) + counted(
        block,
        m.armor == Armor::Medium,
        "armor"@,
        "中型装甲"@,
    ) + counted(block, m.armor == Armor::Light, "armor"@, "轻型装甲"@) + counted(
        block,
        m.armor == Armor::Unarmored,
        "armor"@,
        "无装甲"@,
    )) by {
        match m.armor {
            Armor::Composite => {},
            Armor::Heavy => {},
            Armor::Medium => {},
            Armor::Light => {},
            Armor::Unarmored => {},
        }
    }
}

// ---------- fights within a hex ----------

/// Whom an attacker picks in its hex: a live enemy ground unit on the board that can be fired upon. A
/// tank, if there is one; else a fighting vehicle; else any other vehicle; else personnel; and of one
/// class the unit with the fewest teams. Where there is an enemy, one is picked.
pub proof fn whom_an_attacker_picks<R: DrawModel>(units: Seq<UnitV>, side: SideId, s: R::V, i: int)
    requires
        0 <= i < units.len(),
        forall|g: R::V, n: u32| n > 0 ==> (#[trigger] R::draw(g, n)).0 < n,
    ensures
        ({
            let enemy = |u: UnitV|
                u.alive && u.side != side && u.carried_by is None && u.inside_facility is None
                    && u.unit_type != UnitType::Uav && u.unit_type != UnitType::AttackHeli
                    && u.unit_type != UnitType::TransportHeli && u.unit_type
                    != UnitType::LoiteringMunition && u.unit_type != UnitType::SpaceRecon;
            let foot = |u: UnitV|
                u.unit_type == UnitType::Infantry || u.unit_type == UnitType::AaMissileSquad;
            match pick_target::<R>(units, side, s).0 {
                None => units.len() <= u32::MAX ==> !enemy(units[i]),
                Some(p) => units.len() <= u32::MAX ==> {
                    &&& enemy(p) && units.contains(p)
                    &&& enemy(units[i]) ==> {
                        &&& units[i].unit_type == UnitType::Tank ==> p.unit_type == UnitType::Tank
                        &&& units[i].unit_type == UnitType::Ifv ==> p.unit_type == UnitType::Tank
                            || p.unit_type == UnitType::Ifv
                        &&& !foot(units[i]) ==> !foot(p)
                        &&& units[i].unit_type == p.unit_type ==> p.teams <= units[i].teams
                        &&& foot(units[i]) && foot(p) ==> p.teams <= units[i].teams
                    }
                },
            }
        }),
{
    let c = urgent_targets(units, side);
    let q = |u: UnitV| most_urgent(units, side, u);
    units_filtered(units, q);
    if c.len() > 0 && units.len() <= u32::MAX {
        let k: int = if c.len() == 1 {
            0
        } else {
            R::draw(s, c.len() as u32).0 as int
        };
        assert(0 <= k < c.len());
        assert(q(c[k]));
        assert(c.contains(c[k]));
    } else if c.len() == 0 && same_hex_enemy(units[i], side) {
        least_exists(units, side, units.len() as int, i);
    }
}

proof fn units_filtered(units: Seq<UnitV>, q: spec_fn(UnitV) -> bool)
    ensures
        units.filter(q).len() <= units.len(),
        forall|u: UnitV| #[trigger]
            units.filter(q).contains(u) <==> units.contains(u) && q(u),
    decreases units.len(),
{
    reveal(Seq::filter);
    if units.len() > 0 {
        let rest = units.drop_last();
        units_filtered(rest, q);
        let f = rest.filter(q);
        assert forall|u: UnitV| #[trigger] units.filter(q).contains(u) <==> units.contains(u) && q(
            u,
        ) by {
            assert(units =~= rest.push(units.last()));
            if rest.contains(u) {
                let j = rest.index_of(u);
                assert(units[j] == u);
            }
            if units.contains(u) && u != units.last() {
                let j = units.index_of(u);
                assert(rest[j] == u);
            }
            if q(units.last()) {
                let g = f.push(units.last());
                if f.contains(u) {
                    let j = f.index_of(u);
                    assert(g[j] == u);
                }
                if g.contains(u) && u != units.last() {
                    let j = g.index_of(u);
                    assert(f[j] == u);
                }
                assert(g[f.len() as int] == units.last());
            }
            assert(units[units.len() - 1] == units.last());
        }
    }
}

proof fn least_exists(units: Seq<UnitV>, side: SideId, n: int, i: int)
    requires
        0 <= i < n <= units.len(),
        same_hex_enemy(units[i], side),
        n == units.len() ==> urgent_targets(units, side).len() == 0,
    ensures
        n == units.len() ==> false,
        exists|k: int|
            0 <= k < n && same_hex_enemy(units[k], side) && forall|j: int|
                0 <= j < n && same_hex_enemy(#[trigger] units[j], side) ==> crate::combat::urgency(
                    units[k],
                ) <= crate::combat::urgency(units[j]),
    decreases n,
{
    let best = least_below(units, side, n, i);
    if n == units.len() {
        let q = |u: UnitV| most_urgent(units, side, u);
        units_filtered(units, q);
        assert(units.contains(units[best]));
        assert(q(units[best]));
        assert(urgent_targets(units, side).contains(units[best]));
    }
}

proof fn least_below(units: Seq<UnitV>, side: SideId, n: int, i: int) -> (k: int)
    requires
        0 <= i < n <= units.len(),
        same_hex_enemy(units[i], side),
    ensures
        0 <= k < n,
        same_hex_enemy(units[k], side),
        forall|j: int|
            0 <= j < n && same_hex_enemy(#[trigger] units[j], side) ==> crate::combat::urgency(
                units[k],
            ) <= crate::combat::urgency(units[j]),
    decreases n,
{
    if exists|j: int| 0 <= j < n - 1 && same_hex_enemy(#[trigger] units[j], side) {
        let j = choose|j: int| 0 <= j < n - 1 && same_hex_enemy(#[trigger] units[j], side);
        let k = least_below(units, side, n - 1, j);
        if same_hex_enemy(units[n - 1], side) && crate::combat::urgency(units[n - 1])
            < crate::combat::urgency(units[k]) {
            n - 1
        } else {
            k
        }
    } else {
        assert(i == n - 1);
        i
    }
}

/// The weapon that is fired within a hex is one of the unit's, and none of them has a higher attack
/// level against the kind of target; there is none only if none of them has a level at all.
pub proof fn the_best_weapon(
    t: Tables,
    weapons: Seq<Seq<char>>,
    vehicle: bool,
    teams: u8,
    distance: int,
)
    ensures
        match best_place(t, weapons, vehicle, teams, distance) {
            Some(b) => 0 <= b < weapons.len() && level_of_weapon(
                t,
                weapons[b],
                vehicle,
                teams,
                distance,
            ) is Some && strongest(t, weapons, vehicle, teams, distance) == Some(weapons[b])
                && forall|i: int|
                0 <= i < weapons.len() && level_of_weapon(
                    t,
                    #[trigger] weapons[i],
                    vehicle,
                    teams,
                    distance,
                ) is Some ==> level_of_weapon(t, weapons[i], vehicle, teams, distance)->0
                    <= level_of_weapon(t, weapons[b], vehicle, teams, distance)->0,
            None => strongest(t, weapons, vehicle, teams, distance) is None && forall|i: int|
                0 <= i < weapons.len() ==> level_of_weapon(
                    t,
                    #[trigger] weapons[i],
                    vehicle,
                    teams,
                    distance,
                ) is None,
        },
    decreases weapons.len(),
{
    if weapons.len() > 0 {
        let rest = weapons.drop_last();
        the_best_weapon(t, rest, vehicle, teams, distance);
        assert forall|i: int| 0 <= i < rest.len() implies #[trigger] weapons[i] == rest[i] by {}
    }
}

/// A shot within a hex is fired from no distance and on level ground, with the best weapon of the
/// attacker against the target, its teams, and the circumstances of both. Without a weapon nothing
/// is drawn.
pub proof fn shots_within_a_hex<R: DrawModel>(
    t: Tables,
    map: GameMap,
    s: R::V,
    weapons: Seq<Seq<char>>,
    a: UnitV,
    b: UnitV,
)
    ensures
        ({
            let foot = b.unit_type == UnitType::Infantry;
            let r = same_hex_fire::<R>(t, map, s, weapons, a, b);
            match strongest(t, weapons, !foot, a.teams, 0) {
                None => r == (
                    Outcome::NoEffect,
                    None::<crate::combat::RecV>,
                    s,
                ),
                Some(w) => {
                    &&& foot ==> r == personnel_shot::<R>(t, s, w, a.teams, 0, mods_of(a, b, map))
                    &&& !foot ==> r == vehicle_shot::<R>(
                        t,
                        s,
                        w,
                        a.teams,
                        0,
                        0,
                        b.armor,
                        mods_of(a, b, map),
                    )
                },
            }
        }),
{
}

// ---------- air defence and mines ----------

/// An air-defence weapon has a level at a distance within its range where its table has a positive
/// one, past the printed distances the far value; it has none anywhere else.
pub proof fn air_defence_levels(t: Tables, weapon: Seq<char>, d: int)
    ensures
        ({
            let entry = jget(table_of(t, "aa_attack_level"@, "weapons"@), weapon);
            let range = jint(jget(entry, "range"@));
            let cell = jint(jitem(jget(entry, "levels"@), d));
            let tail = jint(jget(entry, "tail_value"@));
            match aa_level(t, weapon, d) {
                Some(l) => l > 0 && range is Some && 0 <= d <= range->0 && (if jitem(
                    jget(entry, "levels"@),
                    d,
                ) is Some {
                    cell == Some(l)
                } else {
                    tail == Some(l)
                }),
                None => !(range is Some && 0 <= d <= range->0 && jget(entry, "levels"@) is Some
                    && jget(entry, "levels"@)->0 is Arr && (if jitem(
                    jget(entry, "levels"@),
                    d,
                ) is Some {
                    cell is Some && cell->0 > 0
                } else {
                    tail is Some && tail->0 > 0
                })),
            }
        }),
{
}

/// A roll annihilates an air target from the threshold of the roll on, and the higher the level the
/// more.
pub proof fn air_defence_kills(t: Tables, level: int, more: int, roll: int)
    requires
        level <= more,
    ensures
        ({
            let from = jint(
                jget(
                    table_of(t, "aa_result"@, "kill_threshold_by_random"@),
                    dec(roll as nat),
                ),
            );
            &&& from is Some ==> (aa_kill(t, level, roll) <==> level >= from->0)
            &&& aa_kill(t, level, roll) ==> aa_kill(t, more, roll)
        }),
{
}

/// An air-defence salvo is adjudicated once for each shooter, each time with two new dice; it
/// destroys its target exactly if it kills at least once. Out of reach, or without shooters, there is
/// none and nothing is drawn.
pub proof fn air_defence_salvos<R: DrawModel>(
    t: Tables,
    s: R::V,
    weapon: Seq<char>,
    shooters: u8,
    d: int,
)
    ensures
        ({
            let r = aa_salvo::<R>(t, s, weapon, shooters, d);
            &&& r.0 is None <==> shooters == 0 || aa_level(t, weapon, d) is None
            &&& r.0 is None ==> r.1 == s
            &&& r.0 is Some ==> (r.0->0).adjudications == shooters && ((r.0->0).destroyed <==> (r.0->0).kills
                > 0) && (r.0->0).kills <= shooters
            &&& r.0 is Some && shooters == 1 ==> ((r.0->0).destroyed <==> aa_kill(
                t,
                aa_level(t, weapon, d)->0 as int,
                dice::<R>(s, 2).0,
            )) && r.1 == dice::<R>(s, 2).1
        }),
{
    if let Some(level) = aa_level(t, weapon, d) {
        crate::combat::kills_within_the_salvo::<R>(t, s, level as int, shooters as nat);
        if shooters == 1 {
            assert(aa_kills::<R>(t, s, level as int, 0) == (0int, s));
            assert(aa_kills::<R>(t, s, level as int, 1).1 == dice::<R>(s, 2).1);
        }
    }
}

/// One shooter more is one adjudication more, after the others.
pub proof fn one_shooter_more<R: DrawModel>(t: Tables, s: R::V, level: int, n: nat)
    ensures
        ({
            let before = aa_kills::<R>(t, s, level, n);
            let roll = dice::<R>(before.1, 2);
            let after = aa_kills::<R>(t, s, level, n + 1);
            &&& after.1 == roll.1
            &&& aa_kill(t, level, roll.0) ==> after.0 == before.0 + 1
            &&& !aa_kill(t, level, roll.0) ==> after.0 == before.0
        }),
{
}

/// Mines destroy by the row of the unit's class, personnel or vehicles, and the armor's correction of
/// the same roll; never less than nothing.
pub proof fn what_mines_destroy(t: Tables, u: UnitType, armor: Armor, roll: int)
    ensures
        ({
            let foot = u == UnitType::Infantry || u == UnitType::AaMissileSquad;
            let base = jint_or(
                jget(
                    jget(
                        table_of(t, "minefield"@, "damage_by_random"@),
                        if foot {
                            "人员"@
                        } else {
                            "车辆"@
                        },
                    ),
                    dec(roll as nat),
                ),
                0,
            );
            let corr = jint_or(
                jget(
                    jget(
                        table_of(t, "minefield"@, "armor_correction_by_random"@),
                        match armor {
                            Armor::Composite => "复合装甲"@,
                            Armor::Heavy => "重型装甲"@,
                            Armor::Medium => "中型装甲"@,
                            Armor::Light => "轻型装甲"@,
                            Armor::Unarmored => "无装甲"@,
                        },
                    ),
                    dec(roll as nat),
                ),
                0,
            );
            &&& base + corr <= 0 ==> mine_loss(t, u, armor, roll) == 0
            &&& 0 < base + corr <= u32::MAX ==> mine_loss(t, u, armor, roll) == base + corr
        }),
{
}

// ---------- details of the tables ----------

/// Against vehicles a weapon without levels of its own has those of the table that it refers to, in
/// the row of the firer's teams.
pub proof fn levels_by_reference(t: Tables, weapon: Seq<char>, teams: u8, distance: int, name: Seq<char>)
    requires
        distance >= 0,
        jget(jget(table_of(t, "attack_level_vs_vehicle"@, "weapons"@), weapon), "levels"@) is None,
        jtext(
            jget(jget(table_of(t, "attack_level_vs_vehicle"@, "weapons"@), weapon), "ref"@),
        ) == Some(name),
    ensures
        level_vs_vehicle(t, weapon, teams, distance) == jint(
            jitem(
                jget(
                    table_of(t, crate::text::without_json(name), "by_squad"@),
                    dec(teams as nat),
                ),
                distance,
            ),
        ),
{
}

/// A range key of two numbers holds what lies between them, both among it.
pub proof fn keys_of_two_numbers(key: Seq<char>, v: int, d: int)
    requires
        key.len() > 0,
        key[0] != '<',
        key[0] != '>',
        d == crate::text::dots_at(key, 0),
        0 <= d < key.len(),
        bound(key.subrange(0, d)) is Some,
        bound(key.subrange(d + 2, key.len() as int)) is Some,
    ensures
        in_bucket(key, v) <==> bound(key.subrange(0, d))->0 <= v && v <= bound(
            key.subrange(d + 2, key.len() as int),
        )->0,
{
}

/// What corrects a roll is the first entry whose key holds it.
pub proof fn the_first_key_counts(rows: Seq<(String, Json)>, v: int, i: int)
    ensures
        0 <= i < rows.len() && in_bucket(rows[i].0@, v) && (forall|j: int|
            0 <= j < i ==> !in_bucket((#[trigger] rows[j]).0@, v)) ==> bucket_value(rows, v) == Some(
            rows[i].1,
        ),
        (forall|j: int| 0 <= j < rows.len() ==> !in_bucket((#[trigger] rows[j]).0@, v))
            ==> bucket_value(rows, v) is None,
    decreases rows.len(),
{
    if rows.len() > 0 {
        let rest = rows.drop_first();
        the_first_key_counts(rest, v, i - 1);
        assert forall|j: int| 0 <= j < rest.len() implies #[trigger] rest[j] == rows[j + 1] by {}
    }
}

/// A correction is looked up among the entries of its table.
pub proof fn where_corrections_stand(t: Tables, table: Seq<char>, v: int, rows: Vec<(String, Json)>)
    requires
        table_of(t, table, "by_modified_random"@) == Some(Json::Obj(rows)),
    ensures
        modified_cell(t, table, v) == bucket_value(rows@, v),
{
}

/// A distance key of two numbers holds what lies between them, and one with a plus what is at least
/// its number.
pub proof fn keys_of_distances(key: Seq<char>, dist: int, d: int)
    requires
        key.len() > 0,
        d == crate::text::place_of(key, '-', 0),
    ensures
        key.last() == '+' && bound(key.drop_last()) is Some ==> (in_distance_key(key, dist) <==> dist
            >= bound(key.drop_last())->0),
        key.last() != '+' && 0 <= d < key.len() && bound(key.subrange(0, d)) is Some && bound(
            key.subrange(d + 1, key.len() as int),
        ) is Some ==> (in_distance_key(key, dist) <==> bound(key.subrange(0, d))->0 <= dist && dist
            <= bound(key.subrange(d + 1, key.len() as int))->0),
{
    assert(key.subrange(0, key.len() - 1) =~= key.drop_last());
}

proof fn column_found(keys: Seq<Json>, dist: int, i: int, k: int)
    requires
        0 <= i <= k < keys.len(),
        jtext(Some(keys[k])) is Some,
        in_distance_key(jtext(Some(keys[k]))->0, dist),
        forall|j: int|
            i <= j < k ==> !(jtext(Some(#[trigger] keys[j])) is Some && in_distance_key(
                jtext(Some(keys[j]))->0,
                dist,
            )),
    ensures
        distance_column(keys, dist, i) == k,
    decreases k - i,
{
    if i < k {
        assert(!(jtext(Some(keys[i])) is Some && in_distance_key(jtext(Some(keys[i]))->0, dist)));
        column_found(keys, dist, i + 1, k);
    }
}

/// Where the scatter depends on the distance, the cell is that of the first distance key that holds
/// it.
pub proof fn scatter_by_distance(
    t: Tables,
    dist: int,
    roll: int,
    s: IndirectSpotting,
    part: Seq<char>,
    keys: Vec<Json>,
    cells: Vec<Json>,
    k: int,
)
    requires
        s == IndirectSpotting::Unspotted ==> part == "no_spotting"@,
        s == IndirectSpotting::InHex ==> part == "in_hex_spotting"@,
        s == IndirectSpotting::Target ==> part == "target_spotting_single"@,
        jget(table_of(t, "indirect_scatter"@, part), dec(roll as nat)) == Some(Json::Arr(cells)),
        table_of(t, "indirect_scatter"@, "distance_buckets"@) == Some(Json::Arr(keys)),
        0 <= k < keys@.len(),
        k < cells@.len(),
        jtext(Some(keys@[k])) is Some,
        in_distance_key(jtext(Some(keys@[k]))->0, dist),
        forall|j: int|
            0 <= j < k ==> !(jtext(Some(#[trigger] keys@[j])) is Some && in_distance_key(
                jtext(Some(keys@[j]))->0,
                dist,
            )),
        jtext(Some(cells@[k])) is Some,
    ensures
        scatter_of(t, s, dist, roll) == scatter_named(jtext(Some(cells@[k]))->0),
{
    column_found(keys@, dist, 0, k);
}

/// Of weapons that are equally good the last is fired.
pub proof fn the_last_of_the_best(
    t: Tables,
    weapons: Seq<Seq<char>>,
    vehicle: bool,
    teams: u8,
    distance: int,
    i: int,
)
    requires
        0 <= i < weapons.len(),
        level_of_weapon(t, weapons[i], vehicle, teams, distance) is Some,
        best_place(t, weapons, vehicle, teams, distance) is Some,
        level_of_weapon(t, weapons[i], vehicle, teams, distance)->0 == level_of_weapon(
            t,
            weapons[best_place(t, weapons, vehicle, teams, distance)->0],
            vehicle,
            teams,
            distance,
        )->0,
    ensures
        i <= best_place(t, weapons, vehicle, teams, distance)->0,
    decreases weapons.len(),
{
    let rest = weapons.drop_last();
    the_best_weapon(t, rest, vehicle, teams, distance);
    the_best_weapon(t, weapons, vehicle, teams, distance);
    let b = best_place(t, weapons, vehicle, teams, distance)->0;
    if i < rest.len() && b < rest.len() {
        assert(rest[i] == weapons[i]);
        assert(best_place(t, rest, vehicle, teams, distance) == Some(b));
        assert(rest[b] == weapons[b]);
        the_last_of_the_best(t, rest, vehicle, teams, distance, i);
    }
}

/// The weapons of a unit type are the texts that the rules list for it, in their order.
pub proof fn what_a_unit_fires_with(rules: Rules, t: UnitType, key: Seq<char>, items: Vec<Json>)
    requires
        typed_as(t, key),
        jget(Some(rules.loadout), key) == Some(Json::Arr(items)),
        forall|i: int| 0 <= i < items@.len() ==> jtext(Some(#[trigger] items@[i])) is Some,
    ensures
        loadout_of(rules, t).len() == items@.len(),
        forall|i: int|
            0 <= i < items@.len() ==> #[trigger] loadout_of(rules, t)[i] == jtext(
                Some(items@[i]),
            )->0,
{
    all_texts(items@);
}

proof fn all_texts(items: Seq<Json>)
    requires
        forall|i: int| 0 <= i < items.len() ==> jtext(Some(#[trigger] items[i])) is Some,
    ensures
        texts_in(items).len() == items.len(),
        forall|i: int|
            0 <= i < items.len() ==> #[trigger] texts_in(items)[i] == jtext(Some(items[i]))->0,
    decreases items.len(),
{
    if items.len() > 0 {
        let rest = items.drop_last();
        assert forall|i: int| 0 <= i < rest.len() implies #[trigger] rest[i] == items[i] by {}
        all_texts(rest);
        assert(items[items.len() - 1] == items.last());
    }
}

/// An attacker draws for its target only where several are equally urgent, and once.
pub proof fn when_an_attacker_draws<R: DrawModel>(units: Seq<UnitV>, side: SideId, s: R::V)
    ensures
        ({
            let r = pick_target::<R>(units, side, s);
            let n = urgent_targets(units, side).len();
            &&& n <= 1 ==> r.1 == s
            &&& 1 < n <= u32::MAX ==> r.1 == R::draw(s, n as u32).1 && r.0 == Some(
                urgent_targets(units, side)[R::draw(s, n as u32).0 as int],
            )
        }),
{
}

/// Who crosses the edge of a barrage takes what a salvo that hits does by the table of hits, corrected
/// for it.
pub proof fn what_a_barrage_does<R: DrawModel>(t: Tables, s: R::V, m: IndirectMods, gun: GunClass)
    ensures
        ({
            let r = barrage_effect::<R>(t, s, gun, m);
            let roll = dice::<R>(s, 2);
            let cell = jitem(
                jget(table_of(t, "indirect_result"@, "hit"@), dec(roll.0 as nat)),
                match gun {
                    GunClass::Light => 0,
                    GunClass::Medium => 1,
                    GunClass::Heavy => 2,
                },
            );
            &&& jtext(cell) == Some("压制"@) ==> r == (Outcome::Suppress, roll.1)
            &&& jtext(cell) != Some("压制"@) && (jint(cell) is None || jint(cell)->0 <= 0) ==> r == (
                Outcome::NoEffect,
                roll.1,
            )
            &&& jint(cell) is Some && jint(cell)->0 > 0 ==> r == salvo_effect::<R>(
                t,
                roll.1,
                IndirectBase::Loss(jint(cell)->0),
                m,
            )
        }),
{
    texts_are_no_numbers(
        jitem(
            jget(table_of(t, "indirect_result"@, "hit"@), dec(dice::<R>(s, 2).0 as nat)),
            match gun {
                GunClass::Light => 0,
                GunClass::Medium => 1,
                GunClass::Heavy => 2,
            },
        ),
    );
}

/// A distance that no key holds counts as the last.
pub proof fn the_farthest_column(keys: Seq<Json>, dist: int, i: int)
    requires
        0 <= i <= keys.len(),
        keys.len() > 0,
        forall|j: int|
            i <= j < keys.len() ==> !(jtext(Some(#[trigger] keys[j])) is Some && in_distance_key(
                jtext(Some(keys[j]))->0,
                dist,
            )),
    ensures
        distance_column(keys, dist, i) == keys.len() - 1,
    decreases keys.len() - i,
{
    if i < keys.len() {
        assert(!(jtext(Some(keys[i])) is Some && in_distance_key(jtext(Some(keys[i]))->0, dist)));
        the_farthest_column(keys, dist, i + 1);
    }
}

} // verus!
