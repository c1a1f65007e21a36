//! Pluggable probability: the backend that turns an attack level into an outcome.
use crate::json::{field, jget, jint, jtext, nat_of, jnat, val, Json, entry_of};
use crate::rng::{dice, DrawModel, Rng};
use crate::rules::{at, Rules};
use crate::text::{
    chars_of, dec, dec_int, i64_text, parse_i64, parse_i64_of, parse_unsigned, parse_unsigned_of,
    str_eq, str_lt, text_lt, u64_text,
};
use vstd::prelude::*;

verus! {

/// The result of one adjudication.
#[derive(Debug, Clone, Copy, PartialEq, Eq, Structural)]
pub enum Outcome {
    /// So many teams or vehicles are destroyed.
    Destroyed(u8),
    Suppress,
    NoEffect,
    /// The whole unit is annihilated.
    Kill,
}

/// The outcome that a text stands for: one of the letters, or a number of losses.
pub open spec fn outcome_named(s: Seq<char>) -> Option<Outcome> {
    if s == "S"@ {
        Some(Outcome::Suppress)
    } else if s == "N"@ {
        Some(Outcome::NoEffect)
    } else if s == "K"@ {
        Some(Outcome::Kill)
    } else {
        match parse_unsigned_of(s, 255) {
            Some(n) => Some(Outcome::Destroyed(n as u8)),
            None => None,
        }
    }
}

/// The outcome that a cell of a result table stands for. A negative number is no loss; a number
/// beyond a byte keeps its low byte.
pub open spec fn outcome_in(cell: Option<Json>) -> Option<Outcome> {
    match jint(cell) {
        Some(n) => Some(Outcome::Destroyed(if n < 0 {
            0
        } else {
            (n % 256) as u8
        })),
        None => match jtext(cell) {
            Some(s) => outcome_named(s),
            None => None,
        },
    }
}

fn read_outcome(s: &str) -> (r: Option<Outcome>)
    ensures
        r == outcome_named(s@),
{
    if str_eq(s, "S") {
        Some(Outcome::Suppress)
    } else if str_eq(s, "N") {
        Some(Outcome::NoEffect)
    } else if str_eq(s, "K") {
        Some(Outcome::Kill)
    } else {
        let v: Vec<char> = chars_of(s);
        proof {
            assert(v@.subrange(0, v@.len() as int) =~= v@);
        }
        match parse_unsigned(&v, 0, v.len(), 255) {
            Some(n) => Some(Outcome::Destroyed(n as u8)),
            None => None,
        }
    }
}

impl Outcome {
    /// Reads a cell of a result table.
    pub fn parse(v: &Json) -> (r: Option<Outcome>)
        ensures
            r == outcome_in(Some(*v)),
    {
        match v.as_i64() {
            Some(n) => Some(Outcome::Destroyed(if n < 0 { 0 } else { (n % 256) as u8 })),
            None => match v.as_str() {
                Some(s) => read_outcome(s),
                None => None,
            },
        }
    }
}

/// What an adjudication is about, whatever backend resolves it.
#[derive(Debug, Clone)]
pub struct ResolveContext {
    pub table_id: String,
    /// The attack level after all modifiers.
    pub attack_level: i64,
}

/// A backend. What it resolves to depends on the level and the generator's state alone.
pub trait ProbProvider<R: Rng> {
    spec fn outcome(&self, level: int, s: R::V) -> (Outcome, R::V);

    fn resolve(&self, ctx: &ResolveContext, rng: &mut R) -> (r: Outcome)
        ensures
            (r, final(rng)@) == self.outcome(ctx.attack_level as int, old(rng)@),
    ;
}

// ---------- rows by level ----------

/// The greatest level up to `level` among the keys that are numbers.
pub open spec fn level_below(rows: Seq<(String, Json)>, level: int) -> Option<int>
    decreases rows.len(),
{
    if rows.len() == 0 {
        None
    } else {
        let rest = level_below(rows.drop_last(), level);
        match (parse_i64_of(rows.last().0@), rest) {
            (Some(k), Some(b)) => if k <= level && k > b {
                Some(k)
            } else {
                Some(b)
            },
            (Some(k), None) => if k <= level {
                Some(k)
            } else {
                None
            },
            (None, _) => rest,
        }
    }
}

/// The least level among the keys that are numbers.
pub open spec fn least_level(rows: Seq<(String, Json)>) -> Option<int>
    decreases rows.len(),
{
    if rows.len() == 0 {
        None
    } else {
        let rest = least_level(rows.drop_last());
        match (parse_i64_of(rows.last().0@), rest) {
            (Some(k), Some(b)) => if k < b {
                Some(k)
            } else {
                Some(b)
            },
            (Some(k), None) => Some(k),
            (None, _) => rest,
        }
    }
}

/// The row of the greatest level up to `level`, or else of the least level.
pub open spec fn row_for(cells: Option<Json>, level: int) -> Option<Json> {
    match cells {
        Some(Json::Obj(rows)) => {
            let key = match level_below(rows@, level) {
                Some(k) => Some(k),
                None => least_level(rows@),
            };
            match key {
                Some(k) => entry_of(rows@, dec_int(k)),
                None => None,
            }
        },
        _ => None,
    }
}

fn level_of(s: &str) -> (r: Option<i64>)
    ensures
        match r {
            Some(n) => parse_i64_of(s@) == Some(n as int),
            None => parse_i64_of(s@) is None,
        },
{
    let v: Vec<char> = chars_of(s);
    proof {
        assert(v@.subrange(0, v@.len() as int) =~= v@);
    }
    parse_i64(&v, 0, v.len())
}

/// The row of the greatest level up to `level`, or else of the least level.
pub fn best_row(cells: Option<&Json>, level: i64) -> (r: Option<&Json>)
    ensures
        val(r) == row_for(val(cells), level as int),
{
    let rows: &Vec<(String, Json)> = match cells {
        Some(Json::Obj(rows)) => rows,
        _ => return None,
    };
    let mut below: Option<i64> = None;
    let mut least: Option<i64> = None;
    let mut i: usize = 0;
    while i < rows.len()
        invariant
            i <= rows@.len(),
            match below {
                Some(b) => level_below(rows@.take(i as int), level as int) == Some(b as int),
                None => level_below(rows@.take(i as int), level as int) is None,
            },
            match least {
                Some(b) => least_level(rows@.take(i as int)) == Some(b as int),
                None => least_level(rows@.take(i as int)) is None,
            },
        decreases rows@.len() - i,
    {
        proof {
            let t = rows@.take(i + 1);
            assert(t.drop_last() =~= rows@.take(i as int));
            assert(t.last() == rows@[i as int]);
        }
        match level_of(rows[i].0.as_str()) {
            Some(k) => {
                if k <= level {
                    match below {
                        Some(b) => {
                            if k > b {
                                below = Some(k);
                            }
                        },
                        None => {
                            below = Some(k);
                        },
                    }
                }
                match least {
                    Some(b) => {
                        if k < b {
                            least = Some(k);
                        }
                    },
                    None => {
                        least = Some(k);
                    },
                }
            },
            None => {},
        }
        i += 1;
    }
    proof {
        assert(rows@.take(rows@.len() as int) =~= rows@);
    }
    let key: i64 = match below {
        Some(k) => k,
        None => match least {
            Some(k) => k,
            None => return None,
        },
    };
    field(cells, i64_text(key).as_str())
}

// ---------- the static table ----------

/// A result table of the rules: a number of dice, and cells by level and sum.
pub struct StaticTable<'a> {
    pub dice: u32,
    pub cells: &'a Json,
}

/// The dice of a result table as a count.
pub open spec fn dice_count(t: Option<Json>) -> Option<u32> {
    match jnat(jget(t, "randomDice"@)) {
        Some(n) => Some((n % 0x1_0000_0000) as u32),
        None => None,
    }
}

impl<'a> StaticTable<'a> {
    pub fn from_rules(rules: &'a Rules, table_id: &str) -> (r: Option<Self>)
        ensures
            ({
                let t = jget(Some(rules.combat_result_tables), table_id@);
                match r {
                    Some(s) => dice_count(t) == Some(s.dice) && jget(t, "cells"@) == Some(*s.cells),
                    None => dice_count(t) is None || jget(t, "cells"@) is None,
                }
            }),
    {
        let t: Option<&Json> = rules.result_table(table_id);
        let n: u64 = match nat_of(field(t, "randomDice")) {
            Some(n) => n,
            None => return None,
        };
        match field(t, "cells") {
            Some(cells) => Some(StaticTable { dice: (n % 0x1_0000_0000) as u32, cells }),
            None => None,
        }
    }
}

/// The cell of a static table under a sum of dice, in the row for a level.
pub open spec fn static_cell(cells: Json, level: int, roll: int) -> Outcome {
    match outcome_in(jget(row_for(Some(cells), level), dec(roll as nat))) {
        Some(o) => o,
        None => Outcome::NoEffect,
    }
}

/// What a static table resolves to: the cell of the level's row under the sum of the dice.
pub open spec fn static_outcome<R: DrawModel>(
    count: u32,
    cells: Json,
    level: int,
    s: R::V,
) -> (Outcome, R::V) {
    let roll = dice::<R>(s, count as nat);
    (static_cell(cells, level, roll.0 % 0x1_0000_0000), roll.1)
}

impl<'a> StaticTable<'a> {
    /// What the table resolves to for a sum of dice.
    pub fn outcome_for_roll(&self, level: i64, roll: u32) -> (r: Outcome)
        ensures
            r == static_cell(*self.cells, level as int, roll as int),
    {
        let row: Option<&Json> = best_row(Some(self.cells), level);
        match field(row, u64_text(roll as u64).as_str()) {
            Some(cell) => match Outcome::parse(cell) {
                Some(o) => o,
                None => Outcome::NoEffect,
            },
            None => Outcome::NoEffect,
        }
    }
}

impl<'a, R: Rng> ProbProvider<R> for StaticTable<'a> {
    open spec fn outcome(&self, level: int, s: R::V) -> (Outcome, R::V) {
        static_outcome::<R>(self.dice, *self.cells, level, s)
    }

    fn resolve(&self, ctx: &ResolveContext, rng: &mut R) -> (r: Outcome) {
        let roll: u32 = rng.roll_sum(self.dice);
        self.outcome_for_roll(ctx.attack_level, roll)
    }
}

// ---------- the calibrated table ----------

/// A calibrated table. Each outcome of a row has a cutoff: of the million equally likely draws,
/// those below it and not below an earlier outcome's cutoff fall to it.
pub struct BayesianTable<'a> {
    pub by_level: Option<&'a Json>,
}

/// Whether entry `e` of a row is an outcome with a cutoff above `d`.
pub open spec fn reached(e: (String, Json), d: int) -> bool {
    match jint(Some(e.1)) {
        Some(c) => d < c,
        None => false,
    }
}

/// The first outcome in name order whose cutoff is above `d`.
pub open spec fn bucket_of(row: Seq<(String, Json)>, d: int) -> Option<Seq<char>>
    decreases row.len(),
{
    if row.len() == 0 {
        None
    } else {
        let rest = bucket_of(row.drop_last(), d);
        if reached(row.last(), d) {
            match rest {
                Some(k) => if text_lt(row.last().0@, k) {
                    Some(row.last().0@)
                } else {
                    Some(k)
                },
                None => Some(row.last().0@),
            }
        } else {
            rest
        }
    }
}

/// The last outcome in name order.
pub open spec fn last_bucket(row: Seq<(String, Json)>) -> Option<Seq<char>>
    decreases row.len(),
{
    if row.len() == 0 {
        None
    } else {
        let rest = last_bucket(row.drop_last());
        if jint(Some(row.last().1)) is Some {
            match rest {
                Some(k) => if text_lt(k, row.last().0@) {
                    Some(row.last().0@)
                } else {
                    Some(k)
                },
                None => Some(row.last().0@),
            }
        } else {
            rest
        }
    }
}

/// What a row of a calibrated table resolves to for a draw; nothing for a row without outcomes.
pub open spec fn calibrated_row(row: Option<Json>, d: int) -> Option<Outcome> {
    match row {
        Some(Json::Obj(row)) => match last_bucket(row@) {
            None => None,
            Some(last) => {
                let key = match bucket_of(row@, d) {
                    Some(k) => k,
                    None => last,
                };
                match outcome_named(key) {
                    Some(o) => Some(o),
                    None => Some(Outcome::NoEffect),
                }
            },
        },
        _ => None,
    }
}

/// What a calibrated table resolves to. A level without a row, and a row without outcomes, draw
/// nothing and have no effect.
pub open spec fn calibrated_outcome<R: DrawModel>(
    by_level: Option<Json>,
    level: int,
    s: R::V,
) -> (Outcome, R::V) {
    let row = row_for(by_level, level);
    let d = R::draw(s, 1_000_000);
    match calibrated_row(row, d.0 as int) {
        Some(o) => (o, d.1),
        None => (Outcome::NoEffect, s),
    }
}

impl<'a> BayesianTable<'a> {
    pub fn from_params(params: &'a Json) -> (r: Self)
        ensures
            val(r.by_level) == jget(Some(*params), "byLevel"@),
    {
        BayesianTable { by_level: params.get("byLevel") }
    }
}

fn find_last(row: &Vec<(String, Json)>) -> (r: Option<&str>)
    ensures
        match r {
            Some(k) => last_bucket(row@) == Some(k@),
            None => last_bucket(row@) is None,
        },
{
    let mut best: Option<&str> = None;
    let mut i: usize = 0;
    while i < row.len()
        invariant
            i <= row@.len(),
            match best {
                Some(k) => last_bucket(row@.take(i as int)) == Some(k@),
                None => last_bucket(row@.take(i as int)) is None,
            },
        decreases row@.len() - i,
    {
        proof {
            let t = row@.take(i + 1);
            assert(t.drop_last() =~= row@.take(i as int));
            assert(t.last() == row@[i as int]);
        }
        if row[i].1.as_i64().is_some() {
            match best {
                Some(k) => {
                    if str_lt(k, row[i].0.as_str()) {
                        best = Some(row[i].0.as_str());
                    }
                },
                None => {
                    best = Some(row[i].0.as_str());
                },
            }
        }
        i += 1;
    }
    proof {
        assert(row@.take(row@.len() as int) =~= row@);
    }
    best
}

fn find_bucket(row: &Vec<(String, Json)>, d: u32) -> (r: Option<&str>)
    ensures
        match r {
            Some(k) => bucket_of(row@, d as int) == Some(k@),
            None => bucket_of(row@, d as int) is None,
        },
{
    let mut best: Option<&str> = None;
    let mut i: usize = 0;
    while i < row.len()
        invariant
            i <= row@.len(),
            match best {
                Some(k) => bucket_of(row@.take(i as int), d as int) == Some(k@),
                None => bucket_of(row@.take(i as int), d as int) is None,
            },
        decreases row@.len() - i,
    {
        proof {
            let t = row@.take(i + 1);
            assert(t.drop_last() =~= row@.take(i as int));
            assert(t.last() == row@[i as int]);
        }
        let hit: bool = match row[i].1.as_i64() {
            Some(c) => (d as i64) < c,
            None => false,
        };
        if hit {
            match best {
                Some(k) => {
                    if str_lt(row[i].0.as_str(), k) {
                        best = Some(row[i].0.as_str());
                    }
                },
                None => {
                    best = Some(row[i].0.as_str());
                },
            }
        }
        i += 1;
    }
    proof {
        assert(row@.take(row@.len() as int) =~= row@);
    }
    best
}

impl<'a> BayesianTable<'a> {
    /// Whether the row for a level holds any outcome.
    fn has_outcomes(&self, level: i64) -> (r: bool)
        ensures
            forall|d: int|
                r == (#[trigger] calibrated_row(row_for(val(self.by_level), level as int), d)
                    is Some),
    {
        match best_row(self.by_level, level) {
            Some(Json::Obj(row)) => find_last(row).is_some(),
            _ => false,
        }
    }

    /// What the table resolves to for a draw out of a million; nothing for a level whose row holds
    /// no outcome.
    pub fn outcome_for_draw(&self, level: i64, d: u32) -> (r: Option<Outcome>)
        ensures
            r == calibrated_row(row_for(val(self.by_level), level as int), d as int),
    {
        let row: &Vec<(String, Json)> = match best_row(self.by_level, level) {
            Some(Json::Obj(row)) => row,
            _ => return None,
        };
        let last: &str = match find_last(row) {
            Some(k) => k,
            None => return None,
        };
        let key: &str = match find_bucket(row, d) {
            Some(k) => k,
            None => last,
        };
        match read_outcome(key) {
            Some(o) => Some(o),
            None => Some(Outcome::NoEffect),
        }
    }
}

impl<'a, R: Rng> ProbProvider<R> for BayesianTable<'a> {
    open spec fn outcome(&self, level: int, s: R::V) -> (Outcome, R::V) {
        calibrated_outcome::<R>(val(self.by_level), level, s)
    }

    fn resolve(&self, ctx: &ResolveContext, rng: &mut R) -> (r: Outcome) {
        if !self.has_outcomes(ctx.attack_level) {
            return Outcome::NoEffect;
        }
        let d: u32 = rng.next_u32_below(1_000_000);
        match self.outcome_for_draw(ctx.attack_level, d) {
            Some(o) => o,
            None => Outcome::NoEffect,
        }
    }
}

// ---------- the others ----------

/// The place of a learned model. It resolves to no effect.
pub struct ModelProvider {}

impl ModelProvider {
    pub fn from_params(params: &Json) -> (r: Self) {
        ModelProvider {  }
    }
}

impl<R: Rng> ProbProvider<R> for ModelProvider {
    open spec fn outcome(&self, level: int, s: R::V) -> (Outcome, R::V) {
        (Outcome::NoEffect, s)
    }

    fn resolve(&self, ctx: &ResolveContext, rng: &mut R) -> (r: Outcome) {
        Outcome::NoEffect
    }
}

/// The backend of a table.
pub enum Provider<'a> {
    Fixed(StaticTable<'a>),
    Bayesian(BayesianTable<'a>),
    Model(ModelProvider),
    /// For a table that the rules do not hold.
    Noop,
}

impl<'a, R: Rng> ProbProvider<R> for Provider<'a> {
    open spec fn outcome(&self, level: int, s: R::V) -> (Outcome, R::V) {
        match self {
            Provider::Fixed(t) => static_outcome::<R>(t.dice, *t.cells, level, s),
            Provider::Bayesian(t) => calibrated_outcome::<R>(val(t.by_level), level, s),
            Provider::Model(_) | Provider::Noop => (Outcome::NoEffect, s),
        }
    }

    fn resolve(&self, ctx: &ResolveContext, rng: &mut R) -> (r: Outcome) {
        match self {
            Provider::Fixed(t) => t.resolve(ctx, rng),
            Provider::Bayesian(t) => t.resolve(ctx, rng),
            Provider::Model(t) => t.resolve(ctx, rng),
            Provider::Noop => Outcome::NoEffect,
        }
    }
}

/// What the backend that the rules configure for a table resolves to.
pub open spec fn table_outcome<R: DrawModel>(
    rules: Rules,
    table_id: Seq<char>,
    level: int,
    s: R::V,
) -> (Outcome, R::V) {
    match at(rules.prob.providers@, table_id) {
        Some(p) => if p.kind@ == "bayesian"@ {
            calibrated_outcome::<R>(jget(Some(p.params), "byLevel"@), level, s)
        } else if p.kind@ == "model"@ {
            (Outcome::NoEffect, s)
        } else {
            static_or_none::<R>(rules, table_id, level, s)
        },
        None => static_or_none::<R>(rules, table_id, level, s),
    }
}

/// What the static table resolves to, where the rules hold it.
pub open spec fn static_or_none<R: DrawModel>(
    rules: Rules,
    table_id: Seq<char>,
    level: int,
    s: R::V,
) -> (Outcome, R::V) {
    let t = jget(Some(rules.combat_result_tables), table_id);
    match (dice_count(t), jget(t, "cells"@)) {
        (Some(n), Some(cells)) => static_outcome::<R>(n, cells, level, s),
        _ => (Outcome::NoEffect, s),
    }
}

/// Builds the backend that the rules configure for a table.
pub fn build_provider<'a>(rules: &'a Rules, table_id: &str) -> (r: Provider<'a>)
    ensures
        match at(rules.prob.providers@, table_id@) {
            Some(p) => if p.kind@ == "bayesian"@ {
                match r {
                    Provider::Bayesian(t) => val(t.by_level) == jget(Some(p.params), "byLevel"@),
                    _ => false,
                }
            } else if p.kind@ == "model"@ {
                r is Model
            } else {
                static_backend(*rules, table_id@, r)
            },
            None => static_backend(*rules, table_id@, r),
        },
{
    match rules.prob.providers.get(&table_id.to_owned()) {
        Some(p) => {
            if str_eq(p.kind.as_str(), "bayesian") {
                Provider::Bayesian(BayesianTable::from_params(&p.params))
            } else if str_eq(p.kind.as_str(), "model") {
                Provider::Model(ModelProvider::from_params(&p.params))
            } else {
                static_or_noop(rules, table_id)
            }
        },
        None => static_or_noop(rules, table_id),
    }
}

/// Whether a backend is the static table of the rules, or nothing where they hold none.
pub open spec fn static_backend(rules: Rules, table_id: Seq<char>, p: Provider) -> bool {
    let t = jget(Some(rules.combat_result_tables), table_id);
    match (dice_count(t), jget(t, "cells"@)) {
        (Some(n), Some(cells)) => match p {
            Provider::Fixed(s) => s.dice == n && *s.cells == cells,
            _ => false,
        },
        _ => p is Noop,
    }
}

fn static_or_noop<'a>(rules: &'a Rules, table_id: &str) -> (r: Provider<'a>)
    ensures
        static_backend(*rules, table_id@, r),
{
    match StaticTable::from_rules(rules, table_id) {
        Some(t) => Provider::Fixed(t),
        None => Provider::Noop,
    }
}

} // verus!
