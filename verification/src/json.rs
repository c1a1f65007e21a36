//! Configuration blocks and orders as trees of plain values.
use crate::text::str_eq;
use vstd::prelude::*;

verus! {

/// A tree of values. An object lists its entries in key order; the first entry with a key counts.
/// A number that is no integer is `Real`: nothing here reads its value.
#[derive(Debug)]
pub enum Json {
    Null,
    Bool(bool),
    Int(i64),
    /// An integer above `i64::MAX`.
    UInt(u64),
    Real,
    Str(String),
    Arr(Vec<Json>),
    Obj(Vec<(String, Json)>),
}

impl View for Json {
    type V = Json;

    open spec fn view(&self) -> Json {
        *self
    }
}

/// The value of the first entry with a key.
pub open spec fn entry_of(entries: Seq<(String, Json)>, key: Seq<char>) -> Option<Json>
    decreases entries.len(),
{
    if entries.len() == 0 {
        None
    } else if entries[0].0@ == key {
        Some(entries[0].1)
    } else {
        entry_of(entries.drop_first(), key)
    }
}

/// The member `key` of an object; nothing for anything else.
pub open spec fn jget(o: Option<Json>, key: Seq<char>) -> Option<Json> {
    match o {
        Some(Json::Obj(entries)) => entry_of(entries@, key),
        _ => None,
    }
}

/// Item `i` of an array; nothing for anything else.
pub open spec fn jitem(o: Option<Json>, i: int) -> Option<Json> {
    match o {
        Some(Json::Arr(items)) => if 0 <= i < items@.len() {
            Some(items@[i])
        } else {
            None
        },
        _ => None,
    }
}

/// An integer in the range of `i64`.
pub open spec fn jint(o: Option<Json>) -> Option<i64> {
    match o {
        Some(Json::Int(n)) => Some(n),
        Some(Json::UInt(n)) => if n <= i64::MAX {
            Some(n as i64)
        } else {
            None
        },
        _ => None,
    }
}

/// An integer in the range of `u64`.
pub open spec fn jnat(o: Option<Json>) -> Option<u64> {
    match o {
        Some(Json::Int(n)) => if n >= 0 {
            Some(n as u64)
        } else {
            None
        },
        Some(Json::UInt(n)) => Some(n),
        _ => None,
    }
}

/// A text.
pub open spec fn jtext(o: Option<Json>) -> Option<Seq<char>> {
    match o {
        Some(Json::Str(s)) => Some(s@),
        _ => None,
    }
}

/// The integer, or `d` where there is none.
pub open spec fn jint_or(o: Option<Json>, d: int) -> int {
    match jint(o) {
        Some(n) => n as int,
        None => d,
    }
}

/// What an optional reference refers to.
pub open spec fn val<T>(o: Option<&T>) -> Option<T> {
    match o {
        Some(x) => Some(*x),
        None => None,
    }
}

impl Json {
    pub fn get(&self, key: &str) -> (r: Option<&Json>)
        ensures
            val(r) == jget(Some(*self), key@),
    {
        match self {
            Json::Obj(entries) => {
                let mut i: usize = 0;
                proof {
                    assert(entries@.skip(0) =~= entries@);
                }
                while i < entries.len()
                    invariant
                        i <= entries@.len(),
                        *self == Json::Obj(*entries),
                        entry_of(entries@, key@) == entry_of(entries@.skip(i as int), key@),
                    decreases entries@.len() - i,
                {
                    let ghost rest = entries@.skip(i as int);
                    assert(rest[0] == entries@[i as int]);
                    assert(rest.drop_first() =~= entries@.skip(i + 1));
                    if str_eq(entries[i].0.as_str(), key) {
                        return Some(&entries[i].1);
                    }
                    i += 1;
                }
                None
            },
            _ => None,
        }
    }

    pub fn as_i64(&self) -> (r: Option<i64>)
        ensures
            r == jint(Some(*self)),
    {
        match self {
            Json::Int(n) => Some(*n),
            Json::UInt(n) => if *n <= i64::MAX as u64 {
                Some(*n as i64)
            } else {
                None
            },
            _ => None,
        }
    }

    pub fn as_u64(&self) -> (r: Option<u64>)
        ensures
            r == jnat(Some(*self)),
    {
        match self {
            Json::Int(n) => if *n >= 0 {
                Some(*n as u64)
            } else {
                None
            },
            Json::UInt(n) => Some(*n),
            _ => None,
        }
    }

    pub fn as_str(&self) -> (r: Option<&str>)
        ensures
            match r {
                Some(s) => jtext(Some(*self)) == Some(s@),
                None => jtext(Some(*self)) is None,
            },
    {
        match self {
            Json::Str(s) => Some(s.as_str()),
            _ => None,
        }
    }
}

/// Member `key` of what `o` refers to.
pub fn field<'a>(o: Option<&'a Json>, key: &str) -> (r: Option<&'a Json>)
    ensures
        val(r) == jget(val(o), key@),
{
    match o {
        Some(j) => j.get(key),
        None => None,
    }
}

/// Item `i` of what `o` refers to.
pub fn item<'a>(o: Option<&'a Json>, i: usize) -> (r: Option<&'a Json>)
    ensures
        val(r) == jitem(val(o), i as int),
{
    match o {
        Some(Json::Arr(items)) => if i < items.len() {
            Some(&items[i])
        } else {
            None
        },
        _ => None,
    }
}

pub fn int_of(o: Option<&Json>) -> (r: Option<i64>)
    ensures
        r == jint(val(o)),
{
    match o {
        Some(j) => j.as_i64(),
        None => None,
    }
}

pub fn int_or(o: Option<&Json>, d: i64) -> (r: i64)
    ensures
        r == jint_or(val(o), d as int),
{
    match int_of(o) {
        Some(n) => n,
        None => d,
    }
}

pub fn nat_of(o: Option<&Json>) -> (r: Option<u64>)
    ensures
        r == jnat(val(o)),
{
    match o {
        Some(j) => j.as_u64(),
        None => None,
    }
}

pub fn text_of<'a>(o: Option<&'a Json>) -> (r: Option<&'a str>)
    ensures
        match r {
            Some(s) => jtext(val(o)) == Some(s@),
            None => jtext(val(o)) is None,
        },
{
    match o {
        Some(j) => j.as_str(),
        None => None,
    }
}

/// Whether `o` refers to the text `s`.
pub fn is_text(o: Option<&Json>, s: &str) -> (r: bool)
    ensures
        r == (jtext(val(o)) == Some(s@)),
{
    match text_of(o) {
        Some(t) => str_eq(t, s),
        None => false,
    }
}

} // verus!
