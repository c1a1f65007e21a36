//! The logical clock, in whole centiseconds.
use vstd::prelude::*;

verus! {

/// A tick of the logical clock; one second is 100 of them.
pub type Tick = i64;

/// Centiseconds per second.
pub const CS_PER_SEC: Tick = 100;

/// A sum of ticks that stops at the ends of the clock.
pub open spec fn tick_sum(a: Tick, b: Tick) -> Tick {
    if a + b > i64::MAX {
        i64::MAX
    } else if a + b < i64::MIN {
        i64::MIN
    } else {
        (a + b) as i64
    }
}

/// A sum of ticks that stops at the ends of the clock.
pub fn later(a: Tick, b: Tick) -> (r: Tick)
    ensures
        r == tick_sum(a, b),
{
    let s: i128 = a as i128 + b as i128;
    if s > i64::MAX as i128 {
        i64::MAX
    } else if s < i64::MIN as i128 {
        i64::MIN
    } else {
        s as i64
    }
}

/// Whole seconds in ticks, up to the ends of the clock.
pub open spec fn seconds_in_ticks(secs: int) -> int {
    if secs * 100 > i64::MAX {
        i64::MAX as int
    } else if secs * 100 < i64::MIN {
        i64::MIN as int
    } else {
        secs * 100
    }
}

/// Whole seconds in ticks, up to the ends of the clock.
pub fn whole_secs_to_ticks(secs: i64) -> (r: Tick)
    ensures
        r == seconds_in_ticks(secs as int),
{
    let s: i128 = secs as i128 * 100;
    if s > i64::MAX as i128 {
        i64::MAX
    } else if s < i64::MIN as i128 {
        i64::MIN
    } else {
        s as i64
    }
}

/// A counter after one more use; it starts again at zero after the last value.
pub open spec fn next_of(n: u64) -> u64 {
    if n == u64::MAX {
        0
    } else {
        (n + 1) as u64
    }
}

/// A counter after one more use; it starts again at zero after the last value.
pub fn next(n: u64) -> (r: u64)
    ensures
        r == next_of(n),
{
    if n == u64::MAX {
        0
    } else {
        n + 1
    }
}

} // verus!
