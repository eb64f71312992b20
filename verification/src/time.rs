//! Millisecond arithmetic that saturates.
use vstd::prelude::*;

verus! {

/// `sec` seconds in milliseconds, at most `u64::MAX`.
pub open spec fn ms_of_sec(sec: u64) -> int {
    if sec * 1000 > u64::MAX {
        u64::MAX as int
    } else {
        sec * 1000
    }
}

/// Milliseconds from `start` to `now`, zero if `start` is later.
pub open spec fn ms_between(now: u64, start: u64) -> int {
    if now < start {
        0
    } else {
        now - start
    }
}

pub fn sec_to_ms(sec: u64) -> (ms: u64)
    ensures
        ms == ms_of_sec(sec),
{
    match sec.checked_mul(1_000) {
        Some(ms) => ms,
        None => u64::MAX,
    }
}

pub fn elapsed_ms(now: u64, start: u64) -> (ms: u64)
    ensures
        ms == ms_between(now, start),
{
    if now < start {
        0
    } else {
        now - start
    }
}

/// The time from a start to now leads from the one to the other, and a second has a thousand
/// milliseconds as far as they can be counted.
pub proof fn law_time_is_counted_in_milliseconds(now: u64, start: u64, sec: u64)
    ensures
        start <= now ==> start + ms_between(now, start) == now,
        now <= start ==> ms_between(now, start) == 0,
        sec <= u64::MAX / 1000 ==> ms_of_sec(sec) == 1000 * sec,
        sec > u64::MAX / 1000 ==> ms_of_sec(sec) == u64::MAX,
{
}

} // verus!
