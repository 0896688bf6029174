//! Conversions of durations to the forms system calls take.
use crate::num_ext::clamp_u128;
use vstd::prelude::*;

verus! {

/// The largest `time_t`.
pub const TIME_T_MAX: i64 = i64::MAX;

/// A `timespec`: seconds and nanoseconds.
#[derive(Debug, Clone, Copy, PartialEq, Eq, Structural)]
pub struct Timespec {
    pub tv_sec: i64,
    pub tv_nsec: i64,
}

/// The timespec of the duration `secs` s + `nanos` ns, saturated at the
/// largest `time_t` (with the largest nanosecond count).
pub fn saturating_duration_to_timespec(secs: u64, nanos: u32) -> (t: Timespec)
    requires
        nanos < 1_000_000_000,
    ensures
        t == if secs > TIME_T_MAX {
            Timespec { tv_sec: TIME_T_MAX, tv_nsec: 999_999_999 }
        } else {
            Timespec { tv_sec: secs as i64, tv_nsec: nanos as i64 }
        },
{
    if secs > TIME_T_MAX as u64 {
        Timespec { tv_sec: TIME_T_MAX, tv_nsec: 999_999_999 }
    } else {
        Timespec { tv_sec: secs as i64, tv_nsec: nanos as i64 }
    }
}

/// The timespec of an optional duration `(secs, nanos)`; `None` (wait
/// forever) stays `None`.
pub fn saturating_opt_duration_to_timespec(duration: Option<(u64, u32)>) -> (t: Option<Timespec>)
    requires
        duration matches Some(d) ==> d.1 < 1_000_000_000,
    ensures
        duration is None ==> t is None,
        duration matches Some(d) ==> t == Some(
            if d.0 > TIME_T_MAX {
                Timespec { tv_sec: TIME_T_MAX, tv_nsec: 999_999_999 }
            } else {
                Timespec { tv_sec: d.0 as i64, tv_nsec: d.1 as i64 }
            },
        ),
{
    match duration {
        Some(d) => Some(saturating_duration_to_timespec(d.0, d.1)),
        None => None,
    }
}

/// The whole milliseconds of `secs` s + `nanos` ns, rounded up, at most
/// `i32::MAX`.
pub open spec fn duration_ms(secs: u64, nanos: u32) -> int {
    let ms = (secs * 1_000_000_000 + nanos + 999_999) / 1_000_000;
    if ms > i32::MAX {
        i32::MAX as int
    } else {
        ms
    }
}

/// The milliseconds of the duration `secs` s + `nanos` ns, rounded up so
/// that a positive duration gives at least one, saturated at `i32::MAX`.
pub fn saturating_duration_to_ms(secs: u64, nanos: u32) -> (ms: i32)
    requires
        nanos < 1_000_000_000,
    ensures
        ms == duration_ms(secs, nanos),
{
    let mut s = secs;
    let mut n: u32 = nanos + 999_999;
    if n >= 1_000_000_000 {
        n = n - 1_000_000_000;
        if s == u64::MAX {
            n = 999_999_999;
        } else {
            s = s + 1;
        }
    }
    let millis: u128 = s as u128 * 1000 + (n / 1_000_000) as u128;
    let clamped = clamp_u128(millis, 0, i32::MAX as u128);
    clamped as i32
}

/// The milliseconds of an optional duration `(secs, nanos)`; `None` (wait
/// forever) gives `-1`.
pub fn saturating_opt_duration_to_ms(duration: Option<(u64, u32)>) -> (ms: i32)
    requires
        duration matches Some(d) ==> d.1 < 1_000_000_000,
    ensures
        duration is None ==> ms == -1,
        duration matches Some(d) ==> ms == duration_ms(d.0, d.1),
{
    match duration {
        Some(d) => saturating_duration_to_ms(d.0, d.1),
        None => -1,
    }
}

} // verus!
