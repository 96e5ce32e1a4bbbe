//! The wall clock, through std and `chrono`, and its conversion to the UUID
//! timestamp: 100-nanosecond intervals since 1582-10-15 00:00:00 UTC.

use std::time::{SystemTime, UNIX_EPOCH};

use chrono::{DateTime, Utc};
use vstd::prelude::*;

verus! {

/// Seconds from 1582-10-15 00:00:00 (start of the Gregorian calendar) to
/// 1970-01-01 00:00:00 (the Unix epoch).
pub const GREGORIAN_TO_UNIX_SECS: i64 = 12_219_292_800;

/// The number of 100-nanosecond intervals since 1582-10-15 00:00:00 UTC at
/// the instant `secs` seconds plus `nanos` nanoseconds after the Unix epoch
/// (the sub-100-nanosecond rest is dropped).
pub open spec fn gregorian_intervals(secs: i64, nanos: u32) -> int {
    (secs + GREGORIAN_TO_UNIX_SECS) * 10_000_000 + nanos / 100
}

/// `true` when that count is a valid `u64` timestamp: the instant is not
/// before 1582-10-15 and the count fits in 64 bits.
pub open spec fn representable(secs: i64, nanos: u32) -> bool {
    0 <= secs + GREGORIAN_TO_UNIX_SECS && gregorian_intervals(secs, nanos) <= u64::MAX
}

/// `SystemTime::now().duration_since(UNIX_EPOCH)`, read as whole seconds
/// (`Duration::as_secs`) and the nanoseconds within the second
/// (`Duration::subsec_nanos`, which std documents as below one billion);
/// `None` when the system clock is before the Unix epoch. The time itself
/// is not stated.
#[verifier::external_body]
pub(crate) fn system_time_since_epoch() -> (r: Option<(u64, u32)>)
    ensures
        r matches Some(d) ==> d.1 < 1_000_000_000,
{
    match SystemTime::now().duration_since(UNIX_EPOCH) {
        Ok(d) => Some((d.as_secs(), d.subsec_nanos())),
        Err(_) => None,
    }
}

/// `DateTime::<Utc>::from_timestamp(secs, nanos)`, read back through
/// `timestamp` and `timestamp_subsec_nanos`. Chrono documents that a value
/// it returns round-trips to the arguments. Its source returns `None` for
/// nanoseconds of two billion or more (`NaiveTime::from_num_seconds_from_midnight_opt`),
/// and returns a value for nanoseconds below one billion and any day from
/// the epoch up to the last day of year `MAX_YEAR` (262142,
/// `naive/date/mod.rs`): that covers every second from 0 to
/// 8_000_000_000_000, which falls in year 255479. The exact bounds of the
/// accepted range are not stated.
#[verifier::external_body]
pub(crate) fn utc_from_timestamp(secs: i64, nanos: u32) -> (r: Option<(i64, u32)>)
    ensures
        r matches Some(t) ==> t.0 == secs && t.1 == nanos,
        nanos >= 2_000_000_000 ==> r is None,
        0 <= secs <= 8_000_000_000_000 && nanos < 1_000_000_000 ==> r is Some,
{
    match DateTime::<Utc>::from_timestamp(secs, nanos) {
        Some(dt) => Some((dt.timestamp(), dt.timestamp_subsec_nanos())),
        None => None,
    }
}

/// The seconds after the Unix epoch that chrono's UTC clock can hold for
/// certain; see `utc_from_timestamp`.
pub const SURE_UTC_SECS: i64 = 8_000_000_000_000;

/// A reading of the system clock, `secs` whole seconds and `nanos`
/// nanoseconds after the Unix epoch, taken as a UTC date-time by chrono and
/// read back: `None` when the seconds do not fit in an `i64` or chrono
/// refuses the reading, else the reading itself.
pub fn utc_reading(secs: u64, nanos: u32) -> (r: Option<(i64, u32)>)
    ensures
        secs > i64::MAX ==> r is None,
        nanos >= 2_000_000_000 ==> r is None,
        r matches Some(t) ==> t.0 == secs && t.1 == nanos,
        secs <= SURE_UTC_SECS && nanos < 1_000_000_000 ==> r is Some,
{
    if secs > i64::MAX as u64 {
        return None;
    }
    utc_from_timestamp(secs as i64, nanos)
}

/// The current time as seconds and nanoseconds after the Unix epoch, as
/// chrono's UTC clock gives it: the system clock's duration since the
/// epoch, taken as a UTC date-time. `None` when the system clock is before
/// the epoch or outside the range of dates chrono holds.
pub fn read_clock() -> (r: Option<(i64, u32)>)
    ensures
        r matches Some(t) ==> 0 <= t.0 && t.1 < 1_000_000_000,
{
    match system_time_since_epoch() {
        Some((secs, nanos)) => utc_reading(secs, nanos),
        None => None,
    }
}

/// The UUID timestamp for a clock reading of `secs` seconds and `nanos`
/// nanoseconds after the Unix epoch, or `None` when it is not representable.
pub fn gregorian_time_count(secs: i64, nanos: u32) -> (r: Option<u64>)
    ensures
        r is Some <==> representable(secs, nanos),
        r matches Some(t) ==> t == gregorian_intervals(secs, nanos),
{
    let since_gregorian: i128 = secs as i128 + GREGORIAN_TO_UNIX_SECS as i128;
    if since_gregorian < 0 {
        return None;
    }
    let count: i128 = since_gregorian * 10_000_000 + (nanos / 100) as i128;
    if count > u64::MAX as i128 {
        None
    } else {
        Some(count as u64)
    }
}

/// A later clock reading never gives a smaller timestamp: readings ordered by
/// seconds, then nanoseconds (below one second), give ordered counts.
pub proof fn lemma_intervals_monotonic(secs1: i64, nanos1: u32, secs2: i64, nanos2: u32)
    requires
        nanos1 < 1_000_000_000,
        nanos2 < 1_000_000_000,
        secs1 < secs2 || (secs1 == secs2 && nanos1 <= nanos2),
    ensures
        gregorian_intervals(secs1, nanos1) <= gregorian_intervals(secs2, nanos2),
{
    assert(nanos1 / 100 < 10_000_000);
    if secs1 == secs2 {
        assert(nanos1 / 100 <= nanos2 / 100) by (nonlinear_arith)
            requires
                nanos1 <= nanos2,
        ;
    }
}

} // verus!
