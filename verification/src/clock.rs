//! The time at which a report arrives, in microseconds since 1970-01-01
//! 00:00:00 UTC.
use vstd::prelude::*;

verus! {

/// The first second that has a date: 0:00:00 on 1 January of the year
/// -262143, in seconds since 1970-01-01 00:00:00 UTC.
pub const FIRST_SECOND: i64 = -8_334_601_228_800;

/// The last second that has a date: 23:59:59 on 31 December of the year
/// 262142, in seconds since 1970-01-01 00:00:00 UTC.
pub const LAST_SECOND: i64 = 8_210_266_876_799;

/// The time `secs` seconds and `nanos` nanoseconds after 1970-01-01 00:00:00
/// UTC in microseconds, the nanoseconds beyond the last whole microsecond
/// left out. `None` where `nanos` is a second or more, or where the second
/// has no date.
pub open spec fn micros_of(secs: i64, nanos: u32) -> Option<i64> {
    if nanos < 1_000_000_000 && FIRST_SECOND <= secs <= LAST_SECOND {
        Some((secs * 1_000_000 + nanos / 1000) as i64)
    } else {
        None
    }
}

/// The time that has passed since 1970-01-01 00:00:00 UTC, in whole seconds
/// and the nanoseconds beyond them, read with `std::time::SystemTime::elapsed`
/// on `UNIX_EPOCH`; `None` where that fails, which it does where the system
/// clock reads a time before 1970.
///
/// Nothing is claimed of the time, which is whatever the system clock says;
/// only that the nanoseconds are less than a second, as
/// `Duration::subsec_nanos` documents.
#[verifier::external_body]
fn since_epoch() -> (r: Option<(u64, u32)>)
    ensures
        r matches Some(t) ==> t.1 < 1_000_000_000,
{
    let since = std::time::UNIX_EPOCH.elapsed().ok()?;
    Some((since.as_secs(), since.subsec_nanos()))
}

/// The microseconds since 1970-01-01 00:00:00 UTC of the time `secs` seconds
/// and `nanos` nanoseconds after it, made with `chrono::DateTime::from_timestamp`
/// and read with `DateTime::timestamp_micros`.
///
/// Claimed, for nanoseconds below a second: `from_timestamp` gives a time
/// exactly for the seconds of the dates that chrono has, which are those of
/// the years -262143 to 262142 (`MIN_YEAR`, `MAX_YEAR`), that is from
/// [`FIRST_SECOND`] to [`LAST_SECOND`]; and `timestamp_micros` of that time is
/// the seconds times 1,000,000 plus the whole microseconds of `nanos`.
#[verifier::external_body]
fn micros_since_epoch(secs: i64, nanos: u32) -> (r: Option<i64>)
    requires
        nanos < 1_000_000_000,
    ensures
        r == micros_of(secs, nanos),
{
    let at = chrono::DateTime::from_timestamp(secs, nanos)?;
    Some(at.timestamp_micros())
}

/// The time `secs` seconds and `nanos` nanoseconds after 1970-01-01 00:00:00
/// UTC in microseconds; see [`micros_of`].
pub fn micros_at(secs: i64, nanos: u32) -> (r: Option<i64>)
    ensures
        r == micros_of(secs, nanos),
{
    if nanos < 1_000_000_000 {
        micros_since_epoch(secs, nanos)
    } else {
        None
    }
}

/// The current time in microseconds since 1970-01-01 00:00:00 UTC. `None`
/// where the system clock reads a time before 1970 or after the last second
/// that has a date.
pub(crate) fn now_micros() -> (epoch: Option<i64>) {
    match since_epoch() {
        Some((secs, nanos)) => {
            if secs <= i64::MAX as u64 {
                micros_at(secs as i64, nanos)
            } else {
                None
            }
        },
        None => None,
    }
}

} // verus!
