use vstd::prelude::*;
use chrono::Timelike;

verus! {

/// One reading of the clock.
#[derive(Clone, Copy, Debug, PartialEq, Eq)]
pub struct Clock {
    /// Unix time in seconds.
    pub timestamp: i64,
    /// Local wall-clock date-time as naive seconds since the Unix epoch.
    pub local: i64,
    /// Seconds since local midnight.
    pub time_of_day: i64,
}

/// Relies on chrono's `Local::now`, its `timestamp`, its naive local value
/// (counted as days times 86400 plus the seconds of the day) and
/// `Timelike::num_seconds_from_midnight` of the same local value, which
/// counts the non-leap seconds of the day.
#[verifier::external_body]
pub(crate) fn clock_now() -> (r: Clock)
    ensures
        0 <= r.time_of_day < 86400,
        (r.local as int) % 86400 == r.time_of_day as int,
{
    let now = chrono::Local::now();
    Clock {
        timestamp: now.timestamp(),
        local: now.naive_local().and_utc().timestamp(),
        time_of_day: now.num_seconds_from_midnight() as i64,
    }
}

} // verus!
