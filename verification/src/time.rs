//! Hour bucketing and scheduling arithmetic.
//!
//! All timestamps are non-negative counts of seconds since the Unix epoch.
//! An hour bucket is a timestamp truncated to its containing hour; it is the
//! aggregation key for snapshots and the alignment anchor of the window view.

use vstd::prelude::*;

verus! {

/// Seconds in one hour bucket.
pub const SECONDS_PER_HOUR: i64 = 3600;

/// Age (3 days, in seconds) beyond which raw events and snapshots are evicted.
pub const RETENTION_SECONDS: i64 = 259200;

/// The aggregator only reads heartbeats at most this old (3 hours, in seconds).
pub const LOOKBACK_SECONDS: i64 = 10800;

/// Poll ticks align to wall-clock boundaries of this length (5 minutes, in seconds).
pub const POLL_ALIGN_SECONDS: i64 = 300;

/// Number of hourly slots in the rolling window (48 hours).
pub const WINDOW_HOURS: usize = 48;

/// Largest timestamp the library accepts: the first second of year 10000.
/// Keeps every derived bucket well inside `i64` and inside the range that
/// the calendar formatter is defined on.
pub const MAX_TIME: i64 = 253402300800;

/// The hour bucket containing `t`: `t` truncated to a whole hour.
pub open spec fn spec_hour_bucket(t: int) -> int {
    t - (t % (SECONDS_PER_HOUR as int))
}

/// Truncate a timestamp to its containing hour bucket.
pub fn hour_bucket(t: i64) -> (b: i64)
    requires
        0 <= t,
    ensures
        b == spec_hour_bucket(t as int),
        b % SECONDS_PER_HOUR == 0,
        b <= t < b + SECONDS_PER_HOUR,
{
    t - t % SECONDS_PER_HOUR
}

/// The next multiple-of-5-minute wall-clock boundary strictly after `now`.
/// Poll ticks computed this way are synchronized across process restarts.
pub fn next_poll_tick(now: i64) -> (t: i64)
    requires
        0 <= now <= MAX_TIME,
    ensures
        t % POLL_ALIGN_SECONDS == 0,
        now < t <= now + POLL_ALIGN_SECONDS,
{
    now - now % POLL_ALIGN_SECONDS + POLL_ALIGN_SECONDS
}

/// The canonical label of an hour bucket, as the calendar formatter renders it.
pub uninterp spec fn hour_label_of(t: int) -> Seq<char>;

/// Relies on `std::time::SystemTime::now` and `duration_since`, which are
/// total: a clock set before the Unix epoch comes back as `Err` and is handed
/// on as a negative value, one beyond `i64` saturates.  Nothing is promised
/// of the result; `current_time` rejects every out-of-range reading.
#[verifier::external_body]
fn now_seconds() -> (t: i64) {
    match std::time::SystemTime::now().duration_since(std::time::UNIX_EPOCH) {
        Ok(d) => i64::try_from(d.as_secs()).unwrap_or(i64::MAX),
        Err(_) => -1,
    }
}

/// Relies on chrono's `DateTime::from_timestamp_secs`, defined on this whole
/// range, and `DateTime::format` with a fixed UTC pattern whose output depends
/// on the timestamp alone.
#[verifier::external_body]
pub(crate) fn format_hour(t: i64) -> (r: String)
    requires
        0 <= t <= MAX_TIME,
        t % SECONDS_PER_HOUR == 0,
    ensures
        r@ == hour_label_of(t as int),
{
    let dt = chrono::DateTime::<chrono::Utc>::from_timestamp_secs(t)
        .expect("timestamp within the supported range");
    dt.format("%Y-%m-%dT%H:00:00%:z").to_string()
}

/// Accept a raw clock reading exactly when it lies in the range the library
/// is defined on.
pub fn check_clock(t: i64) -> (r: Option<i64>)
    ensures
        0 <= t <= MAX_TIME ==> r == Some(t),
        !(0 <= t <= MAX_TIME) ==> r is None,
{
    if 0 <= t && t <= MAX_TIME {
        Some(t)
    } else {
        None
    }
}

/// Read the wall clock.  `None` when the clock reports a time outside the
/// range the library is defined on; every other component takes the returned
/// timestamp as an argument, so its logic is verified for every clock value.
pub fn current_time() -> (r: Option<i64>)
    ensures
        r matches Some(t) ==> 0 <= t <= MAX_TIME,
{
    check_clock(now_seconds())
}

} // verus!
