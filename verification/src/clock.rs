//! Calendar-day arithmetic. Timestamps are epoch seconds; the reference
//! timezone sits a fixed offset ahead of UTC, and a "day" is the number of
//! whole local days since the epoch. Rollover decisions compare these day
//! numbers.

use vstd::prelude::*;

verus! {

/// Seconds the reference timezone is ahead of UTC.
pub const TZ_OFFSET_SECS: i64 = 28800;

/// Seconds in a calendar day.
pub const SECS_PER_DAY: i64 = 86400;

/// The local calendar day a timestamp falls in.
pub open spec fn spec_day_of(ts: int) -> int {
    (ts + TZ_OFFSET_SECS) / (SECS_PER_DAY as int)
}

/// Computes the local calendar day of a timestamp.
pub fn day_of(ts: i64) -> (d: i64)
    requires
        0 <= ts <= i64::MAX - TZ_OFFSET_SECS,
    ensures
        d == spec_day_of(ts as int),
{
    (((ts + TZ_OFFSET_SECS) as u64) / (SECS_PER_DAY as u64)) as i64
}

} // verus!
