//! Epochs: weeks, counted from the start of the Unix time. Timestamps are in
//! milliseconds.

use vstd::prelude::*;

verus! {

pub const DAY_IN_MILLI: u64 = 86_400_000;

/// The length of an epoch in milliseconds: seven days.
pub const EPOCH_DURATION_MILLI: u64 = 604_800_000;

/// The epoch that `timestamp` falls in.
pub fn timestamp_to_epoch(timestamp: u64) -> (epoch: u64)
    ensures
        epoch == timestamp / EPOCH_DURATION_MILLI,
{
    timestamp / EPOCH_DURATION_MILLI
}

/// The epoch of the moment `days_ago` days before `now`. The Unix time must
/// have begun by then.
pub fn days_ago_to_epoch(now: u64, days_ago: u64) -> (epoch: u64)
    requires
        days_ago * DAY_IN_MILLI <= now,
    ensures
        epoch == (now - days_ago * DAY_IN_MILLI) / (EPOCH_DURATION_MILLI as int),
{
    let days_ago_milli = days_ago * DAY_IN_MILLI;
    let target_time = now - days_ago_milli;
    timestamp_to_epoch(target_time)
}

} // verus!
