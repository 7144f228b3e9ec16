//! Timestamps from the wall clock: whole seconds since the epoch and the
//! nanoseconds within that second.

use vstd::prelude::*;
use crate::event::{Timestamp, NANOS_PER_SECOND};

verus! {

/// The wall clock: `std::time::SystemTime::now`, made a `chrono::DateTime` in
/// UTC by chrono's `From<SystemTime>`, then read by `DateTime::timestamp` and
/// `DateTime::timestamp_subsec_nanos`. The result is the whole seconds since
/// the epoch, negative before it, and the nanoseconds behind them, which chrono
/// counts up to two seconds in a leap second. Nothing is claimed of the
/// values: they are the time. chrono makes a `DateTime` of every instant of
/// its calendar, before the epoch as after it; the calendar reaches 262 000
/// years to either side, and for a clock set beyond it chrono has no value
/// and stops the program.
#[verifier::external_body]
pub(crate) fn clock_reading() -> (reading: (i64, u32)) {
    let moment = chrono::DateTime::<chrono::Utc>::from(std::time::SystemTime::now());
    (moment.timestamp(), moment.timestamp_subsec_nanos())
}

/// The last point in time that a timestamp can hold.
pub open spec fn last_timestamp() -> Timestamp {
    Timestamp { seconds: i64::MAX, nanos: 999_999_999 }
}

/// The timestamp for `seconds` whole seconds since the epoch and
/// `subsec_nanos` nanoseconds behind them. Nanoseconds of one second or more
/// are carried into the seconds, so that what remains stays within one
/// second; where the seconds cannot take the carry, the timestamp is the last
/// that there is.
pub open spec fn timestamp_of(seconds: i64, subsec_nanos: u32) -> Timestamp {
    let carried = seconds + subsec_nanos as int / 1_000_000_000;
    if carried <= i64::MAX {
        Timestamp { seconds: carried as i64, nanos: (subsec_nanos as int % 1_000_000_000) as u32 }
    } else {
        last_timestamp()
    }
}

/// The point in time that lies `total` nanoseconds from the epoch: the seconds
/// are rounded down, so that the nanoseconds are never negative, also before
/// the epoch.
pub open spec fn timestamp_at(total: i64) -> Timestamp {
    Timestamp {
        seconds: (total as int / 1_000_000_000) as i64,
        nanos: (total as int % 1_000_000_000) as u32,
    }
}

impl Timestamp {
    /// The point in time that lies `total` nanoseconds from the epoch. The
    /// seconds are rounded down, so that the nanoseconds are never negative,
    /// also before the epoch.
    pub fn from_nanos(total: i64) -> (timestamp: Timestamp)
        ensures
            timestamp == timestamp_at(total),
            timestamp.valid(),
            timestamp.total_nanos() == total,
    {
        if total >= 0 {
            let whole: u64 = total as u64;
            Timestamp {
                seconds: (whole / 1_000_000_000) as i64,
                nanos: (whole % 1_000_000_000) as u32,
            }
        } else {
            let back: u64 = (-(total + 1)) as u64;
            Timestamp {
                seconds: -((back / 1_000_000_000) as i64) - 1,
                nanos: (999_999_999 - back % 1_000_000_000) as u32,
            }
        }
    }
}

/// The timestamp that a reading of the clock stands for: valid for every
/// reading, the reading itself where its nanoseconds stay within one second,
/// and the same instant wherever the seconds can take the carry.
pub fn stamp(seconds: i64, subsec_nanos: u32) -> (timestamp: Timestamp)
    ensures
        timestamp == timestamp_of(seconds, subsec_nanos),
        timestamp.valid(),
        subsec_nanos < NANOS_PER_SECOND ==> timestamp == (Timestamp {
            seconds,
            nanos: subsec_nanos,
        }),
        seconds + subsec_nanos / NANOS_PER_SECOND <= i64::MAX ==> timestamp.total_nanos()
            == seconds * NANOS_PER_SECOND + subsec_nanos,
{
    let carry: i64 = (subsec_nanos / NANOS_PER_SECOND) as i64;
    if seconds <= i64::MAX - carry {
        Timestamp { seconds: seconds + carry, nanos: subsec_nanos % NANOS_PER_SECOND }
    } else {
        Timestamp { seconds: i64::MAX, nanos: 999_999_999 }
    }
}

/// The current time: the reading of the wall clock as a timestamp. Whatever
/// the clock says, before the epoch or after it, there is a timestamp, and
/// its nanoseconds stay within one second. `stamp` says what is made of each
/// reading.
pub fn now() -> (timestamp: Timestamp)
    ensures
        timestamp.valid(),
{
    let (seconds, subsec_nanos) = clock_reading();
    stamp(seconds, subsec_nanos)
}

} // verus!
