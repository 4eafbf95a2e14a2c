//! Instants in UTC, as the library reads them.
use vstd::prelude::*;

verus! {

/// An instant: whole seconds since the Unix epoch and the nanoseconds past
/// them (a `chrono::DateTime<Utc>` held as plain values).
#[derive(Clone, Copy, Debug, PartialEq, Eq, Structural)]
pub struct UtcTime {
    pub secs: i64,
    pub nanos: u32,
}

/// Seconds in a day.
pub const DAY_SECS: i64 = 86400;

/// Instant order: by seconds, then by nanoseconds.
pub open spec fn time_le(a: UtcTime, b: UtcTime) -> bool {
    a.secs < b.secs || (a.secs == b.secs && a.nanos <= b.nanos)
}

/// Instant strict order.
pub open spec fn time_lt(a: UtcTime, b: UtcTime) -> bool {
    a.secs < b.secs || (a.secs == b.secs && a.nanos < b.nanos)
}

/// The first day number (counting 0001-01-01 as day 1) of chrono's dates:
/// January 1 of year -262143.
pub open spec fn chrono_first_day() -> int {
    -95746129
}

/// The last day number of chrono's dates: December 31 of year 262142.
pub open spec fn chrono_last_day() -> int {
    95745399
}

/// Whether chrono represents the instant `secs` seconds and `nanos`
/// nanoseconds after the Unix epoch: its day lies within chrono's dates, and
/// the nanoseconds stay below one second, or below two in the last second of
/// a minute (a leap second).
#[verifier::opaque]
pub open spec fn spec_chrono_timestamp_ok(secs: i64, nanos: u32) -> bool {
    let days = secs as int / 86400 + 719163;
    let in_day = secs as int % 86400;
    &&& chrono_first_day() <= days <= chrono_last_day()
    &&& (nanos < 1_000_000_000 || (nanos < 2_000_000_000 && in_day % 60 == 59))
}

/// Whether `chrono::Utc.timestamp_opt(secs, nanos)` yields a single instant:
/// chrono builds it through `DateTime::from_timestamp`, which accepts exactly
/// the pairs `spec_chrono_timestamp_ok` describes (its date range and its
/// nanosecond rule).
#[verifier::external_body]
pub(crate) fn chrono_timestamp_ok(secs: i64, nanos: u32) -> (r: bool)
    ensures
        r == spec_chrono_timestamp_ok(secs, nanos),
{
    chrono::TimeZone::timestamp_opt(&chrono::Utc, secs, nanos).single().is_some()
}

/// Midnight (UTC) starting the day that holds `secs`, in seconds.
pub open spec fn day_floor(secs: int) -> int {
    secs - secs % 86400
}

impl UtcTime {
    /// The instant at `secs` seconds and `nanos` nanoseconds, when chrono can
    /// represent it.
    pub fn from_timestamp(secs: i64, nanos: u32) -> (r: Option<UtcTime>)
        ensures
            match r {
                Some(t) => t.secs == secs && t.nanos == nanos && spec_chrono_timestamp_ok(
                    secs,
                    nanos,
                ),
                None => !spec_chrono_timestamp_ok(secs, nanos),
            },
    {
        if chrono_timestamp_ok(secs, nanos) {
            Some(UtcTime { secs, nanos })
        } else {
            None
        }
    }

    /// `self <= other` in instant order.
    pub fn le(&self, other: &UtcTime) -> (r: bool)
        ensures
            r == time_le(*self, *other),
    {
        self.secs < other.secs || (self.secs == other.secs && self.nanos <= other.nanos)
    }

    /// `self < other` in instant order.
    pub fn lt(&self, other: &UtcTime) -> (r: bool)
        ensures
            r == time_lt(*self, *other),
    {
        self.secs < other.secs || (self.secs == other.secs && self.nanos < other.nanos)
    }

    /// UTC midnight starting the instant's day, when it does not overflow.
    pub fn day_start(&self) -> (r: Option<UtcTime>)
        ensures
            match r {
                Some(d) => d.secs == day_floor(self.secs as int) && d.nanos == 0,
                None => day_floor(self.secs as int) < i64::MIN,
            },
    {
        let rem: i64 = match self.secs.checked_rem_euclid(DAY_SECS) {
            Some(v) => v,
            None => 0,
        };
        match self.secs.checked_sub(rem) {
            Some(s) => Some(UtcTime { secs: s, nanos: 0 }),
            None => None,
        }
    }
}

} // verus!
