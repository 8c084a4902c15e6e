//! Instants and signed durations at nanosecond resolution.
//!
//! An instant counts nanoseconds since 1970-01-01T00:00:00Z and stays within
//! the range of dates that the calendar type of the transport layer
//! represents (years -262143 to 262142); a span holds at most `i64::MAX`
//! milliseconds either way.
use vstd::prelude::*;

verus! {

/// Earliest representable instant: -262143-01-01T00:00:00Z, in nanoseconds.
pub const MIN_UTC_NANOS: i128 = -8334601315200000000000i128;

/// Latest representable instant: 262142-12-31T23:59:59.999999999Z.
pub const MAX_UTC_NANOS: i128 = 8210266876799999999999i128;

/// Largest span magnitude: `i64::MAX` milliseconds, in nanoseconds.
pub const MAX_SPAN_NANOS: i128 = 9223372036854775807000000i128;

/// Whether `n` nanoseconds since the epoch is a representable instant.
pub open spec fn instant_in_range(n: int) -> bool {
    MIN_UTC_NANOS <= n && n <= MAX_UTC_NANOS
}

/// A point in time (UTC), in nanoseconds since the Unix epoch.
#[derive(Clone, Copy, Debug, PartialEq, Eq, Structural, Hash)]
pub struct UtcTime {
    /// Nanoseconds since 1970-01-01T00:00:00Z.
    pub nanos: i128,
}

/// A signed span of time, in nanoseconds.
#[derive(Clone, Copy, Debug, PartialEq, Eq, Structural, Hash)]
pub struct TimeSpan {
    /// Length of the span in nanoseconds.
    pub nanos: i128,
}

impl UtcTime {
    /// Whether the instant is within the representable range.
    pub open spec fn wf(self) -> bool {
        instant_in_range(self.nanos as int)
    }

    /// The instant `secs` seconds and `subsec` nanoseconds after the epoch.
    pub fn from_unix(secs: i64, subsec: u32) -> (r: UtcTime)
        requires
            subsec < 1_000_000_000,
        ensures
            r.nanos == secs as int * 1_000_000_000 + subsec as int,
    {
        let n = (secs as i128) * 1_000_000_000i128 + (subsec as i128);
        UtcTime { nanos: n }
    }
}

impl TimeSpan {
    /// Whether the span is within the representable range.
    pub open spec fn wf(self) -> bool {
        -MAX_SPAN_NANOS <= self.nanos && self.nanos <= MAX_SPAN_NANOS
    }

    /// A span of `secs` whole seconds.
    pub fn seconds(secs: i64) -> (r: TimeSpan)
        ensures
            r.nanos == secs as int * 1_000_000_000,
    {
        TimeSpan { nanos: (secs as i128) * 1_000_000_000i128 }
    }
}

/// Whether `a` is at or before `b`.
pub fn at_or_before(a: UtcTime, b: UtcTime) -> (r: bool)
    ensures
        r == (a.nanos <= b.nanos),
{
    a.nanos <= b.nanos
}

/// `t + d`; defined when the sum is a representable instant.
pub fn add_span(t: UtcTime, d: TimeSpan) -> (r: UtcTime)
    requires
        t.wf(),
        d.wf(),
        instant_in_range(t.nanos + d.nanos),
    ensures
        r.nanos == t.nanos + d.nanos,
        r.wf(),
{
    UtcTime { nanos: t.nanos + d.nanos }
}

} // verus!
