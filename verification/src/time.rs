use vstd::prelude::*;

verus! {

/// Nanoseconds in one millisecond.
pub const MSECOND_NS: u64 = 1_000_000;

/// Nanoseconds in one second.
pub const SECOND_NS: u64 = 1_000_000_000;

/// A point on (or a span of) the timeline, in nanoseconds, as the media
/// framework counts time.
#[derive(Clone, Copy, Debug, PartialEq, Eq, Structural)]
pub struct ClockTime {
    pub nanos: u64,
}

impl ClockTime {
    /// The time `nanos` nanoseconds after zero.
    pub fn from_nseconds(nanos: u64) -> (r: ClockTime)
        ensures
            r.nanos == nanos,
    {
        ClockTime { nanos }
    }

    /// The time `ms` milliseconds after zero.
    pub fn from_mseconds(ms: u64) -> (r: ClockTime)
        requires
            ms * MSECOND_NS <= u64::MAX,
        ensures
            r.nanos == ms * MSECOND_NS,
    {
        ClockTime { nanos: ms * MSECOND_NS }
    }

    /// The time `s` seconds after zero.
    pub fn from_seconds(s: u64) -> (r: ClockTime)
        requires
            s * SECOND_NS <= u64::MAX,
        ensures
            r.nanos == s * SECOND_NS,
    {
        ClockTime { nanos: s * SECOND_NS }
    }

    /// Whole milliseconds in this time (the rest is dropped).
    pub fn mseconds(&self) -> (r: u64)
        ensures
            r == self.nanos / MSECOND_NS,
    {
        self.nanos / MSECOND_NS
    }

    /// The sum of two times.
    pub fn plus(self, other: ClockTime) -> (r: ClockTime)
        requires
            self.nanos + other.nanos <= u64::MAX,
        ensures
            r.nanos == self.nanos + other.nanos,
    {
        ClockTime { nanos: self.nanos + other.nanos }
    }
}

} // verus!
