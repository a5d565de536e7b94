use vstd::prelude::*;
use crate::time::{ClockTime, MSECOND_NS};

verus! {

/// A time as it is written in project files: a number of milliseconds.
pub struct SerTime(pub ClockTime);

impl SerTime {
    /// The number a time is written as: its whole milliseconds.
    pub fn serialize_time(time: &ClockTime) -> (r: u64)
        ensures
            r == time.nanos / MSECOND_NS,
    {
        time.mseconds()
    }

    /// The time that a written number of milliseconds stands for.
    pub fn deserialize_time(ms: u64) -> (r: ClockTime)
        requires
            ms * MSECOND_NS <= u64::MAX,
        ensures
            r.nanos == ms * MSECOND_NS,
    {
        ClockTime::from_mseconds(ms)
    }
}

/// Writing a time read from `ms` milliseconds gives `ms` back.
pub proof fn law_time_read_then_written(ms: u64)
    requires
        ms * MSECOND_NS <= u64::MAX,
    ensures
        (ms * MSECOND_NS) / (MSECOND_NS as int) == ms,
{
    assert((ms * MSECOND_NS) / (MSECOND_NS as int) == ms) by (nonlinear_arith);
}

/// Reading back a written time gives the time cut down to whole
/// milliseconds: no later, and less than a millisecond earlier.
pub proof fn law_time_written_then_read(t: ClockTime)
    ensures
        (t.nanos / MSECOND_NS) * MSECOND_NS <= t.nanos,
        t.nanos < (t.nanos / MSECOND_NS) * MSECOND_NS + MSECOND_NS,
        (t.nanos / MSECOND_NS) * MSECOND_NS <= u64::MAX,
{
    let n = t.nanos as int;
    let m = MSECOND_NS as int;
    assert(n == (n / m) * m + n % m) by (nonlinear_arith)
        requires
            m > 0,
    ;
    assert(0 <= n % m < m) by (nonlinear_arith)
        requires
            m > 0,
    ;
}

} // verus!
