use vstd::prelude::*;

verus! {

pub const NANOS_PER_SEC: u64 = 1_000_000_000;

/// The length in nanoseconds of one period at `ticks_per_sec` periods a second.
pub open spec fn period_nanos(ticks_per_sec: u64) -> int {
    NANOS_PER_SEC as int / ticks_per_sec as int
}

/// How long to sleep, in nanoseconds, so that a loop iteration that was busy
/// for `busy_nanos` lasts one period at `ticks_per_sec`; zero once the busy
/// time has used up the period.
pub fn sleep_nanos(ticks_per_sec: u64, busy_nanos: u64) -> (r: u64)
    requires
        ticks_per_sec > 0,
    ensures
        r == if period_nanos(ticks_per_sec) > busy_nanos {
            period_nanos(ticks_per_sec) - busy_nanos
        } else {
            0
        },
{
    let target = NANOS_PER_SEC / ticks_per_sec;
    if target > busy_nanos {
        target - busy_nanos
    } else {
        0
    }
}

} // verus!
