//! Wall-clock time of audio: how long a number of samples plays.
use vstd::prelude::*;

verus! {

pub const NANOS_PER_SECOND: u64 = 1_000_000_000;

/// The nanoseconds that `samples` samples take at `rate` samples a second,
/// rounded to the nearest; halfway between two, to the even one.
pub open spec fn duration(samples: u32, rate: u32) -> int {
    let n = samples as int * NANOS_PER_SECOND;
    let whole = n / rate as int;
    let twice = 2 * (n % rate as int);
    if twice > rate || (twice == rate && whole % 2 == 1) {
        whole + 1
    } else {
        whole
    }
}

/// The nanoseconds that `samples` samples take at `rate` samples a second.
pub fn duration_ns(samples: u32, rate: u32) -> (r: u64)
    requires
        rate > 0,
    ensures
        r == duration(samples, rate),
{
    let n: u64 = samples as u64 * NANOS_PER_SECOND;
    let whole: u64 = n / rate as u64;
    let twice: u64 = 2 * (n % rate as u64);
    proof {
        let d = rate as int;
        let w = n as int;
        assert(0 <= w / d <= w) by (nonlinear_arith)
            requires
                d > 0,
                w >= 0,
        ;
    }
    if twice > rate as u64 || (twice == rate as u64 && whole % 2 == 1) {
        whole + 1
    } else {
        whole
    }
}

/// The sum of two times; a time beyond the clock's range is its end.
pub open spec fn later(a: u64, b: u64) -> u64 {
    if a + b > u64::MAX {
        u64::MAX
    } else {
        (a + b) as u64
    }
}

/// The sum of two times.
pub fn later_ns(a: u64, b: u64) -> (r: u64)
    ensures
        r == later(a, b),
{
    match a.checked_add(b) {
        Some(t) => t,
        None => u64::MAX,
    }
}

} // verus!
