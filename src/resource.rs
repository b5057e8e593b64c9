//! Resource limits of a child process and the usage measured when it ends.
use vstd::prelude::*;

verus! {

/// Slack added to the CPU-time limit for the hard bound, in seconds.
pub const RLIMIT_CPU_TOLERANCE: u64 = 1;
/// Slack added to the memory limit for the hard bound, in bytes.
pub const RLIMIT_MEMORY_TOLERANCE: u64 = 1000;
/// Microseconds in a second.
pub const MICROS_PER_SECOND: u64 = 1_000_000;

/// Limits applied to one child process.
#[derive(Debug, Clone, Copy, Hash, PartialEq, Eq, Structural)]
pub struct ResourceLimits {
    pub cpu_seconds: u64,
    pub memory_bytes: u64,
}

/// What a child process used: CPU times in microseconds, peak memory in bytes.
#[derive(Debug, Clone, Copy, Hash, PartialEq, Eq, Structural)]
pub struct ResourceUsage {
    pub user_time: u64,
    pub sys_time: u64,
    pub memory_bytes: u64,
}

/// `a + b`, or the largest `u64` where the sum does not fit.
pub open spec fn saturating_sum(a: u64, b: u64) -> u64 {
    if a as int + b as int > u64::MAX as int {
        u64::MAX
    } else {
        (a + b) as u64
    }
}

impl ResourceLimits {
    /// Soft and hard CPU-time bounds, in seconds: the limit, and one more.
    pub fn cpu_rlimit(&self) -> (r: (u64, u64))
        ensures
            r.0 == self.cpu_seconds,
            r.1 == saturating_sum(self.cpu_seconds, RLIMIT_CPU_TOLERANCE),
    {
        (self.cpu_seconds, self.cpu_seconds.saturating_add(RLIMIT_CPU_TOLERANCE))
    }

    /// Soft and hard memory bounds, in bytes: the limit, and 1000 more.
    pub fn memory_rlimit(&self) -> (r: (u64, u64))
        ensures
            r.0 == self.memory_bytes,
            r.1 == saturating_sum(self.memory_bytes, RLIMIT_MEMORY_TOLERANCE),
    {
        (self.memory_bytes, self.memory_bytes.saturating_add(RLIMIT_MEMORY_TOLERANCE))
    }
}

impl ResourceUsage {
    /// User plus system time, in microseconds.
    pub open spec fn spec_total_time(&self) -> int {
        self.user_time + self.sys_time
    }

    /// User plus system time, in microseconds.
    pub fn total_time(&self) -> (r: u128)
        ensures
            r == self.spec_total_time(),
    {
        self.user_time as u128 + self.sys_time as u128
    }
}

/// A `timeval` as microseconds.
pub open spec fn spec_timeval_micros(sec: int, usec: int) -> int {
    sec * 1_000_000 + usec
}

/// Converts a non-negative `timeval` to microseconds.
pub fn timeval_to_micros(sec: i64, usec: i64) -> (r: u64)
    requires
        0 <= sec,
        0 <= usec,
        spec_timeval_micros(sec as int, usec as int) <= u64::MAX,
    ensures
        r == spec_timeval_micros(sec as int, usec as int),
{
    sec as u64 * MICROS_PER_SECOND + usec as u64
}

/// Peak memory in bytes from the `maxrss` that `wait4` reports: pages times
/// the page size, halved to undo the doubling seen on this platform.
pub open spec fn spec_peak_memory(maxrss: int, page_size: int) -> int {
    maxrss * page_size / 2
}

/// Peak memory in bytes from the `maxrss` that `wait4` reports.
pub fn peak_memory(maxrss: i64, page_size: i64) -> (r: u64)
    requires
        0 <= maxrss,
        0 <= page_size,
        maxrss * page_size <= i64::MAX,
    ensures
        r == spec_peak_memory(maxrss as int, page_size as int),
{
    (maxrss * page_size / 2) as u64
}

/// The usage of a child from the fields of the `rusage` that `wait4` filled.
pub fn usage_from_rusage(
    utime_sec: i64,
    utime_usec: i64,
    stime_sec: i64,
    stime_usec: i64,
    maxrss: i64,
    page_size: i64,
) -> (r: ResourceUsage)
    requires
        0 <= utime_sec,
        0 <= utime_usec,
        0 <= stime_sec,
        0 <= stime_usec,
        spec_timeval_micros(utime_sec as int, utime_usec as int) <= u64::MAX,
        spec_timeval_micros(stime_sec as int, stime_usec as int) <= u64::MAX,
        0 <= maxrss,
        0 <= page_size,
        maxrss * page_size <= i64::MAX,
    ensures
        r.user_time == spec_timeval_micros(utime_sec as int, utime_usec as int),
        r.sys_time == spec_timeval_micros(stime_sec as int, stime_usec as int),
        r.memory_bytes == spec_peak_memory(maxrss as int, page_size as int),
{
    ResourceUsage {
        user_time: timeval_to_micros(utime_sec, utime_usec),
        sys_time: timeval_to_micros(stime_sec, stime_usec),
        memory_bytes: peak_memory(maxrss, page_size),
    }
}

} // verus!
