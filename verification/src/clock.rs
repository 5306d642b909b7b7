//! The timestamp of a cycle: nanoseconds since the epoch.

use vstd::prelude::*;

verus! {

/// Nanoseconds in one second.
pub const NANOS_PER_SEC: i64 = 1_000_000_000;

/// The nanoseconds since the epoch of a time given in whole seconds and
/// nanoseconds after the second, where an `i64` can hold them.
pub open spec fn epoch_nanos_spec(sec: int, nsec: int) -> Option<i64> {
    let nanos = sec * 1_000_000_000 + nsec;
    if i64::MIN <= nanos <= i64::MAX {
        Some(nanos as i64)
    } else {
        None
    }
}

/// Joins whole seconds and nanoseconds after the second into nanoseconds
/// since the epoch. Gives `None` where the sum is beyond an `i64`.
pub fn epoch_nanos(sec: i64, nsec: i32) -> (nanos: Option<i64>)
    ensures
        nanos == epoch_nanos_spec(sec as int, nsec as int),
{
    let wide: i128 = (sec as i128) * 1_000_000_000i128 + (nsec as i128);
    if wide < i64::MIN as i128 || wide > i64::MAX as i128 {
        None
    } else {
        Some(wide as i64)
    }
}

/// `time::now` followed by `Tm::to_timespec`: the local time as seconds
/// since the epoch and nanoseconds after the second. Which time comes back
/// is the clock's affair; the nanoseconds are always below one second.
#[verifier::external_body]
fn clock_reading() -> (reading: (i64, i32))
    ensures
        0 <= reading.1 < NANOS_PER_SEC,
{
    let spec = time::now().to_timespec();
    (spec.sec, spec.nsec)
}

/// The current time in nanoseconds since the epoch: a reading of the clock,
/// joined by [`epoch_nanos`]. Gives `None` where the clock is set to a time
/// beyond an `i64`, which is past the year 2262.
pub fn timestamp_now() -> (nanos: Option<i64>)
    ensures
        exists|sec: i64, nsec: i32|
            0 <= nsec < NANOS_PER_SEC && nanos == #[trigger] epoch_nanos_spec(
                sec as int,
                nsec as int,
            ),
{
    let (sec, nsec) = clock_reading();
    epoch_nanos(sec, nsec)
}

} // verus!
