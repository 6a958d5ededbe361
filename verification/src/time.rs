//! Durations as whole nanoseconds.
//!
//! The game measures time in [`Duration`]s at its boundary; inside, every
//! computation is on the total number of nanoseconds a duration holds.

use vstd::prelude::*;
use std::time::Duration;

verus! {

/// The number of nanoseconds in the longest representable duration.
pub const MAX_NANOS: u128 = 18_446_744_073_709_551_615_999_999_999u128;

/// The total number of nanoseconds `d` holds.
pub uninterp spec fn nanos_of(d: Duration) -> int;

/// The total number of nanoseconds in `d`.
///
/// Calls `Duration::as_nanos`, which returns the whole length of the duration in
/// nanoseconds; that length never exceeds the longest duration.
#[verifier::external_body]
pub(crate) fn duration_nanos(d: Duration) -> (n: u128)
    ensures
        n == nanos_of(d),
        n <= MAX_NANOS,
{
    d.as_nanos()
}

/// The duration of `secs` seconds and `nanos` nanoseconds.
///
/// Calls `Duration::new`, which builds a duration holding
/// `secs * 1_000_000_000 + nanos` nanoseconds; with `nanos` below one second no
/// carry into the seconds happens, so it cannot overflow.
#[verifier::external_body]
pub(crate) fn duration_new(secs: u64, nanos: u32) -> (d: Duration)
    requires
        nanos < 1_000_000_000,
    ensures
        nanos_of(d) == secs * 1_000_000_000 + nanos,
{
    Duration::new(secs, nanos)
}

/// The duration of exactly `n` nanoseconds.
pub fn duration_from_nanos(n: u128) -> (d: Duration)
    requires
        n <= MAX_NANOS,
    ensures
        nanos_of(d) == n,
{
    let secs = n / 1_000_000_000;
    let rest = n % 1_000_000_000;
    assert(secs <= u64::MAX) by {
        assert(n <= MAX_NANOS);
    }
    duration_new(secs as u64, rest as u32)
}

/// `a + b`, or the longest duration when that would exceed it.
pub open spec fn saturating_nanos_add(a: int, b: int) -> int {
    if a + b > MAX_NANOS {
        MAX_NANOS as int
    } else {
        a + b
    }
}

} // verus!
