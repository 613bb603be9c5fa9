//! The monotonic clock of the standard library, read as a plain number.
//!
//! What the clock shows depends on when it is read and is not proved here, so
//! nothing is claimed of a reading: `Throttle::now` holds it to the range that
//! the throttle can work with before anything relies on it.

use std::time::Duration;
use std::time::Instant;
use vstd::prelude::*;

verus! {

/// `std::time::Instant`, a point on the monotonic clock. It is carried, never
/// looked into.
#[verifier::external_type_specification]
#[verifier::external_body]
pub struct ExInstant(std::time::Instant);

/// `Instant::now` reads the clock. No claim is made of the instant it returns.
pub assume_specification[ Instant::now ]() -> (instant: Instant);

/// `Instant::saturating_duration_since` returns the time from `earlier` to
/// `instant`, zero where `earlier` is the later of the two. Both are opaque
/// here, so no claim is made of the length.
pub assume_specification[ Instant::saturating_duration_since ](
    instant: &Instant,
    earlier: Instant,
) -> (length: Duration);

/// `Duration::as_nanos` returns the whole length in nanoseconds. The length is
/// opaque here, so no claim is made of the number.
pub assume_specification[ Duration::as_nanos ](length: &Duration) -> (nanos: u128);

/// The nanoseconds that have passed on the clock since `origin`, held at
/// `u64::MAX` where they are more. Every `u64` is a possible reading.
pub(crate) fn nanos_since(origin: &Instant) -> (nanos: u64) {
    let reading = Instant::now();
    let length = reading.saturating_duration_since(*origin);
    held_in_u64(length.as_nanos())
}

/// A count of nanoseconds as a `u64`: the count itself where it fits, and
/// `u64::MAX`, some 584 years, where it does not.
pub fn held_in_u64(nanos: u128) -> (held: u64)
    ensures
        held == if nanos <= u64::MAX {
            nanos as int
        } else {
            u64::MAX as int
        },
{
    if nanos > u64::MAX as u128 {
        u64::MAX
    } else {
        nanos as u64
    }
}

} // verus!
