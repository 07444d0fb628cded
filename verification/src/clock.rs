//! The clock capability: the one place the library touches the system's
//! monotonic clock. Timestamps elsewhere in the library are plain nanosecond
//! counts measured from a queue-local epoch.

use vstd::prelude::*;

verus! {

#[verifier::external_type_specification]
#[verifier::external_body]
pub struct ExInstant(std::time::Instant);

/// Relies on std::time::Instant::now: a reading of the system's monotonic
/// clock. Nothing is promised of the value: it depends on when the call runs.
pub assume_specification[ std::time::Instant::now ]() -> std::time::Instant;

/// Relies on std::time::Instant::elapsed: the time passed since `start`,
/// saturating to zero. The value depends on when the call runs, so nothing is
/// promised of it.
pub assume_specification[ std::time::Instant::elapsed ](
    start: &std::time::Instant,
) -> std::time::Duration;

/// Relies on std::time::Duration::as_nanos: the whole duration as a count of
/// nanoseconds. The duration itself is opaque here, so nothing is promised of
/// the count.
pub assume_specification[ std::time::Duration::as_nanos ](d: &std::time::Duration) -> u128;

} // verus!
