//! The clocks the database reads: wall-clock time for expirations, and a
//! monotonic clock for the server's uptime.
use vstd::prelude::*;

use core::time::Duration;
use std::time::Instant;

use crate::store::latest_instant;

verus! {

#[verifier::external_type_specification]
#[verifier::external_body]
pub struct ExInstant(Instant);

/// The current wall-clock time in milliseconds since the Unix epoch:
/// `chrono::Utc::now()` read through `DateTime::timestamp_millis`.
/// `Utc::now` builds its result from the system time's distance past the
/// Unix epoch and panics when the system clock reads earlier than the
/// epoch (that depends on the machine, so no `requires` can exclude it), or
/// when the date is beyond the last representable one. So the reading is
/// at least 0 and at most `latest_instant()`. Nothing else is claimed: the
/// value is whatever the system clock says, and the system clock is not
/// monotonic.
#[verifier::external_body]
pub(crate) fn now_millis() -> (r: i64)
    ensures
        0 <= r <= latest_instant(),
{
    chrono::Utc::now().timestamp_millis()
}

/// The current instant of the monotonic clock (`Instant::now`). Nothing is
/// claimed of it.
#[verifier::external_body]
pub(crate) fn instant_now() -> Instant {
    Instant::now()
}

/// The time passed since `start` (`Instant::elapsed`). Nothing is claimed
/// of it.
#[verifier::external_body]
pub(crate) fn elapsed_since(start: &Instant) -> Duration {
    start.elapsed()
}

/// The whole seconds of a duration (`Duration::as_secs`). The duration is
/// opaque here, so nothing is claimed of the number.
#[verifier::external_body]
pub(crate) fn whole_seconds(d: &Duration) -> u64 {
    d.as_secs()
}

} // verus!
