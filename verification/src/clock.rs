//! The instrument's clocks. Each recorder carries its own monotonic clock,
//! injected at construction: an instant taken when the instrument is built,
//! against which marks and snapshots read their timestamps — no hidden
//! global state. The wall clock is read separately, only to stamp a
//! snapshot with the moment it was taken. Timestamps enter the recorder's
//! logic only through differences, and every difference is clamped to
//! non-negative, so a clock anomaly degrades a single interval instead of
//! failing.

use vstd::prelude::*;

verus! {

#[verifier::external_type_specification]
#[verifier::external_body]
pub struct ExInstant(std::time::Instant);

/// Relies on std::time::Instant::now: one reading of the system's
/// monotonic clock, opaque to the logic. Nothing is promised of the value.
#[verifier::external_body]
pub(crate) fn instant_now() -> std::time::Instant {
    std::time::Instant::now()
}

/// Relies on std::time::Instant::elapsed: the nanoseconds from the given
/// reading to now. The monotonic clock never runs backwards, but nothing
/// is promised of the value, which depends on the moment of the call.
#[verifier::external_body]
fn elapsed_nanos_raw(start: &std::time::Instant) -> u128 {
    start.elapsed().as_nanos()
}

/// Nanoseconds of the monotonic clock since the given start, saturated to
/// the width of the recorder's counters.
pub(crate) fn elapsed_nanos(start: &std::time::Instant) -> u64 {
    let n = elapsed_nanos_raw(start);
    if n > u64::MAX as u128 {
        u64::MAX
    } else {
        n as u64
    }
}

#[verifier::external_type_specification]
#[verifier::external_body]
pub struct ExSystemTime(std::time::SystemTime);

/// Relies on std::time::SystemTime::now: one reading of the system's wall
/// clock. Nothing is promised of the value; it depends on the machine's
/// clock at the moment of the call.
#[verifier::external_body]
fn system_now() -> std::time::SystemTime {
    std::time::SystemTime::now()
}

/// Relies on std::time::SystemTime::duration_since: the nanoseconds from
/// the Unix epoch to the given reading, or zero for a reading before the
/// epoch. Nothing is promised of the value; the reading itself is opaque.
#[verifier::external_body]
fn nanos_since_epoch(t: &std::time::SystemTime) -> u128 {
    match t.duration_since(std::time::SystemTime::UNIX_EPOCH) {
        Ok(d) => d.as_nanos(),
        Err(_) => 0,
    }
}

/// The wall clock as nanoseconds since the Unix epoch, saturated to the
/// width of a 64-bit counter.
pub fn get_time2() -> u64 {
    let n = nanos_since_epoch(&system_now());
    if n > u64::MAX as u128 {
        u64::MAX
    } else {
        n as u64
    }
}

/// The current time as milliseconds since the Unix epoch, for stamping a
/// snapshot with the moment it was taken.
pub fn epoch_millis() -> u128 {
    nanos_since_epoch(&system_now()) / 1000000
}

} // verus!
