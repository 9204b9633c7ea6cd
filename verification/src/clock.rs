use vstd::prelude::*;

verus! {

/// A point on the monotonic clock, carried through opaquely.
#[verifier::external_type_specification]
#[verifier::external_body]
pub struct ExInstant(std::time::Instant);

/// Calls `std::time::Instant::now()`. Nothing is claimed: the value depends
/// on the clock.
#[verifier::external_body]
pub(crate) fn instant_now() -> std::time::Instant {
    std::time::Instant::now()
}

/// Calls `Instant::elapsed`. Nothing is claimed: the value depends on the
/// clock.
#[verifier::external_body]
pub(crate) fn instant_elapsed(start: &std::time::Instant) -> std::time::Duration {
    start.elapsed()
}

/// Calls `Duration::as_nanos`. Nothing is claimed about the value: the
/// duration it reads is opaque here.
#[verifier::external_body]
pub(crate) fn duration_as_nanos(d: &std::time::Duration) -> u128 {
    d.as_nanos()
}

/// Whether more than `limit_ms` milliseconds have passed since `start`.
pub(crate) fn elapsed_exceeds_ms(start: &std::time::Instant, limit_ms: u64) -> bool {
    let elapsed = instant_elapsed(start);
    let nanos = duration_as_nanos(&elapsed);
    nanos > (limit_ms as u128) * 1_000_000u128
}

/// Milliseconds elapsed since `start`, saturated at `u64::MAX`.
pub(crate) fn elapsed_ms(start: &std::time::Instant) -> u64 {
    let elapsed = instant_elapsed(start);
    let nanos = duration_as_nanos(&elapsed);
    let ms = nanos / 1_000_000u128;
    if ms > u64::MAX as u128 {
        u64::MAX
    } else {
        ms as u64
    }
}

} // verus!

verus! {

/// A wall-clock time, carried through opaquely.
#[verifier::external_type_specification]
#[verifier::external_body]
pub struct ExSystemTime(std::time::SystemTime);

/// Calls `SystemTime::now()`. Nothing is claimed: the value depends on the
/// clock.
#[verifier::external_body]
pub(crate) fn system_time_now() -> std::time::SystemTime {
    std::time::SystemTime::now()
}

/// Calls `t.duration_since(UNIX_EPOCH)`, taking a zero duration for a time
/// before the epoch. Nothing is claimed: the value depends on `t`, which is
/// opaque here.
#[verifier::external_body]
pub(crate) fn since_unix_epoch(t: &std::time::SystemTime) -> std::time::Duration {
    t.duration_since(std::time::UNIX_EPOCH).unwrap_or_default()
}

/// Calls `Duration::as_secs`. Nothing is claimed about the value: the
/// duration it reads is opaque here.
#[verifier::external_body]
pub(crate) fn duration_as_secs(d: &std::time::Duration) -> u64 {
    d.as_secs()
}

/// Whole seconds since the Unix epoch on the wall clock (0 before it).
pub(crate) fn unix_time_secs() -> u64 {
    let now = system_time_now();
    let since = since_unix_epoch(&now);
    duration_as_secs(&since)
}

} // verus!
