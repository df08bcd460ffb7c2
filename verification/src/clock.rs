use vstd::prelude::*;

verus! {

#[verifier::external_type_specification]
#[verifier::external_body]
pub struct ExInstant(std::time::Instant);

/// Relies on std::time::Instant::now: an opaque reading of the monotonic
/// clock. The reading depends on the moment of the call, so nothing is
/// promised of its value.
#[verifier::external_body]
pub(crate) fn now() -> std::time::Instant {
    std::time::Instant::now()
}

/// Relies on std::time::Instant::elapsed: the time since the reading was
/// taken. It depends on the moment of the call, so nothing is promised of it.
#[verifier::external_body]
pub(crate) fn elapsed(start: &std::time::Instant) -> core::time::Duration {
    start.elapsed()
}

/// Relies on core::time::Duration::as_micros: the duration in whole
/// microseconds, truncated into u64. The duration is opaque here, so nothing
/// is promised of the count.
#[verifier::external_body]
pub(crate) fn as_micros(d: &core::time::Duration) -> u64 {
    d.as_micros() as u64
}

} // verus!
