//! The boundary to the platform's monotonic clock.
//!
//! A reading is an opaque [`instant::Instant`]; the only thing computed from
//! one is the number of nanoseconds elapsed since it was taken, and nothing
//! is assumed about that number — every caller states what holds of its
//! result whatever the clock returned.

use vstd::prelude::*;

verus! {

#[verifier::external_type_specification]
#[verifier::external_body]
pub struct ExInstant(std::time::Instant);

/// Relies on `instant::Instant::now` (on native platforms the standard
/// library's `Instant::now`): an opaque reading of the monotonic clock.
#[verifier::external_body]
pub(crate) fn now() -> instant::Instant {
    instant::Instant::now()
}

/// Relies on `instant::Instant::elapsed` and `Duration::as_nanos`: the time
/// since the reading `t`, in nanoseconds, truncated to `u64`. `elapsed`
/// saturates at zero when the platform clock steps backwards, so the call
/// cannot panic and cannot hand back a negative duration; nothing is assumed
/// about the value.
#[verifier::external_body]
pub(crate) fn elapsed_ns(t: &instant::Instant) -> u64 {
    t.elapsed().as_nanos() as u64
}

} // verus!
