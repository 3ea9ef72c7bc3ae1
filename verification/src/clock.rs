//! A monotonic clock that reads as nanoseconds since its creation.
use std::time::{Duration, Instant};
use vstd::prelude::*;

verus! {

/// `std::time::Instant`, carried opaquely.
#[verifier::external_type_specification]
#[verifier::external_body]
pub struct ExInstant(Instant);

/// `Instant::now`: nothing is claimed of the instant returned.
#[verifier::external_body]
fn instant_now() -> Instant {
    Instant::now()
}

/// `Instant::elapsed`: nothing is claimed of the duration, which depends on when the
/// call is made.
#[verifier::external_body]
fn elapsed_since(origin: &Instant) -> Duration {
    origin.elapsed()
}

/// Whole nanoseconds of a duration.
pub uninterp spec fn duration_nanos(d: Duration) -> u128;

/// `Duration::as_nanos`: the result depends on the duration alone.
#[verifier::external_body]
fn duration_as_nanos(d: &Duration) -> (r: u128)
    ensures
        r == duration_nanos(*d),
{
    d.as_nanos()
}

/// A clock whose readings are nanoseconds since it was created.
pub struct MonotonicClock {
    origin: Instant,
}

impl MonotonicClock {
    /// A clock that starts now. Its origin is the instant of the call, which no
    /// clause can state.
    pub fn new() -> Self {
        MonotonicClock { origin: instant_now() }
    }

    /// Nanoseconds since the clock was created. The reading depends on when the call
    /// is made, so no clause states it.
    pub fn now_nanos(&self) -> u64 {
        let nanos = duration_as_nanos(&elapsed_since(&self.origin));
        if nanos > 0xffff_ffff_ffff_ffffu128 {
            u64::MAX
        } else {
            nanos as u64
        }
    }
}

} // verus!
