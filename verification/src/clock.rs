//! The host's monotonic clock, read in whole nanoseconds.

use vstd::prelude::*;

verus! {

/// `web_time::Instant`, a point on the monotonic clock. Nothing of what it
/// holds is visible to the verifier.
#[verifier::external_type_specification]
#[verifier::external_body]
pub struct ExInstant(web_time::Instant);

/// Calls `web_time::Instant::now`, which reads the clock. Nothing is claimed
/// of the instant that comes back.
#[verifier::external_body]
fn instant_now() -> (instant: web_time::Instant) {
    web_time::Instant::now()
}

/// Calls `web_time::Instant::saturating_duration_since`, which gives the time
/// from `earlier` to `later`, or no time where `later` is the earlier of the
/// two. Nothing is claimed of the duration that comes back.
#[verifier::external_body]
fn time_between(earlier: &web_time::Instant, later: &web_time::Instant) -> (passed:
    core::time::Duration) {
    later.saturating_duration_since(*earlier)
}

/// Calls `core::time::Duration::as_nanos`, which gives a duration in whole
/// nanoseconds. Nothing is claimed of the number that comes back.
#[verifier::external_body]
fn whole_nanos(passed: &core::time::Duration) -> (nanos: u128) {
    passed.as_nanos()
}

/// A clock that counts nanoseconds from the moment it was started.
pub struct Clock {
    origin: web_time::Instant,
}

impl Clock {
    /// A clock that starts counting now.
    pub fn start() -> (clock: Clock) {
        Clock { origin: instant_now() }
    }

    /// The nanoseconds that have passed since the clock was started, as far
    /// as the type reaches. What the clock reads is not for a contract to say.
    pub fn now(&self) -> (nanos: u64) {
        let later = instant_now();
        let passed = time_between(&self.origin, &later);
        let nanos: u128 = whole_nanos(&passed);
        clock_reading(nanos)
    }
}

/// What a clock reads once `nanos` nanoseconds have passed since it was
/// started: that number, or the largest that the type holds where it is larger.
pub open spec fn reading_of(nanos: nat) -> nat {
    if nanos <= u64::MAX {
        nanos
    } else {
        u64::MAX as nat
    }
}

/// What a clock reads once `nanos` nanoseconds have passed since it was started.
pub fn clock_reading(nanos: u128) -> (reading: u64)
    ensures
        reading == reading_of(nanos as nat),
{
    if nanos > u64::MAX as u128 {
        u64::MAX
    } else {
        nanos as u64
    }
}

} // verus!
