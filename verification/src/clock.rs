//! The clock that stamps presses: a monotonic count of nanoseconds that never goes back.

use std::time::{Duration, Instant};
use vstd::prelude::*;
use crate::state::Timestamp;

verus! {

/// `std::time::Instant`: an instant of the system's monotonic clock, carried as it is.
#[verifier::external_type_specification]
#[verifier::external_body]
pub struct ExInstant(std::time::Instant);

/// `std::time::Instant::now`: the present instant of the system's monotonic clock.
/// Nothing is claimed of the instant that comes back.
#[verifier::external_body]
fn instant_now() -> (now: Instant) {
    Instant::now()
}

/// `std::time::Instant::saturating_duration_since`: the time from `earlier` to `later`,
/// zero where `earlier` is the later of the two. Nothing is claimed of the duration that
/// comes back.
#[verifier::external_body]
fn instant_saturating_duration_since(later: &Instant, earlier: &Instant) -> (elapsed: Duration) {
    later.saturating_duration_since(*earlier)
}

/// `std::time::Duration::as_nanos`: the whole nanoseconds of a duration. Nothing is
/// claimed of the number that comes back.
#[verifier::external_body]
fn duration_as_nanos(duration: &Duration) -> (nanos: u128) {
    duration.as_nanos()
}

/// A clock that counts nanoseconds from the moment it was made. Its readings never go
/// back: a reading is never below the one before it.
#[derive(Debug)]
pub struct InputClock {
    origin: Instant,
    last: Timestamp,
}

impl InputClock {
    /// The last reading that the clock gave, zero before the first.
    pub closed spec fn last_reading(&self) -> Timestamp {
        self.last
    }

    /// A clock that starts now.
    pub fn new() -> (clock: Self)
        ensures
            clock.last_reading() == 0,
    {
        Self { origin: instant_now(), last: 0 }
    }

    /// The last reading that the clock gave, zero before the first.
    pub fn last(&self) -> (reading: Timestamp)
        ensures
            reading == self.last_reading(),
    {
        self.last
    }

    /// Moves the clock on to `reading`, unless it has been there or further already; the
    /// reading it now stands at comes back.
    pub fn advance(&mut self, reading: Timestamp) -> (now: Timestamp)
        ensures
            now == final(self).last_reading(),
            now == if reading > old(self).last_reading() {
                reading
            } else {
                old(self).last_reading()
            },
    {
        if reading > self.last {
            self.last = reading;
        }
        self.last
    }

    /// Reads the clock: the nanoseconds since it was made, as far as a `Timestamp` can
    /// count them, and never less than the reading before.
    pub fn now(&mut self) -> (now: Timestamp)
        ensures
            now == final(self).last_reading(),
            now >= old(self).last_reading(),
    {
        let present = instant_now();
        let elapsed = instant_saturating_duration_since(&present, &self.origin);
        let nanos: u128 = duration_as_nanos(&elapsed);
        let reading: Timestamp = if nanos > u64::MAX as u128 {
            u64::MAX
        } else {
            nanos as u64
        };
        self.advance(reading)
    }
}

} // verus!
