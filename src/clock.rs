//! The clock: one monotonic origin, captured when the clock is made, and
//! readings of the nanoseconds elapsed since it.
use vstd::prelude::*;

verus! {

/// std::time::Instant, carried unopened as the clock's origin.
#[verifier::external_type_specification]
#[verifier::external_body]
pub struct ExInstant(std::time::Instant);

/// A monotonic time origin and the latest reading taken from it. Every
/// reading is relative to the origin, which never changes once the clock
/// exists; no reading is below an earlier one.
pub struct Clock {
    origin: std::time::Instant,
    last: u128,
}

/// Relies on std::time::Instant::now: the current monotonic instant.
#[verifier::external_body]
fn instant_now() -> (r: std::time::Instant) {
    std::time::Instant::now()
}

/// Relies on std::time::Instant::elapsed and Duration::as_nanos: the whole
/// nanoseconds from `origin` to now. It depends on the time, so nothing is
/// stated of it.
#[verifier::external_body]
fn nanos_since(origin: &std::time::Instant) -> (r: u128) {
    origin.elapsed().as_nanos()
}

impl Clock {
    /// The latest reading of this clock, in nanoseconds since its origin
    /// (zero before the first).
    pub closed spec fn last_reading(&self) -> u128 {
        self.last
    }

    /// A clock whose origin is the current instant.
    pub fn new() -> (r: Clock)
        ensures
            r.last_reading() == 0,
    {
        Clock { origin: instant_now(), last: 0 }
    }

    /// Nanoseconds elapsed since this clock's origin. A reading is never
    /// below the one before it, and becomes the clock's latest reading.
    pub fn elapsed_nanos(&mut self) -> (r: u128)
        ensures
            r >= old(self).last_reading(),
            final(self).last_reading() == r,
    {
        let raw = nanos_since(&self.origin);
        if raw > self.last {
            self.last = raw;
        }
        self.last
    }
}

} // verus!
