use vstd::prelude::*;
use std::time::{Duration, Instant};

verus! {

/// A point in time read from the monotonic clock (`std::time::Instant`).
#[verifier::external_type_specification]
#[verifier::external_body]
pub struct ExInstant(Instant);

/// `Instant::now`: reads the monotonic clock. Nothing is stated of the
/// result, which depends on when the call is made.
#[verifier::external_body]
fn instant_now() -> Instant {
    Instant::now()
}

/// `Instant::elapsed`: the time that has passed since `t`. Nothing is stated
/// of the result, which depends on when the call is made.
#[verifier::external_body]
fn instant_elapsed(t: &Instant) -> Duration {
    t.elapsed()
}

/// `Duration::as_millis`: the whole milliseconds of `d`. Nothing is stated of
/// the result, since no model of a `Duration`'s value is kept here.
#[verifier::external_body]
fn duration_as_millis(d: &Duration) -> u128 {
    d.as_millis()
}

/// The time between the last two frames.
pub struct Deltatime {
    value_millis: u128,
    last_update: Instant,
}

impl Deltatime {
    /// The frame time in whole milliseconds.
    pub closed spec fn spec_millis(&self) -> u128 {
        self.value_millis
    }

    /// When the frame being measured started.
    pub closed spec fn spec_last_update(&self) -> Instant {
        self.last_update
    }

    /// A frame time of zero, measured from `start`.
    pub fn starting_at(start: Instant) -> (d: Self)
        ensures
            d.spec_millis() == 0,
            d.spec_last_update() == start,
    {
        Deltatime { value_millis: 0, last_update: start }
    }

    /// A frame time of zero, measured from now (a reading of the clock,
    /// which is all that is stated of the start).
    pub fn new() -> (d: Self)
        ensures
            d.spec_millis() == 0,
    {
        Self::starting_at(instant_now())
    }

    /// The frame time in whole milliseconds.
    pub fn millis(&self) -> (m: u128)
        ensures
            m == self.spec_millis(),
    {
        self.value_millis
    }

    /// End the frame being measured: `elapsed_millis`, the time since it
    /// started, becomes the frame time, and the next frame starts at `now`.
    pub fn record_frame(&mut self, elapsed_millis: u128, now: Instant)
        ensures
            final(self).spec_millis() == elapsed_millis,
            final(self).spec_last_update() == now,
    {
        self.value_millis = elapsed_millis;
        self.last_update = now;
    }

    /// Take the time since the last update as the new frame time, and start
    /// measuring the next one: `record_frame` with the whole milliseconds
    /// that the clock says have passed since the frame started, and the
    /// clock's reading now. What the readings are depends on the clock and
    /// is not stated.
    pub fn update(&mut self) {
        let elapsed = instant_elapsed(&self.last_update);
        let elapsed_millis = duration_as_millis(&elapsed);
        let now = instant_now();
        self.record_frame(elapsed_millis, now);
    }
}

} // verus!
