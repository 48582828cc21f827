use std::time::Duration;

use futures_timer::Delay;
use vstd::prelude::*;

verus! {

/// The one-shot timer of `futures_timer`, carried through as an opaque value.
#[verifier::external_type_specification]
#[verifier::external_body]
pub struct ExDelay(futures_timer::Delay);

/// Relies on `futures_timer::Delay::new`: starts a one-shot timer that fires
/// `duration` after the call. When it fires depends on the clock, so nothing
/// is promised of the returned timer.
#[verifier::external_body]
fn start_timer(duration: Duration) -> (r: Delay) {
    Delay::new(duration)
}

/// A value that becomes available once its timer has fired.
///
/// The value is present from construction until it is handed out by
/// [`Delayed::resolve`]; after that the instance is spent.
pub struct Delayed<T> {
    sleep: Delay,
    duration: Duration,
    value: Option<T>,
}

impl<T> Delayed<T> {
    /// The value still held: `Some` while waiting, `None` once handed out.
    pub closed spec fn held(&self) -> Option<T> {
        self.value
    }

    /// The duration the timer was started with.
    pub closed spec fn spec_duration(&self) -> Duration {
        self.duration
    }

    /// The timer that decides when the value becomes available.
    pub closed spec fn timer(&self) -> Delay {
        self.sleep
    }

    /// Whether the value has not been handed out yet.
    pub open spec fn is_waiting(&self) -> bool {
        self.held() is Some
    }

    /// Returns a value that resolves into `value` once `duration` has passed.
    /// The timer starts now.
    pub fn new(value: T, duration: Duration) -> (r: Delayed<T>)
        ensures
            r.held() == Some(value),
            r.spec_duration() == duration,
    {
        Delayed { sleep: start_timer(duration), duration, value: Some(value) }
    }

    /// The duration this value is delayed by.
    pub fn duration(&self) -> (r: Duration)
        ensures
            r == self.spec_duration(),
    {
        self.duration
    }

    /// Whether the value has not been handed out yet.
    pub fn waiting(&self) -> (r: bool)
        ensures
            r == self.is_waiting(),
    {
        self.value.is_some()
    }

    /// The timer, for the caller to poll. Nothing but the timer changes
    /// through the returned reference.
    pub fn timer_mut(&mut self) -> (r: &mut Delay)
        ensures
            *final(r) == final(self).timer(),
            final(self).held() == old(self).held(),
            final(self).spec_duration() == old(self).spec_duration(),
    {
        &mut self.sleep
    }

    /// Decides on one poll of the timer: `elapsed` says whether the poll
    /// observed it fired. The value is handed out exactly when it has, and
    /// only then is the instance spent.
    pub fn resolve(&mut self, elapsed: bool) -> (r: Option<T>)
        requires
            old(self).is_waiting(),
        ensures
            elapsed ==> r == old(self).held() && final(self).held() is None,
            !elapsed ==> r is None && final(self).held() == old(self).held(),
            final(self).spec_duration() == old(self).spec_duration(),
            final(self).timer() == old(self).timer(),
    {
        if elapsed {
            self.value.take()
        } else {
            None
        }
    }
}

/// Returns a value that resolves into `value` once `duration` has passed.
pub fn delayed<T>(value: T, duration: Duration) -> (r: Delayed<T>)
    ensures
        r.held() == Some(value),
        r.spec_duration() == duration,
{
    Delayed::new(value, duration)
}

} // verus!
