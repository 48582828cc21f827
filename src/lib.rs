//! Delayed values and trailing debounce, as explicit state machines.
//!
//! [`Delayed`] holds a value together with a one-shot timer and hands the value
//! out once the timer has been observed to fire. [`Debounced`] owns an upstream
//! sequence and decides, event by event, whether to keep draining it, to wait
//! on the timer of the most recent item, to yield that item, or to end.
//!
//! The driving of the timer and of the upstream (polling them with a task
//! context) stays with the caller: every decision about what those polls
//! observed is made here, and is verified.

mod future;
mod stream;

pub use future::{delayed, Delayed};
pub use stream::{debounced, Action, Debounced, Event};
