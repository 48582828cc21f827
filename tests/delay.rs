use std::future::Future;
use std::pin::Pin;
use std::task::{Context, Poll};
use std::time::{Duration, Instant};

use debounced::{delayed, Delayed};

/// Polls the timer of `d` until it fires, then resolves it.
fn block_on_delayed<T>(d: &mut Delayed<T>) -> T {
    let mut cx = Context::from_waker(futures_util::task::noop_waker_ref());
    loop {
        let fired = Pin::new(d.timer_mut()).poll(&mut cx).is_ready();
        if let Some(v) = d.resolve(fired) {
            return v;
        }
        assert!(d.waiting());
    }
}

#[test]
fn test_delay() {
    let start = Instant::now();
    let mut d = delayed(42, Duration::from_secs(1));
    let value = block_on_delayed(&mut d);
    assert_eq!(start.elapsed().as_secs(), 1);
    assert_eq!(value, 42);
}

#[test]
fn delayed_not_before_its_duration() {
    let start = Instant::now();
    let mut d = Delayed::new("v", Duration::from_millis(150));
    assert_eq!(d.duration(), Duration::from_millis(150));
    assert!(d.waiting());
    let value = block_on_delayed(&mut d);
    assert!(start.elapsed() >= Duration::from_millis(150));
    assert_eq!(value, "v");
    assert!(!d.waiting());
}

#[test]
fn resolve_waits_for_the_timer() {
    let mut d = delayed(7u8, Duration::from_secs(30));
    assert_eq!(d.resolve(false), None);
    assert!(d.waiting());
    assert_eq!(d.resolve(false), None);
    assert_eq!(d.resolve(true), Some(7));
    assert!(!d.waiting());
}

#[test]
fn fresh_timer_has_not_fired() {
    let mut d = delayed(1u32, Duration::from_secs(30));
    let mut cx = Context::from_waker(futures_util::task::noop_waker_ref());
    assert_eq!(Pin::new(d.timer_mut()).poll(&mut cx), Poll::Pending);
    assert!(d.waiting());
}
