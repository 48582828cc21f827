use std::time::Duration;

use futures_timer::Delay;
use vstd::prelude::*;

use crate::future::{delayed, Delayed};

verus! {

/// What one poll of the upstream or of the pending timer observed.
pub enum Event<T> {
    /// The upstream produced an item.
    Item(T),
    /// The upstream reported its end.
    Closed,
    /// The upstream had nothing ready.
    Idle,
    /// The timer of the pending item was polled; `true` if it had fired.
    Timer(bool),
}

/// What the driver of a [`Debounced`] does next.
pub enum Action<T> {
    /// Poll the upstream again: more items may already be there.
    PollUpstream,
    /// Poll the timer of the pending item.
    PollTimer,
    /// Hand this item to the consumer.
    Yield(T),
    /// Report the end of the debounced sequence.
    End,
    /// Suspend until the upstream or the timer wakes the task.
    Wait,
}

/// The decision on one event, given the item pending before it: the item
/// pending after it, and what to do next.
///
/// A new item always replaces the pending one. The end of the upstream ends
/// the sequence only when nothing is pending; otherwise the pending item is
/// still waited for. An item is yielded only when its timer has fired.
pub open spec fn next<T>(pending: Option<T>, event: Event<T>) -> (Option<T>, Action<T>) {
    match event {
        Event::Item(x) => (Some(x), Action::PollUpstream),
        Event::Closed => match pending {
            Some(x) => (Some(x), Action::PollTimer),
            None => (None, Action::End),
        },
        Event::Idle => match pending {
            Some(x) => (Some(x), Action::PollTimer),
            None => (None, Action::Wait),
        },
        Event::Timer(fired) => match pending {
            Some(x) => if fired {
                (None, Action::Yield(x))
            } else {
                (Some(x), Action::Wait)
            },
            None => (None, Action::Wait),
        },
    }
}

/// The pending item and the actions after a sequence of events.
pub open spec fn run<T>(pending: Option<T>, events: Seq<Event<T>>) -> (Option<T>, Seq<Action<T>>)
    decreases events.len(),
{
    if events.len() == 0 {
        (pending, Seq::empty())
    } else {
        let (p, a) = next(pending, events[0]);
        let (q, rest) = run(p, events.drop_first());
        (q, seq![a] + rest)
    }
}

/// Whether an event leaves everything pending and yields nothing: a new item,
/// an idle upstream, or a timer that has not fired yet.
pub open spec fn is_quiet<T>(event: Event<T>) -> bool {
    match event {
        Event::Item(_) => true,
        Event::Idle => true,
        Event::Timer(fired) => !fired,
        Event::Closed => false,
    }
}

/// The last item among `events`, or `pending` if there is none.
pub open spec fn latest<T>(pending: Option<T>, events: Seq<Event<T>>) -> Option<T>
    decreases events.len(),
{
    if events.len() == 0 {
        pending
    } else {
        match events.last() {
            Event::Item(x) => Some(x),
            _ => latest(pending, events.drop_last()),
        }
    }
}

/// Whether an action hands nothing to the consumer and does not end.
pub open spec fn is_silent<T>(action: Action<T>) -> bool {
    !(action is Yield) && !(action is End)
}

/// Running events one after the other: the second sequence starts from the
/// item that the first left pending.
pub proof fn lemma_run_append<T>(pending: Option<T>, a: Seq<Event<T>>, b: Seq<Event<T>>)
    ensures
        run(pending, a + b) == (run(run(pending, a).0, b).0, run(pending, a).1 + run(
            run(pending, a).0,
            b,
        ).1),
    decreases a.len(),
{
    if a.len() == 0 {
        assert(a + b =~= b);
        assert(run(pending, a).1 + run(pending, b).1 =~= run(pending, b).1);
    } else {
        let (p, x) = next(pending, a[0]);
        assert((a + b)[0] == a[0]);
        assert((a + b).drop_first() =~= a.drop_first() + b);
        lemma_run_append(p, a.drop_first(), b);
        let r1 = run(p, a.drop_first());
        let r2 = run(r1.0, b);
        assert(seq![x] + (r1.1 + r2.1) =~= (seq![x] + r1.1) + r2.1);
    }
}

/// While the timer has not fired and the upstream has not ended, nothing is
/// yielded, the sequence does not end, and the item pending is the last one
/// that arrived.
pub proof fn lemma_quiet_keeps_latest<T>(pending: Option<T>, events: Seq<Event<T>>)
    requires
        forall|i: int| 0 <= i < events.len() ==> is_quiet(#[trigger] events[i]),
    ensures
        run(pending, events).0 == latest(pending, events),
        forall|j: int|
            0 <= j < run(pending, events).1.len() ==> is_silent(#[trigger] run(pending, events).1[j]),
        run(pending, events).1.len() == events.len(),
    decreases events.len(),
{
    if events.len() > 0 {
        let init = events.drop_last();
        let e = events.last();
        assert(events =~= init + seq![e]);
        assert forall|i: int| 0 <= i < init.len() implies is_quiet(#[trigger] init[i]) by {
            assert(init[i] == events[i]);
        }
        assert(is_quiet(events[events.len() - 1]));
        lemma_quiet_keeps_latest(pending, init);
        lemma_run_append(pending, init, seq![e]);
        let q = run(pending, init).0;
        assert(seq![e].drop_first() =~= Seq::<Event<T>>::empty());
        let (q2, a) = next(q, e);
        assert(run(q2, Seq::<Event<T>>::empty()) == (q2, Seq::<Action<T>>::empty()));
        assert(run(q, seq![e]) == (q2, seq![a] + Seq::<Action<T>>::empty()));
        assert(seq![a] + Seq::<Action<T>>::empty() =~= seq![a]);
    }
}

/// A burst of items, with any number of polls in between on which the timer
/// had not fired, yields exactly one item once the timer fires: the last item
/// of the burst. Nothing is yielded before, and nothing is left pending after.
pub proof fn lemma_single_flush_per_burst<T>(pending: Option<T>, events: Seq<Event<T>>)
    requires
        forall|i: int| 0 <= i < events.len() ==> is_quiet(#[trigger] events[i]),
        exists|i: int| 0 <= i < events.len() && (#[trigger] events[i]) is Item,
    ensures
        latest(pending, events) is Some,
        latest(pending, events) == latest(None, events),
        run(pending, events.push(Event::Timer(true))) == (
            None::<T>,
            run(pending, events).1.push(Action::Yield(latest(pending, events)->0)),
        ),
        forall|j: int|
            0 <= j < run(pending, events).1.len() ==> is_silent(#[trigger] run(pending, events).1[j]),
    decreases events.len(),
{
    lemma_quiet_keeps_latest(pending, events);
    lemma_latest_of_burst(pending, events);
    let q = run(pending, events).0;
    lemma_run_append(pending, events, seq![Event::Timer(true)]);
    assert(events + seq![Event::Timer(true)] =~= events.push(Event::Timer(true)));
    assert(seq![Event::<T>::Timer(true)].drop_first() =~= Seq::<Event<T>>::empty());
    assert(run(None::<T>, Seq::<Event<T>>::empty()) == (None::<T>, Seq::<Action<T>>::empty()));
    let y = Action::Yield(q->0);
    assert(run(q, seq![Event::Timer(true)]) == (None::<T>, seq![y] + Seq::<Action<T>>::empty()));
    assert(run(pending, events).1 + (seq![y] + Seq::<Action<T>>::empty()) =~= run(
        pending,
        events,
    ).1.push(y));
}

/// Where the events hold an item, the latest item does not depend on what
/// was pending before them.
proof fn lemma_latest_of_burst<T>(pending: Option<T>, events: Seq<Event<T>>)
    requires
        exists|i: int| 0 <= i < events.len() && (#[trigger] events[i]) is Item,
    ensures
        latest(pending, events) is Some,
        latest(pending, events) == latest(None, events),
    decreases events.len(),
{
    let i = choose|i: int| 0 <= i < events.len() && (#[trigger] events[i]) is Item;
    if !(events.last() is Item) {
        let init = events.drop_last();
        assert(i < events.len() - 1);
        assert(init[i] == events[i]);
        lemma_latest_of_burst(pending, init);
    }
}

/// A new item restarts the window: once it arrives, what happens next does
/// not depend on the item that was pending before it, which is never seen.
pub proof fn lemma_new_item_supersedes<T>(old_item: T, item: T, rest: Seq<Event<T>>)
    ensures
        run(Some(old_item), seq![Event::Item(item)] + rest) == run(
            None,
            seq![Event::Item(item)] + rest,
        ),
        run(Some(old_item), seq![Event::Item(item)] + rest) == (
            run(Some(item), rest).0,
            seq![Action::PollUpstream] + run(Some(item), rest).1,
        ),
{
    let evs = seq![Event::Item(item)] + rest;
    assert(evs[0] == Event::Item(item));
    assert(evs.drop_first() =~= rest);
}

/// When the upstream ends with an item pending, that item is still yielded
/// once its timer fires, and only then does the sequence end. When it ends
/// with nothing pending, the sequence ends at once.
pub proof fn lemma_end_flushes_pending<T>(item: T)
    ensures
        run(Some(item), seq![Event::Closed, Event::Timer(true), Event::Closed]) == (
            None::<T>,
            seq![Action::PollTimer, Action::Yield(item), Action::End],
        ),
        run(None::<T>, seq![Event::Closed]) == (None::<T>, seq![Action::<T>::End]),
{
    let e3 = seq![Event::Closed, Event::Timer(true), Event::Closed];
    let e2 = e3.drop_first();
    let e1 = e2.drop_first();
    assert(e2 =~= seq![Event::Timer(true), Event::Closed]);
    assert(e1 =~= seq![Event::<T>::Closed]);
    assert(e1.drop_first() =~= Seq::<Event<T>>::empty());
    assert(run(None::<T>, e1.drop_first()) == (None::<T>, Seq::<Action<T>>::empty()));
    assert(run(None::<T>, e1).1 =~= seq![Action::<T>::End]);
    assert(run(Some(item), e2).1 =~= seq![Action::Yield(item), Action::End]);
    assert(run(Some(item), e3).1 =~= seq![Action::PollTimer, Action::Yield(item), Action::End]);
}

/// An upstream that produces nothing and never ends keeps the debounce
/// waiting for ever: nothing is yielded and the sequence never ends.
pub proof fn lemma_quiet_upstream_waits<T>(events: Seq<Event<T>>)
    requires
        forall|i: int| 0 <= i < events.len() ==> (#[trigger] events[i]) is Idle || events[i] is Timer,
    ensures
        run(None, events) == (None::<T>, Seq::new(events.len(), |i: int| Action::<T>::Wait)),
    decreases events.len(),
{
    if events.len() > 0 {
        let rest = events.drop_first();
        assert forall|i: int| 0 <= i < rest.len() implies (#[trigger] rest[i]) is Idle
            || rest[i] is Timer by {
            assert(rest[i] == events[i + 1]);
        }
        assert(events[0] is Idle || events[0] is Timer);
        lemma_quiet_upstream_waits(rest);
        assert(seq![Action::<T>::Wait] + Seq::new(rest.len(), |i: int| Action::<T>::Wait) =~= Seq::new(
            events.len(),
            |i: int| Action::<T>::Wait,
        ));
    }
}

/// A trailing debounce over an upstream sequence of items of type `T`.
///
/// At most one item is pending at a time, each with its own timer of the
/// full window, started when the item arrived.
///
/// The upstream is drained greedily: after each item the driver polls it
/// again before it looks at any timer. An upstream that is always ready
/// therefore keeps the pending item from ever being timed; this is accepted,
/// not worked around.
pub struct Debounced<S, T> {
    stream: S,
    delay: Duration,
    pending: Option<Delayed<T>>,
}

impl<S, T> Debounced<S, T> {
    /// The upstream sequence.
    pub closed spec fn upstream(&self) -> S {
        self.stream
    }

    /// The quiet period.
    pub closed spec fn window(&self) -> Duration {
        self.delay
    }

    /// The most recent item not yet yielded, if any.
    pub closed spec fn pending_item(&self) -> Option<T> {
        match self.pending {
            Some(d) => d.held(),
            None => None,
        }
    }

    /// The duration the timer of the pending item was started with, if an
    /// item is pending.
    pub closed spec fn pending_window(&self) -> Option<Duration> {
        match self.pending {
            Some(d) => Some(d.spec_duration()),
            None => None,
        }
    }

    /// The pending item, if any, is still held by its delayed value, and
    /// that value was delayed by the window.
    pub closed spec fn wf(&self) -> bool {
        match self.pending {
            Some(d) => d.is_waiting() && d.spec_duration() == self.delay,
            None => true,
        }
    }

    /// Returns a debounce of `stream` with quiet period `delay`, with nothing
    /// pending.
    pub fn new(stream: S, delay: Duration) -> (r: Debounced<S, T>)
        ensures
            r.wf(),
            r.upstream() == stream,
            r.window() == delay,
            r.pending_item() is None,
    {
        Debounced { stream, delay, pending: None }
    }

    /// The quiet period.
    pub fn delay(&self) -> (r: Duration)
        ensures
            r == self.window(),
    {
        self.delay
    }

    /// Whether an item is pending.
    pub fn has_pending(&self) -> (r: bool)
        requires
            self.wf(),
        ensures
            r == (self.pending_item() is Some),
    {
        self.pending.is_some()
    }

    /// The upstream, for the caller to poll. Nothing else changes through the
    /// returned reference.
    pub fn upstream_mut(&mut self) -> (r: &mut S)
        ensures
            *final(r) == final(self).upstream(),
            final(self).window() == old(self).window(),
            final(self).pending_item() == old(self).pending_item(),
            final(self).wf() == old(self).wf(),
    {
        &mut self.stream
    }

    /// The timer of the pending item, for the caller to poll. Nothing else
    /// changes through the returned reference.
    pub fn timer_mut(&mut self) -> (r: &mut Delay)
        requires
            old(self).wf(),
            old(self).pending_item() is Some,
        ensures
            final(self).upstream() == old(self).upstream(),
            final(self).window() == old(self).window(),
            final(self).pending_item() == old(self).pending_item(),
            final(self).wf(),
    {
        match &mut self.pending {
            Some(d) => d.timer_mut(),
            None => unreached(),
        }
    }

    /// Takes one decision: given what the last poll observed, updates the
    /// pending item and says what to do next, as [`next`] describes. A new
    /// item gets a fresh timer of the full window.
    pub fn step(&mut self, event: Event<T>) -> (r: Action<T>)
        requires
            old(self).wf(),
        ensures
            final(self).wf(),
            (final(self).pending_item(), r) == next(old(self).pending_item(), event),
            event is Item ==> final(self).pending_window() == Some(final(self).window()),
            final(self).upstream() == old(self).upstream(),
            final(self).window() == old(self).window(),
    {
        match event {
            Event::Item(x) => {
                self.pending = Some(delayed(x, self.delay));
                Action::PollUpstream
            },
            Event::Closed => {
                if self.pending.is_some() {
                    Action::PollTimer
                } else {
                    Action::End
                }
            },
            Event::Idle => {
                if self.pending.is_some() {
                    Action::PollTimer
                } else {
                    Action::Wait
                }
            },
            Event::Timer(fired) => {
                match self.pending.take() {
                    Some(mut d) => {
                        match d.resolve(fired) {
                            Some(v) => Action::Yield(v),
                            None => {
                                self.pending = Some(d);
                                Action::Wait
                            },
                        }
                    },
                    None => Action::Wait,
                }
            },
        }
    }
}

/// Returns a debounce of `stream` with quiet period `delay`, with nothing
/// pending.
pub fn debounced<S, T>(stream: S, delay: Duration) -> (r: Debounced<S, T>)
    ensures
        r.wf(),
        r.upstream() == stream,
        r.window() == delay,
        r.pending_item() is None,
{
    Debounced::new(stream, delay)
}

} // verus!
