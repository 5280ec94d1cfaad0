//! A lock, its condition variable and their threads, as one state.
//!
//! A `Monitor` is a snapshot of one lock, the condition variable that goes with
//! it, and the threads that use them. An `Event` is one atomic step of one thread;
//! `next` says what it does to the monitor, in the terms in which the contracts of
//! `CondVar`, `WaitQueue` and `Lock` describe their own steps. An interleaving of
//! the threads is a sequence of events. `consistent` is what holds of the monitor
//! under every interleaving; the `laws` module builds on it.

use vstd::prelude::*;
use crate::condvar::{after_notify, may_step, wait_step};
use crate::lock::{after_try_lock, after_unlock};
use crate::queue::{enqueued, lemma_after_wake_one, lemma_enqueued, lemma_without, without};
use crate::task::{Task, WaitPhase};
use crate::waiter::WaiterEntry;

verus! {

/// One lock, the wait queue of its condition variable, and the threads around them.
pub struct Monitor {
    /// The wait queue of the condition variable.
    pub queue: Seq<WaiterEntry>,
    /// The thread that holds the lock, if any does.
    pub holder: Option<u64>,
    /// The threads, by identity.
    pub tasks: Map<u64, Task>,
}

/// One atomic step of one thread: one call of a function of the library, or
/// something that happens to a thread from outside.
pub enum Event {
    /// A call of `CondVar::wait` for the thread: the next step of its wait. A
    /// thread outside a wait begins one.
    Wait(u64),
    /// A call of `Lock::try_lock` by the thread, outside a wait.
    TryLock(u64),
    /// A call of `Lock::unlock` by the thread, outside a wait.
    Unlock(u64),
    /// A call of `CondVar::notify_one` by whatever thread.
    NotifyOne,
    /// A call of `CondVar::notify_all` by whatever thread.
    NotifyAll,
    /// A call of `CondVar::free_waiters` by whatever thread.
    FreeWaiters,
    /// A signal for the thread becomes pending (`true`) or is taken (`false`).
    Signal(u64, bool),
    /// A poller on behalf of the thread gets on the queue, by `WaitQueue::enqueue`.
    PollerArrives(u64),
    /// The poller on behalf of the thread leaves the queue, by `WaitQueue::remove`.
    PollerLeaves(u64),
}

/// The threads, with the phase of `thread` set to `phase`.
pub open spec fn with_phase(tasks: Map<u64, Task>, thread: u64, phase: WaitPhase) -> Map<
    u64,
    Task,
> {
    tasks.insert(thread, Task { phase, ..tasks[thread] })
}

/// Whether the event can happen: the thread exists and keeps to the rules. A
/// thread begins a wait only while it holds the lock, and a thread inside a wait
/// does nothing but wait.
pub open spec fn enabled(m: Monitor, event: Event) -> bool {
    match event {
        Event::Wait(t) => m.tasks.dom().contains(t) && (m.tasks[t].phase is Idle ==> m.holder
            == Some(t)),
        Event::TryLock(t) => m.tasks.dom().contains(t) && m.tasks[t].phase is Idle,
        Event::Unlock(t) => m.tasks.dom().contains(t) && m.tasks[t].phase is Idle,
        Event::Signal(t, _) => m.tasks.dom().contains(t),
        _ => true,
    }
}

/// The monitor after the event.
pub open spec fn next(m: Monitor, event: Event) -> Monitor {
    match event {
        Event::Wait(t) => {
            let step = wait_step(m.queue, m.holder, m.tasks[t]);
            Monitor {
                queue: step.queue,
                holder: step.holder,
                tasks: with_phase(m.tasks, t, step.phase),
            }
        },
        Event::TryLock(t) => Monitor { holder: after_try_lock(m.holder, t), ..m },
        Event::Unlock(t) => Monitor { holder: after_unlock(m.holder, t), ..m },
        Event::NotifyOne => Monitor { queue: after_notify(m.queue, false), ..m },
        Event::NotifyAll => Monitor { queue: after_notify(m.queue, true), ..m },
        Event::FreeWaiters => Monitor { queue: after_notify(m.queue, true), ..m },
        Event::Signal(t, pending) => Monitor {
            tasks: m.tasks.insert(t, Task { signal_pending: pending, ..m.tasks[t] }),
            ..m
        },
        Event::PollerArrives(t) => Monitor {
            queue: enqueued(m.queue, WaiterEntry::poller(t)),
            ..m
        },
        Event::PollerLeaves(t) => Monitor {
            queue: without(m.queue, WaiterEntry::poller(t)),
            ..m
        },
    }
}

/// Whether the events can happen one after another, beginning at `m`.
pub open spec fn feasible(m: Monitor, events: Seq<Event>) -> bool
    decreases events.len(),
{
    if events.len() == 0 {
        true
    } else {
        enabled(m, events[0]) && feasible(next(m, events[0]), events.drop_first())
    }
}

/// The monitor after the events have happened one after another, beginning at `m`.
pub open spec fn after(m: Monitor, events: Seq<Event>) -> Monitor
    decreases events.len(),
{
    if events.len() == 0 {
        m
    } else {
        after(next(m, events[0]), events.drop_first())
    }
}

/// A monitor before anything has happened: nobody waits, nobody holds the lock,
/// and every thread is outside a wait.
pub open spec fn initial(m: Monitor) -> bool {
    &&& m.queue.len() == 0
    &&& m.holder is None
    &&& forall|t: u64| #[trigger]
        m.tasks.dom().contains(t) ==> m.tasks[t].id == t && m.tasks[t].phase is Idle
}

/// What holds of a monitor at all times.
///
/// - No entry is queued twice.
/// - Every thread is filed under its own identity.
/// - A thread that is on the queue with the lock not yet released holds the lock.
/// - A thread that has released the lock in its wait does not hold it until the
///   wait returns.
/// - An exclusive entry belongs to a thread that is inside a wait.
pub open spec fn consistent(m: Monitor) -> bool {
    &&& m.queue.no_duplicates()
    &&& forall|t: u64| #[trigger] m.tasks.dom().contains(t) ==> m.tasks[t].id == t
    &&& forall|t: u64| #[trigger]
        m.tasks.dom().contains(t) && m.tasks[t].phase is Registered ==> m.holder == Some(t)
    &&& forall|t: u64| #[trigger]
        m.tasks.dom().contains(t) && (m.tasks[t].phase is Released || m.tasks[t].phase is Resumed)
            ==> m.holder != Some(t)
    &&& forall|entry: WaiterEntry| #[trigger]
        m.queue.contains(entry) && entry.exclusive ==> m.tasks.dom().contains(entry.thread) && !(
        m.tasks[entry.thread].phase is Idle)
}

/// A monitor is consistent before anything has happened.
pub proof fn consistent_at_start(m: Monitor)
    requires
        initial(m),
    ensures
        consistent(m),
{
}

/// No event that can happen makes a consistent monitor inconsistent.
pub proof fn consistent_is_kept(m: Monitor, event: Event)
    requires
        consistent(m),
        enabled(m, event),
    ensures
        consistent(next(m, event)),
        next(m, event).tasks.dom() == m.tasks.dom(),
{
    assert(next(m, event).tasks.dom() =~= m.tasks.dom());
    match event {
        Event::Wait(t) => {
            lemma_enqueued(m.queue, WaiterEntry::waiter(t));
            lemma_without(m.queue, WaiterEntry::waiter(t));
        },
        Event::NotifyOne => {
            lemma_after_wake_one(m.queue);
        },
        Event::PollerArrives(t) => {
            lemma_enqueued(m.queue, WaiterEntry::poller(t));
        },
        Event::PollerLeaves(t) => {
            lemma_without(m.queue, WaiterEntry::poller(t));
        },
        _ => {},
    }
}

/// A thread that keeps to the rules may take every step of its wait: what
/// `CondVar::wait` requires holds whenever the step is enabled.
pub proof fn enabled_wait_may_step(m: Monitor, t: u64)
    requires
        consistent(m),
        enabled(m, Event::Wait(t)),
    ensures
        may_step(m.holder, m.tasks[t]),
{
}

/// A consistent monitor stays consistent under every interleaving: whatever events
/// happen, in whatever order they can.
pub proof fn consistent_under_every_interleaving(m: Monitor, events: Seq<Event>)
    requires
        consistent(m),
        feasible(m, events),
    ensures
        consistent(after(m, events)),
        after(m, events).tasks.dom() == m.tasks.dom(),
    decreases events.len(),
{
    if events.len() > 0 {
        consistent_is_kept(m, events[0]);
        consistent_under_every_interleaving(next(m, events[0]), events.drop_first());
    }
}

} // verus!
