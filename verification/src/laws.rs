//! What the protocol guarantees, whatever the threads do in whatever order.
//!
//! Each law is stated of a consistent `Monitor` and of the events that can happen
//! to it, so it holds of every run of the library's functions in which the
//! threads keep to the rules that `enabled` states.

use vstd::prelude::*;
use crate::condvar::{after_notify, sleeps, wait_step, woken_by, WaitAction};
use crate::monitor::{
    after, consistent, consistent_is_kept, consistent_under_every_interleaving, enabled, feasible,
    next, Event, Monitor,
};
use crate::queue::{
    after_wake_one, first_exclusive, has_exclusive, is_first_exclusive, lemma_after_wake_one,
    lemma_enqueued, lemma_has_first_exclusive, lemma_without, woken_by_one,
};
use crate::task::Task;
use crate::waiter::{WaiterEntry, WakeReason, Wakeup};

verus! {

/// Whether the notification reaches thread `a`: it is a broadcast or a teardown,
/// or it is a single notification while `a` is the exclusive waiter that has
/// waited longest, or `a` is off the queue already.
pub open spec fn reaches(m: Monitor, notification: Event, a: u64) -> bool {
    ||| notification == Event::NotifyAll
    ||| notification == Event::FreeWaiters
    ||| notification == Event::NotifyOne && (woken_by_one(m.queue) == Some(WaiterEntry::waiter(a))
        || !m.queue.contains(WaiterEntry::waiter(a)))
}

/// Whether thread `a` takes no step of a wait among the events.
pub open spec fn no_wait_step(events: Seq<Event>, a: u64) -> bool {
    forall|i: int| 0 <= i < events.len() ==> #[trigger] events[i] != Event::Wait(a)
}

/// Whether thread `t` finds the lock held when it tries it, and leaves it as it is.
pub open spec fn finds_the_lock_held(m: Monitor, t: u64) -> bool {
    m.holder is Some && next(m, Event::TryLock(t)).holder == m.holder
}

/// Whether thread `a` neither unlocks nor takes a step of a wait among the events.
pub open spec fn keeps_the_lock(events: Seq<Event>, a: u64) -> bool {
    forall|i: int|
        0 <= i < events.len() ==> #[trigger] events[i] != Event::Wait(a) && events[i]
            != Event::Unlock(a)
}

/// A wakeup is not taken back by one event.
///
/// Once a thread is off the queue, only a step of its own wait puts it back: no
/// step of another thread, no notification and no poller does.
pub proof fn wakeup_is_kept(m: Monitor, a: u64, event: Event)
    requires
        consistent(m),
        enabled(m, event),
        !m.queue.contains(WaiterEntry::waiter(a)),
        event != Event::Wait(a),
    ensures
        !next(m, event).queue.contains(WaiterEntry::waiter(a)),
{
    match event {
        Event::Wait(t) => {
            lemma_enqueued(m.queue, WaiterEntry::waiter(t));
            lemma_without(m.queue, WaiterEntry::waiter(t));
        },
        Event::NotifyOne => {
            lemma_after_wake_one(m.queue);
        },
        Event::PollerArrives(t) => {
            lemma_enqueued(m.queue, WaiterEntry::poller(t));
        },
        Event::PollerLeaves(t) => {
            lemma_without(m.queue, WaiterEntry::poller(t));
        },
        _ => {},
    }
}

/// A wakeup is not taken back.
///
/// A thread that is off the queue stays off it, and so awake, under every
/// interleaving in which it takes no step of its own wait.
pub proof fn wakeup_is_kept_under_every_interleaving(m: Monitor, a: u64, events: Seq<Event>)
    requires
        consistent(m),
        feasible(m, events),
        no_wait_step(events, a),
        !m.queue.contains(WaiterEntry::waiter(a)),
    ensures
        !after(m, events).queue.contains(WaiterEntry::waiter(a)),
        forall|task: Task| task.id == a ==> !sleeps(after(m, events).queue, task),
    decreases events.len(),
{
    if events.len() > 0 {
        let rest = events.drop_first();
        assert(events[0] != Event::Wait(a));
        wakeup_is_kept(m, a, events[0]);
        consistent_is_kept(m, events[0]);
        assert forall|i: int| 0 <= i < rest.len() implies #[trigger] rest[i] != Event::Wait(a) by {
            assert(rest[i] == events[i + 1]);
        }
        wakeup_is_kept_under_every_interleaving(next(m, events[0]), a, rest);
    }
}

/// No missed wakeup.
///
/// Let thread `a` be inside a wait while another thread `b` holds the lock. Then
/// `a` got on the queue before it released the lock: `b`, and whoever takes the
/// lock after `a` began to wait, finds `a` queued unless it has been woken
/// already. Let a notification follow that reaches `a`: a broadcast, a teardown,
/// or a single notification while `a` is the exclusive waiter that has waited
/// longest. If `a` was still queued, the wakeup of `a` is among those handed
/// back. And whatever happens next, in whatever order, `a` does not sleep:
/// the next step of its wait, whenever it comes, is not `Suspend`.
pub proof fn no_missed_wakeup(m: Monitor, a: u64, b: u64, notification: Event, events: Seq<Event>)
    requires
        consistent(m),
        m.tasks.dom().contains(a),
        !(m.tasks[a].phase is Idle),
        m.holder == Some(b),
        a != b,
        reaches(m, notification, a),
        feasible(next(m, notification), events),
        no_wait_step(events, a),
    ensures
        m.tasks[a].phase is Released || m.tasks[a].phase is Resumed,
        m.queue.contains(WaiterEntry::waiter(a)) && notification == Event::NotifyOne ==> woken_by(
            m.queue,
            false,
            WakeReason::Normal,
        ) == seq![Wakeup { entry: WaiterEntry::waiter(a), reason: WakeReason::Normal }],
        m.queue.contains(WaiterEntry::waiter(a)) && notification == Event::NotifyAll ==> woken_by(
            m.queue,
            true,
            WakeReason::Normal,
        ).contains(Wakeup { entry: WaiterEntry::waiter(a), reason: WakeReason::Normal }),
        m.queue.contains(WaiterEntry::waiter(a)) && notification == Event::FreeWaiters ==> woken_by(
            m.queue,
            true,
            WakeReason::Teardown,
        ).contains(Wakeup { entry: WaiterEntry::waiter(a), reason: WakeReason::Teardown }),
        !next(m, notification).queue.contains(WaiterEntry::waiter(a)),
        after(next(m, notification), events).tasks.dom().contains(a),
        !sleeps(
            after(next(m, notification), events).queue,
            after(next(m, notification), events).tasks[a],
        ),
        !(wait_step(
            after(next(m, notification), events).queue,
            after(next(m, notification), events).holder,
            after(next(m, notification), events).tasks[a],
        ).action is Suspend),
{
    let me = WaiterEntry::waiter(a);
    let notified = next(m, notification);
    if m.queue.contains(me) {
        let at = m.queue.index_of(me);
        assert(woken_by(m.queue, true, WakeReason::Normal)[at] == Wakeup {
            entry: me,
            reason: WakeReason::Normal,
        });
        assert(woken_by(m.queue, true, WakeReason::Teardown)[at] == Wakeup {
            entry: me,
            reason: WakeReason::Teardown,
        });
    }
    lemma_after_wake_one(m.queue);
    consistent_is_kept(m, notification);
    consistent_under_every_interleaving(notified, events);
    wakeup_is_kept_under_every_interleaving(notified, a, events);
}

/// A waiter that is awake gets on.
///
/// A thread whose wait has released the lock and that does not sleep is resumed
/// by its next step. A resumed thread returns as soon as it finds the lock free:
/// it holds the lock then, is off the queue, and reports the signal that is
/// pending for it. While another thread holds the lock it waits for the lock and
/// for nothing else.
pub proof fn awake_waiter_returns(m: Monitor, a: u64)
    requires
        consistent(m),
        m.tasks.dom().contains(a),
        m.tasks[a].phase is Released || m.tasks[a].phase is Resumed,
        !sleeps(m.queue, m.tasks[a]),
    ensures
        m.tasks[a].phase is Released ==> {
            &&& wait_step(m.queue, m.holder, m.tasks[a]).action is Proceed
            &&& next(m, Event::Wait(a)).tasks[a].phase is Resumed
            &&& next(m, Event::Wait(a)).queue == m.queue
            &&& next(m, Event::Wait(a)).holder == m.holder
        },
        m.tasks[a].phase is Resumed && m.holder is None ==> {
            &&& wait_step(m.queue, m.holder, m.tasks[a]).action == WaitAction::Return(
                m.tasks[a].signal_pending,
            )
            &&& next(m, Event::Wait(a)).tasks[a].phase is Idle
            &&& next(m, Event::Wait(a)).holder == Some(a)
            &&& !next(m, Event::Wait(a)).queue.contains(WaiterEntry::waiter(a))
        },
        m.tasks[a].phase is Resumed && m.holder is Some ==> {
            &&& wait_step(m.queue, m.holder, m.tasks[a]).action is AwaitLock
            &&& next(m, Event::Wait(a)).queue == m.queue
            &&& next(m, Event::Wait(a)).holder == m.holder
            &&& next(m, Event::Wait(a)).tasks[a].phase is Resumed
        },
{
    lemma_without(m.queue, WaiterEntry::waiter(a));
}

/// Waiters queue up in the order in which they come.
///
/// A thread that begins to wait is not on the queue yet, and its first step puts
/// it behind everyone who waits already. A single notification wakes from the
/// other end: no exclusive waiter is woken while one that came before it waits.
pub proof fn waiters_queue_in_arrival_order(m: Monitor, a: u64)
    requires
        consistent(m),
        m.tasks.dom().contains(a),
        m.tasks[a].phase is Idle,
    ensures
        !m.queue.contains(WaiterEntry::waiter(a)),
        next(m, Event::Wait(a)).queue == m.queue.push(WaiterEntry::waiter(a)),
        forall|i: int, j: int|
            0 <= i < j < m.queue.len() && (#[trigger] m.queue[i]).exclusive ==> woken_by_one(
                m.queue,
            ) != Some(#[trigger] m.queue[j]),
{
    let me = WaiterEntry::waiter(a);
    if m.queue.contains(me) {
        let at = choose|i: int| 0 <= i < m.queue.len() && m.queue[i] == me;
        assert(m.queue[at].exclusive);
    }
    assert forall|i: int, j: int|
        0 <= i < j < m.queue.len() && (#[trigger] m.queue[i]).exclusive implies woken_by_one(
        m.queue,
    ) != Some(#[trigger] m.queue[j]) by {
        lemma_has_first_exclusive(m.queue);
        let first = first_exclusive(m.queue);
        if woken_by_one(m.queue) == Some(m.queue[j]) {
            assert(first == j);
            assert(!m.queue[i].exclusive);
        }
    }
}

/// The lock is not taken from its holder by one event.
///
/// Whatever another thread does, and whatever the holder does short of an unlock
/// or a wait, the lock stays where it is.
pub proof fn lock_is_kept(m: Monitor, a: u64, event: Event)
    requires
        consistent(m),
        enabled(m, event),
        m.holder == Some(a),
        event != Event::Wait(a),
        event != Event::Unlock(a),
    ensures
        next(m, event).holder == Some(a),
{
}

/// Mutual exclusion on reacquire.
///
/// The step of a wait that returns leaves the lock with the thread that waited,
/// and with nobody else. From then on, under every interleaving, the lock stays
/// with that thread until it lets go of it itself, by an unlock or by a new wait:
/// no step of another thread takes it, and whoever tries the lock meanwhile finds
/// it held.
pub proof fn lock_is_held_after_wait(m: Monitor, a: u64, events: Seq<Event>)
    requires
        consistent(m),
        enabled(m, Event::Wait(a)),
        wait_step(m.queue, m.holder, m.tasks[a]).action is Return,
        feasible(next(m, Event::Wait(a)), events),
        keeps_the_lock(events, a),
    ensures
        m.holder is None,
        next(m, Event::Wait(a)).holder == Some(a),
        after(next(m, Event::Wait(a)), events).holder == Some(a),
        forall|t: u64| finds_the_lock_held(after(next(m, Event::Wait(a)), events), t),
{
    let returned = next(m, Event::Wait(a));
    consistent_is_kept(m, Event::Wait(a));
    lock_is_kept_under_every_interleaving(returned, a, events);
}

/// The lock is not taken from its holder.
///
/// The lock stays with the thread that holds it under every interleaving in which
/// that thread neither unlocks nor waits.
pub proof fn lock_is_kept_under_every_interleaving(m: Monitor, a: u64, events: Seq<Event>)
    requires
        consistent(m),
        feasible(m, events),
        keeps_the_lock(events, a),
        m.holder == Some(a),
    ensures
        after(m, events).holder == Some(a),
    decreases events.len(),
{
    if events.len() > 0 {
        let rest = events.drop_first();
        assert(events[0] != Event::Wait(a) && events[0] != Event::Unlock(a));
        lock_is_kept(m, a, events[0]);
        consistent_is_kept(m, events[0]);
        assert forall|i: int| 0 <= i < rest.len() implies #[trigger] rest[i] != Event::Wait(a)
            && rest[i] != Event::Unlock(a) by {
            assert(rest[i] == events[i + 1]);
        }
        lock_is_kept_under_every_interleaving(next(m, events[0]), a, rest);
    }
}

/// Notifications are not remembered.
///
/// With nobody on the queue a notification changes nothing, a broadcast no more
/// than a single one, and hands back no wakeup. A thread that begins to wait
/// after it, with no signal pending, gets on the queue, releases the lock, and
/// sleeps: step after step, until a later notification or a signal reaches it.
pub proof fn notify_is_not_sticky(m: Monitor, a: u64)
    requires
        consistent(m),
        m.queue.len() == 0,
        m.tasks.dom().contains(a),
        m.tasks[a].phase is Idle,
        !m.tasks[a].signal_pending,
        m.holder == Some(a),
    ensures
        next(m, Event::NotifyOne) == m,
        next(m, Event::NotifyAll) == m,
        woken_by(m.queue, false, WakeReason::Normal).len() == 0,
        woken_by(m.queue, true, WakeReason::Normal).len() == 0,
        ({
            let registered = next(m, Event::Wait(a));
            let released = next(registered, Event::Wait(a));
            &&& registered.queue == seq![WaiterEntry::waiter(a)]
            &&& registered.holder == Some(a)
            &&& released.queue == seq![WaiterEntry::waiter(a)]
            &&& released.holder is None
            &&& sleeps(released.queue, released.tasks[a])
            &&& wait_step(released.queue, released.holder, released.tasks[a]).action is Suspend
            &&& next(released, Event::Wait(a)) == released
        }),
{
    assert(m.queue =~= Seq::<WaiterEntry>::empty());
    assert(!has_exclusive(m.queue));
    let registered = next(m, Event::Wait(a));
    let released = next(registered, Event::Wait(a));
    assert(registered.queue =~= seq![WaiterEntry::waiter(a)]);
    assert(registered.queue[0] == WaiterEntry::waiter(a));
    assert(released.tasks[a].phase is Released);
    let again = next(released, Event::Wait(a));
    assert(again.tasks =~= released.tasks);
}

/// A single notification wakes one waiter and no more.
///
/// Where some waiter is exclusive, exactly one wakeup comes back: that of the
/// exclusive waiter that has waited longest. Every other waiter stays queued, in
/// the order in which it came, and a thread among them that slept sleeps on.
pub proof fn notify_one_wakes_one(queue: Seq<WaiterEntry>)
    requires
        queue.no_duplicates(),
        has_exclusive(queue),
    ensures
        is_first_exclusive(queue, first_exclusive(queue)),
        woken_by(queue, false, WakeReason::Normal) == seq![
            Wakeup { entry: queue[first_exclusive(queue)], reason: WakeReason::Normal },
        ],
        after_notify(queue, false) == queue.remove(first_exclusive(queue)),
        after_notify(queue, false).len() == queue.len() - 1,
        !after_notify(queue, false).contains(queue[first_exclusive(queue)]),
        forall|entry: WaiterEntry|
            queue.contains(entry) && entry != queue[first_exclusive(queue)] ==> after_notify(
                queue,
                false,
            ).contains(entry),
        forall|task: Task|
            sleeps(queue, task) && WaiterEntry::waiter(task.id) != queue[first_exclusive(queue)]
                ==> sleeps(after_notify(queue, false), task),
{
    lemma_after_wake_one(queue);
}

/// Where every waiter is exclusive, a single notification wakes the waiter at the
/// head of the queue and leaves the others as they are.
pub proof fn notify_one_wakes_the_head(queue: Seq<WaiterEntry>)
    requires
        queue.len() >= 1,
        forall|i: int| 0 <= i < queue.len() ==> (#[trigger] queue[i]).exclusive,
    ensures
        woken_by_one(queue) == Some(queue[0]),
        after_wake_one(queue) == queue.drop_first(),
{
    assert(queue[0].exclusive);
    assert(is_first_exclusive(queue, 0));
    lemma_has_first_exclusive(queue);
    let at = first_exclusive(queue);
    if 0 < at {
        assert(!queue[0].exclusive);
    }
    assert(queue.remove(0) =~= queue.drop_first());
}

/// A broadcast wakes every waiter.
///
/// One wakeup comes back for each waiter, in the order in which they came, the
/// queue is left empty, and no thread sleeps any longer.
pub proof fn notify_all_wakes_all(queue: Seq<WaiterEntry>, reason: WakeReason)
    ensures
        woken_by(queue, true, reason).len() == queue.len(),
        forall|i: int|
            0 <= i < queue.len() ==> #[trigger] woken_by(queue, true, reason)[i] == (Wakeup {
                entry: queue[i],
                reason,
            }),
        forall|entry: WaiterEntry|
            queue.contains(entry) ==> woken_by(queue, true, reason).contains(
                Wakeup { entry, reason },
            ),
        after_notify(queue, true).len() == 0,
        forall|task: Task| !sleeps(after_notify(queue, true), task),
{
    let woken = woken_by(queue, true, reason);
    assert forall|entry: WaiterEntry| queue.contains(entry) implies woken.contains(
        Wakeup { entry, reason },
    ) by {
        let at = choose|i: int| 0 <= i < queue.len() && queue[i] == entry;
        assert(woken[at] == Wakeup { entry, reason });
    }
}

/// Tearing down drains the queue.
///
/// After `free_waiters` no entry is left, exclusive or not, and every waiter has
/// been handed a wakeup that says `Teardown`. A thread that begins to wait after
/// it starts from an empty queue: it is the only one on it.
pub proof fn free_waiters_drains(m: Monitor, a: u64)
    requires
        consistent(m),
        m.tasks.dom().contains(a),
        m.tasks[a].phase is Idle,
    ensures
        next(m, Event::FreeWaiters).queue.len() == 0,
        forall|entry: WaiterEntry| !next(m, Event::FreeWaiters).queue.contains(entry),
        forall|i: int|
            0 <= i < m.queue.len() ==> #[trigger] woken_by(m.queue, true, WakeReason::Teardown)[i]
                == (Wakeup { entry: m.queue[i], reason: WakeReason::Teardown }),
        next(next(m, Event::FreeWaiters), Event::Wait(a)).queue == seq![WaiterEntry::waiter(a)],
{
    let drained = next(m, Event::FreeWaiters);
    assert(drained.queue =~= Seq::<WaiterEntry>::empty());
    assert(drained.queue.push(WaiterEntry::waiter(a)) =~= seq![WaiterEntry::waiter(a)]);
    assert(next(drained, Event::Wait(a)).queue == drained.queue.push(WaiterEntry::waiter(a)));
}

} // verus!
