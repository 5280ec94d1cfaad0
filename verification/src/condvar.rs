//! The condition variable: wait and notify over a wait queue.

use vstd::prelude::*;
use crate::lock::Lock;
use crate::queue::{
    after_wake_one, enqueued, has_exclusive, lemma_has_first_exclusive, wakeups, without,
    woken_by_one, WaitQueue,
};
use crate::task::{Task, WaitPhase};
use crate::waiter::{WaiterEntry, WakeReason, Wakeup};

verus! {

/// What the runtime does for a thread after a step of its wait.
#[derive(Clone, Copy, Debug, PartialEq, Eq, Structural)]
pub enum WaitAction {
    /// Nothing: take the next step.
    Proceed,
    /// Put the thread to sleep until a notification or a signal reaches it, then
    /// take the next step.
    Suspend,
    /// The lock is held by another thread: block until it is released, then take
    /// the next step.
    AwaitLock,
    /// The wait is over and the thread holds the lock again. The flag says whether
    /// a signal is pending for the thread.
    Return(bool),
}

/// The outcome of one step of a wait: the wait queue, the lock's holder and the
/// thread's phase after it, and what the runtime does next.
pub struct WaitStep {
    /// The wait queue after the step.
    pub queue: Seq<WaiterEntry>,
    /// The thread that holds the lock after the step, if any does.
    pub holder: Option<u64>,
    /// The phase of the thread after the step.
    pub phase: WaitPhase,
    /// What the runtime does next.
    pub action: WaitAction,
}

/// Whether `task` sleeps: it is inside a wait with the lock released, its entry is
/// on the queue, and no signal is pending for it.
pub open spec fn sleeps(queue: Seq<WaiterEntry>, task: Task) -> bool {
    &&& task.phase is Released
    &&& queue.contains(WaiterEntry::waiter(task.id))
    &&& !task.signal_pending
}

/// Whether `task` may take the next step of its wait: a thread begins to wait, and
/// stays on the queue before it has released the lock, only while it holds the lock.
pub open spec fn may_step(holder: Option<u64>, task: Task) -> bool {
    task.phase is Idle || task.phase is Registered ==> holder == Some(task.id)
}

/// One step of the wait of `task`, by the phase it is in.
///
/// - `Idle`: the thread's exclusive entry goes to the tail of the queue.
/// - `Registered`: the lock is released.
/// - `Released`: the thread sleeps while its entry is queued and no signal is
///   pending, and is resumed otherwise.
/// - `Resumed`: the thread takes the lock if it is free, leaves the queue for
///   good, and returns; it waits for the lock otherwise.
pub open spec fn wait_step(queue: Seq<WaiterEntry>, holder: Option<u64>, task: Task) -> WaitStep {
    match task.phase {
        WaitPhase::Idle => WaitStep {
            queue: enqueued(queue, WaiterEntry::waiter(task.id)),
            holder,
            phase: WaitPhase::Registered,
            action: WaitAction::Proceed,
        },
        WaitPhase::Registered => WaitStep {
            queue,
            holder: None,
            phase: WaitPhase::Released,
            action: WaitAction::Proceed,
        },
        WaitPhase::Released => if sleeps(queue, task) {
            WaitStep { queue, holder, phase: WaitPhase::Released, action: WaitAction::Suspend }
        } else {
            WaitStep { queue, holder, phase: WaitPhase::Resumed, action: WaitAction::Proceed }
        },
        WaitPhase::Resumed => if holder is None {
            WaitStep {
                queue: without(queue, WaiterEntry::waiter(task.id)),
                holder: Some(task.id),
                phase: WaitPhase::Idle,
                action: WaitAction::Return(task.signal_pending),
            }
        } else {
            WaitStep { queue, holder, phase: WaitPhase::Resumed, action: WaitAction::AwaitLock }
        },
    }
}

/// The queue that a notification leaves behind: empty after a broadcast, short of
/// the exclusive entry that waited longest otherwise.
pub open spec fn after_notify(queue: Seq<WaiterEntry>, all: bool) -> Seq<WaiterEntry> {
    if all {
        Seq::empty()
    } else {
        after_wake_one(queue)
    }
}

/// The wakeups of a notification: one for each entry after a broadcast, at most one
/// otherwise, for the exclusive entry that waited longest.
pub open spec fn woken_by(queue: Seq<WaiterEntry>, all: bool, reason: WakeReason) -> Seq<Wakeup> {
    if all {
        wakeups(queue, reason)
    } else {
        match woken_by_one(queue) {
            Some(entry) => seq![Wakeup { entry, reason }],
            None => Seq::empty(),
        }
    }
}

/// A condition variable. It is ready for use from the moment it exists.
pub struct CondVar {
    /// The threads that wait on the variable, in arrival order.
    pub wait_list: WaitQueue,
    /// The name under which diagnostics know the variable.
    pub name: &'static str,
}

impl CondVar {
    /// A condition variable called `name`, with nobody waiting on it.
    pub fn new(name: &'static str) -> (condvar: CondVar)
        ensures
            condvar.wait_list@ == Seq::<WaiterEntry>::empty(),
            condvar.name@ == name@,
    {
        CondVar { wait_list: WaitQueue::new(), name }
    }

    /// Takes one step of the wait of `task` on this variable, with `lock` as the
    /// lock that the thread holds when it begins to wait, and says what the runtime
    /// does next. The runtime calls `wait` again and again until it gets `Return`.
    ///
    /// The thread gets on the queue first and releases the lock only then, so that
    /// whoever takes the lock after it finds it queued. It sleeps at one place only,
    /// where `Suspend` comes back, and only while it is queued and no signal is
    /// pending. Whatever resumed it, it takes the lock again before it leaves the
    /// queue and returns.
    #[must_use]
    pub fn wait(&mut self, lock: &mut Lock, task: &mut Task) -> (action: WaitAction)
        requires
            may_step(old(lock)@, *old(task)),
        ensures
            ({
                let step = wait_step(old(self).wait_list@, old(lock)@, *old(task));
                &&& final(self).wait_list@ == step.queue
                &&& final(lock)@ == step.holder
                &&& final(task).phase == step.phase
                &&& action == step.action
            }),
            final(task).id == old(task).id,
            final(task).signal_pending == old(task).signal_pending,
            final(self).name == old(self).name,
            action is Suspend ==> sleeps(final(self).wait_list@, *final(task)),
            action matches WaitAction::Return(signaled) ==> {
                &&& final(lock)@ == Some(old(task).id)
                &&& !final(self).wait_list@.contains(WaiterEntry::waiter(old(task).id))
                &&& final(task).phase is Idle
                &&& signaled == old(task).signal_pending
            },
    {
        let entry = WaiterEntry::waiter(task.id);
        match task.phase {
            WaitPhase::Idle => {
                self.wait_list.enqueue(entry);
                task.phase = WaitPhase::Registered;
                WaitAction::Proceed
            },
            WaitPhase::Registered => {
                lock.unlock(task.id);
                task.phase = WaitPhase::Released;
                WaitAction::Proceed
            },
            WaitPhase::Released => {
                if self.wait_list.contains(entry) && !task.signal_pending {
                    WaitAction::Suspend
                } else {
                    task.phase = WaitPhase::Resumed;
                    WaitAction::Proceed
                }
            },
            WaitPhase::Resumed => {
                if lock.try_lock(task.id) {
                    self.wait_list.remove(entry);
                    task.phase = WaitPhase::Idle;
                    WaitAction::Return(task.signal_pending)
                } else {
                    WaitAction::AwaitLock
                }
            },
        }
    }

    /// Wakes the waiters that a notification is for, and hands back their wakeups
    /// tagged with `reason`: every waiter where `all` is set, the exclusive waiter
    /// that has waited longest otherwise.
    fn notify(&mut self, all: bool, reason: WakeReason) -> (woken: Vec<Wakeup>)
        ensures
            final(self).wait_list@ == after_notify(old(self).wait_list@, all),
            woken@ == woken_by(old(self).wait_list@, all, reason),
            final(self).name == old(self).name,
    {
        if all {
            self.wait_list.wake_all(reason)
        } else {
            let mut woken: Vec<Wakeup> = Vec::new();
            match self.wait_list.wake_one(reason) {
                Some(wakeup) => {
                    woken.push(wakeup);
                },
                None => {},
            }
            woken
        }
    }

    /// Wakes one waiter: the exclusive waiter that has waited longest leaves the
    /// queue, and its wakeup is handed back. With no such waiter nothing happens
    /// and nothing is remembered: a thread that waits later is not woken by it.
    pub fn notify_one(&mut self) -> (woken: Vec<Wakeup>)
        ensures
            final(self).wait_list@ == after_notify(old(self).wait_list@, false),
            woken@ == woken_by(old(self).wait_list@, false, WakeReason::Normal),
            woken@.len() == (if has_exclusive(old(self).wait_list@) { 1nat } else { 0nat }),
            woken@.len() + final(self).wait_list@.len() == old(self).wait_list@.len(),
            final(self).name == old(self).name,
    {
        proof {
            if has_exclusive(self.wait_list@) {
                lemma_has_first_exclusive(self.wait_list@);
            }
        }
        self.notify(false, WakeReason::Normal)
    }

    /// Wakes all waiters: the queue is left empty, and one wakeup for each waiter
    /// is handed back, in arrival order. With nobody waiting nothing happens and
    /// nothing is remembered.
    pub fn notify_all(&mut self) -> (woken: Vec<Wakeup>)
        ensures
            final(self).wait_list@ == after_notify(old(self).wait_list@, true),
            woken@ == woken_by(old(self).wait_list@, true, WakeReason::Normal),
            final(self).wait_list@.len() == 0,
            woken@.len() == old(self).wait_list@.len(),
            final(self).name == old(self).name,
    {
        self.notify(true, WakeReason::Normal)
    }

    /// Wakes all waiters because the variable is going away: the queue is left
    /// empty, exclusive entries and others alike, and each wakeup handed back
    /// says `Teardown`, so that who receives it can tell it from a notification.
    pub fn free_waiters(&mut self) -> (woken: Vec<Wakeup>)
        ensures
            final(self).wait_list@ == after_notify(old(self).wait_list@, true),
            woken@ == woken_by(old(self).wait_list@, true, WakeReason::Teardown),
            final(self).wait_list@.len() == 0,
            woken@.len() == old(self).wait_list@.len(),
            final(self).name == old(self).name,
    {
        self.notify(true, WakeReason::Teardown)
    }
}

} // verus!
