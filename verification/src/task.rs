//! The execution context of one thread.

use vstd::prelude::*;

verus! {

/// How far a thread has come in a call of `wait`.
#[derive(Clone, Copy, Debug, PartialEq, Eq, Structural)]
pub enum WaitPhase {
    /// Not inside a wait.
    Idle,
    /// On the wait queue, the lock still held.
    Registered,
    /// On the wait queue or woken from it, the lock released: the thread sleeps
    /// here until it is notified or signalled.
    Released,
    /// Running again, on its way to take the lock back.
    Resumed,
}

/// A thread as the condition variable sees it: its identity, whether a signal is
/// pending for it, and where it stands in a wait.
#[derive(Clone, Copy, Debug, PartialEq, Eq, Structural)]
pub struct Task {
    /// The thread's identity.
    pub id: u64,
    /// Whether a signal is pending for the thread. The runtime keeps it up to date.
    pub signal_pending: bool,
    /// Where the thread stands in a wait. Only `CondVar::wait` moves it on.
    pub phase: WaitPhase,
}

impl Task {
    /// The context of thread `id`: outside any wait, with no signal pending.
    pub fn new(id: u64) -> (task: Task)
        ensures
            task == (Task { id, signal_pending: false, phase: WaitPhase::Idle }),
    {
        Task { id, signal_pending: false, phase: WaitPhase::Idle }
    }
}

} // verus!
