//! The records that a wait queue holds and hands out.

use vstd::prelude::*;

verus! {

/// Why a waiter is resumed.
#[derive(Clone, Copy, Debug, PartialEq, Eq, Structural)]
pub enum WakeReason {
    /// A notification: the awaited condition may hold now, and the waiter checks it again.
    Normal,
    /// The queue is going away: the waiter gives up on it.
    Teardown,
}

/// One thread's presence in a wait queue.
#[derive(Clone, Copy, Debug, PartialEq, Eq, Structural)]
pub struct WaiterEntry {
    /// The thread that is resumed when the entry is woken.
    pub thread: u64,
    /// An exclusive entry takes a single-waiter notification for itself; an entry
    /// that is not exclusive is woken by broadcasts only.
    pub exclusive: bool,
}

/// A wakeup that a notification produced, for the runtime to deliver.
#[derive(Clone, Copy, Debug, PartialEq, Eq, Structural)]
pub struct Wakeup {
    /// The entry that left the queue.
    pub entry: WaiterEntry,
    /// Why it was woken.
    pub reason: WakeReason,
}

impl WaiterEntry {
    /// The entry under which `thread` sleeps inside a wait: an exclusive one.
    pub open spec fn spec_waiter(thread: u64) -> WaiterEntry {
        WaiterEntry { thread, exclusive: true }
    }

    /// The entry of a poller on behalf of `thread`: woken by broadcasts only.
    pub open spec fn spec_poller(thread: u64) -> WaiterEntry {
        WaiterEntry { thread, exclusive: false }
    }

    /// The entry under which `thread` sleeps inside a wait: an exclusive one.
    #[verifier::when_used_as_spec(spec_waiter)]
    pub fn waiter(thread: u64) -> (entry: WaiterEntry)
        ensures
            entry == WaiterEntry::spec_waiter(thread),
    {
        WaiterEntry { thread, exclusive: true }
    }

    /// The entry of a poller on behalf of `thread`: woken by broadcasts only.
    #[verifier::when_used_as_spec(spec_poller)]
    pub fn poller(thread: u64) -> (entry: WaiterEntry)
        ensures
            entry == WaiterEntry::spec_poller(thread),
    {
        WaiterEntry { thread, exclusive: false }
    }
}

} // verus!
