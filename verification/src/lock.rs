//! The lock that guards the data a condition variable is about.

use vstd::prelude::*;

verus! {

/// Who holds a lock after `thread` has tried to take it: `thread` where the lock
/// was free, the holder it had otherwise.
pub open spec fn after_try_lock(holder: Option<u64>, thread: u64) -> Option<u64> {
    if holder is None {
        Some(thread)
    } else {
        holder
    }
}

/// Who holds a lock after `thread` has let go of it: nobody where `thread` held
/// it, the holder it had otherwise.
pub open spec fn after_unlock(holder: Option<u64>, thread: u64) -> Option<u64> {
    if holder == Some(thread) {
        None
    } else {
        holder
    }
}

/// A mutual-exclusion lock: at any time at most one thread holds it. The lock
/// never blocks; a thread that must have it tries again once it has been released.
pub struct Lock {
    holder: Option<u64>,
}

impl View for Lock {
    type V = Option<u64>;

    /// The thread that holds the lock, if any does.
    closed spec fn view(&self) -> Option<u64> {
        self.holder
    }
}

impl Lock {
    /// A lock that nobody holds.
    pub fn new() -> (lock: Lock)
        ensures
            lock@ is None,
    {
        Lock { holder: None }
    }

    /// The thread that holds the lock, if any does.
    pub fn holder(&self) -> (holder: Option<u64>)
        ensures
            holder == self@,
    {
        self.holder
    }

    /// Whether `thread` holds the lock.
    pub fn is_held_by(&self, thread: u64) -> (held: bool)
        ensures
            held == (self@ == Some(thread)),
    {
        match self.holder {
            Some(holder) => holder == thread,
            None => false,
        }
    }

    /// Takes the lock for `thread` if it is free, and says whether it did. A lock
    /// that is held stays with its holder, also where that is `thread` itself.
    pub fn try_lock(&mut self, thread: u64) -> (acquired: bool)
        ensures
            acquired == (old(self)@ is None),
            final(self)@ == after_try_lock(old(self)@, thread),
            acquired ==> final(self)@ == Some(thread),
            !acquired ==> final(self)@ == old(self)@,
    {
        match self.holder {
            None => {
                self.holder = Some(thread);
                true
            },
            Some(_) => false,
        }
    }

    /// Releases the lock if `thread` holds it, and says whether it did. Nobody can
    /// release a lock for another thread.
    pub fn unlock(&mut self, thread: u64) -> (released: bool)
        ensures
            released == (old(self)@ == Some(thread)),
            final(self)@ == after_unlock(old(self)@, thread),
            released ==> final(self)@ is None,
            !released ==> final(self)@ == old(self)@,
    {
        if self.is_held_by(thread) {
            self.holder = None;
            true
        } else {
            false
        }
    }
}

} // verus!
