//! The wait queue: the waiters of one condition variable, in arrival order.

use vstd::prelude::*;
use crate::waiter::{WaiterEntry, WakeReason, Wakeup};

verus! {

/// The queue after `entry` has arrived: at the tail, unless it is queued already.
pub open spec fn enqueued(queue: Seq<WaiterEntry>, entry: WaiterEntry) -> Seq<WaiterEntry> {
    if queue.contains(entry) {
        queue
    } else {
        queue.push(entry)
    }
}

/// The queue after `entry` has left it; the queue itself where `entry` is not in it.
pub open spec fn without(queue: Seq<WaiterEntry>, entry: WaiterEntry) -> Seq<WaiterEntry> {
    if queue.contains(entry) {
        queue.remove(queue.index_of(entry))
    } else {
        queue
    }
}

/// Whether some entry of the queue is exclusive.
pub open spec fn has_exclusive(queue: Seq<WaiterEntry>) -> bool {
    exists|i: int| 0 <= i < queue.len() && (#[trigger] queue[i]).exclusive
}

/// Whether `i` is the place of the exclusive entry that has waited longest.
pub open spec fn is_first_exclusive(queue: Seq<WaiterEntry>, i: int) -> bool {
    &&& 0 <= i < queue.len()
    &&& queue[i].exclusive
    &&& forall|j: int| 0 <= j < i ==> !(#[trigger] queue[j]).exclusive
}

/// The place of the exclusive entry that has waited longest, where there is one.
pub open spec fn first_exclusive(queue: Seq<WaiterEntry>) -> int {
    choose|i: int| is_first_exclusive(queue, i)
}

/// The entry that a single-waiter notification wakes: the exclusive entry that has
/// waited longest, or none where no entry is exclusive.
pub open spec fn woken_by_one(queue: Seq<WaiterEntry>) -> Option<WaiterEntry> {
    if has_exclusive(queue) {
        Some(queue[first_exclusive(queue)])
    } else {
        None
    }
}

/// The queue that a single-waiter notification leaves behind.
pub open spec fn after_wake_one(queue: Seq<WaiterEntry>) -> Seq<WaiterEntry> {
    if has_exclusive(queue) {
        queue.remove(first_exclusive(queue))
    } else {
        queue
    }
}

/// The wakeups of a broadcast: one for each entry, in arrival order.
pub open spec fn wakeups(queue: Seq<WaiterEntry>, reason: WakeReason) -> Seq<Wakeup> {
    Seq::new(queue.len(), |i: int| Wakeup { entry: queue[i], reason })
}

/// There is at most one first exclusive entry, and `first_exclusive` names it.
pub proof fn lemma_first_exclusive(queue: Seq<WaiterEntry>, i: int)
    requires
        is_first_exclusive(queue, i),
    ensures
        has_exclusive(queue),
        first_exclusive(queue) == i,
{
    let c = first_exclusive(queue);
    assert(is_first_exclusive(queue, c));
    if c < i {
        assert(!queue[c].exclusive);
    } else if i < c {
        assert(!queue[i].exclusive);
    }
}

/// Where some entry is exclusive, one of them has waited longest, and
/// `first_exclusive` names its place.
pub proof fn lemma_has_first_exclusive(queue: Seq<WaiterEntry>)
    requires
        has_exclusive(queue),
    ensures
        is_first_exclusive(queue, first_exclusive(queue)),
{
    let k = choose|k: int| 0 <= k < queue.len() && (#[trigger] queue[k]).exclusive;
    lemma_exclusive_before(queue, k);
}

/// An exclusive entry at place `k` has a first exclusive entry at or before it.
proof fn lemma_exclusive_before(queue: Seq<WaiterEntry>, k: int)
    requires
        0 <= k < queue.len(),
        queue[k].exclusive,
    ensures
        exists|i: int| is_first_exclusive(queue, i),
    decreases k,
{
    if forall|j: int| 0 <= j < k ==> !(#[trigger] queue[j]).exclusive {
        assert(is_first_exclusive(queue, k));
    } else {
        let j = choose|j: int| 0 <= j < k && (#[trigger] queue[j]).exclusive;
        lemma_exclusive_before(queue, j);
    }
}

/// In a queue without repetitions an entry is found at one place only.
pub proof fn lemma_index_of(queue: Seq<WaiterEntry>, entry: WaiterEntry, i: int)
    requires
        queue.no_duplicates(),
        0 <= i < queue.len(),
        queue[i] == entry,
    ensures
        queue.contains(entry),
        queue.index_of(entry) == i,
{
    let c = queue.index_of(entry);
    assert(0 <= c < queue.len() && queue[c] == entry);
}

/// Taking an entry out of a queue without repetitions leaves no repetition, takes
/// that entry out, and touches no other.
pub proof fn lemma_remove(queue: Seq<WaiterEntry>, i: int)
    requires
        queue.no_duplicates(),
        0 <= i < queue.len(),
    ensures
        queue.remove(i).no_duplicates(),
        !queue.remove(i).contains(queue[i]),
        forall|e: WaiterEntry| e != queue[i] ==> queue.remove(i).contains(e) == queue.contains(e),
{
    let rest = queue.remove(i);
    assert forall|a: int, b: int|
        0 <= a < rest.len() && 0 <= b < rest.len() && a != b implies rest[a] != rest[b] by {
        let a0 = if a < i { a } else { a + 1 };
        let b0 = if b < i { b } else { b + 1 };
        assert(rest[a] == queue[a0] && rest[b] == queue[b0]);
    }
    if rest.contains(queue[i]) {
        let a = choose|a: int| 0 <= a < rest.len() && rest[a] == queue[i];
        let a0 = if a < i { a } else { a + 1 };
        assert(rest[a] == queue[a0]);
    }
    assert forall|e: WaiterEntry| e != queue[i] implies rest.contains(e) == queue.contains(e) by {
        if queue.contains(e) {
            let a = choose|a: int| 0 <= a < queue.len() && queue[a] == e;
            let a1 = if a < i { a } else { a - 1 };
            assert(rest[a1] == e);
        }
        if rest.contains(e) {
            let a = choose|a: int| 0 <= a < rest.len() && rest[a] == e;
            let a0 = if a < i { a } else { a + 1 };
            assert(queue[a0] == e);
        }
    }
}

/// An arrival keeps a queue free of repetitions and adds the one entry to it.
pub proof fn lemma_enqueued(queue: Seq<WaiterEntry>, entry: WaiterEntry)
    requires
        queue.no_duplicates(),
    ensures
        enqueued(queue, entry).no_duplicates(),
        forall|e: WaiterEntry| #[trigger]
            enqueued(queue, entry).contains(e) <==> queue.contains(e) || e == entry,
{
    let after = enqueued(queue, entry);
    if !queue.contains(entry) {
        assert forall|i: int, j: int|
            0 <= i < after.len() && 0 <= j < after.len() && i != j implies after[i] != after[j] by {
            if i == queue.len() {
                assert(queue[j] != entry);
            }
            if j == queue.len() {
                assert(queue[i] != entry);
            }
        }
        assert(after[queue.len() as int] == entry);
        assert forall|e: WaiterEntry| #[trigger] after.contains(e) <==> queue.contains(e) || e
            == entry by {
            if queue.contains(e) {
                let at = choose|i: int| 0 <= i < queue.len() && queue[i] == e;
                assert(after[at] == e);
            }
            if after.contains(e) && e != entry {
                let at = choose|i: int| 0 <= i < after.len() && after[i] == e;
                assert(queue[at] == e);
            }
        }
    }
}

/// A departure keeps a queue free of repetitions and takes the one entry out of it.
pub proof fn lemma_without(queue: Seq<WaiterEntry>, entry: WaiterEntry)
    requires
        queue.no_duplicates(),
    ensures
        without(queue, entry).no_duplicates(),
        forall|e: WaiterEntry| #[trigger]
            without(queue, entry).contains(e) <==> queue.contains(e) && e != entry,
{
    if queue.contains(entry) {
        lemma_remove(queue, queue.index_of(entry));
    }
}

/// A single-waiter notification keeps a queue free of repetitions and takes out of
/// it the exclusive entry that has waited longest, and no other.
pub proof fn lemma_after_wake_one(queue: Seq<WaiterEntry>)
    requires
        queue.no_duplicates(),
    ensures
        after_wake_one(queue).no_duplicates(),
        forall|e: WaiterEntry| #[trigger]
            after_wake_one(queue).contains(e) <==> queue.contains(e) && woken_by_one(queue)
                != Some(e),
        has_exclusive(queue) ==> is_first_exclusive(queue, first_exclusive(queue)),
        woken_by_one(queue) matches Some(e) ==> queue.contains(e) && e.exclusive,
{
    if has_exclusive(queue) {
        lemma_has_first_exclusive(queue);
        lemma_remove(queue, first_exclusive(queue));
    }
}

/// The waiters of one condition variable, in arrival order. No entry is queued twice.
pub struct WaitQueue {
    entries: Vec<WaiterEntry>,
}

impl View for WaitQueue {
    type V = Seq<WaiterEntry>;

    closed spec fn view(&self) -> Seq<WaiterEntry> {
        self.entries@
    }
}

impl WaitQueue {
    /// What holds of every queue: no entry is in it twice.
    #[verifier::type_invariant]
    pub open spec fn well_formed(&self) -> bool {
        self@.no_duplicates()
    }

    /// An empty queue.
    pub fn new() -> (queue: WaitQueue)
        ensures
            queue@ == Seq::<WaiterEntry>::empty(),
    {
        WaitQueue { entries: Vec::new() }
    }

    /// The number of entries.
    pub fn len(&self) -> (n: usize)
        ensures
            n == self@.len(),
    {
        self.entries.len()
    }

    /// Whether nobody waits.
    pub fn is_empty(&self) -> (empty: bool)
        ensures
            empty == (self@.len() == 0),
    {
        self.entries.len() == 0
    }

    /// The entries, in arrival order.
    pub fn entries(&self) -> (entries: Vec<WaiterEntry>)
        ensures
            entries@ == self@,
    {
        let mut entries: Vec<WaiterEntry> = Vec::new();
        let mut i: usize = 0;
        while i < self.entries.len()
            invariant
                i <= self.entries.len(),
                entries@ == self.entries@.take(i as int),
            decreases self.entries.len() - i,
        {
            entries.push(self.entries[i]);
            i += 1;
        }
        entries
    }

    /// Where `entry` stands in the queue.
    fn position(&self, entry: WaiterEntry) -> (at: Option<usize>)
        ensures
            match at {
                Some(i) => i < self@.len() && self@[i as int] == entry,
                None => !self@.contains(entry),
            },
    {
        let mut i: usize = 0;
        while i < self.entries.len()
            invariant
                i <= self.entries.len(),
                forall|j: int| 0 <= j < i ==> self.entries@[j] != entry,
            decreases self.entries.len() - i,
        {
            if self.entries[i] == entry {
                return Some(i);
            }
            i += 1;
        }
        None
    }

    /// Whether `entry` is queued.
    pub fn contains(&self, entry: WaiterEntry) -> (found: bool)
        ensures
            found == self@.contains(entry),
    {
        self.position(entry).is_some()
    }

    /// Puts `entry` at the tail of the queue. An entry that is queued already keeps
    /// its place, and the queue does not change.
    pub fn enqueue(&mut self, entry: WaiterEntry)
        ensures
            final(self)@ == enqueued(old(self)@, entry),
            final(self)@.contains(entry),
    {
        proof {
            use_type_invariant(&*self);
        }
        if self.position(entry).is_none() {
            let mut entries: Vec<WaiterEntry> = Vec::new();
            std::mem::swap(&mut entries, &mut self.entries);
            entries.push(entry);
            assert(entries@[entries@.len() - 1] == entry);
            self.entries = entries;
        }
    }

    /// Takes `entry` out of the queue and says whether it was there. Taking out an
    /// entry that has left already changes nothing.
    pub fn remove(&mut self, entry: WaiterEntry) -> (removed: bool)
        ensures
            removed == old(self)@.contains(entry),
            final(self)@ == without(old(self)@, entry),
            !final(self)@.contains(entry),
    {
        proof {
            use_type_invariant(&*self);
        }
        match self.position(entry) {
            Some(i) => {
                proof {
                    lemma_index_of(self@, entry, i as int);
                    lemma_remove(self@, i as int);
                }
                let mut entries: Vec<WaiterEntry> = Vec::new();
                std::mem::swap(&mut entries, &mut self.entries);
                entries.remove(i);
                self.entries = entries;
                true
            },
            None => false,
        }
    }

    /// Where the exclusive entry that has waited longest stands.
    fn position_of_first_exclusive(&self) -> (at: Option<usize>)
        ensures
            match at {
                Some(i) => is_first_exclusive(self@, i as int),
                None => !has_exclusive(self@),
            },
    {
        let mut i: usize = 0;
        while i < self.entries.len()
            invariant
                i <= self.entries.len(),
                forall|j: int| 0 <= j < i ==> !(#[trigger] self.entries@[j]).exclusive,
            decreases self.entries.len() - i,
        {
            if self.entries[i].exclusive {
                return Some(i);
            }
            i += 1;
        }
        None
    }

    /// Wakes the exclusive entry that has waited longest: takes it out of the queue
    /// and hands back its wakeup. Where no entry is exclusive nothing changes.
    pub fn wake_one(&mut self, reason: WakeReason) -> (woken: Option<Wakeup>)
        ensures
            final(self)@ == after_wake_one(old(self)@),
            woken == match woken_by_one(old(self)@) {
                Some(entry) => Some(Wakeup { entry, reason }),
                None => None,
            },
    {
        proof {
            use_type_invariant(&*self);
        }
        match self.position_of_first_exclusive() {
            Some(i) => {
                proof {
                    lemma_first_exclusive(self@, i as int);
                    lemma_remove(self@, i as int);
                }
                let mut entries: Vec<WaiterEntry> = Vec::new();
                std::mem::swap(&mut entries, &mut self.entries);
                let entry = entries.remove(i);
                self.entries = entries;
                Some(Wakeup { entry, reason })
            },
            None => None,
        }
    }

    /// Wakes every entry, exclusive or not: empties the queue and hands back one
    /// wakeup for each entry, in arrival order.
    pub fn wake_all(&mut self, reason: WakeReason) -> (woken: Vec<Wakeup>)
        ensures
            final(self)@ == Seq::<WaiterEntry>::empty(),
            woken@ == wakeups(old(self)@, reason),
    {
        let mut entries: Vec<WaiterEntry> = Vec::new();
        std::mem::swap(&mut entries, &mut self.entries);
        let mut woken: Vec<Wakeup> = Vec::new();
        let mut i: usize = 0;
        while i < entries.len()
            invariant
                i <= entries.len(),
                woken@ == wakeups(entries@, reason).take(i as int),
            decreases entries.len() - i,
        {
            woken.push(Wakeup { entry: entries[i], reason });
            i += 1;
        }
        woken
    }
}

} // verus!
