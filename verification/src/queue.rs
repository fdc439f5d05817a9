//! The outbound queue.
//!
//! A bounded, ordered channel carrying application messages or the
//! termination sentinel from producers to the single task allowed to
//! write to a given transport handle. Insertion order is preserved, and
//! a full queue rejects the producer instead of growing: backpressure.

use vstd::prelude::*;

verus! {

/// One queue entry: an opaque application payload, or the sentinel that
/// tells the session to terminate. The sentinel is a tagged variant of
/// its own, so the payload type never doubles as an absence marker.
#[derive(Clone, Debug, PartialEq, Eq)]
pub enum QueueEntry {
    Message(String),
    Terminate,
}

/// A bounded FIFO of queue entries.
pub struct OutboundQueue {
    entries: Vec<QueueEntry>,
    capacity: usize,
}

impl OutboundQueue {
    /// The entries currently queued, front first.
    pub closed spec fn entries(&self) -> Seq<QueueEntry> {
        self.entries@
    }

    /// The bound the queue was created with.
    pub closed spec fn spec_capacity(&self) -> usize {
        self.capacity
    }

    /// The queue never holds more entries than its bound.
    pub open spec fn wf(&self) -> bool {
        self.entries().len() <= self.spec_capacity()
    }

    /// An empty queue with the given bound.
    pub fn new(capacity: usize) -> (q: OutboundQueue)
        ensures
            q.entries() == Seq::<QueueEntry>::empty(),
            q.spec_capacity() == capacity,
            q.wf(),
    {
        OutboundQueue { entries: Vec::new(), capacity }
    }

    /// How many entries are queued.
    pub fn len(&self) -> (n: usize)
        ensures
            n == self.entries().len(),
    {
        self.entries.len()
    }

    /// The bound the queue was created with.
    pub fn capacity(&self) -> (n: usize)
        ensures
            n == self.spec_capacity(),
    {
        self.capacity
    }

    /// Append an entry at the back. Succeeds exactly when the queue is
    /// not full; a full queue is left unchanged and the producer is told
    /// so, rather than the queue growing past its bound.
    pub fn enqueue(&mut self, entry: QueueEntry) -> (ok: bool)
        requires
            old(self).wf(),
        ensures
            final(self).wf(),
            final(self).spec_capacity() == old(self).spec_capacity(),
            ok == (old(self).entries().len() < old(self).spec_capacity()),
            ok ==> final(self).entries() == old(self).entries().push(entry),
            !ok ==> final(self).entries() == old(self).entries(),
    {
        if self.entries.len() < self.capacity {
            self.entries.push(entry);
            true
        } else {
            false
        }
    }

    /// Remove and return the front entry, or `None` on an empty queue.
    pub fn dequeue(&mut self) -> (r: Option<QueueEntry>)
        requires
            old(self).wf(),
        ensures
            final(self).wf(),
            final(self).spec_capacity() == old(self).spec_capacity(),
            old(self).entries().len() == 0 ==> r is None && final(self).entries() == old(self).entries(),
            old(self).entries().len() > 0 ==> r == Some(old(self).entries()[0])
                && final(self).entries() == old(self).entries().skip(1),
    {
        if self.entries.len() == 0 {
            None
        } else {
            let entry = self.entries.remove(0);
            proof {
                assert(self.entries@ =~= old(self).entries@.skip(1));
            }
            Some(entry)
        }
    }
}

} // verus!
