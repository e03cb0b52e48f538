//! Bookkeeping discipline of the ordered queue.
//!
//! The dispatcher and the output sequencer are connected by a bounded FIFO
//! queue of job handles whose capacity is the configured parallelism `P`.
//! A handle is pushed immediately after its job's subprocess is started, so
//! queue slots double as concurrency permits: the number of jobs that have
//! started but whose handle the sequencer has not yet consumed can never
//! exceed `P`.
//!
//! [`OrderedQueue`] is the verified bookkeeping state of that queue. Jobs are
//! numbered in dispatch order, and the queue's contents are always the
//! consecutive job numbers `popped..pushed`, oldest first: whoever consumes
//! the queue sees the jobs exactly in the order they were dispatched.

use vstd::prelude::*;

verus! {

/// Bookkeeping state of the bounded FIFO queue of job handles.
///
/// `pushed` counts the handles enqueued so far and `popped` the handles the
/// sequencer has consumed, so the handles still queued are exactly the jobs
/// numbered `popped..pushed`.
pub struct OrderedQueue {
    capacity: usize,
    pushed: usize,
    popped: usize,
}

impl OrderedQueue {
    /// How many handles the queue can hold: the parallelism bound `P`.
    pub closed spec fn spec_capacity(self) -> int {
        self.capacity as int
    }

    /// How many handles have been pushed since the queue was created.
    pub closed spec fn spec_pushed(self) -> int {
        self.pushed as int
    }

    /// How many handles have been popped since the queue was created.
    pub closed spec fn spec_popped(self) -> int {
        self.popped as int
    }

    /// Well-formedness: a handle is popped only after it was pushed, and no
    /// more handles are queued than the queue has slots. [`Self::new`]
    /// establishes it and every method preserves it.
    pub closed spec fn wf(self) -> bool {
        1 <= self.capacity && self.popped <= self.pushed <= self.popped + self.capacity
    }

    /// Jobs whose handle has been pushed but not yet popped: the subprocess
    /// executions currently permitted to be in flight.
    pub open spec fn in_flight(self) -> int {
        self.spec_pushed() - self.spec_popped()
    }

    /// The numbers of the queued jobs, oldest first.
    pub open spec fn pending(self) -> Seq<int> {
        Seq::new((self.spec_pushed() - self.spec_popped()) as nat, |i: int| self.spec_popped() + i)
    }

    /// Creates the queue for a run with parallelism `capacity`.
    pub fn new(capacity: usize) -> (q: Self)
        requires
            1 <= capacity,
        ensures
            q.wf(),
            q.spec_capacity() == capacity,
            q.spec_pushed() == 0,
            q.spec_popped() == 0,
    {
        OrderedQueue { capacity, pushed: 0, popped: 0 }
    }

    /// The parallelism bound the queue was created with.
    pub fn capacity(&self) -> (c: usize)
        ensures
            c == self.spec_capacity(),
    {
        self.capacity
    }

    /// How many jobs are in flight right now.
    pub fn in_flight_count(&self) -> (n: usize)
        requires
            self.wf(),
        ensures
            n == self.in_flight(),
    {
        self.pushed - self.popped
    }

    /// Dispatcher side: records that the handle of the next job has been
    /// enqueued and returns that job's number.
    ///
    /// The queue must not be full; the real dispatcher blocks on a full
    /// queue until the sequencer has popped a handle.
    pub fn push(&mut self) -> (ticket: usize)
        requires
            old(self).wf(),
            old(self).in_flight() < old(self).spec_capacity(),
            old(self).spec_pushed() < usize::MAX,
        ensures
            final(self).wf(),
            ticket == old(self).spec_pushed(),
            final(self).spec_pushed() == old(self).spec_pushed() + 1,
            final(self).spec_popped() == old(self).spec_popped(),
            final(self).spec_capacity() == old(self).spec_capacity(),
            final(self).pending() == old(self).pending().push(ticket as int),
    {
        let ticket = self.pushed;
        self.pushed = self.pushed + 1;
        proof {
            assert(self.pending() =~= old(self).pending().push(ticket as int));
        }
        ticket
    }

    /// Sequencer side: records that the oldest queued handle has been
    /// consumed and returns its job number.
    ///
    /// The queue must not be empty; the real sequencer blocks on an empty
    /// queue until the dispatcher has pushed a handle.
    pub fn pop(&mut self) -> (ticket: usize)
        requires
            old(self).wf(),
            old(self).in_flight() > 0,
        ensures
            final(self).wf(),
            ticket == old(self).spec_popped(),
            ticket as int == old(self).pending().first(),
            final(self).spec_pushed() == old(self).spec_pushed(),
            final(self).spec_popped() == old(self).spec_popped() + 1,
            final(self).spec_capacity() == old(self).spec_capacity(),
            final(self).pending() == old(self).pending().drop_first(),
    {
        let ticket = self.popped;
        self.popped = self.popped + 1;
        proof {
            assert(self.pending() =~= old(self).pending().drop_first());
        }
        ticket
    }
}

/// Backpressure bound: at any instant, the number of jobs that have started
/// but whose handle the sequencer has not yet consumed never exceeds the
/// parallelism bound the queue was created with.
pub proof fn lemma_backpressure_bound(q: OrderedQueue)
    requires
        q.wf(),
    ensures
        0 <= q.in_flight() <= q.spec_capacity(),
{
}

/// With parallelism 1, jobs run strictly sequentially: at most one job is
/// ever in flight, and a new job can be dispatched only once every earlier
/// job's handle has been consumed.
pub proof fn lemma_serial_when_capacity_one(q: OrderedQueue)
    requires
        q.wf(),
        q.spec_capacity() == 1,
    ensures
        q.in_flight() <= 1,
        q.in_flight() < q.spec_capacity() ==> q.spec_pushed() == q.spec_popped(),
{
}

/// FIFO shape of the queue: the pending job numbers are consecutive and in
/// dispatch order, starting at the oldest unconsumed job.
pub proof fn lemma_pending_in_dispatch_order(q: OrderedQueue)
    requires
        q.wf(),
    ensures
        q.pending().len() == q.in_flight(),
        forall|i: int| 0 <= i < q.pending().len() ==> q.pending()[i] == q.spec_popped() + i,
{
}

} // verus!
