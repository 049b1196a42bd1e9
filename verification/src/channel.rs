//! Model of the bounded in-process channel between producer and
//! consumer.
//!
//! The channel is the sole shared resource of a pipeline: a
//! fixed-capacity FIFO with blocking backpressure.  A send on a full
//! channel does not drop the event — it reports that the producer must
//! block and leaves the queue unchanged, which is exactly how the
//! surrounding process's channel of `CHANNEL_CAPACITY` behaves when a
//! producer awaits a send.

use crate::cdc::events::ChangeEvent;
use vstd::prelude::*;

verus! {

/// What a non-blocking send attempt did.
#[derive(Clone, Copy, Debug, PartialEq, Eq, Structural)]
pub enum SendOutcome {
    /// The event was enqueued at the back.
    Accepted,
    /// The queue is at capacity: the producer must block; nothing was
    /// enqueued and nothing was dropped.
    WouldBlock,
}

/// Fixed-capacity FIFO queue of change events.
pub struct EventQueue {
    pub items: Vec<ChangeEvent>,
    pub capacity: usize,
}

impl EventQueue {
    /// The queue never holds more than its capacity.
    pub open spec fn wf(&self) -> bool {
        self.items@.len() <= self.capacity
    }

    pub fn new(capacity: usize) -> (q: EventQueue)
        ensures
            q.wf(),
            q.items@.len() == 0,
            q.capacity == capacity,
    {
        EventQueue { items: Vec::new(), capacity }
    }

    pub fn len(&self) -> (r: usize)
        ensures
            r == self.items@.len(),
    {
        self.items.len()
    }

    /// One send attempt: enqueues at the back when there is room, and
    /// otherwise reports that the producer must block, changing nothing.
    pub fn send(&mut self, e: ChangeEvent) -> (o: SendOutcome)
        requires
            old(self).wf(),
        ensures
            final(self).wf(),
            final(self).capacity == old(self).capacity,
            old(self).items@.len() < old(self).capacity ==> o == SendOutcome::Accepted
                && final(self).items@ == old(self).items@.push(e),
            old(self).items@.len() >= old(self).capacity ==> o == SendOutcome::WouldBlock
                && final(self).items@ == old(self).items@,
    {
        if self.items.len() < self.capacity {
            self.items.push(e);
            SendOutcome::Accepted
        } else {
            SendOutcome::WouldBlock
        }
    }

    /// One receive attempt: dequeues the oldest event, in enqueue order.
    pub fn recv(&mut self) -> (r: Option<ChangeEvent>)
        requires
            old(self).wf(),
        ensures
            final(self).wf(),
            final(self).capacity == old(self).capacity,
            old(self).items@.len() == 0 ==> r is None && final(self).items@ == old(self).items@,
            old(self).items@.len() > 0 ==> (r matches Some(e) && e == old(self).items@[0]
                && final(self).items@ == old(self).items@.skip(1)),
    {
        if self.items.len() == 0 {
            None
        } else {
            let e = self.items.remove(0);
            assert(final(self).items@ =~= old(self).items@.skip(1));
            Some(e)
        }
    }
}

/// The queue contents after a paused consumer's producer has attempted
/// to send each of `evs` in turn, oldest first.
pub open spec fn offered(q: Seq<ChangeEvent>, cap: nat, evs: Seq<ChangeEvent>) -> Seq<ChangeEvent>
    decreases evs.len(),
{
    if evs.len() == 0 {
        q
    } else if q.len() < cap {
        offered(q.push(evs[0]), cap, evs.skip(1))
    } else {
        offered(q, cap, evs.skip(1))
    }
}

/// Backpressure loses nothing up to capacity: while the consumer is
/// paused, a producer that attempts to send any sequence of events ends
/// with the queue holding its old contents followed by exactly the first
/// events that fit, in their original order.  Events beyond capacity are
/// never dropped from the front and never reordered; their sends merely
/// block.
pub proof fn lemma_backpressure_no_loss(q: Seq<ChangeEvent>, cap: nat, evs: Seq<ChangeEvent>)
    requires
        q.len() <= cap,
    ensures
        offered(q, cap, evs) == q + evs.take(vstd::math::min(cap - q.len(), evs.len() as int)),
    decreases evs.len(),
{
    let fit = vstd::math::min(cap - q.len(), evs.len() as int);
    if evs.len() == 0 {
        assert(offered(q, cap, evs) =~= q + evs.take(fit));
    } else if q.len() < cap {
        lemma_backpressure_no_loss(q.push(evs[0]), cap, evs.skip(1));
        let fit2 = vstd::math::min(cap - q.len() - 1, evs.len() - 1);
        assert(offered(q, cap, evs) == q.push(evs[0]) + evs.skip(1).take(fit2));
        assert(q.push(evs[0]) + evs.skip(1).take(fit2) =~= q + evs.take(fit));
    } else {
        lemma_backpressure_no_loss(q, cap, evs.skip(1));
        assert(offered(q, cap, evs) == q + evs.skip(1).take(0));
        assert(q + evs.skip(1).take(0) =~= q + evs.take(fit));
    }
}

} // verus!
