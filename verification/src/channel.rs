//! The event channel: a bounded FIFO queue carrying arrival events from one
//! source adapter into the tracker's ingestion path.
//!
//! Overflow policy is backpressure: a send against a full queue hands the
//! event back to the producer, which must suspend and retry — nothing is ever
//! dropped. The queue keeps ghost histories of everything accepted and
//! everything delivered, and its invariant states that the two differ only by
//! what is still pending, in order: no event is silently lost and delivery
//! order is arrival order.

use vstd::prelude::*;
use crate::key::EventKey;

verus! {

/// One normalized arrival event: a key and the monotonic clock reading, in
/// milliseconds, at which the source received it.
#[derive(Clone, Copy, Debug, PartialEq, Eq, Structural)]
pub struct ArrivalEvent {
    pub key: EventKey,
    pub instant_ms: u64,
}

/// Queue capacity used by the probe: around a thousand events per source,
/// enough to absorb bursts while ingestion keeps up.
pub const DEFAULT_CHANNEL_CAPACITY: usize = 1000;

/// A bounded FIFO event queue with backpressure.
pub struct EventChannel {
    queue: Vec<ArrivalEvent>,
    capacity: usize,
    accepted: Ghost<Seq<ArrivalEvent>>,
    delivered: Ghost<Seq<ArrivalEvent>>,
}

impl EventChannel {
    /// Everything the channel has ever accepted from the producer, in order.
    pub closed spec fn accepted(&self) -> Seq<ArrivalEvent> {
        self.accepted@
    }

    /// Everything the consumer has received, in order.
    pub closed spec fn delivered(&self) -> Seq<ArrivalEvent> {
        self.delivered@
    }

    /// What is still queued, in arrival order.
    pub closed spec fn pending(&self) -> Seq<ArrivalEvent> {
        self.queue@
    }

    /// The queue's bound.
    pub closed spec fn capacity(&self) -> usize {
        self.capacity
    }

    /// The channel invariant: the queue never exceeds its bound, and every
    /// event ever accepted was either already delivered, in order, or is
    /// still pending — no loss, no reordering, no duplication.
    pub closed spec fn wf(&self) -> bool {
        &&& self.capacity >= 1
        &&& self.queue@.len() <= self.capacity
        &&& self.accepted@ == self.delivered@ + self.queue@
    }

    /// An empty channel with the given bound.
    pub fn new(capacity: usize) -> (c: EventChannel)
        requires
            capacity >= 1,
        ensures
            c.wf(),
            c.capacity() == capacity,
            c.accepted() == Seq::<ArrivalEvent>::empty(),
            c.delivered() == Seq::<ArrivalEvent>::empty(),
            c.pending() == Seq::<ArrivalEvent>::empty(),
    {
        let c = EventChannel {
            queue: Vec::new(),
            capacity,
            accepted: Ghost(Seq::empty()),
            delivered: Ghost(Seq::empty()),
        };
        proof {
            assert(c.accepted@ =~= c.delivered@ + c.queue@);
        }
        c
    }

    /// How many events are queued.
    pub fn occupancy(&self) -> (n: usize)
        ensures
            n == self.pending().len(),
    {
        self.queue.len()
    }

    /// Offer one event. A channel with room accepts it at the back of the
    /// queue; a full channel hands it back unchanged, and the producer must
    /// suspend and offer it again — the event is never dropped.
    pub fn try_send(&mut self, e: ArrivalEvent) -> (r: Result<(), ArrivalEvent>)
        requires
            old(self).wf(),
        ensures
            final(self).wf(),
            final(self).capacity() == old(self).capacity(),
            final(self).delivered() == old(self).delivered(),
            old(self).pending().len() < old(self).capacity() ==> {
                &&& r is Ok
                &&& final(self).pending() == old(self).pending().push(e)
                &&& final(self).accepted() == old(self).accepted().push(e)
            },
            old(self).pending().len() >= old(self).capacity() ==> {
                &&& r == Err::<(), ArrivalEvent>(e)
                &&& final(self).pending() == old(self).pending()
                &&& final(self).accepted() == old(self).accepted()
            },
    {
        if self.queue.len() < self.capacity {
            self.queue.push(e);
            proof {
                self.accepted@ = self.accepted@.push(e);
                assert(self.accepted@ =~= self.delivered@ + self.queue@);
            }
            Ok(())
        } else {
            Err(e)
        }
    }

    /// Take the oldest queued event, if any. An empty channel reports
    /// `None` and the consumer suspends until something arrives or the
    /// channel's producer side is gone.
    pub fn try_recv(&mut self) -> (r: Option<ArrivalEvent>)
        requires
            old(self).wf(),
        ensures
            final(self).wf(),
            final(self).capacity() == old(self).capacity(),
            final(self).accepted() == old(self).accepted(),
            old(self).pending().len() == 0 ==> {
                &&& r is None
                &&& final(self).pending() == old(self).pending()
                &&& final(self).delivered() == old(self).delivered()
            },
            old(self).pending().len() > 0 ==> {
                &&& r == Some(old(self).pending()[0])
                &&& final(self).pending() == old(self).pending().drop_first()
                &&& final(self).delivered() == old(self).delivered().push(old(self).pending()[0])
            },
    {
        if self.queue.len() == 0 {
            None
        } else {
            let e = self.queue.remove(0);
            proof {
                self.delivered@ = self.delivered@.push(e);
                assert(self.queue@ =~= old(self).queue@.drop_first());
                assert(self.accepted@ =~= self.delivered@ + self.queue@);
            }
            Some(e)
        }
    }
}

/// Channel conservation: at every moment, what a well-formed channel has
/// accepted is exactly what it has delivered followed by what is still
/// pending. In particular delivery order is arrival order, and no accepted
/// event is ever lost while the channel lives.
pub proof fn lemma_channel_conservation(c: EventChannel)
    requires
        c.wf(),
    ensures
        c.accepted() == c.delivered() + c.pending(),
        c.delivered() == c.accepted().take(c.delivered().len() as int),
        c.pending() == c.accepted().skip(c.delivered().len() as int),
{
    assert(c.delivered() =~= c.accepted().take(c.delivered().len() as int));
    assert(c.pending() =~= c.accepted().skip(c.delivered().len() as int));
}

} // verus!
