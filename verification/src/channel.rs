//! The node channel: three independent bounded first-in-first-out queues —
//! timeouts, outgoing network requests, local API calls — with a capacity
//! fixed at construction. Enqueueing is fire-and-forget: a full queue
//! refuses the item and the caller goes on. The asynchronous shell puts a
//! cross-thread sender/receiver pair around this model.

use vstd::prelude::*;

verus! {

use crate::consensus::{PeerAddr, TimeSpec};
use crate::events::{ExternalMessage, NetworkRequest, NodeTimeout};
use crate::messages::RawMessage;

/// A scheduled timeout: when to fire, and the payload to hand back.
pub struct TimeoutRequest(pub TimeSpec, pub NodeTimeout);

/// A bounded first-in-first-out queue; its capacity never changes.
pub struct BoundedQueue<T> {
    items: Vec<T>,
    capacity: usize,
}

impl<T> View for BoundedQueue<T> {
    type V = Seq<T>;

    closed spec fn view(&self) -> Seq<T> {
        self.items@
    }
}

impl<T> BoundedQueue<T> {
    /// The fixed capacity the queue was built with.
    pub closed spec fn cap(&self) -> usize {
        self.capacity
    }

    /// An empty queue of the given capacity.
    pub fn new(capacity: usize) -> (r: BoundedQueue<T>)
        ensures
            r@ == Seq::<T>::empty(),
            r.cap() == capacity,
    {
        BoundedQueue { items: Vec::new(), capacity }
    }

    pub fn len(&self) -> (r: usize)
        ensures
            r == self@.len(),
    {
        self.items.len()
    }

    pub fn is_empty(&self) -> (r: bool)
        ensures
            r == (self@.len() == 0),
    {
        self.items.len() == 0
    }

    /// Appends `x` at the back if there is room; a full queue refuses it and
    /// stays as it is.
    pub fn enqueue(&mut self, x: T) -> (r: bool)
        ensures
            final(self).cap() == old(self).cap(),
            r == (old(self)@.len() < old(self).cap()),
            r ==> final(self)@ == old(self)@.push(x),
            !r ==> final(self)@ == old(self)@,
    {
        if self.items.len() < self.capacity {
            self.items.push(x);
            true
        } else {
            false
        }
    }

    /// Takes the front item: the one enqueued earliest of those present.
    pub fn dequeue(&mut self) -> (r: Option<T>)
        ensures
            final(self).cap() == old(self).cap(),
            old(self)@.len() == 0 ==> r is None && final(self)@ == old(self)@,
            old(self)@.len() > 0 ==> (r matches Some(x) && x == old(self)@[0] && final(self)@
                == old(self)@.subrange(1, old(self)@.len() as int)),
    {
        if self.items.len() == 0 {
            None
        } else {
            let x = self.items.remove(0);
            Some(x)
        }
    }
}

/// The three queues of one node, constructed once with a shared capacity.
pub struct NodeChannel {
    pub timeout: BoundedQueue<TimeoutRequest>,
    pub network: BoundedQueue<NetworkRequest>,
    pub external: BoundedQueue<ExternalMessage>,
}

impl NodeChannel {
    /// Three empty queues, each bounded by `buffer`.
    pub fn new(buffer: usize) -> (r: NodeChannel)
        ensures
            r.timeout@ == Seq::<TimeoutRequest>::empty(),
            r.network@ == Seq::<NetworkRequest>::empty(),
            r.external@ == Seq::<ExternalMessage>::empty(),
            r.timeout.cap() == buffer,
            r.network.cap() == buffer,
            r.external.cap() == buffer,
    {
        NodeChannel {
            timeout: BoundedQueue::new(buffer),
            network: BoundedQueue::new(buffer),
            external: BoundedQueue::new(buffer),
        }
    }

    /// Enqueues a send-to-peer request, fire and forget: the result says
    /// whether there was room, and the caller is free to ignore it.
    pub fn send_to(&mut self, address: PeerAddr, message: RawMessage) -> (r: bool)
        ensures
            r == (old(self).network@.len() < old(self).network.cap()),
            r ==> final(self).network@ == old(self).network@.push(
                NetworkRequest::SendMessage(address, message),
            ),
            !r ==> final(self).network@ == old(self).network@,
            final(self).network.cap() == old(self).network.cap(),
            final(self).timeout == old(self).timeout,
            final(self).external == old(self).external,
    {
        self.network.enqueue(NetworkRequest::SendMessage(address, message))
    }

    /// Enqueues a timeout to fire at `time`, fire and forget as `send_to`.
    pub fn add_timeout(&mut self, timeout: NodeTimeout, time: TimeSpec) -> (r: bool)
        ensures
            r == (old(self).timeout@.len() < old(self).timeout.cap()),
            r ==> final(self).timeout@ == old(self).timeout@.push(TimeoutRequest(time, timeout)),
            !r ==> final(self).timeout@ == old(self).timeout@,
            final(self).timeout.cap() == old(self).timeout.cap(),
            final(self).network == old(self).network,
            final(self).external == old(self).external,
    {
        self.timeout.enqueue(TimeoutRequest(time, timeout))
    }
}

} // verus!
