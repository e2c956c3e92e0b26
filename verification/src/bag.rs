//! The bag of pending messages: one first-in, first-out queue per channel.

use vstd::prelude::*;
use std::collections::HashMap;
use std::collections::VecDeque;
use crate::ids::ChannelId;
use crate::model::{enqueued, nothing_pending};

verus! {

/// The messages that wait for a firing, one queue per channel. A message joins
/// the tail of its channel's queue and leaves from the head, so each queue
/// holds its messages in arrival order.
///
/// Its view maps every channel to its queue, oldest message first; a channel
/// on which nothing waits has the empty queue.
pub struct MessageBag<M> {
    queues: HashMap<u64, VecDeque<M>>,
}

impl<M> MessageBag<M> {
    /// The messages pending on channel `c`, oldest first.
    pub closed spec fn pending(&self, c: ChannelId) -> Seq<M> {
        if self.queues@.contains_key(c.0) {
            self.queues@[c.0]@
        } else {
            Seq::empty()
        }
    }
}

impl<M> View for MessageBag<M> {
    type V = Map<ChannelId, Seq<M>>;

    open spec fn view(&self) -> Map<ChannelId, Seq<M>> {
        Map::total(|c: ChannelId| self.pending(c))
    }
}

impl<M> MessageBag<M> {
    /// A bag in which nothing is pending.
    pub fn new() -> (bag: MessageBag<M>)
        ensures
            bag@ == nothing_pending::<M>(),
    {
        MessageBag { queues: HashMap::new() }
    }

    /// Whether a message is pending on channel `c`.
    pub fn has_pending(&self, c: ChannelId) -> (some: bool)
        ensures
            some == (self@[c].len() > 0),
    {
        match self.queues.get(&c.0) {
            Some(queue) => queue.len() > 0,
            None => false,
        }
    }

    /// How many messages are pending on channel `c`.
    pub fn count(&self, c: ChannelId) -> (n: usize)
        ensures
            n == self@[c].len(),
    {
        match self.queues.get(&c.0) {
            Some(queue) => queue.len(),
            None => 0,
        }
    }

    /// Appends `msg` to the tail of the queue of channel `c`. No other queue
    /// changes.
    pub fn enqueue(&mut self, c: ChannelId, msg: M)
        ensures
            final(self)@ == enqueued(old(self)@, c, msg),
    {
        let mut queue = match self.queues.remove(&c.0) {
            Some(queue) => queue,
            None => VecDeque::new(),
        };
        queue.push_back(msg);
        self.queues.insert(c.0, queue);
    }

    /// Removes the oldest message of channel `c` and returns it, or returns
    /// nothing and changes nothing when no message is pending there. No other
    /// queue changes.
    pub fn dequeue(&mut self, c: ChannelId) -> (front: Option<M>)
        ensures
            match front {
                Some(msg) => {
                    &&& old(self)@[c].len() > 0
                    &&& msg == old(self)@[c].first()
                    &&& final(self)@ == old(self)@.insert(c, old(self)@[c].drop_first())
                },
                None => old(self)@[c].len() == 0 && final(self)@ == old(self)@,
            },
    {
        match self.queues.remove(&c.0) {
            None => None,
            Some(mut queue) => {
                let front = queue.pop_front();
                self.queues.insert(c.0, queue);
                front
            },
        }
    }
}

} // verus!
