//! A FIFO conduit carrying messages from the submission side to the workers.
//!
//! This models the single ordered queue of the pool: messages leave in the
//! order they entered, and each receive removes exactly one message, so a
//! message is delivered to exactly one consumer, never broadcast or
//! duplicated.  Serialization of concurrent receivers is the host layer's
//! business; the model makes each receive a single step.

use vstd::prelude::*;
use crate::message::Message;

verus! {

/// The ordered conduit between the pool's submission side and its workers.
pub struct Channel {
    buf: Vec<Message>,
}

impl Channel {
    /// The queued messages, front (next to be received) first.
    pub closed spec fn view(&self) -> Seq<Message> {
        self.buf@
    }

    /// A new, empty conduit.
    pub fn new() -> (c: Channel)
        ensures
            c@ == Seq::<Message>::empty(),
    {
        Channel { buf: Vec::new() }
    }

    /// How many messages are queued.
    pub fn len(&self) -> (n: usize)
        ensures
            n == self@.len(),
    {
        self.buf.len()
    }

    /// Enqueue one message at the back: FIFO order is preserved, nothing
    /// already queued moves.
    pub fn send(&mut self, m: Message)
        ensures
            final(self)@ == old(self)@.push(m),
    {
        self.buf.push(m);
    }

    /// Dequeue the front message, or report an empty queue.  Exactly the
    /// front message leaves, so each message is delivered exactly once and
    /// in the order it was sent.
    pub fn recv(&mut self) -> (r: Option<Message>)
        ensures
            old(self)@.len() == 0 ==> r is None && final(self)@ == old(self)@,
            old(self)@.len() > 0 ==> r == Some(old(self)@[0]) && final(self)@ == old(self)@.drop_first(),
    {
        if self.buf.len() == 0 {
            None
        } else {
            let m = self.buf.remove(0);
            Some(m)
        }
    }
}

} // verus!
