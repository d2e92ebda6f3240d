//! A bounded, closable message channel, the inbound queue of the host.
//!
//! The channel models the runtime's sole buffered connection: senders push
//! messages at the back, the host pops from the front. Either side can go
//! away: when every sender is gone the host drains what is left and stops;
//! when the receiving host is gone, sending fails with a typed error.

use vstd::prelude::*;

verus! {

/// A bounded first-in-first-out queue with liveness flags for both ends.
pub struct Channel<T> {
    /// Queued messages, front first.
    pub buffer: Vec<T>,
    /// How many messages the buffer may hold at once.
    pub capacity: usize,
    /// True once every producer handle is gone: nothing more will arrive.
    pub senders_gone: bool,
    /// True once the consumer is gone: sends can never be delivered.
    pub receiver_gone: bool,
}

/// Why a send was refused.
#[derive(Clone, Copy, PartialEq, Eq, Structural, Debug)]
pub enum SendError {
    /// The buffer holds `capacity` messages; the sender must wait for room.
    Full,
    /// The receiving end is gone; no send can ever succeed again.
    Closed,
}

impl<T> Channel<T> {
    /// The queued messages, front first.
    pub open spec fn contents(self) -> Seq<T> {
        self.buffer@
    }

    /// Whether one more message fits in the buffer.
    pub open spec fn has_room(self) -> bool {
        self.buffer@.len() < self.capacity
    }

    /// Creates an empty open channel with the given capacity.
    pub fn new(capacity: usize) -> (r: Self)
        ensures
            r.contents() == Seq::<T>::empty(),
            r.capacity == capacity,
            !r.senders_gone,
            !r.receiver_gone,
    {
        Channel { buffer: Vec::new(), capacity, senders_gone: false, receiver_gone: false }
    }

    /// Tries to enqueue one message.
    ///
    /// Sending on a channel whose receiver is gone fails with `Closed`; a
    /// full buffer fails with `Full` and is the caller's back-pressure
    /// point: it must wait for the host to drain before retrying.
    pub fn try_send(&mut self, message: T) -> (r: Result<(), SendError>)
        ensures
            old(self).receiver_gone ==> r == Result::<(), SendError>::Err(SendError::Closed)
                && *final(self) == *old(self),
            !old(self).receiver_gone && !old(self).has_room() ==> r == Result::<(), SendError>::Err(
                SendError::Full,
            ) && *final(self) == *old(self),
            !old(self).receiver_gone && old(self).has_room() ==> r == Result::<(), SendError>::Ok(())
                && final(self).contents() == old(self).contents().push(message)
                && final(self).capacity == old(self).capacity
                && final(self).senders_gone == old(self).senders_gone
                && final(self).receiver_gone == old(self).receiver_gone,
    {
        if self.receiver_gone {
            Err(SendError::Closed)
        } else if self.buffer.len() >= self.capacity {
            Err(SendError::Full)
        } else {
            self.buffer.push(message);
            Ok(())
        }
    }

    /// Dequeues the oldest message, if any.
    pub fn try_recv(&mut self) -> (r: Option<T>)
        ensures
            old(self).contents().len() == 0 ==> r is None && *final(self) == *old(self),
            old(self).contents().len() > 0 ==> r == Option::Some(old(self).contents()[0])
                && final(self).contents() == old(self).contents().drop_first()
                && final(self).capacity == old(self).capacity
                && final(self).senders_gone == old(self).senders_gone
                && final(self).receiver_gone == old(self).receiver_gone,
    {
        if self.buffer.len() == 0 {
            None
        } else {
            let m = self.buffer.remove(0);
            assert(self.buffer@ =~= old(self).buffer@.drop_first());
            Some(m)
        }
    }

    /// Records that every producer handle is gone.
    pub fn close_senders(&mut self)
        ensures
            final(self).contents() == old(self).contents(),
            final(self).capacity == old(self).capacity,
            final(self).senders_gone,
            final(self).receiver_gone == old(self).receiver_gone,
    {
        self.senders_gone = true;
    }

    /// Records that the consumer is gone.
    pub fn close_receiver(&mut self)
        ensures
            final(self).contents() == old(self).contents(),
            final(self).capacity == old(self).capacity,
            final(self).senders_gone == old(self).senders_gone,
            final(self).receiver_gone,
    {
        self.receiver_gone = true;
    }

    /// How many messages are queued.
    pub fn len(&self) -> (r: usize)
        ensures
            r == self.contents().len(),
    {
        self.buffer.len()
    }
}

} // verus!
