//! The queue model of the message transport.
//!
//! The real transport owns a duplex stream and two background loops: a
//! reader that decodes one message at a time and appends it to an inbound
//! queue, and a writer that drains an outbound queue to the stream.  The
//! loops live outside this library; what the controllers interact with,
//! and what the ordering guarantees are stated over, are the queues
//! themselves: `Fifo` for the steady-state queues and `Buffer` for a
//! one-message hand-off slot.

use vstd::prelude::*;

verus! {

/// An unbounded first-in-first-out message queue with one producer side
/// and one consumer side.
pub struct Fifo<T> {
    items: Vec<T>,
}

impl<T> Fifo<T> {
    /// The queued messages, oldest first.
    pub closed spec fn view(self) -> Seq<T> {
        self.items@
    }

    /// An empty queue.
    pub fn new() -> (q: Fifo<T>)
        ensures
            q@ == Seq::<T>::empty(),
    {
        Fifo { items: Vec::new() }
    }

    /// How many messages are queued.
    pub fn len(&self) -> (n: usize)
        ensures
            n == self@.len(),
    {
        self.items.len()
    }

    /// Enqueues a message; never blocks, never reorders.
    pub fn push(&mut self, msg: T)
        ensures
            final(self)@ == old(self)@.push(msg),
    {
        self.items.push(msg);
    }

    /// Dequeues the oldest message, if any; never blocks.
    pub fn pop(&mut self) -> (r: Option<T>)
        ensures
            old(self)@.len() == 0 ==> r is None && final(self)@ == old(self)@,
            old(self)@.len() > 0 ==> r == Some(old(self)@[0]) && final(self)@ == old(self)@.drop_first(),
    {
        if self.items.len() == 0 {
            None
        } else {
            let msg = self.items.remove(0);
            assert(final(self)@ =~= old(self)@.drop_first());
            Some(msg)
        }
    }
}

/// The messages that `len` successive `pop` calls hand back from a queue
/// whose view is `v`: by `pop`'s contract, the head, then the head of the
/// rest, and so on.
pub open spec fn spec_pop_all<T>(v: Seq<T>) -> Seq<T>
    decreases v.len(),
{
    if v.len() == 0 {
        Seq::empty()
    } else {
        seq![v[0]] + spec_pop_all(v.drop_first())
    }
}

/// Messages sent through a transport queue are read back in send order:
/// enqueueing the messages of `msgs` onto an empty queue (which leaves the
/// queue's view equal to `msgs`, by `push`'s contract) and then dequeueing
/// until empty yields exactly `msgs`, same messages, same order.
pub proof fn lemma_fifo_order<T>(msgs: Seq<T>)
    ensures
        spec_pop_all(msgs) == msgs,
    decreases msgs.len(),
{
    if msgs.len() == 0 {
        assert(spec_pop_all(msgs) =~= msgs);
    } else {
        lemma_fifo_order::<T>(msgs.drop_first());
        assert(spec_pop_all(msgs) =~= msgs);
    }
}

/// A hand-off slot holding at most one message: writing replaces the
/// content, reading takes it out.
pub struct Buffer<T> {
    data: Option<T>,
}

impl<T> Buffer<T> {
    /// The message currently in the slot, if any.
    pub closed spec fn view(self) -> Option<T> {
        self.data
    }

    /// An empty slot.
    pub fn new() -> (b: Buffer<T>)
        ensures
            b@ is None,
    {
        Buffer { data: None }
    }

    /// Takes the message out of the slot, leaving it empty.
    pub fn get(&mut self) -> (r: Option<T>)
        ensures
            r == old(self)@,
            final(self)@ is None,
    {
        self.data.take()
    }

    /// Puts a message into the slot, replacing whatever was there.
    pub fn set(&mut self, msg: T)
        ensures
            final(self)@ == Some(msg),
    {
        self.data = Some(msg);
    }
}

} // verus!
