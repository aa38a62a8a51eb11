//! A bounded first-in first-out mailbox of envelopes.
use crate::address::{Envelope, EnvelopeView};
use std::collections::VecDeque;
use vstd::prelude::*;

verus! {

/// The envelopes of `q` sent by `sender`, in their order in `q`.
pub open spec fn from_sender(q: Seq<EnvelopeView>, sender: Seq<u8>) -> Seq<EnvelopeView>
    decreases q.len(),
{
    if q.len() == 0 {
        Seq::empty()
    } else if q.last().sender == sender {
        from_sender(q.drop_last(), sender).push(q.last())
    } else {
        from_sender(q.drop_last(), sender)
    }
}

/// Enqueueing keeps each sender's order: the new envelope goes after every
/// earlier envelope of its own sender, and other senders' sequences are
/// untouched.
pub proof fn lemma_fifo_enqueue(q: Seq<EnvelopeView>, e: EnvelopeView, sender: Seq<u8>)
    ensures
        from_sender(q.push(e), sender) == (if e.sender == sender {
            from_sender(q, sender).push(e)
        } else {
            from_sender(q, sender)
        }),
{
    assert(q.push(e).drop_last() =~= q);
}

/// Dequeueing keeps each sender's order: the envelope taken is the first of
/// its sender's sequence, and every other envelope keeps its place.
pub proof fn lemma_fifo_dequeue(q: Seq<EnvelopeView>, sender: Seq<u8>)
    requires
        q.len() > 0,
    ensures
        from_sender(q, sender) == (if q[0].sender == sender {
            seq![q[0]] + from_sender(q.drop_first(), sender)
        } else {
            from_sender(q.drop_first(), sender)
        }),
    decreases q.len(),
{
    if q.len() == 1 {
        assert(q.drop_last() =~= Seq::<EnvelopeView>::empty());
        assert(q.drop_first() =~= Seq::<EnvelopeView>::empty());
        assert(from_sender(Seq::<EnvelopeView>::empty(), sender) =~= Seq::<EnvelopeView>::empty());
        if q[0].sender == sender {
            assert(from_sender(q, sender) =~= seq![q[0]]);
            assert(seq![q[0]] + Seq::<EnvelopeView>::empty() =~= seq![q[0]]);
        }
    } else {
        let init = q.drop_last();
        lemma_fifo_dequeue(init, sender);
        assert(init.drop_first() =~= q.drop_first().drop_last());
        assert(q.drop_first().last() == q.last());
        assert(init[0] == q[0]);
        if q.last().sender == sender {
            if q[0].sender == sender {
                assert(seq![q[0]] + from_sender(init.drop_first(), sender).push(q.last())
                    =~= (seq![q[0]] + from_sender(init.drop_first(), sender)).push(q.last()));
            }
        }
    }
}

/// Why an envelope was not accepted by a mailbox.
#[derive(Debug)]
pub enum EnqueueError {
    /// The mailbox holds `capacity` envelopes: the sender must wait until the
    /// consumer takes one, then offer the envelope again.
    Full(Envelope),
    /// The mailbox no longer accepts envelopes (its worker is stopping).
    Closed(Envelope),
}

/// A bounded queue of envelopes with a closed flag.
pub struct Mailbox {
    queue: VecDeque<Envelope>,
    capacity: usize,
    closed: bool,
}

impl Mailbox {
    /// The envelopes held, oldest first.
    pub closed spec fn contents(&self) -> Seq<EnvelopeView> {
        self.queue@.map_values(|e: Envelope| e@)
    }

    /// The bound the mailbox was made with.
    pub closed spec fn cap(&self) -> nat {
        self.capacity as nat
    }

    /// Whether the mailbox refuses new envelopes.
    pub closed spec fn is_closed(&self) -> bool {
        self.closed
    }

    /// Never more envelopes than the bound, and the bound is positive.
    pub open spec fn wf(&self) -> bool {
        &&& 0 < self.cap() <= usize::MAX
        &&& self.contents().len() <= self.cap()
    }

    /// An empty, open mailbox with room for `capacity` envelopes.
    pub fn new(capacity: usize) -> (r: Mailbox)
        requires
            capacity > 0,
        ensures
            r.wf(),
            r.contents() == Seq::<EnvelopeView>::empty(),
            r.cap() == capacity,
            !r.is_closed(),
    {
        let r = Mailbox { queue: VecDeque::new(), capacity, closed: false };
        assert(r.contents() =~= Seq::<EnvelopeView>::empty());
        r
    }

    /// The number of envelopes waiting.
    pub fn len(&self) -> (r: usize)
        ensures
            r == self.contents().len(),
    {
        self.queue.len()
    }

    /// Whether no envelope is waiting.
    pub fn is_empty(&self) -> (r: bool)
        ensures
            r == (self.contents().len() == 0),
    {
        self.queue.len() == 0
    }

    /// Whether the mailbox refuses new envelopes.
    pub fn closed(&self) -> (r: bool)
        ensures
            r == self.is_closed(),
    {
        self.closed
    }

    /// The bound on the number of waiting envelopes.
    pub fn capacity(&self) -> (r: usize)
        ensures
            r == self.cap(),
    {
        self.capacity
    }

    /// Appends `env` at the back. A closed mailbox refuses it; a full one
    /// hands it back so that the sender waits (backpressure) instead of the
    /// envelope being dropped.
    pub fn enqueue(&mut self, env: Envelope) -> (r: Result<(), EnqueueError>)
        requires
            old(self).wf(),
        ensures
            final(self).wf(),
            final(self).cap() == old(self).cap(),
            final(self).is_closed() == old(self).is_closed(),
            old(self).is_closed() ==> (r matches Err(EnqueueError::Closed(e)) && e@ == env@),
            !old(self).is_closed() && old(self).contents().len() == old(self).cap() ==> (
            r matches Err(EnqueueError::Full(e)) && e@ == env@),
            !old(self).is_closed() && old(self).contents().len() < old(self).cap() ==> r is Ok,
            r is Ok ==> final(self).contents() == old(self).contents().push(env@),
            r is Err ==> final(self).contents() == old(self).contents(),
    {
        if self.closed {
            return Err(EnqueueError::Closed(env));
        }
        if self.queue.len() >= self.capacity {
            return Err(EnqueueError::Full(env));
        }
        self.queue.push_back(env);
        assert(self.contents() =~= old(self).contents().push(env@));
        Ok(())
    }

    /// Takes the oldest envelope, if any.
    pub fn dequeue(&mut self) -> (r: Option<Envelope>)
        requires
            old(self).wf(),
        ensures
            final(self).wf(),
            final(self).cap() == old(self).cap(),
            final(self).is_closed() == old(self).is_closed(),
            old(self).contents().len() == 0 ==> r is None && final(self).contents() == old(
                self,
            ).contents(),
            old(self).contents().len() > 0 ==> (r matches Some(e) && e@ == old(self).contents()[0]
                && final(self).contents() == old(self).contents().drop_first()),
    {
        let r = self.queue.pop_front();
        if r.is_some() {
            assert(self.contents() =~= old(self).contents().drop_first());
        }
        r
    }

    /// Refuses every later envelope; those already waiting stay.
    pub fn close(&mut self)
        requires
            old(self).wf(),
        ensures
            final(self).wf(),
            final(self).cap() == old(self).cap(),
            final(self).is_closed(),
            final(self).contents() == old(self).contents(),
    {
        self.closed = true;
    }
}

} // verus!
