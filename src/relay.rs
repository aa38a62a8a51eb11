//! One worker's mailbox and lifecycle.
use crate::address::{Address, Envelope, EnvelopeView};
use crate::mailbox::{EnqueueError, Mailbox};
use vstd::prelude::*;

verus! {

/// The lifecycle of a relay: `Starting -> Running -> Draining -> Stopped`.
#[derive(PartialEq, Eq, Structural, Clone, Copy, Debug)]
pub enum Lifecycle {
    /// Registered; the worker's task is not yet reported as spawned.
    Starting,
    /// The worker's task runs and its mailbox accepts envelopes.
    Running,
    /// Asked to stop: no new envelopes, those queued drain to the worker.
    Draining,
    /// The worker's task has exited; terminal.
    Stopped,
}

/// What a worker gets when it asks its relay for the next envelope.
#[derive(Debug)]
pub enum Delivery {
    /// The oldest queued envelope.
    Message(Envelope),
    /// Nothing is queued yet: the worker waits.
    Empty,
    /// The relay is stopping and its mailbox is drained: the worker returns.
    Finished,
}

/// A worker's supervisor: its address, mailbox and lifecycle state.
pub struct Relay {
    address: Address,
    mailbox: Mailbox,
    state: Lifecycle,
}

impl Relay {
    pub closed spec fn addr(&self) -> Seq<u8> {
        self.address@
    }

    pub closed spec fn queued(&self) -> Seq<EnvelopeView> {
        self.mailbox.contents()
    }

    pub closed spec fn cap(&self) -> nat {
        self.mailbox.cap()
    }

    pub closed spec fn phase(&self) -> Lifecycle {
        self.state
    }

    /// The mailbox is closed exactly from `Draining` on, and a stopped relay
    /// holds nothing.
    pub closed spec fn wf(&self) -> bool {
        &&& self.mailbox.wf()
        &&& self.mailbox.is_closed() == (self.state == Lifecycle::Draining || self.state
            == Lifecycle::Stopped)
        &&& self.state == Lifecycle::Stopped ==> self.mailbox.contents().len() == 0
    }

    /// Whether the relay still accepts envelopes.
    pub open spec fn accepting(&self) -> bool {
        self.phase() == Lifecycle::Starting || self.phase() == Lifecycle::Running
    }

    /// A relay for `address` in state `Starting` with an empty mailbox.
    pub fn new(address: Address, capacity: usize) -> (r: Relay)
        requires
            capacity > 0,
        ensures
            r.wf(),
            r.addr() == address@,
            r.queued() == Seq::<EnvelopeView>::empty(),
            r.cap() == capacity,
            r.phase() == Lifecycle::Starting,
    {
        Relay { address, mailbox: Mailbox::new(capacity), state: Lifecycle::Starting }
    }

    /// The relay's address.
    pub fn address(&self) -> (r: &Address)
        ensures
            r@ == self.addr(),
    {
        &self.address
    }

    /// The relay's lifecycle state.
    pub fn state(&self) -> (r: Lifecycle)
        ensures
            r == self.phase(),
    {
        self.state
    }

    /// The number of queued envelopes.
    pub fn queued_len(&self) -> (r: usize)
        requires
            self.wf(),
        ensures
            r == self.queued().len(),
    {
        self.mailbox.len()
    }

    /// `Starting -> Running`, once the worker's task is spawned. Returns
    /// whether the transition took place; in any other state nothing changes.
    pub fn start(&mut self) -> (r: bool)
        requires
            old(self).wf(),
        ensures
            final(self).wf(),
            r == (old(self).phase() == Lifecycle::Starting),
            final(self).phase() == (if r {
                Lifecycle::Running
            } else {
                old(self).phase()
            }),
            final(self).addr() == old(self).addr(),
            final(self).queued() == old(self).queued(),
            final(self).cap() == old(self).cap(),
    {
        if self.state == Lifecycle::Starting {
            self.state = Lifecycle::Running;
            true
        } else {
            false
        }
    }

    /// Asks the worker to stop: the mailbox closes for new envelopes and the
    /// relay enters `Draining` (a relay still `Starting` passes through
    /// `Running`). Asking again, or once stopped, changes nothing.
    pub fn signal_stop(&mut self)
        requires
            old(self).wf(),
        ensures
            final(self).wf(),
            final(self).phase() == (if old(self).phase() == Lifecycle::Stopped {
                Lifecycle::Stopped
            } else {
                Lifecycle::Draining
            }),
            final(self).addr() == old(self).addr(),
            final(self).queued() == old(self).queued(),
            final(self).cap() == old(self).cap(),
    {
        if self.state == Lifecycle::Starting {
            self.start();
        }
        if self.state == Lifecycle::Running {
            self.mailbox.close();
            self.state = Lifecycle::Draining;
        }
    }

    /// Offers `env` to the mailbox: accepted while the relay runs and has
    /// room, handed back when full (the sender waits), refused once stopping.
    pub fn enqueue(&mut self, env: Envelope) -> (r: Result<(), EnqueueError>)
        requires
            old(self).wf(),
        ensures
            final(self).wf(),
            final(self).phase() == old(self).phase(),
            final(self).addr() == old(self).addr(),
            final(self).cap() == old(self).cap(),
            !old(self).accepting() ==> (r matches Err(EnqueueError::Closed(e)) && e@ == env@),
            old(self).accepting() && old(self).queued().len() == old(self).cap() ==> (
            r matches Err(EnqueueError::Full(e)) && e@ == env@),
            old(self).accepting() && old(self).queued().len() < old(self).cap() ==> r is Ok,
            r is Ok ==> final(self).queued() == old(self).queued().push(env@),
            r is Err ==> final(self).queued() == old(self).queued(),
    {
        self.mailbox.enqueue(env)
    }

    /// The worker's next envelope, oldest first; `Empty` while it should
    /// wait, `Finished` once stopping with nothing left to drain.
    pub fn dequeue(&mut self) -> (r: Delivery)
        requires
            old(self).wf(),
        ensures
            final(self).wf(),
            final(self).phase() == old(self).phase(),
            final(self).addr() == old(self).addr(),
            final(self).cap() == old(self).cap(),
            old(self).queued().len() > 0 ==> (r matches Delivery::Message(e) && e@ == old(
                self,
            ).queued()[0] && final(self).queued() == old(self).queued().drop_first()),
            old(self).queued().len() == 0 ==> final(self).queued() == old(self).queued(),
            old(self).queued().len() == 0 && old(self).accepting() ==> r is Empty,
            old(self).queued().len() == 0 && !old(self).accepting() ==> r is Finished,
    {
        match self.mailbox.dequeue() {
            Some(e) => Delivery::Message(e),
            None => {
                if self.state == Lifecycle::Starting || self.state == Lifecycle::Running {
                    Delivery::Empty
                } else {
                    Delivery::Finished
                }
            },
        }
    }

    /// The worker's task has exited (normally or not). The relay passes
    /// through `Draining` to `Stopped`; envelopes that nobody can consume any
    /// more are discarded and their number returned.
    pub fn worker_exited(&mut self) -> (r: usize)
        requires
            old(self).wf(),
        ensures
            final(self).wf(),
            final(self).phase() == Lifecycle::Stopped,
            final(self).queued() == Seq::<EnvelopeView>::empty(),
            r == old(self).queued().len(),
            final(self).addr() == old(self).addr(),
            final(self).cap() == old(self).cap(),
    {
        self.signal_stop();
        let mut discarded: usize = 0;
        while !self.mailbox.is_empty()
            invariant
                self.mailbox.wf(),
                self.mailbox.is_closed(),
                self.state == Lifecycle::Draining || self.state == Lifecycle::Stopped,
                self.state == Lifecycle::Stopped ==> self.mailbox.contents().len() == 0,
                discarded + self.mailbox.contents().len() == old(self).queued().len(),
                old(self).queued().len() <= usize::MAX,
                self.address@ == old(self).addr(),
                self.mailbox.cap() == old(self).cap(),
            decreases self.mailbox.contents().len(),
        {
            let _ = self.mailbox.dequeue();
            discarded = discarded + 1;
        }
        self.state = Lifecycle::Stopped;
        proof {
            assert(self.mailbox.contents() =~= Seq::<EnvelopeView>::empty());
        }
        discarded
    }
}

} // verus!
