//! The registry of live relays: the single authority on where a message goes.
use crate::address::{Address, Envelope, EnvelopeView};
use crate::error::{node_without_cause, ErrorCode, Kind, NodeError, Origin};
use crate::mailbox::EnqueueError;
use crate::relay::{Delivery, Lifecycle, Relay};
use vstd::prelude::*;

verus! {

/// Why a route did not place its envelope in a mailbox.
#[derive(Debug)]
pub enum RouteError {
    /// No live relay holds the destination.
    NotFound(Envelope),
    /// The destination's relay is stopping.
    MailboxClosed(Envelope),
    /// The destination's mailbox is at capacity: the sender waits until the
    /// consumer takes an envelope and routes again.
    Full(Envelope),
}

/// No two relays of `s` share an address.
pub open spec fn unique_addresses(s: Seq<Relay>) -> bool {
    forall|i: int, j: int|
        0 <= i < s.len() && 0 <= j < s.len() && i != j ==> s[i].addr() != s[j].addr()
}

/// Address uniqueness: in a registry reached by any sequence of
/// operations (each keeps `wf`), no two live relays share an address, so an
/// address names at most one relay.
pub proof fn lemma_addresses_unique(r: &Router, i: int, j: int)
    requires
        r.wf(),
        0 <= i < r.relays().len(),
        0 <= j < r.relays().len(),
        r.relays()[i].addr() == r.relays()[j].addr(),
    ensures
        i == j,
        r.index_of(r.relays()[i].addr()) == i,
{
    r.lemma_index_of(r.relays()[i].addr(), i);
}

/// The address to relay registry.
pub struct Router {
    relays: Vec<Relay>,
    capacity: usize,
}

impl Router {
    /// The live relays, in order of registration.
    pub closed spec fn relays(&self) -> Seq<Relay> {
        self.relays@
    }

    /// The mailbox capacity given to every relay.
    pub closed spec fn cap(&self) -> nat {
        self.capacity as nat
    }

    /// Whether a live relay holds `a`.
    pub open spec fn registered(&self, a: Seq<u8>) -> bool {
        exists|i: int| 0 <= i < self.relays().len() && self.relays()[i].addr() == a
    }

    /// The position of the relay that holds `a`.
    pub open spec fn index_of(&self, a: Seq<u8>) -> int {
        choose|i: int| 0 <= i < self.relays().len() && self.relays()[i].addr() == a
    }

    /// The relay that holds `a`.
    pub open spec fn at(&self, a: Seq<u8>) -> Relay {
        self.relays()[self.index_of(a)]
    }

    /// Addresses are unique, and every relay is well formed, live (not yet
    /// stopped) and bounded by the router's capacity.
    pub open spec fn wf(&self) -> bool {
        &&& 0 < self.cap() <= usize::MAX
        &&& unique_addresses(self.relays())
        &&& forall|i: int|
            0 <= i < self.relays().len() ==> #[trigger] self.relay_ok(self.relays()[i])
    }

    /// A relay fit to stand in this registry.
    pub open spec fn relay_ok(&self, r: Relay) -> bool {
        &&& r.wf()
        &&& r.cap() == self.cap()
        &&& r.phase() != Lifecycle::Stopped
    }

    /// `new` differs from `old` only in the relay that holds `a`, which keeps
    /// its address, capacity and position.
    pub open spec fn changed_only_at(new: &Router, old: &Router, a: Seq<u8>) -> bool {
        &&& new.cap() == old.cap()
        &&& new.relays().len() == old.relays().len()
        &&& new.relays() == old.relays().update(old.index_of(a), new.relays()[old.index_of(a)])
        &&& new.at(a).addr() == a
        &&& new.index_of(a) == old.index_of(a)
        &&& new.at(a).cap() == old.at(a).cap()
    }

    proof fn lemma_index_of(&self, a: Seq<u8>, i: int)
        requires
            unique_addresses(self.relays()),
            0 <= i < self.relays().len(),
            self.relays()[i].addr() == a,
        ensures
            self.registered(a),
            self.index_of(a) == i,
    {
        assert(self.registered(a));
    }

    proof fn lemma_replace(new: &Router, old: &Router, a: Seq<u8>, i: int)
        requires
            old.wf(),
            0 <= i < old.relays().len(),
            old.relays()[i].addr() == a,
            new.cap() == old.cap(),
            new.relays() == old.relays().update(i, new.relays()[i]),
            new.relays()[i].addr() == a,
            new.relay_ok(new.relays()[i]),
        ensures
            new.wf(),
            Router::changed_only_at(new, old, a),
            old.index_of(a) == i,
            old.at(a) == old.relays()[i],
            new.at(a) == new.relays()[i],
    {
        old.lemma_index_of(a, i);
        assert(old.relay_ok(old.relays()[i]));
        assert forall|x: int, y: int|
            0 <= x < new.relays().len() && 0 <= y < new.relays().len() && x != y implies
            new.relays()[x].addr() != new.relays()[y].addr() by {
            if x != i {
                assert(new.relays()[x] == old.relays()[x]);
            }
            if y != i {
                assert(new.relays()[y] == old.relays()[y]);
            }
        }
        assert forall|k: int| 0 <= k < new.relays().len() implies new.relay_ok(new.relays()[k]) by {
            if k != i {
                assert(new.relays()[k] == old.relays()[k]);
                assert(old.relay_ok(old.relays()[k]));
            }
        }
        new.lemma_index_of(a, i);
    }

    /// An empty registry whose relays get mailboxes of `capacity`.
    pub fn new(capacity: usize) -> (r: Router)
        requires
            capacity > 0,
        ensures
            r.wf(),
            r.relays() == Seq::<Relay>::empty(),
            r.cap() == capacity,
    {
        Router { relays: Vec::new(), capacity }
    }

    /// The number of live relays.
    pub fn len(&self) -> (r: usize)
        ensures
            r == self.relays().len(),
    {
        self.relays.len()
    }

    /// Whether no relay is registered.
    pub fn is_empty(&self) -> (r: bool)
        ensures
            r == (self.relays().len() == 0),
    {
        self.relays.len() == 0
    }

    /// The position of the relay that holds `a`, if any.
    pub fn find(&self, a: &Address) -> (r: Option<usize>)
        requires
            self.wf(),
        ensures
            r is None <==> !self.registered(a@),
            r matches Some(i) ==> i == self.index_of(a@) && self.relays()[i as int].addr() == a@,
    {
        let mut i: usize = 0;
        while i < self.relays.len()
            invariant
                self.wf(),
                0 <= i <= self.relays@.len(),
                forall|k: int| 0 <= k < i ==> self.relays@[k].addr() != a@,
            decreases self.relays@.len() - i,
        {
            if self.relays[i].address().same(a) {
                proof {
                    self.lemma_index_of(a@, i as int);
                }
                return Some(i);
            }
            i = i + 1;
        }
        None
    }

    /// Whether a live relay holds `a`.
    pub fn contains(&self, a: &Address) -> (r: bool)
        requires
            self.wf(),
        ensures
            r == self.registered(a@),
    {
        self.find(a).is_some()
    }

    /// The lifecycle state of the relay that holds `a`.
    pub fn state_of(&self, a: &Address) -> (r: Option<Lifecycle>)
        requires
            self.wf(),
        ensures
            r is None <==> !self.registered(a@),
            self.registered(a@) ==> r == Some(self.at(a@).phase()),
    {
        match self.find(a) {
            Some(i) => Some(self.relays[i].state()),
            None => None,
        }
    }

    /// Adds a relay in state `Starting` for `address`; fails with
    /// `AlreadyExists` while a live relay holds it.
    pub fn register(&mut self, address: Address) -> (r: Result<(), NodeError>)
        requires
            old(self).wf(),
        ensures
            final(self).wf(),
            final(self).cap() == old(self).cap(),
            old(self).registered(address@) ==> (r matches Err(e) && e.code == (ErrorCode {
                origin: Origin::Node,
                kind: Kind::AlreadyExists,
            })) && final(self).relays() == old(self).relays(),
            !old(self).registered(address@) ==> {
                &&& r is Ok
                &&& final(self).relays().len() == old(self).relays().len() + 1
                &&& final(self).relays().drop_last() == old(self).relays()
                &&& final(self).relays().last().addr() == address@
                &&& final(self).relays().last().phase() == Lifecycle::Starting
                &&& final(self).relays().last().queued() == Seq::<EnvelopeView>::empty()
            },
    {
        if self.contains(&address) {
            return Err(node_without_cause(Kind::AlreadyExists));
        }
        let relay = Relay::new(address, self.capacity);
        let ghost g = relay;
        self.relays.push(relay);
        proof {
            assert(self.relays@.drop_last() =~= old(self).relays@);
            assert forall|i: int, j: int|
                0 <= i < self.relays@.len() && 0 <= j < self.relays@.len() && i != j implies
                self.relays@[i].addr() != self.relays@[j].addr() by {
                if i == self.relays@.len() - 1 {
                    assert(old(self).relays()[j] == self.relays@[j]);
                    assert(old(self).relays()[j].addr() != address@);
                } else if j == self.relays@.len() - 1 {
                    assert(old(self).relays()[i] == self.relays@[i]);
                    assert(old(self).relays()[i].addr() != address@);
                } else {
                    assert(old(self).relays()[i] == self.relays@[i]);
                    assert(old(self).relays()[j] == self.relays@[j]);
                }
            }
            assert forall|k: int| 0 <= k < self.relays@.len() implies self.relay_ok(self.relays()[k]) by {
                if k < old(self).relays@.len() {
                    assert(self.relays@[k] == old(self).relays()[k]);
                    assert(old(self).relay_ok(old(self).relays()[k]));
                } else {
                    assert(self.relays@[k] == g);
                }
            }
        }
        Ok(())
    }

    /// Removes the relay that holds `address` and hands it back, queued
    /// envelopes included; fails with `NotFound` if none does.
    pub fn deregister(&mut self, address: &Address) -> (r: Result<Relay, NodeError>)
        requires
            old(self).wf(),
        ensures
            final(self).wf(),
            final(self).cap() == old(self).cap(),
            !old(self).registered(address@) ==> (r matches Err(e) && e.code == (ErrorCode {
                origin: Origin::Node,
                kind: Kind::NotFound,
            })) && final(self).relays() == old(self).relays(),
            old(self).registered(address@) ==> {
                &&& r matches Ok(rel) && rel == old(self).at(address@) && rel.wf()
                &&& final(self).relays() == old(self).relays().remove(old(self).index_of(address@))
                &&& !final(self).registered(address@)
            },
    {
        match self.find(address) {
            None => Err(node_without_cause(Kind::NotFound)),
            Some(i) => {
                proof {
                    assert(old(self).relay_ok(old(self).relays()[i as int]));
                }
                let rel = self.relays.remove(i);
                proof {
                    assert forall|k: int| 0 <= k < self.relays@.len() implies self.relays@[k].addr()
                        != address@ by {
                        if k < i {
                            assert(self.relays@[k] == old(self).relays@[k]);
                        } else {
                            assert(self.relays@[k] == old(self).relays@[k + 1]);
                        }
                    }
                    assert forall|x: int, y: int|
                        0 <= x < self.relays@.len() && 0 <= y < self.relays@.len() && x != y
                            implies self.relays@[x].addr() != self.relays@[y].addr() by {
                        let ox = if x < i { x } else { x + 1 };
                        let oy = if y < i { y } else { y + 1 };
                        assert(self.relays@[x] == old(self).relays@[ox]);
                        assert(self.relays@[y] == old(self).relays@[oy]);
                    }
                    assert forall|k: int| 0 <= k < self.relays@.len() implies self.relay_ok(self.relays()[k]) by {
                        if k < i {
                            assert(self.relays@[k] == old(self).relays()[k]);
                            assert(old(self).relay_ok(old(self).relays()[k]));
                        } else {
                            assert(self.relays@[k] == old(self).relays()[k + 1]);
                            assert(old(self).relay_ok(old(self).relays()[k + 1]));
                        }
                    }
                }
                Ok(rel)
            },
        }
    }

    /// `Starting -> Running` for the relay that holds `address`, once its
    /// worker's task is spawned; `NotFound` if no relay holds it. A relay in
    /// another state is left as it is.
    pub fn start_worker(&mut self, address: &Address) -> (r: Result<(), NodeError>)
        requires
            old(self).wf(),
        ensures
            final(self).wf(),
            !old(self).registered(address@) ==> (r matches Err(e) && e.code == (ErrorCode {
                origin: Origin::Node,
                kind: Kind::NotFound,
            })) && final(self).relays() == old(self).relays(),
            old(self).registered(address@) ==> {
                &&& r is Ok
                &&& Router::changed_only_at(final(self), old(self), address@)
                &&& final(self).at(address@).queued() == old(self).at(address@).queued()
                &&& final(self).at(address@).phase() == (if old(self).at(address@).phase()
                    == Lifecycle::Starting {
                    Lifecycle::Running
                } else {
                    old(self).at(address@).phase()
                })
            },
    {
        match self.find(address) {
            None => Err(node_without_cause(Kind::NotFound)),
            Some(i) => {
                proof {
                    assert(self.relay_ok(self.relays()[i as int]));
                }
                self.relays[i].start();
                proof {
                    Router::lemma_replace(self, old(self), address@, i as int);
                }
                Ok(())
            },
        }
    }

    /// Hands `env` to the mailbox of the relay that holds its destination.
    /// `NotFound` when no live relay holds it, `MailboxClosed` when that
    /// relay is stopping, `Full` when its mailbox is at capacity (the sender
    /// waits and routes again); the envelope comes back with each error.
    pub fn route(&mut self, env: Envelope) -> (r: Result<(), RouteError>)
        requires
            old(self).wf(),
        ensures
            final(self).wf(),
            !old(self).registered(env@.destination) ==> (r matches Err(RouteError::NotFound(e))
                && e@ == env@) && final(self).relays() == old(self).relays(),
            old(self).registered(env@.destination) ==> {
                let d = env@.destination;
                let before = old(self).at(d);
                let after = final(self).at(d);
                &&& Router::changed_only_at(final(self), old(self), d)
                &&& after.phase() == before.phase()
                &&& !before.accepting() ==> (r matches Err(RouteError::MailboxClosed(e)) && e@
                    == env@)
                &&& before.accepting() && before.queued().len() == before.cap() ==> (
                r matches Err(RouteError::Full(e)) && e@ == env@)
                &&& before.accepting() && before.queued().len() < before.cap() ==> r is Ok
                &&& r is Ok ==> after.queued() == before.queued().push(env@)
                &&& r is Err ==> after.queued() == before.queued()
            },
    {
        match self.find(&env.destination) {
            None => Err(RouteError::NotFound(env)),
            Some(i) => {
                proof {
                    assert(self.relay_ok(self.relays()[i as int]));
                }
                let res = self.relays[i].enqueue(env);
                proof {
                    Router::lemma_replace(self, old(self), env@.destination, i as int);
                }
                match res {
                    Ok(()) => Ok(()),
                    Err(EnqueueError::Full(e)) => Err(RouteError::Full(e)),
                    Err(EnqueueError::Closed(e)) => Err(RouteError::MailboxClosed(e)),
                }
            },
        }
    }

    /// The next envelope for the worker at `address`, oldest first (see
    /// `Relay::dequeue`); `NotFound` if no relay holds it.
    pub fn receive(&mut self, address: &Address) -> (r: Result<Delivery, NodeError>)
        requires
            old(self).wf(),
        ensures
            final(self).wf(),
            !old(self).registered(address@) ==> (r matches Err(e) && e.code == (ErrorCode {
                origin: Origin::Node,
                kind: Kind::NotFound,
            })) && final(self).relays() == old(self).relays(),
            old(self).registered(address@) ==> {
                let before = old(self).at(address@);
                let after = final(self).at(address@);
                &&& Router::changed_only_at(final(self), old(self), address@)
                &&& after.phase() == before.phase()
                &&& before.queued().len() > 0 ==> (r matches Ok(Delivery::Message(e)) && e@
                    == before.queued()[0] && after.queued() == before.queued().drop_first())
                &&& before.queued().len() == 0 ==> after.queued() == before.queued()
                &&& before.queued().len() == 0 && before.accepting() ==> (r matches Ok(
                    Delivery::Empty,
                ))
                &&& before.queued().len() == 0 && !before.accepting() ==> (r matches Ok(
                    Delivery::Finished,
                ))
            },
    {
        match self.find(address) {
            None => Err(node_without_cause(Kind::NotFound)),
            Some(i) => {
                proof {
                    assert(self.relay_ok(self.relays()[i as int]));
                }
                let d = self.relays[i].dequeue();
                proof {
                    Router::lemma_replace(self, old(self), address@, i as int);
                }
                Ok(d)
            },
        }
    }

    /// Asks the worker at `address` to stop (see `Relay::signal_stop`);
    /// `NotFound` if no relay holds it. It does not wait for the drain.
    pub fn stop_worker(&mut self, address: &Address) -> (r: Result<(), NodeError>)
        requires
            old(self).wf(),
        ensures
            final(self).wf(),
            !old(self).registered(address@) ==> (r matches Err(e) && e.code == (ErrorCode {
                origin: Origin::Node,
                kind: Kind::NotFound,
            })) && final(self).relays() == old(self).relays(),
            old(self).registered(address@) ==> {
                &&& r is Ok
                &&& Router::changed_only_at(final(self), old(self), address@)
                &&& final(self).at(address@).phase() == Lifecycle::Draining
                &&& final(self).at(address@).queued() == old(self).at(address@).queued()
            },
    {
        match self.find(address) {
            None => Err(node_without_cause(Kind::NotFound)),
            Some(i) => {
                proof {
                    assert(self.relay_ok(self.relays()[i as int]));
                }
                self.relays[i].signal_stop();
                proof {
                    Router::lemma_replace(self, old(self), address@, i as int);
                }
                Ok(())
            },
        }
    }

    /// The worker at `address` has returned: its relay reaches `Stopped` and
    /// leaves the registry. Returns how many queued envelopes were discarded
    /// for want of a consumer; `NotFound` if no relay holds the address.
    pub fn worker_exited(&mut self, address: &Address) -> (r: Result<usize, NodeError>)
        requires
            old(self).wf(),
        ensures
            final(self).wf(),
            final(self).cap() == old(self).cap(),
            !old(self).registered(address@) ==> (r matches Err(e) && e.code == (ErrorCode {
                origin: Origin::Node,
                kind: Kind::NotFound,
            })) && final(self).relays() == old(self).relays(),
            old(self).registered(address@) ==> {
                &&& r matches Ok(n) && n == old(self).at(address@).queued().len()
                &&& final(self).relays() == old(self).relays().remove(old(self).index_of(address@))
                &&& !final(self).registered(address@)
            },
    {
        match self.deregister(address) {
            Err(e) => Err(e),
            Ok(rel) => {
                let mut rel = rel;
                let n = rel.worker_exited();
                Ok(n)
            },
        }
    }

    /// Node shutdown, first step: every relay is asked to stop. Each enters
    /// `Draining` with a closed mailbox; queued envelopes stay to be drained.
    pub fn stop_all(&mut self)
        requires
            old(self).wf(),
        ensures
            final(self).wf(),
            final(self).cap() == old(self).cap(),
            final(self).relays().len() == old(self).relays().len(),
            forall|k: int|
                #![trigger final(self).relays()[k]]
                0 <= k < final(self).relays().len() ==> {
                    &&& final(self).relays()[k].addr() == old(self).relays()[k].addr()
                    &&& final(self).relays()[k].queued() == old(self).relays()[k].queued()
                    &&& final(self).relays()[k].phase() == Lifecycle::Draining
                },
    {
        let mut i: usize = 0;
        while i < self.relays.len()
            invariant
                self.wf(),
                self.cap() == old(self).cap(),
                self.relays().len() == old(self).relays().len(),
                0 <= i <= self.relays().len(),
                forall|k: int|
                    #![trigger self.relays()[k]]
                    0 <= k < self.relays().len() ==> {
                        &&& self.relays()[k].addr() == old(self).relays()[k].addr()
                        &&& self.relays()[k].queued() == old(self).relays()[k].queued()
                        &&& k < i ==> self.relays()[k].phase() == Lifecycle::Draining
                    },
            decreases self.relays().len() - i,
        {
            proof {
                assert(self.relay_ok(self.relays()[i as int]));
            }
            let ghost before = *self;
            self.relays[i].signal_stop();
            proof {
                Router::lemma_replace(self, &before, before.relays()[i as int].addr(), i as int);
                assert forall|k: int| 0 <= k < self.relays().len() && k != i implies self.relays()[k]
                    == before.relays()[k] by {}
            }
            i = i + 1;
        }
    }

    /// Node shutdown, last step, once its timeout has passed: every relay
    /// still registered is stopped and removed. Returns their addresses, in
    /// registration order: the workers that did not drain in time.
    pub fn force_stop_remaining(&mut self) -> (r: Vec<Address>)
        requires
            old(self).wf(),
        ensures
            final(self).wf(),
            final(self).cap() == old(self).cap(),
            final(self).relays() == Seq::<Relay>::empty(),
            r@.len() == old(self).relays().len(),
            forall|k: int| 0 <= k < r@.len() ==> #[trigger] r@[k]@ == old(self).relays()[k].addr(),
    {
        let mut out: Vec<Address> = Vec::new();
        let mut i: usize = 0;
        while i < self.relays.len()
            invariant
                *self == *old(self),
                0 <= i <= self.relays().len(),
                out@.len() == i,
                forall|k: int| 0 <= k < i ==> #[trigger] out@[k]@ == self.relays()[k].addr(),
            decreases self.relays().len() - i,
        {
            out.push(self.relays[i].address().duplicate());
            i = i + 1;
        }
        self.relays.clear();
        proof {
            assert(self.relays() =~= Seq::<Relay>::empty());
        }
        out
    }
}

} // verus!
