//! The worker-facing handle: send, receive, spawn and stop.
use crate::address::{Address, Envelope, EnvelopeView};
use crate::delayed::fire_time;
use crate::error::{node_without_cause, ErrorCode, Kind, NodeError, Origin};
use crate::relay::{Delivery, Lifecycle};
use crate::router::{RouteError, Router};
use vstd::prelude::*;

verus! {

/// A worker's handle on the node, bound to the worker's address.
pub struct Context {
    address: Address,
}

/// The deadline of a timed wait of `duration` milliseconds begun at
/// `start`, clamped to the clock's range.
pub fn deadline(start: u64, duration: u64) -> (r: u64)
    ensures
        r == fire_time(start, duration),
{
    start.saturating_add(duration)
}

impl Context {
    /// The worker's address.
    pub closed spec fn addr(&self) -> Seq<u8> {
        self.address@
    }

    /// A context for the worker at `address`.
    pub fn new(address: Address) -> (r: Context)
        ensures
            r.addr() == address@,
    {
        Context { address }
    }

    /// The worker's address.
    pub fn address(&self) -> (r: &Address)
        ensures
            r@ == self.addr(),
    {
        &self.address
    }

    /// Sends `payload` from this worker to `destination` (see
    /// `Router::route`): returns once the envelope is routed, not delivered.
    pub fn send(&self, router: &mut Router, destination: Address, payload: Vec<u8>) -> (r: Result<(), RouteError>)
        requires
            old(router).wf(),
        ensures
            final(router).wf(),
            ({
                let env = EnvelopeView {
                    sender: self.addr(),
                    destination: destination@,
                    payload: payload@,
                };
                &&& !old(router).registered(env.destination) ==> (r matches Err(
                    RouteError::NotFound(e),
                ) && e@ == env) && final(router).relays() == old(router).relays()
                &&& old(router).registered(env.destination) ==> {
                    let before = old(router).at(env.destination);
                    let after = final(router).at(env.destination);
                    &&& Router::changed_only_at(final(router), old(router), env.destination)
                    &&& after.phase() == before.phase()
                    &&& !before.accepting() ==> (r matches Err(RouteError::MailboxClosed(e))
                        && e@ == env)
                    &&& before.accepting() && before.queued().len() == before.cap() ==> (
                    r matches Err(RouteError::Full(e)) && e@ == env)
                    &&& before.accepting() && before.queued().len() < before.cap() ==> r is Ok
                    &&& r is Ok ==> after.queued() == before.queued().push(env)
                    &&& r is Err ==> after.queued() == before.queued()
                }
            }),
    {
        let env = Envelope::new(self.address.duplicate(), destination, payload);
        router.route(env)
    }

    /// The next envelope for this worker (see `Router::receive`).
    pub fn receive(&self, router: &mut Router) -> (r: Result<Delivery, NodeError>)
        requires
            old(router).wf(),
        ensures
            final(router).wf(),
            !old(router).registered(self.addr()) ==> (r matches Err(e) && e.code == (ErrorCode {
                origin: Origin::Node,
                kind: Kind::NotFound,
            })) && final(router).relays() == old(router).relays(),
            old(router).registered(self.addr()) ==> {
                let before = old(router).at(self.addr());
                let after = final(router).at(self.addr());
                &&& Router::changed_only_at(final(router), old(router), self.addr())
                &&& after.phase() == before.phase()
                &&& before.queued().len() > 0 ==> (r matches Ok(Delivery::Message(e)) && e@
                    == before.queued()[0] && after.queued() == before.queued().drop_first())
                &&& before.queued().len() == 0 ==> after.queued() == before.queued()
                &&& before.queued().len() == 0 && before.accepting() ==> (r matches Ok(
                    Delivery::Empty,
                ))
                &&& before.queued().len() == 0 && !before.accepting() ==> (r matches Ok(
                    Delivery::Finished,
                ))
            },
    {
        router.receive(&self.address)
    }

    /// One look at the mailbox during a timed wait that ends at `deadline`.
    /// A queued envelope wins, even at the deadline. With nothing queued, a
    /// `Timeout` error comes once `now` has reached the deadline and never
    /// before; until then `Empty` says to keep waiting. The mailbox is either
    /// consumed by one envelope or left untouched.
    pub fn receive_timeout(&self, router: &mut Router, now: u64, deadline: u64) -> (r: Result<Delivery, NodeError>)
        requires
            old(router).wf(),
        ensures
            final(router).wf(),
            !old(router).registered(self.addr()) ==> (r matches Err(e) && e.code == (ErrorCode {
                origin: Origin::Node,
                kind: Kind::NotFound,
            })) && final(router).relays() == old(router).relays(),
            old(router).registered(self.addr()) ==> {
                let before = old(router).at(self.addr());
                let after = final(router).at(self.addr());
                &&& Router::changed_only_at(final(router), old(router), self.addr())
                &&& after.phase() == before.phase()
                &&& before.queued().len() > 0 ==> (r matches Ok(Delivery::Message(e)) && e@
                    == before.queued()[0] && after.queued() == before.queued().drop_first())
                &&& before.queued().len() == 0 ==> after.queued() == before.queued()
                &&& before.queued().len() == 0 && before.accepting() && now < deadline ==> (
                r matches Ok(Delivery::Empty))
                &&& before.queued().len() == 0 && before.accepting() && now >= deadline ==> (
                r matches Err(e) && e.code == (ErrorCode {
                    origin: Origin::Node,
                    kind: Kind::Timeout,
                }))
                &&& before.queued().len() == 0 && !before.accepting() ==> (r matches Ok(
                    Delivery::Finished,
                ))
            },
    {
        match router.receive(&self.address) {
            Ok(Delivery::Empty) => {
                if now >= deadline {
                    Err(node_without_cause(Kind::Timeout))
                } else {
                    Ok(Delivery::Empty)
                }
            },
            other => other,
        }
    }

    /// Registers a child worker at `address` (state `Starting`) and returns
    /// its context; the driver spawns its task and then calls
    /// `Router::start_worker`. `AlreadyExists` while a live worker holds the
    /// address.
    pub fn new_worker(&self, router: &mut Router, address: Address) -> (r: Result<Context, NodeError>)
        requires
            old(router).wf(),
        ensures
            final(router).wf(),
            old(router).registered(address@) ==> (r matches Err(e) && e.code == (ErrorCode {
                origin: Origin::Node,
                kind: Kind::AlreadyExists,
            })) && final(router).relays() == old(router).relays(),
            !old(router).registered(address@) ==> {
                &&& r matches Ok(c) && c.addr() == address@
                &&& final(router).relays().drop_last() == old(router).relays()
                &&& final(router).relays().last().addr() == address@
                &&& final(router).relays().last().phase() == Lifecycle::Starting
                &&& final(router).relays().last().queued() == Seq::<EnvelopeView>::empty()
            },
    {
        let child = address.duplicate();
        match router.register(address) {
            Ok(()) => Ok(Context::new(child)),
            Err(e) => Err(e),
        }
    }

    /// Asks the worker at `address` to stop (see `Router::stop_worker`).
    pub fn stop_worker(&self, router: &mut Router, address: &Address) -> (r: Result<(), NodeError>)
        requires
            old(router).wf(),
        ensures
            final(router).wf(),
            !old(router).registered(address@) ==> (r matches Err(e) && e.code == (ErrorCode {
                origin: Origin::Node,
                kind: Kind::NotFound,
            })) && final(router).relays() == old(router).relays(),
            old(router).registered(address@) ==> {
                &&& r is Ok
                &&& Router::changed_only_at(final(router), old(router), address@)
                &&& final(router).at(address@).phase() == Lifecycle::Draining
                &&& final(router).at(address@).queued() == old(router).at(address@).queued()
            },
    {
        router.stop_worker(address)
    }
}

} // verus!
