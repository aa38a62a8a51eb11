//! Node start and shutdown.
use crate::address::Address;
use crate::context::Context;
use crate::delayed::Scheduler;
use crate::error::{node_without_cause, ErrorCode, Kind, NodeError, Origin};
use crate::relay::Lifecycle;
use crate::router::Router;
use vstd::prelude::*;

verus! {

/// The options read at node start.
pub struct NodeConfig {
    /// How many envelopes a mailbox holds before senders wait.
    pub mailbox_capacity: usize,
    /// How long, in milliseconds, shutdown waits for workers to drain.
    pub shutdown_timeout: u64,
}

/// A node's state: its registry and its delayed-delivery scheduler.
pub struct Node {
    pub router: Router,
    pub scheduler: Scheduler,
    pub shutdown_timeout: u64,
}

/// The address of the root worker that a node starts with.
pub open spec fn root_address() -> Seq<u8> {
    seq![97u8, 112u8, 112u8]
}

/// Starts a node: an empty registry of the configured mailbox capacity, an
/// empty scheduler, and the root worker registered and running. Returns the
/// root worker's context. A capacity of zero is refused as `Internal`.
pub fn start_node(config: NodeConfig) -> (r: Result<(Node, Context), NodeError>)
    ensures
        config.mailbox_capacity == 0 <==> r is Err,
        r matches Err(e) ==> e.code == (ErrorCode { origin: Origin::Node, kind: Kind::Internal }),
        r matches Ok((n, c)) ==> {
            &&& n.router.wf()
            &&& n.scheduler.wf()
            &&& n.router.cap() == config.mailbox_capacity
            &&& n.router.relays().len() == 1
            &&& n.router.relays()[0].addr() == root_address()
            &&& n.router.relays()[0].phase() == Lifecycle::Running
            &&& n.scheduler.pending().len() == 0
            &&& n.shutdown_timeout == config.shutdown_timeout
            &&& c.addr() == root_address()
        },
{
    if config.mailbox_capacity == 0 {
        return Err(node_without_cause(Kind::Internal));
    }
    let mut router = Router::new(config.mailbox_capacity);
    let root = Address::new(vec![97u8, 112u8, 112u8]);
    let ctx = Context::new(root.duplicate());
    proof {
        assert(root@ =~= root_address());
    }
    let _ = router.register(root.duplicate());
    let _ = router.start_worker(&root);
    proof {
        assert(router.relays()[0].addr() == root_address());
    }
    Ok((Node { router, scheduler: Scheduler::new(), shutdown_timeout: config.shutdown_timeout }, ctx))
}

/// The outcome of a shutdown from the addresses that did not drain in time:
/// success when there are none, else one `Internal` error that lists them.
pub fn shutdown_result(failed: Vec<Address>) -> (r: Result<(), (NodeError, Vec<Address>)>)
    ensures
        failed@.len() == 0 ==> r is Ok,
        failed@.len() > 0 ==> (r matches Err((e, f)) && e.code == (ErrorCode {
            origin: Origin::Node,
            kind: Kind::Internal,
        }) && f@ == failed@),
{
    if failed.len() == 0 {
        Ok(())
    } else {
        Err((node_without_cause(Kind::Internal), failed))
    }
}

} // verus!
