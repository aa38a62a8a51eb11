use ockam_node::address::{Address, Envelope};
use ockam_node::cancel::CancellationToken;
use ockam_node::context::{deadline, Context};
use ockam_node::delayed::{deliver, Fired, Scheduler};
use ockam_node::error::{
    executor, from_elapsed, from_send_err, internal_without_cause, node, node_internal,
    node_without_cause, ErrorCode, Kind, Origin,
};
use ockam_node::mailbox::{EnqueueError, Mailbox};
use ockam_node::node::{shutdown_result, start_node, NodeConfig};
use ockam_node::relay::{Delivery, Lifecycle, Relay};
use ockam_node::router::{RouteError, Router};

fn addr(s: &str) -> Address {
    Address::new(s.as_bytes().to_vec())
}

fn env(from: &str, to: &str, payload: &[u8]) -> Envelope {
    Envelope::new(addr(from), addr(to), payload.to_vec())
}

fn running_router(capacity: usize, names: &[&str]) -> Router {
    let mut r = Router::new(capacity);
    for n in names {
        r.register(addr(n)).unwrap();
        r.start_worker(&addr(n)).unwrap();
    }
    r
}

fn take(r: &mut Router, at: &str) -> Vec<u8> {
    match r.receive(&addr(at)).unwrap() {
        Delivery::Message(e) => e.payload,
        Delivery::Empty => panic!("nothing queued"),
        Delivery::Finished => panic!("relay finished"),
    }
}

#[test]
fn address_equality_is_bytewise() {
    assert!(addr("alpha").same(&addr("alpha")));
    assert!(!addr("alpha").same(&addr("alphb")));
    assert!(!addr("alpha").same(&addr("alph")));
    assert!(addr("").same(&addr("")));
}

#[test]
fn mailbox_is_bounded_fifo() {
    let mut m = Mailbox::new(2);
    assert!(m.enqueue(env("a", "m", b"1")).is_ok());
    assert!(m.enqueue(env("a", "m", b"2")).is_ok());
    match m.enqueue(env("a", "m", b"3")) {
        Err(EnqueueError::Full(e)) => assert_eq!(e.payload, b"3".to_vec()),
        _ => panic!("expected a full mailbox"),
    }
    assert_eq!(m.len(), 2);
    assert_eq!(m.dequeue().unwrap().payload, b"1".to_vec());
    assert!(m.enqueue(env("a", "m", b"3")).is_ok());
    assert_eq!(m.dequeue().unwrap().payload, b"2".to_vec());
    assert_eq!(m.dequeue().unwrap().payload, b"3".to_vec());
    assert!(m.dequeue().is_none());
    assert!(m.is_empty());
}

#[test]
fn closed_mailbox_refuses_but_keeps_queue() {
    let mut m = Mailbox::new(4);
    m.enqueue(env("a", "m", b"x")).ok().unwrap();
    m.close();
    assert!(m.closed());
    assert!(matches!(m.enqueue(env("a", "m", b"y")), Err(EnqueueError::Closed(_))));
    assert_eq!(m.dequeue().unwrap().payload, b"x".to_vec());
}

#[test]
fn relay_lifecycle_runs_in_order() {
    let mut r = Relay::new(addr("w"), 3);
    assert_eq!(r.state(), Lifecycle::Starting);
    assert!(r.start());
    assert!(!r.start());
    assert_eq!(r.state(), Lifecycle::Running);
    r.enqueue(env("a", "w", b"1")).ok().unwrap();
    r.signal_stop();
    assert_eq!(r.state(), Lifecycle::Draining);
    assert!(matches!(r.enqueue(env("a", "w", b"2")), Err(EnqueueError::Closed(_))));
    assert!(matches!(r.dequeue(), Delivery::Message(_)));
    assert!(matches!(r.dequeue(), Delivery::Finished));
    assert_eq!(r.worker_exited(), 0);
    assert_eq!(r.state(), Lifecycle::Stopped);
}

#[test]
fn worker_exit_discards_what_cannot_be_consumed() {
    let mut r = Relay::new(addr("w"), 3);
    r.start();
    r.enqueue(env("a", "w", b"1")).ok().unwrap();
    r.enqueue(env("a", "w", b"2")).ok().unwrap();
    assert_eq!(r.worker_exited(), 2);
    assert_eq!(r.queued_len(), 0);
    assert_eq!(r.state(), Lifecycle::Stopped);
}

#[test]
fn register_same_address_twice_fails() {
    let mut r = Router::new(4);
    assert!(r.register(addr("w")).is_ok());
    let e = r.register(addr("w")).unwrap_err();
    assert_eq!(e.code, ErrorCode { origin: Origin::Node, kind: Kind::AlreadyExists });
    assert_eq!(r.len(), 1);
    r.deregister(&addr("w")).ok().unwrap();
    assert!(r.register(addr("w")).is_ok());
    assert_eq!(r.len(), 1);
}

#[test]
fn route_to_unknown_or_deregistered_is_not_found() {
    let mut r = running_router(4, &["w"]);
    assert!(matches!(r.route(env("a", "nobody", b"x")), Err(RouteError::NotFound(_))));
    r.deregister(&addr("w")).ok().unwrap();
    assert!(matches!(r.route(env("a", "w", b"x")), Err(RouteError::NotFound(_))));
    assert_eq!(
        r.deregister(&addr("w")).err().unwrap().code,
        ErrorCode { origin: Origin::Node, kind: Kind::NotFound }
    );
}

#[test]
fn route_to_stopping_worker_is_mailbox_closed() {
    let mut r = running_router(4, &["w"]);
    r.stop_worker(&addr("w")).unwrap();
    assert_eq!(r.state_of(&addr("w")), Some(Lifecycle::Draining));
    assert!(matches!(r.route(env("a", "w", b"x")), Err(RouteError::MailboxClosed(_))));
}

#[test]
fn messages_of_each_sender_arrive_in_order() {
    let mut r = running_router(8, &["d"]);
    r.route(env("s1", "d", b"a1")).ok().unwrap();
    r.route(env("s2", "d", b"b1")).ok().unwrap();
    r.route(env("s1", "d", b"a2")).ok().unwrap();
    r.route(env("s2", "d", b"b2")).ok().unwrap();
    r.route(env("s1", "d", b"a3")).ok().unwrap();
    let got: Vec<Vec<u8>> = (0..5).map(|_| take(&mut r, "d")).collect();
    let s1: Vec<&Vec<u8>> = got.iter().filter(|p| p[0] == b'a').collect();
    let s2: Vec<&Vec<u8>> = got.iter().filter(|p| p[0] == b'b').collect();
    assert_eq!(s1, vec![&b"a1".to_vec(), &b"a2".to_vec(), &b"a3".to_vec()]);
    assert_eq!(s2, vec![&b"b1".to_vec(), &b"b2".to_vec()]);
}

#[test]
fn full_mailbox_hands_envelope_back_until_drained() {
    let mut r = running_router(2, &["d"]);
    r.route(env("s", "d", b"1")).ok().unwrap();
    r.route(env("s", "d", b"2")).ok().unwrap();
    let back = match r.route(env("s", "d", b"3")) {
        Err(RouteError::Full(e)) => e,
        _ => panic!("expected backpressure"),
    };
    assert_eq!(back.payload, b"3".to_vec());
    assert_eq!(take(&mut r, "d"), b"1".to_vec());
    assert!(r.route(back).is_ok());
    assert_eq!(take(&mut r, "d"), b"2".to_vec());
    assert_eq!(take(&mut r, "d"), b"3".to_vec());
}

#[test]
fn delayed_message_arrives_at_fire_time_not_before() {
    let mut r = running_router(4, &["d"]);
    let mut s = Scheduler::new();
    let id = s.schedule(env("t", "d", b"late"), 100, 50).unwrap();
    assert_eq!(id, 0);
    assert!(s.fire_due(149).is_empty());
    assert_eq!(s.len(), 1);
    let fired = s.fire_due(150);
    assert_eq!(fired.len(), 1);
    assert_eq!(fired[0].fire_at, 150);
    assert_eq!(s.len(), 0);
    for e in fired {
        assert!(matches!(deliver(&mut r, e), Fired::Delivered));
    }
    assert_eq!(take(&mut r, "d"), b"late".to_vec());
}

#[test]
fn cancelled_delayed_message_never_fires() {
    let mut s = Scheduler::new();
    let a = s.schedule(env("t", "d", b"a"), 0, 50).unwrap();
    let b = s.schedule(env("t", "d", b"b"), 0, 60).unwrap();
    assert_ne!(a, b);
    assert!(s.cancel(a));
    assert!(!s.cancel(a));
    let fired = s.fire_due(1000);
    assert_eq!(fired.len(), 1);
    assert_eq!(fired[0].id, b);
}

#[test]
fn fire_time_saturates_at_clock_end() {
    let mut s = Scheduler::new();
    s.schedule(env("t", "d", b"x"), u64::MAX - 1, 10).unwrap();
    assert!(s.fire_due(u64::MAX - 1).is_empty());
    assert_eq!(s.fire_due(u64::MAX)[0].fire_at, u64::MAX);
    assert_eq!(deadline(u64::MAX, 5), u64::MAX);
    assert_eq!(deadline(5, 10), 15);
}

#[test]
fn delayed_message_to_departed_target_is_discarded() {
    let mut r = running_router(4, &["d"]);
    let mut s = Scheduler::new();
    s.schedule(env("t", "d", b"x"), 0, 10).unwrap();
    r.deregister(&addr("d")).ok().unwrap();
    for e in s.fire_due(10) {
        assert!(matches!(deliver(&mut r, e), Fired::Discarded));
    }
    assert!(!r.contains(&addr("d")));
    assert!(r.is_empty());
}

#[test]
fn delayed_message_to_full_mailbox_is_retried() {
    let mut r = running_router(1, &["d"]);
    r.route(env("s", "d", b"first")).ok().unwrap();
    let mut s = Scheduler::new();
    s.schedule(env("t", "d", b"x"), 0, 0).unwrap();
    let e = s.fire_due(0).pop().unwrap();
    let again = match deliver(&mut r, e) {
        Fired::Retry(e) => e,
        _ => panic!("expected a retry"),
    };
    assert_eq!(take(&mut r, "d"), b"first".to_vec());
    assert!(matches!(deliver(&mut r, again), Fired::Delivered));
    assert_eq!(take(&mut r, "d"), b"x".to_vec());
}

#[test]
fn receive_timeout_waits_then_times_out() {
    let mut r = running_router(4, &["w"]);
    let ctx = Context::new(addr("w"));
    let end = deadline(0, 10);
    assert!(matches!(ctx.receive_timeout(&mut r, 0, end), Ok(Delivery::Empty)));
    assert!(matches!(ctx.receive_timeout(&mut r, 9, end), Ok(Delivery::Empty)));
    let e = ctx.receive_timeout(&mut r, 10, end).err().unwrap();
    assert_eq!(e.code, ErrorCode { origin: Origin::Node, kind: Kind::Timeout });
}

#[test]
fn receive_timeout_returns_message_that_arrives_first() {
    let mut r = running_router(4, &["w", "s"]);
    let ctx = Context::new(addr("w"));
    let sender = Context::new(addr("s"));
    let end = deadline(0, 10);
    assert!(matches!(ctx.receive_timeout(&mut r, 0, end), Ok(Delivery::Empty)));
    sender.send(&mut r, addr("w"), b"hi".to_vec()).ok().unwrap();
    match ctx.receive_timeout(&mut r, 5, end) {
        Ok(Delivery::Message(e)) => {
            assert_eq!(e.payload, b"hi".to_vec());
            assert!(e.sender.same(&addr("s")));
        }
        _ => panic!("expected the message"),
    }
}

#[test]
fn context_new_worker_and_stop_worker() {
    let mut r = running_router(4, &["app"]);
    let ctx = Context::new(addr("app"));
    let child = ctx.new_worker(&mut r, addr("child")).ok().unwrap();
    assert!(child.address().same(&addr("child")));
    assert_eq!(r.state_of(&addr("child")), Some(Lifecycle::Starting));
    assert!(ctx.new_worker(&mut r, addr("child")).is_err());
    r.start_worker(&addr("child")).unwrap();
    assert_eq!(r.state_of(&addr("child")), Some(Lifecycle::Running));
    ctx.stop_worker(&mut r, &addr("child")).unwrap();
    assert!(matches!(child.receive(&mut r), Ok(Delivery::Finished)));
    assert_eq!(r.worker_exited(&addr("child")).unwrap(), 0);
    assert!(ctx.stop_worker(&mut r, &addr("child")).is_err());
}

#[test]
fn graceful_shutdown_empties_registry() {
    let names = ["a", "b", "c"];
    let mut r = running_router(4, &names);
    r.stop_all();
    for n in names.iter() {
        assert_eq!(r.state_of(&addr(n)), Some(Lifecycle::Draining));
        assert!(matches!(r.receive(&addr(n)), Ok(Delivery::Finished)));
        assert_eq!(r.worker_exited(&addr(n)).unwrap(), 0);
    }
    assert!(r.is_empty());
    assert!(r.force_stop_remaining().is_empty());
    assert!(shutdown_result(Vec::new()).is_ok());
}

#[test]
fn forced_shutdown_reports_undrained_workers() {
    let mut r = running_router(4, &["a", "b"]);
    r.route(env("s", "b", b"x")).ok().unwrap();
    r.stop_all();
    r.worker_exited(&addr("a")).unwrap();
    let left = r.force_stop_remaining();
    assert_eq!(left.len(), 1);
    assert!(left[0].same(&addr("b")));
    assert!(r.is_empty());
    let (e, failed) = shutdown_result(left).err().unwrap();
    assert_eq!(e.code.kind, Kind::Internal);
    assert_eq!(failed.len(), 1);
}

#[test]
fn start_node_registers_running_root() {
    let (mut n, ctx) = start_node(NodeConfig { mailbox_capacity: 8, shutdown_timeout: 1000 })
        .ok()
        .unwrap();
    assert!(ctx.address().same(&addr("app")));
    assert_eq!(n.router.state_of(&addr("app")), Some(Lifecycle::Running));
    assert_eq!(n.router.len(), 1);
    assert_eq!(n.shutdown_timeout, 1000);
    assert!(matches!(ctx.receive(&mut n.router), Ok(Delivery::Empty)));
    let e = start_node(NodeConfig { mailbox_capacity: 0, shutdown_timeout: 1 }).err().unwrap();
    assert_eq!(e.code, ErrorCode { origin: Origin::Node, kind: Kind::Internal });
}

#[test]
fn cancellation_is_idempotent() {
    let mut t = CancellationToken::new();
    assert!(!t.is_cancelled());
    assert!(t.cancel());
    assert!(t.is_cancelled());
    assert!(!t.cancel());
    assert!(t.is_cancelled());
}

#[test]
fn error_codes_and_numbers() {
    assert_eq!(node(Kind::NotFound), ErrorCode { origin: Origin::Node, kind: Kind::NotFound });
    assert_eq!(executor(Kind::Internal), ErrorCode { origin: Origin::Executor, kind: Kind::Internal });
    assert_eq!(node(Kind::Internal).number(), 1001);
    assert_eq!(node(Kind::AlreadyExists).number(), 1005);
    assert_eq!(executor(Kind::Timeout).number(), 2002);
    assert_eq!(node(Kind::Timeout).domain(), "OCKAM_NODE");
    assert_eq!(executor(Kind::Timeout).domain(), "OCKAM_EXECUTOR");
    let e = node_without_cause(Kind::MailboxClosed);
    assert_eq!(e.code.kind, Kind::MailboxClosed);
    assert!(e.cause.is_none());
    assert_eq!(internal_without_cause().number(), 1001);
}

#[test]
fn errors_convert_to_core_errors() {
    let core = node_without_cause(Kind::NotFound).into_core();
    assert_eq!(core.code(), 1003);
    assert_eq!(core.domain(), "OCKAM_NODE");
    let core = ockam_node::error::NodeError {
        code: executor(Kind::Internal),
        cause: None,
    }
    .into_core();
    assert_eq!(core.code(), 2001);
    assert_eq!(core.domain(), "OCKAM_EXECUTOR");
}

#[test]
fn errors_from_lower_level_causes() {
    let e = from_send_err(tokio::sync::mpsc::error::SendError(7u32));
    assert_eq!(e.code, ErrorCode { origin: Origin::Node, kind: Kind::Internal });
    assert_eq!(e.cause.as_deref(), Some("channel closed"));

    let rt = tokio::runtime::Builder::new_current_thread().enable_time().build().unwrap();
    let elapsed = rt
        .block_on(async {
            tokio::time::timeout(std::time::Duration::from_millis(1), std::future::pending::<()>())
                .await
        })
        .unwrap_err();
    let e = from_elapsed(elapsed);
    assert_eq!(e.code, ErrorCode { origin: Origin::Node, kind: Kind::Timeout });
    assert_eq!(e.cause.as_deref(), Some("deadline has elapsed"));

    let io = std::io::Error::new(std::io::ErrorKind::Other, "boom");
    let e = node_internal(io);
    assert_eq!(e.code.kind, Kind::Internal);
    assert_eq!(e.cause.as_deref(), Some("boom"));
}
