//! The node's error taxonomy and the helpers that build its errors.
use vstd::prelude::*;

verus! {

/// The component an error comes from.
#[derive(PartialEq, Eq, Structural, Clone, Copy, Debug)]
pub enum Origin {
    /// Routing, relays, contexts and scheduling.
    Node,
    /// The underlying task scheduler.
    Executor,
}

/// What went wrong.
#[derive(PartialEq, Eq, Structural, Clone, Copy, Debug)]
pub enum Kind {
    /// A failure of the runtime itself; fatal to the affected worker.
    Internal,
    /// A timed wait elapsed.
    Timeout,
    /// No live worker holds the address.
    NotFound,
    /// The target's mailbox no longer accepts messages.
    MailboxClosed,
    /// The address is already held by a live worker.
    AlreadyExists,
}

/// An origin and a kind: the part of an error that callers inspect.
#[derive(PartialEq, Eq, Structural, Clone, Copy, Debug)]
pub struct ErrorCode {
    pub origin: Origin,
    pub kind: Kind,
}

/// An error code with an optional description of the lower-level cause.
#[derive(Debug)]
pub struct NodeError {
    pub code: ErrorCode,
    pub cause: Option<String>,
}

/// The number of an origin in the numeric encoding of a code.
pub open spec fn origin_number(o: Origin) -> u32 {
    match o {
        Origin::Node => 1,
        Origin::Executor => 2,
    }
}

/// The number of a kind in the numeric encoding of a code.
pub open spec fn kind_number(k: Kind) -> u32 {
    match k {
        Kind::Internal => 1,
        Kind::Timeout => 2,
        Kind::NotFound => 3,
        Kind::MailboxClosed => 4,
        Kind::AlreadyExists => 5,
    }
}

/// The numeric encoding of a code: the origin's number times 1000 plus the
/// kind's number.
pub open spec fn code_number(c: ErrorCode) -> u32 {
    (origin_number(c.origin) * 1000 + kind_number(c.kind)) as u32
}

/// The text that tokio gives a failed channel send.
pub open spec fn channel_closed_text() -> Seq<char> {
    "channel closed"@
}

/// The text that tokio gives an elapsed timeout.
pub open spec fn elapsed_text() -> Seq<char> {
    "deadline has elapsed"@
}

/// tokio's failed channel send, carried as an opaque value.
#[verifier::external_type_specification]
#[verifier::external_body]
#[verifier::reject_recursive_types(T)]
pub struct ExSendError<T>(tokio::sync::mpsc::error::SendError<T>);

/// tokio's elapsed-timeout error, carried as an opaque value.
#[verifier::external_type_specification]
#[verifier::external_body]
pub struct ExElapsed(tokio::time::error::Elapsed);

/// The error type of `ockam_core`, carried as an opaque value.
#[verifier::external_type_specification]
#[verifier::external_body]
pub struct ExCoreError(ockam_core::Error);

/// Relies on the `Display` impl of tokio's `mpsc::error::SendError`, which
/// writes "channel closed" whatever the unsent value.
#[verifier::external_body]
fn send_error_text<T>(e: &tokio::sync::mpsc::error::SendError<T>) -> (r: String)
    ensures
        r@ == channel_closed_text(),
{
    e.to_string()
}

/// Relies on the `Display` impl of tokio's `time::error::Elapsed`, which
/// writes "deadline has elapsed".
#[verifier::external_body]
fn elapsed_error_text(e: &tokio::time::error::Elapsed) -> (r: String)
    ensures
        r@ == elapsed_text(),
{
    e.to_string()
}

/// Relies on `ToString::to_string` through the cause's own `Display` impl;
/// nothing is known of the text.
#[verifier::external_body]
fn cause_text<E: std::error::Error>(e: &E) -> (r: String) {
    e.to_string()
}

/// Relies on `ockam_core::Error::new`, which stores the code and the domain.
#[verifier::external_body]
fn core_error(code: u32, domain: &str) -> (r: ockam_core::Error) {
    ockam_core::Error::new(code, domain)
}

/// A code of origin `Node`.
pub fn node(kind: Kind) -> (r: ErrorCode)
    ensures
        r == (ErrorCode { origin: Origin::Node, kind }),
{
    ErrorCode { origin: Origin::Node, kind }
}

/// A code of origin `Executor` (the task scheduler broke).
pub fn executor(kind: Kind) -> (r: ErrorCode)
    ensures
        r == (ErrorCode { origin: Origin::Executor, kind }),
{
    ErrorCode { origin: Origin::Executor, kind }
}

/// A node error of the given kind with no cause.
pub fn node_without_cause(kind: Kind) -> (r: NodeError)
    ensures
        r.code == (ErrorCode { origin: Origin::Node, kind }),
        r.cause is None,
{
    NodeError { code: node(kind), cause: None }
}

/// An internal node error with no cause.
pub fn internal_without_cause() -> (r: NodeError)
    ensures
        r.code == (ErrorCode { origin: Origin::Node, kind: Kind::Internal }),
        r.cause is None,
{
    NodeError { code: node(Kind::Internal), cause: None }
}

/// An internal node error that carries the description of `e`.
pub fn node_internal<E: std::error::Error>(e: E) -> (r: NodeError)
    ensures
        r.code == (ErrorCode { origin: Origin::Node, kind: Kind::Internal }),
        r.cause is Some,
{
    NodeError { code: node(Kind::Internal), cause: Some(cause_text(&e)) }
}

/// An internal node error for a channel send that found the receiver gone.
pub fn from_send_err<T>(e: tokio::sync::mpsc::error::SendError<T>) -> (r: NodeError)
    ensures
        r.code == (ErrorCode { origin: Origin::Node, kind: Kind::Internal }),
        r.cause matches Some(s) && s@ == channel_closed_text(),
{
    NodeError { code: node(Kind::Internal), cause: Some(send_error_text(&e)) }
}

/// A timeout node error for an elapsed timer.
pub fn from_elapsed(e: tokio::time::error::Elapsed) -> (r: NodeError)
    ensures
        r.code == (ErrorCode { origin: Origin::Node, kind: Kind::Timeout }),
        r.cause matches Some(s) && s@ == elapsed_text(),
{
    NodeError { code: node(Kind::Timeout), cause: Some(elapsed_error_text(&e)) }
}

impl ErrorCode {
    /// The numeric encoding of this code.
    pub fn number(&self) -> (r: u32)
        ensures
            r == code_number(*self),
    {
        let o: u32 = match self.origin {
            Origin::Node => 1,
            Origin::Executor => 2,
        };
        let k: u32 = match self.kind {
            Kind::Internal => 1,
            Kind::Timeout => 2,
            Kind::NotFound => 3,
            Kind::MailboxClosed => 4,
            Kind::AlreadyExists => 5,
        };
        o * 1000 + k
    }

    /// The error domain of this code's origin.
    pub fn domain(&self) -> (r: &'static str)
        ensures
            self.origin == Origin::Node ==> r@ == "OCKAM_NODE"@,
            self.origin == Origin::Executor ==> r@ == "OCKAM_EXECUTOR"@,
    {
        proof {
            reveal_strlit("OCKAM_NODE");
            reveal_strlit("OCKAM_EXECUTOR");
        }
        match self.origin {
            Origin::Node => "OCKAM_NODE",
            Origin::Executor => "OCKAM_EXECUTOR",
        }
    }
}

impl NodeError {
    /// The numeric code of this error.
    pub fn number(&self) -> (r: u32)
        ensures
            r == code_number(self.code),
    {
        self.code.number()
    }

    /// This error as an `ockam_core::Error` carrying its numeric code and its
    /// origin's domain, for the layers above the node.
    pub fn into_core(self) -> ockam_core::Error {
        let n = self.code.number();
        core_error(n, self.code.domain())
    }
}

} // verus!
