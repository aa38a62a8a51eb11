//! In-process runtime core of an actor-style message-passing node.
//!
//! Everything here is a deterministic state machine: the registry of
//! workers, their mailboxes and lifecycles, the delayed-delivery scheduler
//! and the cancellation signal. The asynchronous driver (task spawning,
//! timers, waking suspended senders and receivers) lives outside the library
//! and feeds events and the current time into these machines.

pub mod address;
pub mod mailbox;
pub mod error;
pub mod relay;
pub mod router;
pub mod delayed;
pub mod cancel;
pub mod context;
pub mod node;
