//! A transport-agnostic engine for JSON-RPC 2.0.
//!
//! The engine never touches a socket. On the calling side a correlator
//! matches responses to the calls that wait for them; on the serving side a
//! connection state machine takes one request from its headers to its
//! response, interceptors wrap the dispatch, and a registry keeps the
//! subscriptions. Each of them is driven from outside: it hands out the next
//! action, and is told what came of it.
//!
//! - [`duplex`]: the correlator of one duplex channel.
//! - [`completion`]: the slot that carries the outcome of one call.
//! - [`handler`], [`headers`], [`response`]: one HTTP-style connection.
//! - [`middleware`], [`dispatch`]: interceptors, and a request run through
//!   them.
//! - [`pubsub`]: the subscription registry.
//! - [`codec`], [`envelope`], [`types`], [`id`], [`error`]: the messages and
//!   their text.

pub mod codec;
pub mod completion;
pub mod dispatch;
pub mod duplex;
pub mod envelope;
pub mod error;
pub mod handler;
pub mod headers;
pub mod id;
pub mod middleware;
pub mod pubsub;
pub mod response;
pub mod types;
