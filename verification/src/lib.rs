//! Sandman: an HTTP gateway whose requests are served by workers behind a WebSocket.
//!
//! The gateway turns each inbound HTTP request into an envelope, queues it for the worker
//! of a shard, waits a bounded time for the worker's response and hands that on as the
//! HTTP answer. This crate holds the rules of that exchange:
//!
//! - [`json`] and [`envelope`]: the messages on the worker socket and their JSON form;
//! - [`http`]: requests and responses as plain values;
//! - [`handshake`]: the WebSocket opening handshake;
//! - [`registry`] and [`store`]: the workers by shard and the responses by request id;
//! - [`connection`]: what one worker's socket does to both, event by event;
//! - [`dispatch`]: the steps of one request, from envelope to answer;
//! - [`process`]: the settings of the listener and of a worker process.
//!
//! Sockets, timers and listeners are the caller's: the functions here take what was read
//! and say what to do next.

pub mod connection;
pub mod dispatch;
pub mod envelope;
pub mod handshake;
pub mod http;
pub mod json;
pub mod process;
pub mod registry;
pub mod store;
