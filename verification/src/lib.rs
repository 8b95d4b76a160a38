//! Per-connection engine of a topic-based publish/subscribe broadcast
//! protocol.
//!
//! - [`types`]: topics, messages, and how a message reads as a payload.
//! - [`varint`]: the unsigned varint that prefixes a payload with its length.
//! - [`codec`]: frames on a byte stream, decoded from a growing buffer.
//! - [`handler`]: the substream session, which queues messages to send and
//!   decides what to do with the connection's two substreams.
//! - [`buffer`]: what the library relies on of the `bytes` crate.
//! - [`config`], [`protocol`]: the one option and the protocol identifier.

pub mod buffer;
pub mod codec;
pub mod config;
pub mod handler;
pub mod protocol;
pub mod types;
pub mod varint;
