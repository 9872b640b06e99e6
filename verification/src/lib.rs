//! Client core for a container-management daemon that listens on a local
//! Unix socket and speaks a minimal HTTP/1.0-shaped protocol.
//!
//! This crate holds the verified logic: request construction, response
//! framing and JSON decoding, event classification, the event-stream state
//! machine, and the consumer's local state mirror. Socket I/O and the
//! presentation loop live outside the library.

pub mod events;
pub mod json;
pub mod parser;
pub mod requests;
pub mod state;
pub mod stream;
pub mod text;
