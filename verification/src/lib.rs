//! A rendezvous relay library: a downloading client is issued a one-time
//! token over a persistent connection, and whoever posts a file against that
//! token has its bytes framed and streamed, in order, to the waiting client.
//!
//! The crate holds the relay engine itself — the wire codec, the token
//! generator, the session registry, the per-session state machine, the
//! upload bridge and the downloading consumer — each with a contract.
//! Network transport, argument handling and configuration loading live
//! outside the library and drive it through these types.

pub mod channel;
pub mod client_settings;
pub mod codec;
pub mod consumer;
pub mod registry;
pub mod relay;
pub mod server_settings;
pub mod session;
pub mod token;
pub mod upload;
