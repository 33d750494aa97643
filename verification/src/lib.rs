//! Node-to-node transport core for a distributed actor runtime.
//!
//! The crate covers the logic of the transport layer: credential
//! ingestion and TLS configuration for mutually authenticated links,
//! bounded connection retry, the decisions of the accept loops, and a
//! chunked message-framing protocol that reassembles arbitrarily large
//! payloads whose chunks may interleave on one stream.

pub mod accept;
pub mod artefact;
pub mod identity;
pub mod reassembly;
pub mod retry;
pub mod simple;
pub mod tls;
pub mod wire;
