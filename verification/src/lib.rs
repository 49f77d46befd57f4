//! Session-layer engine of a relay that carries one TCP byte stream over one
//! bidirectional QUIC stream.
//!
//! The crate decides; it performs no I/O. A caller owns the sockets, the QUIC
//! endpoint and the task runtime, reports what happened as events, and carries
//! out the actions it gets back.

pub mod address;
pub mod client;
pub mod relay;
pub mod server;
pub mod status;
pub mod transport;
