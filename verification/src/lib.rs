//! A minimal echo-protocol latency benchmark, verified.
//!
//! A probing client sends a fixed 6-byte request frame; an echo server
//! doubles the payload and sends the 12-byte result back; the client times
//! each round trip and folds the samples into a latency report.
//!
//! This crate holds the verified core: the wire frames and the doubling
//! transform, the client's per-iteration decision logic, the server's
//! per-exchange logic, and the statistics. The transports themselves
//! (sockets, timing) live outside, and hand the library plain values.

pub mod client;
pub mod error;
pub mod protocol;
pub mod server;
pub mod stats;

pub use protocol::transform;
