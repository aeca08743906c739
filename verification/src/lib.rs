//! Core logic of a desktop-shell backend that bridges a web UI to two
//! external resources: a streaming Server-Sent-Events (SSE) HTTP endpoint
//! and a locally spawned background worker process.
//!
//! The crate holds the decision and parsing logic only; the surrounding
//! binary performs the actual network and process I/O and feeds the results
//! back in as plain values.

pub mod cli;
pub mod decimal;
pub mod registry;
pub mod relay;
pub mod sse;
pub mod supervisor;
