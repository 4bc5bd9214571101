//! A verified model of a streaming RPC pipeline: an interceptor chain that
//! mutates per-call metadata, a readiness-preserving middleware adapter, a
//! server-streaming pump that feeds a bounded outbound channel, and a
//! bidirectional relay that classifies transport errors.
//!
//! The asynchronous edges (sockets, timers, task spawning) live outside this
//! library; every decision the pipeline makes is a verified function over
//! plain values, and the outbound channel is modelled as a bounded queue
//! whose consumer may disappear at any point.

pub mod channel;
pub mod interceptor;
pub mod messages;
pub mod metadata;
pub mod middleware;
pub mod pump;
pub mod relay;
pub mod server;
pub mod status;
