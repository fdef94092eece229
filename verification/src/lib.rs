//! Request tracing and structured logging for an HTTP middleware layer.
//!
//! The library derives the summary span of a request, decides which header
//! values are logged and how credentials are redacted, writes the trace
//! context into response headers, and sequences all of it as a state machine
//! that a middleware drives.

pub mod attributes;
pub mod body;
pub mod classify;
pub mod event;
pub mod headers;
pub mod middleware;
pub mod propagation;
pub mod request;
pub mod span;
pub mod text;
