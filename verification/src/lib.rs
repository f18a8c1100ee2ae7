//! A distributed-tracing core: a per-request tracing context that numbers
//! and finalizes spans, a pure codec for the cross-process propagation
//! header, a segment assembler, and a bounded first-in/first-out reporter
//! queue toward the collector transport.

pub mod base64;
pub mod codec;
pub mod common;
pub mod propagation;
pub mod reporter;
pub mod segment;
pub mod trace_context;
