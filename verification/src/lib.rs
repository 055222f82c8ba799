//! Lifecycle decisions for a Nitro enclave and the length-prefixed framing
//! spoken over its channel.
//!
//! The crate holds no I/O. Each operation that has to wait on the outside
//! world is a small state machine: the caller performs one raw transfer or
//! one launcher invocation, reports what happened, and is told what to do
//! next.

pub mod raw_fd;
pub mod report;
pub mod enclave;
