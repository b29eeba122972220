//! The requests that the gateway reads and writes.
pub mod anthropic;
pub mod responses;
