//! Conversions between the request formats.
pub mod anthropic_to_responses;
pub mod laws;
