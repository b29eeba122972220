//! The verified core of an LLM gateway: the conversion of Anthropic Messages requests into
//! Responses requests, the configuration with its model profiles, and the feed of the debug UI.
pub mod adapters;
pub mod config;
pub mod debug_ui;
pub mod error;
pub mod json;
pub mod models;
pub mod profiles;
pub mod text;
