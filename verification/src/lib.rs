//! Verified core of a terminal dashboard for `llama-server`: slot state
//! tracking, metric history, log-line parsing and configuration editing.

pub mod app;
pub mod config;
pub mod laws;
pub mod layout;
pub mod log_tailer;
pub mod metrics;
pub mod parser;
pub mod polling;
pub mod slot_state;
pub mod slots;
pub mod text;
