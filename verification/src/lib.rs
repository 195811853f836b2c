//! Verified core of a terminal front end for the mihomo proxy kernel:
//! subscription bookkeeping, log filtering, text helpers and the
//! key-driven state machine of the user interface.

pub mod text;
pub mod command;
pub mod log;
pub mod config;
pub mod constants;
pub mod settings;
pub mod app;
pub mod ui;
