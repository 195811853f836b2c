//! Decisions around the mihomo kernel and its subscriptions.

pub mod api;
pub mod process;
pub mod subscription;
