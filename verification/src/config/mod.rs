//! The mihomo configuration file model and the nodes reported by the kernel.

pub mod mihomo_config;
pub mod node;
pub mod providers;
