//! The relay: a mesh of machines that kill together.

pub mod config;
pub mod crypto;
pub mod file;
pub mod listener;
pub mod protocol;
pub mod resolve;
pub mod sender;
pub mod trigger;
pub mod watcher;
