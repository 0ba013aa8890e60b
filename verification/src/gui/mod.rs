//! The tray, the dashboard and the settings window: what they show, and what
//! they ask of the daemon.

pub mod commands;
pub mod dashboard;
pub mod poll;
pub mod settings;
pub mod status;
pub mod tray;
pub mod wire;
