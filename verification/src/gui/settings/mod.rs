//! The settings window: a sidebar of panels over the daemon's own data.

pub mod allowances;
pub mod devices;
pub mod diagnostics;
pub mod editor;
pub mod violations;
