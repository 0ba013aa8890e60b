//! The dashboard.

pub mod model;
pub mod placement;
