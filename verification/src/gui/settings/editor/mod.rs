//! The config editor.

pub mod form;
pub mod highlight;
pub mod model;
pub mod panel;
