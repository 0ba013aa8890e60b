//! Rules of a device kill switch: which devices are known, what has changed,
//! how the daemon, its relay and its window talk about it.

pub mod allowances;
pub mod authz;
pub mod config;
pub mod decode;
pub mod display;
pub mod document;
pub mod edid;
pub mod gui;
pub mod ipc;
pub mod json;
pub mod lid;
pub mod network;
pub mod number;
pub mod order;
pub mod pci;
pub mod platform_freebsd;
pub mod power;
pub mod relay;
pub mod render;
pub mod sdcard;
pub mod state;
pub mod sysfs;
pub mod text;
pub mod thunderbolt;
pub mod usb;
