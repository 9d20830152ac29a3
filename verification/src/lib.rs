//! A macOS-style Command-to-Ctrl key remapper: the remap rules, the remap state
//! machine and the decisions of the device loop, with their contracts.

pub mod config;
pub mod event;
pub mod remapper;
pub mod device;
pub mod laws;
