//! A registry of connected devices.

pub mod device_manager;
