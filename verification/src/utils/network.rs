//! Network utilities.

pub mod network;
