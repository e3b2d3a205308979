//! Utilities that the network tools lean on.

pub mod crypto;
pub mod network;
