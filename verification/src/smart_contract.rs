//! Helpers shared by on-chain contract code.

pub mod contract;
pub mod utils;
