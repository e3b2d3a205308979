//! Tools that run an operation over a network connection.

pub mod pi_tool;
pub mod stellar_tool;
