//! In-memory models of the two networks.

pub mod pi;
pub mod stellar;
