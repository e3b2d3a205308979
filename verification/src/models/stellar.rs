//! The Stellar protocol: a plain model and one that records what it processes.

pub mod stellar;
pub mod stellar_protocol;
