//! The Pi network: a plain model and one that records what it processes.

pub mod pi;
pub mod pi_network;
