//! Signatures and encryption.

pub mod ed25519;
pub mod encryption;
pub mod multi_sig;
