//! Cryptography utilities.

pub mod crypto;
