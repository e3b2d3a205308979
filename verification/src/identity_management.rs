//! Identities with signing keys.

pub mod identity;
pub mod utils;
