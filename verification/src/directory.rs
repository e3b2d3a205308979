//! What is known of each network: its assets and its access points, as a
//! JSON document describes them.

pub mod pi_tool;
pub mod stellar_tool;
