//! Teaching material: tutorials and webinars.

pub mod tutorials;
pub mod webinars;
