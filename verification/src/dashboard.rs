//! What the dashboards show.

pub mod mobile_dashboard;
