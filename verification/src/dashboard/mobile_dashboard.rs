//! The lines that the mobile dashboard shows. Putting them on a screen is
//! the caller's part.

use crate::text::{decimal_digits, decimal_text, join2};
use vstd::prelude::*;

verus! {

/// The line that shows a user count.
pub open spec fn user_count_line(user_count: u32) -> Seq<char> {
    "User  Count: "@ + decimal_digits(user_count as nat)
}

/// The mobile dashboard. It keeps no state of its own.
pub struct MobileDashboard;

impl MobileDashboard {
    /// A dashboard.
    pub fn new() -> Self {
        MobileDashboard
    }

    /// The line to show for a user count.
    pub fn display_user_count(&self, user_count: u32) -> (line: String)
        ensures
            line@ == user_count_line(user_count),
    {
        join2("User  Count: ", decimal_text(user_count as u64).as_str())
    }

    /// The greeting to show when the dashboard opens.
    pub fn show_welcome_message(&self) -> (line: String)
        ensures
            line@ == "Welcome to the Mobile Dashboard!"@,
    {
        "Welcome to the Mobile Dashboard!".to_string()
    }

    /// The line to show once the user count has changed to `user_count`.
    pub fn update_user_count(&self, user_count: u32) -> (line: String)
        ensures
            line@ == user_count_line(user_count),
    {
        self.display_user_count(user_count)
    }
}

} // verus!
