//! The window that asks whether to retry a task.

use vstd::prelude::*;

use crate::ui::layout::{centered, centered_in, Area};

verus! {

/// The window that asks whether to retry a task.
#[derive(Debug, Clone)]
pub struct RetryModal {
    pub task_id: String,
    pub task_name: String,
    pub retryable: bool,
}

impl RetryModal {
    /// Where the retry window goes: up to 36 by 10 cells in the middle.
    pub fn centered_rect(area: Area) -> (r: Area)
        ensures
            r == centered_in(area, 36, 10),
    {
        centered(area, 36, 10)
    }
}

} // verus!
