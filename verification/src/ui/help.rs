//! The help window.

use vstd::prelude::*;

use crate::ui::layout::{centered, centered_in, Area};

verus! {

/// The help window.
#[derive(Debug, Clone, Copy, PartialEq, Eq, Structural)]
pub struct HelpOverlay;

impl HelpOverlay {
    /// Where the help window goes: up to 40 by 15 cells in the middle.
    pub fn centered_rect(area: Area) -> (r: Area)
        ensures
            r == centered_in(area, 40, 15),
    {
        centered(area, 40, 15)
    }
}

} // verus!
