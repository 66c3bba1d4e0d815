//! The panes, and the placement of the pop-up windows.

use vstd::prelude::*;

verus! {

/// A rectangle of terminal cells.
#[derive(Debug, Clone, Copy, PartialEq, Eq, Structural)]
pub struct Area {
    pub x: u16,
    pub y: u16,
    pub width: u16,
    pub height: u16,
}

/// `a - b`, or zero where `b` exceeds `a`.
pub open spec fn minus(a: int, b: int) -> int {
    if a >= b {
        a - b
    } else {
        0
    }
}

/// The smaller of `a` and `b`.
pub open spec fn smaller(a: int, b: int) -> int {
    if a <= b {
        a
    } else {
        b
    }
}

/// A window of up to `width` by `height` cells in the middle of a screen of
/// the size of `area`. The window keeps four cells free in each direction
/// where the screen allows it.
pub open spec fn centered_in(area: Area, width: u16, height: u16) -> Area {
    let w = smaller(width as int, minus(area.width as int, 4));
    let h = smaller(height as int, minus(area.height as int, 4));
    Area {
        x: (minus(area.width as int, w) / 2) as u16,
        y: (minus(area.height as int, h) / 2) as u16,
        width: w as u16,
        height: h as u16,
    }
}

/// A window of up to `width` by `height` cells in the middle of a screen of
/// the size of `area`.
pub fn centered(area: Area, width: u16, height: u16) -> (r: Area)
    ensures
        r == centered_in(area, width, height),
        r.x + r.width <= area.width,
        r.y + r.height <= area.height,
{
    let free_w = if area.width >= 4 {
        area.width - 4
    } else {
        0
    };
    let free_h = if area.height >= 4 {
        area.height - 4
    } else {
        0
    };
    let w = if width <= free_w {
        width
    } else {
        free_w
    };
    let h = if height <= free_h {
        height
    } else {
        free_h
    };
    Area { x: (area.width - w) / 2, y: (area.height - h) / 2, width: w, height: h }
}

/// Which pane takes the keyboard input.
#[derive(Debug, Clone, Copy, PartialEq, Eq, Structural)]
pub enum FocusedPane {
    TaskList,
    Detail,
}

impl FocusedPane {
    /// The other pane.
    pub fn toggle(self) -> (r: Self)
        ensures
            r == (match self {
                FocusedPane::TaskList => FocusedPane::Detail,
                FocusedPane::Detail => FocusedPane::TaskList,
            }),
    {
        match self {
            FocusedPane::TaskList => FocusedPane::Detail,
            FocusedPane::Detail => FocusedPane::TaskList,
        }
    }
}

} // verus!
