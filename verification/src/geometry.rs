//! Panel rectangles of the terminal viewport.

use vstd::prelude::*;

verus! {

/// A rectangle of terminal cells, as the layout hands it to a panel.
///
/// A protocol object is derived data: it is valid only for the rectangle it
/// was built for, and the width and height stored beside it decide staleness
/// after a resize.
#[derive(Clone, Copy, Debug, PartialEq, Eq, Structural)]
pub struct PanelRect {
    /// Column of the upper-left corner.
    pub x: u16,
    /// Row of the upper-left corner.
    pub y: u16,
    /// Width in terminal cells.
    pub width: u16,
    /// Height in terminal cells.
    pub height: u16,
}

impl PanelRect {
    /// True when the two rectangles agree in width and height; position is
    /// irrelevant for staleness.
    pub open spec fn spec_same_size(self, other: PanelRect) -> bool {
        self.width == other.width && self.height == other.height
    }

    /// Builds a rectangle from its four components.
    pub fn new(x: u16, y: u16, width: u16, height: u16) -> (r: PanelRect)
        ensures
            r == (PanelRect { x, y, width, height }),
    {
        PanelRect { x, y, width, height }
    }

    /// Decides whether `self` and `other` have the same width and height.
    pub fn same_size(&self, other: &PanelRect) -> (r: bool)
        ensures
            r == self.spec_same_size(*other),
    {
        self.width == other.width && self.height == other.height
    }
}

/// Where inside the panel `area` a rendered image of `actual_width` by
/// `actual_height` cells is drawn: the left panel is aligned to the spine on
/// its right edge, the right panel to the spine on its left edge, and both
/// are centered vertically.
pub fn panel_placement(area: PanelRect, actual_width: u16, actual_height: u16, is_left: bool) -> (r: PanelRect)
    requires
        area.x + area.width <= u16::MAX,
        area.y + area.height <= u16::MAX,
    ensures
        r.width == actual_width,
        r.height == actual_height,
        is_left ==> r.x == area.x + (if actual_width <= area.width {
            (area.width - actual_width) as int
        } else {
            0
        }),
        !is_left ==> r.x == area.x,
        r.y == area.y + (if actual_height <= area.height {
            (area.height - actual_height) as int / 2
        } else {
            0
        }),
{
    let x_offset: u16 = if is_left {
        if actual_width <= area.width {
            area.width - actual_width
        } else {
            0
        }
    } else {
        0
    };
    let y_offset: u16 = if actual_height <= area.height {
        (area.height - actual_height) / 2
    } else {
        0
    };
    PanelRect { x: area.x + x_offset, y: area.y + y_offset, width: actual_width, height: actual_height }
}

} // verus!
