//! Geometry primitives: sizes, rectangles, margins, and the per-block
//! layout record.

use vstd::math::abs;
use vstd::prelude::*;

verus! {

/// A width and a height.
#[derive(Clone, Copy, Debug, PartialEq, Eq, Structural)]
pub struct Size {
    pub w: u32,
    pub h: u32,
}

impl Default for Size {
    /// The empty size.
    fn default() -> (r: Size)
        ensures
            r == (Size { w: 0, h: 0 }),
    {
        Size { w: 0, h: 0 }
    }
}

impl Size {
    /// The rectangle of this size placed at `(x, y)`.
    pub fn into_rect(&self, x: i32, y: i32) -> (r: Rect)
        ensures
            r == (Rect { x, y, w: self.w, h: self.h }),
    {
        Rect { x, y, w: self.w, h: self.h }
    }
}

/// An axis-aligned rectangle: position and extent.
#[derive(Clone, Copy, Debug, PartialEq, Eq, Structural)]
pub struct Rect {
    pub x: i32,
    pub y: i32,
    pub w: u32,
    pub h: u32,
}

impl Default for Rect {
    /// The empty rectangle at the origin.
    fn default() -> (r: Rect)
        ensures
            r == (Rect { x: 0, y: 0, w: 0, h: 0 }),
    {
        Rect { x: 0, y: 0, w: 0, h: 0 }
    }
}

impl Rect {
    /// A rectangle from its four coordinates.
    pub fn new(x: i32, y: i32, w: u32, h: u32) -> (r: Rect)
        ensures
            r == (Rect { x, y, w, h }),
    {
        Rect { x, y, w, h }
    }

    /// The rectangle shrunk by the margins on all four sides.
    pub fn adjusted(&self, margins: &Margins) -> (r: Rect)
        requires
            margins.left + margins.right <= self.w,
            margins.top + margins.bottom <= self.h,
            margins.left <= i32::MAX,
            margins.top <= i32::MAX,
            self.x + margins.left <= i32::MAX,
            self.y + margins.top <= i32::MAX,
        ensures
            r == (Rect {
                x: (self.x + margins.left) as i32,
                y: (self.y + margins.top) as i32,
                w: (self.w - margins.left - margins.right) as u32,
                h: (self.h - margins.top - margins.bottom) as u32,
            }),
    {
        Rect {
            x: self.x + margins.left as i32,
            y: self.y + margins.top as i32,
            w: self.w - margins.left - margins.right,
            h: self.h - margins.top - margins.bottom,
        }
    }

    /// The x coordinate of the right edge, measured from the position's
    /// magnitude as the drawing code does.
    pub fn right(&self) -> (r: u32)
        requires
            self.x != i32::MIN,
            abs(self.x as int) + self.w <= u32::MAX,
        ensures
            r == abs(self.x as int) + self.w,
    {
        let ax: u32 = if self.x >= 0 {
            self.x as u32
        } else {
            (-self.x) as u32
        };
        ax + self.w
    }
}

/// Subtraction that stops at zero, as the drawing code needs for
/// coordinates that a wide label could push below the origin.
pub open spec fn spec_sat_sub(a: int, b: int) -> int {
    if a >= b {
        a - b
    } else {
        0
    }
}

/// Space reserved around a block.
#[derive(Clone, Copy, Debug, PartialEq, Eq, Structural)]
pub struct Margins {
    pub left: u32,
    pub top: u32,
    pub right: u32,
    pub bottom: u32,
}

impl Default for Margins {
    /// No margins.
    fn default() -> (r: Margins)
        ensures
            r == (Margins { left: 0, top: 0, right: 0, bottom: 0 }),
    {
        Margins { left: 0, top: 0, right: 0, bottom: 0 }
    }
}

/// The measured state every layout block carries: its computed size, its
/// margins, and whether diagnostic outlines are drawn.
#[derive(Clone, Copy, Debug, PartialEq, Eq, Structural)]
pub struct Layout {
    pub size: Size,
    pub margins: Margins,
    pub debug: bool,
}

impl Default for Layout {
    /// An unmeasured block: empty, no margins, diagnostics off.
    fn default() -> (r: Layout)
        ensures
            r == (Layout {
                size: Size { w: 0, h: 0 },
                margins: Margins { left: 0, top: 0, right: 0, bottom: 0 },
                debug: false,
            }),
    {
        Layout { size: Size { w: 0, h: 0 }, margins: Margins { left: 0, top: 0, right: 0, bottom: 0 }, debug: false }
    }
}

} // verus!
