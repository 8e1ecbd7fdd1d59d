//! Rectangles and pixel sizes, as the compositor reports them and as the
//! overlay windows consume them.

use vstd::prelude::*;
use crate::BORDER_THICKNESS;

verus! {

/// A rectangle in screen coordinates: `left`/`top` inclusive corner,
/// `right`/`bottom` exclusive corner.
#[derive(Clone, Copy, PartialEq, Eq, Structural, Debug)]
pub struct Rect {
    pub left: i32,
    pub top: i32,
    pub right: i32,
    pub bottom: i32,
}

/// A render target's dimensions in device pixels.
#[derive(Clone, Copy, PartialEq, Eq, Structural, Debug)]
pub struct PixelSize {
    pub width: u32,
    pub height: u32,
}

/// Corners are ordered, so width and height are non-negative.
pub open spec fn rect_wf(r: Rect) -> bool {
    r.left <= r.right && r.top <= r.bottom
}

/// The border outset fits in the coordinate range, and the outset
/// rectangle's sides still fit in `i32` (frame bounds of real windows are
/// nowhere near these limits).
pub open spec fn rect_outsettable(r: Rect) -> bool {
    &&& i32::MIN + BORDER_THICKNESS <= r.left
    &&& r.right <= i32::MAX - BORDER_THICKNESS
    &&& i32::MIN + BORDER_THICKNESS <= r.top
    &&& r.bottom <= i32::MAX - BORDER_THICKNESS
    &&& r.right - r.left + 2 * BORDER_THICKNESS <= i32::MAX
    &&& r.bottom - r.top + 2 * BORDER_THICKNESS <= i32::MAX
}

/// The frame rectangle grown by the border thickness on every side; the
/// overlay window is placed at this rectangle so the stroked border
/// surrounds the tracked window.
pub open spec fn spec_outset(r: Rect) -> Rect {
    Rect {
        left: (r.left - BORDER_THICKNESS) as i32,
        top: (r.top - BORDER_THICKNESS) as i32,
        right: (r.right + BORDER_THICKNESS) as i32,
        bottom: (r.bottom + BORDER_THICKNESS) as i32,
    }
}

/// Width and height of a well-formed rectangle.
pub open spec fn spec_rect_size(r: Rect) -> PixelSize
    recommends
        rect_wf(r),
{
    PixelSize { width: (r.right - r.left) as u32, height: (r.bottom - r.top) as u32 }
}

pub fn outset_rect(r: &Rect) -> (o: Rect)
    requires
        rect_outsettable(*r),
    ensures
        o == spec_outset(*r),
{
    Rect {
        left: r.left - BORDER_THICKNESS,
        top: r.top - BORDER_THICKNESS,
        right: r.right + BORDER_THICKNESS,
        bottom: r.bottom + BORDER_THICKNESS,
    }
}

pub fn rect_size(r: &Rect) -> (s: PixelSize)
    requires
        rect_wf(*r),
    ensures
        s == spec_rect_size(*r),
{
    let w = (r.right as i64) - (r.left as i64);
    let h = (r.bottom as i64) - (r.top as i64);
    PixelSize { width: w as u32, height: h as u32 }
}

} // verus!
