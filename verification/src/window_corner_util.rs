//! Corner rounding: mapping a window's corner preference, as the
//! compositor reports it, to the radius the border is stroked with.

use vstd::prelude::*;

verus! {

/// Compositor corner-preference values.
pub const DWMWCP_DEFAULT: i32 = 0;
pub const DWMWCP_DONOTROUND: i32 = 1;
pub const DWMWCP_ROUND: i32 = 2;
pub const DWMWCP_ROUNDSMALL: i32 = 3;

/// Radius in device-independent pixels for a corner preference. Default
/// and round corners use the large radius; small-round the small one;
/// anything else (including the query having failed, reported as a
/// negative value) draws square corners.
pub open spec fn spec_corners_radius(corner_preference: i32) -> u32 {
    if corner_preference == DWMWCP_ROUND || corner_preference == DWMWCP_DEFAULT {
        8
    } else if corner_preference == DWMWCP_ROUNDSMALL {
        4
    } else {
        0
    }
}

pub struct WindowCornerUtil;

impl WindowCornerUtil {
    /// Corner radius, before DPI scaling, for a corner preference.
    pub fn corners_radius(corner_preference: i32) -> (r: u32)
        ensures
            r == spec_corners_radius(corner_preference),
    {
        if corner_preference == DWMWCP_ROUND {
            8
        } else if corner_preference == DWMWCP_ROUNDSMALL {
            4
        } else if corner_preference == DWMWCP_DEFAULT {
            8
        } else {
            0
        }
    }
}

} // verus!
