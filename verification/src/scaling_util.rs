//! Per-monitor DPI scaling applied to border thickness and corner radius.

use vstd::prelude::*;

verus! {

/// Baseline DPI at which lengths are specified unscaled.
pub const BASE_DPI: u32 = 96;

/// `value` scaled from the 96-DPI baseline to the monitor's DPI,
/// rounded down.
pub open spec fn spec_scale_by_dpi(value: u32, dpi: u32) -> u32
    recommends
        value * dpi <= u32::MAX,
{
    ((value * dpi) / (BASE_DPI as int)) as u32
}

pub struct ScalingUtil {}

impl ScalingUtil {
    /// Scale a device-independent length by a monitor's effective DPI.
    pub fn scale_by_dpi(value: u32, dpi: u32) -> (r: u32)
        requires
            value * dpi <= u32::MAX,
        ensures
            r == spec_scale_by_dpi(value, dpi),
    {
        (value * dpi) / BASE_DPI
    }
}

} // verus!
