//! Core of a desktop border-overlay service: a registry of tracked top-level
//! windows, one border entity per tracked window, and a retained render
//! surface per border. The platform adapter (window system, compositor,
//! GPU) lives outside this crate; it feeds the core plain snapshots of
//! window state and executes the commands the core hands back.

use vstd::prelude::*;

pub mod cleanup;
pub mod config;
pub mod frame_drawer;
pub mod geometry;
pub mod registry;
pub mod scaling_util;
pub mod text;
pub mod util;
pub mod window_border;
pub mod window_corner_util;

verus! {

/// Extended window-style bit marking a "tool window"; such windows never
/// receive a border.
pub const WS_EX_TOOLWINDOW: u32 = 0x80;

/// Outset, in pixels before DPI scaling, between the tracked window's
/// frame bounds and the overlay window; also the unscaled stroke width.
pub const BORDER_THICKNESS: i32 = 4;

/// Sentinel telling the compositor to use its default border color.
pub const DWMWA_COLOR_DEFAULT: u32 = 0xFFFFFFFF;

/// Sentinel telling the compositor to suppress the border entirely.
pub const DWMWA_COLOR_NONE: u32 = 0xFFFFFFFE;

/// Color installed when a rule's color string cannot be resolved.
pub const COLOR_INVALID: u32 = 0x000000FF;

/// Opaque platform-assigned identity of a top-level window; equality and
/// hashing go by the raw value. The core never dereferences it.
#[derive(Clone, Copy, PartialEq, Eq, Structural, Debug, Hash, PartialOrd, Ord)]
pub struct WindowHandle {
    pub id: u64,
}

/// A window should receive a border exactly when it is visible, has a
/// non-empty title, and is not a tool window.
pub open spec fn spec_eligible(visible: bool, title: Seq<char>, ex_style: u32) -> bool {
    visible && title.len() > 0 && ex_style & WS_EX_TOOLWINDOW == 0
}

/// Eligibility predicate over a window's visibility, title and extended
/// style bits. Pure: the result depends on the three arguments alone.
pub fn is_window_eligible(visible: bool, title: &str, ex_style: u32) -> (r: bool)
    ensures
        r == spec_eligible(visible, title@, ex_style),
{
    visible && !title.is_empty() && (ex_style & WS_EX_TOOLWINDOW) == 0
}

/// Eligibility is decided by the triple alone, and an empty title or a
/// tool-window style always yields ineligible, whatever the rest says.
pub proof fn lemma_eligibility_excludes(visible: bool, title: Seq<char>, ex_style: u32)
    requires
        title.len() == 0 || ex_style & WS_EX_TOOLWINDOW != 0,
    ensures
        !spec_eligible(visible, title, ex_style),
{
}

} // verus!
