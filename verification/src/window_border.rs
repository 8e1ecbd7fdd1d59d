//! One border entity: tracks one application window, owns one overlay
//! window and its drawing state, and keeps the overlay's geometry and
//! scene in step with the tracked window. Geometry queries and the
//! message pump live in the platform adapter; the entity consumes their
//! results and returns the overlay operations to perform.

use vstd::prelude::*;
use crate::WindowHandle;
use crate::BORDER_THICKNESS;
use crate::frame_drawer::{DrawCommand, FrameDrawer, TargetOutcome};
use crate::geometry::{Rect, outset_rect, rect_outsettable, rect_wf, spec_outset};

verus! {

/// Identifier of the per-border refresh timer.
pub const REFRESH_BORDER_TIMER_ID: usize = 123;

/// Period of the refresh timer in milliseconds: the event-loss backstop.
pub const REFRESH_BORDER_INTERVAL: u32 = 100;

/// DPI values the scaling arithmetic accepts; real monitors sit far
/// below this.
pub open spec fn dpi_ok(dpi: u32) -> bool {
    8 * dpi <= u32::MAX
}

/// A frame rectangle the entity can work with: ordered corners and room
/// for the border outset.
pub open spec fn frame_ok(frame: Option<Rect>) -> bool {
    match frame {
        Some(r) => rect_wf(r) && rect_outsettable(r),
        None => true,
    }
}

/// What a position update asks of the overlay window: hide it, or move
/// and show it at a rectangle (without forcing a repaint).
#[derive(Clone, Copy, PartialEq, Eq, Structural, Debug)]
pub enum PositionCmd {
    Hide,
    Move(Rect),
}

/// A border entity: alive exactly while its tracked window is tracked
/// with a border. Construction that fails produces no entity, and
/// dropping the entity destroys the overlay with it, so entity and
/// overlay live and die together.
#[derive(Clone, Copy, PartialEq, Eq, Structural, Debug)]
pub struct WindowBorder {
    /// The application window this border follows.
    pub tracking_window: WindowHandle,
    /// Retained drawing state of the overlay.
    pub frame_drawer: FrameDrawer,
    /// Last frame bounds successfully queried for the tracked window.
    pub last_frame: Option<Rect>,
}

/// The scene rectangle in overlay-local coordinates: the outset frame
/// translated to the origin.
pub open spec fn spec_local_rect(frame: Rect) -> Rect {
    let o = spec_outset(frame);
    Rect { left: 0, top: 0, right: (o.right - o.left) as i32, bottom: (o.bottom - o.top) as i32 }
}

impl WindowBorder {
    pub open spec fn wf(self) -> bool {
        &&& self.frame_drawer.wf()
        &&& frame_ok(self.last_frame)
    }

    /// State transition of `update_border_position`: a failed bounds
    /// query hides the overlay but keeps the entity (a minimized window
    /// self-corrects on a later tick); a successful one caches the frame
    /// and moves the overlay to the outset rectangle, re-showing it.
    pub open spec fn spec_update_position(self, frame: Option<Rect>) -> (WindowBorder, PositionCmd) {
        match frame {
            None => (
                WindowBorder { frame_drawer: FrameDrawer { visible: false, ..self.frame_drawer }, ..self },
                PositionCmd::Hide,
            ),
            Some(r) => (
                WindowBorder {
                    frame_drawer: FrameDrawer { visible: true, ..self.frame_drawer },
                    last_frame: Some(r),
                    ..self
                },
                PositionCmd::Move(spec_outset(r)),
            ),
        }
    }

    /// Follow the tracked window: `frame` is the adapter's fresh bounds
    /// query (`None` when it failed, as for a minimized window).
    pub fn update_border_position(&mut self, frame: Option<Rect>) -> (cmd: PositionCmd)
        requires
            old(self).wf(),
            frame_ok(frame),
        ensures
            (*final(self), cmd) == old(self).spec_update_position(frame),
            final(self).wf(),
    {
        match frame {
            None => {
                self.frame_drawer.hide_overlay();
                PositionCmd::Hide
            },
            Some(r) => {
                self.frame_drawer.visible = true;
                self.last_frame = Some(r);
                PositionCmd::Move(outset_rect(&r))
            },
        }
    }

    /// State transition of `update_border_properties`: with no fresh
    /// bounds nothing changes; otherwise color follows focus, thickness
    /// and corner radius follow the DPI scale, and the drawer decides
    /// whether anything differs enough to redraw.
    pub open spec fn spec_update_properties(
        self,
        frame: Option<Rect>,
        focused: bool,
        dpi: u32,
        corner_pref: i32,
        active_color: u32,
        inactive_color: u32,
        oc: TargetOutcome,
    ) -> (WindowBorder, bool) {
        match frame {
            None => (self, false),
            Some(r) => {
                let color = if focused {
                    active_color
                } else {
                    inactive_color
                };
                let thickness = crate::scaling_util::spec_scale_by_dpi(BORDER_THICKNESS as u32, dpi);
                let radius = crate::scaling_util::spec_scale_by_dpi(
                    crate::window_corner_util::spec_corners_radius(corner_pref),
                    dpi,
                );
                let (d, redraw) = self.frame_drawer.spec_set_border_rect(
                    spec_local_rect(r),
                    color,
                    thickness,
                    radius,
                    spec_outset(r),
                    oc,
                );
                (WindowBorder { frame_drawer: d, ..self }, redraw)
            },
        }
    }

    /// Recompute color (focus), thickness and corner radius (DPI scale)
    /// and forward the scene to the drawer, which alone decides whether
    /// a redraw is needed.
    pub fn update_border_properties(
        &mut self,
        frame: Option<Rect>,
        focused: bool,
        dpi: u32,
        corner_pref: i32,
        active_color: u32,
        inactive_color: u32,
        outcome: &TargetOutcome,
    ) -> (redraw: bool)
        requires
            old(self).wf(),
            frame_ok(frame),
            dpi_ok(dpi),
        ensures
            (*final(self), redraw) == old(self).spec_update_properties(
                frame,
                focused,
                dpi,
                corner_pref,
                active_color,
                inactive_color,
                *outcome,
            ),
            final(self).wf(),
    {
        match frame {
            None => false,
            Some(r) => {
                let color = if focused {
                    active_color
                } else {
                    inactive_color
                };
                let thickness = crate::scaling_util::ScalingUtil::scale_by_dpi(
                    BORDER_THICKNESS as u32,
                    dpi,
                );
                let base_radius = crate::window_corner_util::WindowCornerUtil::corners_radius(
                    corner_pref,
                );
                let radius = crate::scaling_util::ScalingUtil::scale_by_dpi(base_radius, dpi);
                let client = outset_rect(&r);
                let local = Rect {
                    left: 0,
                    top: 0,
                    right: client.right - client.left,
                    bottom: client.bottom - client.top,
                };
                self.frame_drawer.set_border_rect(local, color, thickness, radius, client, outcome)
            },
        }
    }

    /// State transition of `new`: no bounds or no render target means no
    /// entity (fail closed; the next reconciliation retries). On success
    /// the overlay stands at the outset rectangle, visible, with an
    /// initial property update applied.
    pub open spec fn spec_new(
        tracking_window: WindowHandle,
        frame: Option<Rect>,
        focused: bool,
        dpi: u32,
        corner_pref: i32,
        active_color: u32,
        inactive_color: u32,
        oc: TargetOutcome,
    ) -> Option<WindowBorder> {
        match frame {
            None => None,
            Some(r) => match FrameDrawer::spec_new(Some(spec_outset(r)), oc) {
                None => None,
                Some(d) => {
                    let b = WindowBorder {
                        tracking_window,
                        frame_drawer: FrameDrawer { visible: true, ..d },
                        last_frame: Some(r),
                    };
                    Some(
                        b.spec_update_properties(
                            Some(r),
                            focused,
                            dpi,
                            corner_pref,
                            active_color,
                            inactive_color,
                            oc,
                        ).0,
                    )
                },
            },
        }
    }

    /// Construct the border entity for one window. `frame` is the
    /// tracked window's queried bounds; a failed query (window cloaked
    /// or minimized at creation time) aborts construction.
    pub fn new(
        tracking_window: WindowHandle,
        frame: Option<Rect>,
        focused: bool,
        dpi: u32,
        corner_pref: i32,
        active_color: u32,
        inactive_color: u32,
        outcome: &TargetOutcome,
    ) -> (b: Option<WindowBorder>)
        requires
            frame_ok(frame),
            dpi_ok(dpi),
        ensures
            b == Self::spec_new(
                tracking_window,
                frame,
                focused,
                dpi,
                corner_pref,
                active_color,
                inactive_color,
                *outcome,
            ),
            b matches Some(x) ==> x.wf() && x.tracking_window == tracking_window,
    {
        match frame {
            None => None,
            Some(r) => {
                let client = outset_rect(&r);
                match FrameDrawer::new(Some(client), outcome) {
                    None => None,
                    Some(mut drawer) => {
                        let _ = drawer.show();
                        let mut border = WindowBorder {
                            tracking_window,
                            frame_drawer: drawer,
                            last_frame: Some(r),
                        };
                        let _ = border.update_border_properties(
                            Some(r),
                            focused,
                            dpi,
                            corner_pref,
                            active_color,
                            inactive_color,
                            outcome,
                        );
                        Some(border)
                    },
                }
            },
        }
    }

    /// One firing of the refresh timer, the event-loss backstop: a
    /// position update, then a property update; the adapter then cancels
    /// and re-arms the timer (defensive re-arm against drift and
    /// duplicate firings). Returns the overlay operation and the draw
    /// pass to run, if the update found a delta.
    pub fn handle_timer(
        &mut self,
        frame: Option<Rect>,
        focused: bool,
        dpi: u32,
        corner_pref: i32,
        active_color: u32,
        inactive_color: u32,
        outcome: &TargetOutcome,
    ) -> (r: (PositionCmd, Option<DrawCommand>))
        requires
            old(self).wf(),
            frame_ok(frame),
            dpi_ok(dpi),
        ensures
            ({
                let (b1, cmd) = old(self).spec_update_position(frame);
                let (b2, redraw) = b1.spec_update_properties(
                    frame,
                    focused,
                    dpi,
                    corner_pref,
                    active_color,
                    inactive_color,
                    *outcome,
                );
                &&& *final(self) == b2
                &&& r.0 == cmd
                &&& r.1 == (if redraw {
                    b2.frame_drawer.spec_render()
                } else {
                    None::<DrawCommand>
                })
            }),
            final(self).wf(),
    {
        let cmd = self.update_border_position(frame);
        let redraw = self.update_border_properties(
            frame,
            focused,
            dpi,
            corner_pref,
            active_color,
            inactive_color,
            outcome,
        );
        let draw = if redraw {
            self.frame_drawer.render()
        } else {
            None
        };
        (cmd, draw)
    }
}

/// A border entity's property update is idempotent: run twice with
/// unchanged inputs, the second run changes nothing and issues no
/// redraw, so at most one redraw fires in total.
pub proof fn lemma_update_properties_idempotent(
    b: WindowBorder,
    frame: Option<Rect>,
    focused: bool,
    dpi: u32,
    corner_pref: i32,
    active_color: u32,
    inactive_color: u32,
    oc: TargetOutcome,
)
    requires
        b.wf(),
    ensures
        ({
            let (b1, _r1) = b.spec_update_properties(
                frame,
                focused,
                dpi,
                corner_pref,
                active_color,
                inactive_color,
                oc,
            );
            let (b2, r2) = b1.spec_update_properties(
                frame,
                focused,
                dpi,
                corner_pref,
                active_color,
                inactive_color,
                oc,
            );
            b2 == b1 && !r2
        }),
{
    match frame {
        None => {},
        Some(r) => {
            let color = if focused {
                active_color
            } else {
                inactive_color
            };
            let thickness = crate::scaling_util::spec_scale_by_dpi(BORDER_THICKNESS as u32, dpi);
            let radius = crate::scaling_util::spec_scale_by_dpi(
                crate::window_corner_util::spec_corners_radius(corner_pref),
                dpi,
            );
            crate::frame_drawer::lemma_set_border_rect_idempotent(
                b.frame_drawer,
                spec_local_rect(r),
                color,
                thickness,
                radius,
                spec_outset(r),
                oc,
            );
        },
    }
}

/// Messages the overlay's window procedure distinguishes.
#[derive(Clone, Copy, PartialEq, Eq, Structural, Debug)]
pub enum BorderMessage {
    /// A timer fired; the payload is the timer identifier.
    Timer(usize),
    /// The overlay window is being torn down.
    NcDestroy,
    EraseBkgnd,
    SetCursor,
    Other,
}

/// What the window procedure does with a message.
#[derive(Clone, Copy, PartialEq, Eq, Structural, Debug)]
pub enum WndProcAction {
    /// Run the periodic refresh, then cancel and re-arm the timer.
    RefreshAndRearm,
    /// Cancel the timer and detach the entity back-reference.
    KillTimerAndDetach,
    /// Consume the message, answering zero.
    HandledZero,
    /// Consume the message, answering one (suppresses background erase
    /// and cursor changes on the click-through overlay).
    HandledOne,
    /// Hand the message to the default procedure.
    Default,
}

/// Dispatch table of the overlay's window procedure.
pub open spec fn spec_wnd_proc_action(msg: BorderMessage) -> WndProcAction {
    match msg {
        BorderMessage::Timer(id) => if id == REFRESH_BORDER_TIMER_ID {
            WndProcAction::RefreshAndRearm
        } else {
            WndProcAction::HandledZero
        },
        BorderMessage::NcDestroy => WndProcAction::KillTimerAndDetach,
        BorderMessage::EraseBkgnd => WndProcAction::HandledOne,
        BorderMessage::SetCursor => WndProcAction::HandledOne,
        BorderMessage::Other => WndProcAction::Default,
    }
}

/// Decide what the window procedure does with one message.
pub fn wnd_proc_action(msg: BorderMessage) -> (a: WndProcAction)
    ensures
        a == spec_wnd_proc_action(msg),
{
    match msg {
        BorderMessage::Timer(id) => if id == REFRESH_BORDER_TIMER_ID {
            WndProcAction::RefreshAndRearm
        } else {
            WndProcAction::HandledZero
        },
        BorderMessage::NcDestroy => WndProcAction::KillTimerAndDetach,
        BorderMessage::EraseBkgnd => WndProcAction::HandledOne,
        BorderMessage::SetCursor => WndProcAction::HandledOne,
        BorderMessage::Other => WndProcAction::Default,
    }
}

} // verus!
