use cute_borders::frame_drawer::{ShapeKind, TargetOutcome};
use cute_borders::geometry::Rect;
use cute_borders::window_border::{
    wnd_proc_action, BorderMessage, PositionCmd, WindowBorder, WndProcAction,
    REFRESH_BORDER_TIMER_ID,
};
use cute_borders::WindowHandle;

fn rect(left: i32, top: i32, right: i32, bottom: i32) -> Rect {
    Rect { left, top, right, bottom }
}

fn ok() -> TargetOutcome {
    TargetOutcome { first_ok: true, retry_ok: false }
}

fn handle(id: u64) -> WindowHandle {
    WindowHandle { id }
}

fn make_border() -> WindowBorder {
    WindowBorder::new(handle(7), Some(rect(100, 100, 500, 400)), true, 96, 2, 0x00AA, 0x00BB, &ok())
        .unwrap()
}

#[test]
fn construction_fails_without_frame_bounds() {
    assert!(WindowBorder::new(handle(7), None, true, 96, 2, 0x00AA, 0x00BB, &ok()).is_none());
}

#[test]
fn construction_fails_when_target_creation_fails() {
    let fail = TargetOutcome { first_ok: false, retry_ok: false };
    assert!(
        WindowBorder::new(handle(7), Some(rect(0, 0, 10, 10)), true, 96, 2, 0x00AA, 0x00BB, &fail)
            .is_none()
    );
}

#[test]
fn construction_applies_initial_properties() {
    let b = make_border();
    assert_eq!(b.tracking_window, handle(7));
    assert!(b.frame_drawer.visible);
    assert_eq!(b.last_frame, Some(rect(100, 100, 500, 400)));
    let scene = b.frame_drawer.scene.unwrap();
    assert_eq!(scene.color, 0x00AA);
    assert_eq!(scene.thickness, 4);
    assert_eq!(scene.kind, ShapeKind::Rounded);
}

#[test]
fn minimized_window_hides_overlay_but_keeps_entity() {
    let mut b = make_border();
    // the bounds query fails while minimized
    let cmd = b.update_border_position(None);
    assert_eq!(cmd, PositionCmd::Hide);
    assert!(!b.frame_drawer.visible);
    // the entity survives: its drawing state is intact
    assert!(b.frame_drawer.target.is_some());
    assert_eq!(b.last_frame, Some(rect(100, 100, 500, 400)));

    // on restore, the next timer tick re-shows the overlay at the
    // correct outset bounds
    let (pos, _draw) = b.handle_timer(Some(rect(100, 100, 500, 400)), true, 96, 2, 0x00AA, 0x00BB, &ok());
    assert_eq!(pos, PositionCmd::Move(rect(96, 96, 504, 404)));
    assert!(b.frame_drawer.visible);
}

#[test]
fn position_update_moves_overlay_to_outset_bounds() {
    let mut b = make_border();
    let cmd = b.update_border_position(Some(rect(10, 20, 110, 220)));
    assert_eq!(cmd, PositionCmd::Move(rect(6, 16, 114, 224)));
    assert_eq!(b.last_frame, Some(rect(10, 20, 110, 220)));
}

#[test]
fn property_update_twice_redraws_at_most_once() {
    let mut b = make_border();
    let frame = Some(rect(100, 100, 500, 400));
    let first = b.update_border_properties(frame, false, 96, 2, 0x00AA, 0x00BB, &ok());
    assert!(first); // focus changed, so the color changed
    let second = b.update_border_properties(frame, false, 96, 2, 0x00AA, 0x00BB, &ok());
    assert!(!second);
}

#[test]
fn property_update_without_bounds_is_a_no_op() {
    let mut b = make_border();
    let before = b;
    let redraw = b.update_border_properties(None, true, 96, 2, 0x00AA, 0x00BB, &ok());
    assert!(!redraw);
    assert_eq!(b, before);
}

#[test]
fn focus_decides_the_color() {
    let mut b = make_border();
    let frame = Some(rect(100, 100, 500, 400));
    b.update_border_properties(frame, false, 96, 2, 0x00AA, 0x00BB, &ok());
    assert_eq!(b.frame_drawer.scene.unwrap().color, 0x00BB);
    b.update_border_properties(frame, true, 96, 2, 0x00AA, 0x00BB, &ok());
    assert_eq!(b.frame_drawer.scene.unwrap().color, 0x00AA);
}

#[test]
fn dpi_scales_thickness_and_radius() {
    let mut b = make_border();
    let frame = Some(rect(100, 100, 500, 400));
    b.update_border_properties(frame, true, 144, 2, 0x00AA, 0x00BB, &ok());
    let scene = b.frame_drawer.scene.unwrap();
    assert_eq!(scene.thickness, 6); // 4 * 144 / 96
    assert_eq!(b.frame_drawer.corner_radius, 12); // 8 * 144 / 96
}

#[test]
fn square_corner_preference_draws_square() {
    let mut b = make_border();
    let frame = Some(rect(100, 100, 500, 400));
    b.update_border_properties(frame, true, 96, 1, 0x00AA, 0x00BB, &ok());
    assert_eq!(b.frame_drawer.scene.unwrap().kind, ShapeKind::Square);
    assert_eq!(b.frame_drawer.corner_radius, 0);
}

#[test]
fn window_procedure_dispatch() {
    assert_eq!(
        wnd_proc_action(BorderMessage::Timer(REFRESH_BORDER_TIMER_ID)),
        WndProcAction::RefreshAndRearm,
    );
    assert_eq!(wnd_proc_action(BorderMessage::Timer(9)), WndProcAction::HandledZero);
    assert_eq!(wnd_proc_action(BorderMessage::NcDestroy), WndProcAction::KillTimerAndDetach);
    assert_eq!(wnd_proc_action(BorderMessage::EraseBkgnd), WndProcAction::HandledOne);
    assert_eq!(wnd_proc_action(BorderMessage::SetCursor), WndProcAction::HandledOne);
    assert_eq!(wnd_proc_action(BorderMessage::Other), WndProcAction::Default);
}
