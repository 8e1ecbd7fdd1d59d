use cute_borders::frame_drawer::{FrameDrawer, ShapeKind, TargetOutcome};
use cute_borders::geometry::{PixelSize, Rect};

fn rect(left: i32, top: i32, right: i32, bottom: i32) -> Rect {
    Rect { left, top, right, bottom }
}

fn ok() -> TargetOutcome {
    TargetOutcome { first_ok: true, retry_ok: false }
}

fn fail() -> TargetOutcome {
    TargetOutcome { first_ok: false, retry_ok: false }
}

#[test]
fn construction_fails_closed() {
    assert!(FrameDrawer::new(None, &ok()).is_none());
    assert!(FrameDrawer::new(Some(rect(0, 0, 10, 10)), &fail()).is_none());
}

#[test]
fn construction_retries_once() {
    let retried = TargetOutcome { first_ok: false, retry_ok: true };
    let d = FrameDrawer::new(Some(rect(0, 0, 10, 20)), &retried).unwrap();
    assert_eq!(d.target, Some(PixelSize { width: 10, height: 20 }));
    assert_eq!(d.scene, None);
    assert!(!d.visible);
}

#[test]
fn equal_sizes_never_force_a_rebuild() {
    let mut d = FrameDrawer::new(Some(rect(0, 0, 100, 50)), &ok()).unwrap();
    d.set_scene(rect(0, 0, 100, 50), 0x00AA00, 4, 0);
    assert_eq!(d.brush, Some(0x00AA00));
    // same width and height, even from a different rectangle: reused,
    // so the brush survives
    let reused = d.ensure_target(PixelSize { width: 100, height: 50 }, &fail());
    assert!(reused);
    assert_eq!(d.brush, Some(0x00AA00));
    assert_eq!(d.target, Some(PixelSize { width: 100, height: 50 }));
}

#[test]
fn differing_sizes_force_a_rebuild() {
    let mut d = FrameDrawer::new(Some(rect(0, 0, 100, 50)), &ok()).unwrap();
    d.set_scene(rect(0, 0, 100, 50), 0x00AA00, 4, 0);
    assert_eq!(d.brush, Some(0x00AA00));
    // one pixel of height difference: released and rebuilt, which
    // drops the brush with the old target
    let okres = d.ensure_target(PixelSize { width: 100, height: 51 }, &ok());
    assert!(okres);
    assert_eq!(d.target, Some(PixelSize { width: 100, height: 51 }));
    assert_eq!(d.brush, None);
}

#[test]
fn rebuild_failure_leaves_surface_absent() {
    let mut d = FrameDrawer::new(Some(rect(0, 0, 100, 50)), &ok()).unwrap();
    let okres = d.ensure_target(PixelSize { width: 7, height: 7 }, &fail());
    assert!(!okres);
    assert_eq!(d.target, None);
    assert_eq!(d.brush, None);
    // the next successful call restores the surface
    assert!(d.ensure_target(PixelSize { width: 7, height: 7 }, &ok()));
    assert_eq!(d.target, Some(PixelSize { width: 7, height: 7 }));
}

#[test]
fn update_twice_redraws_at_most_once() {
    let client = rect(96, 96, 504, 404);
    let local = rect(0, 0, 408, 308);
    let mut d = FrameDrawer::new(Some(client), &ok()).unwrap();
    let first = d.set_border_rect(local, 0x00C6A0F6, 4, 8, client, &ok());
    assert!(first);
    let second = d.set_border_rect(local, 0x00C6A0F6, 4, 8, client, &ok());
    assert!(!second);
}

#[test]
fn scene_delta_detects_each_component() {
    let client = rect(0, 0, 200, 100);
    let local = rect(0, 0, 200, 100);
    let mut d = FrameDrawer::new(Some(client), &ok()).unwrap();
    assert!(d.set_border_rect(local, 0x10, 4, 8, client, &ok()));
    // color change redraws
    assert!(d.set_border_rect(local, 0x20, 4, 8, client, &ok()));
    // thickness change redraws
    assert!(d.set_border_rect(local, 0x20, 6, 8, client, &ok()));
    // shape-kind change (rounded to square) redraws
    assert!(d.set_border_rect(local, 0x20, 6, 0, client, &ok()));
    // geometry-only change does not redraw
    assert!(!d.set_border_rect(rect(0, 0, 200, 100), 0x20, 6, 0, client, &ok()));
}

#[test]
fn moved_window_with_identical_size_redraws_nothing() {
    let client_a = rect(0, 0, 400, 300);
    let mut d = FrameDrawer::new(Some(client_a), &ok()).unwrap();
    let local = rect(0, 0, 400, 300);
    assert!(d.set_border_rect(local, 0x33, 4, 8, client_a, &ok()));
    // same pixel size at a new position: no rebuild, no scene delta
    let client_b = rect(500, 500, 900, 800);
    assert!(!d.set_border_rect(local, 0x33, 4, 8, client_b, &ok()));
}

#[test]
fn resized_window_redraws_even_with_unchanged_scene() {
    let client_a = rect(0, 0, 400, 300);
    let mut d = FrameDrawer::new(Some(client_a), &ok()).unwrap();
    let local = rect(0, 0, 400, 300);
    assert!(d.set_border_rect(local, 0x33, 4, 8, client_a, &ok()));
    let client_b = rect(0, 0, 401, 300);
    assert!(d.set_border_rect(rect(0, 0, 401, 300), 0x33, 4, 8, client_b, &ok()));
}

#[test]
fn render_needs_target_brush_and_scene() {
    let client = rect(0, 0, 50, 50);
    let mut d = FrameDrawer::new(Some(client), &ok()).unwrap();
    assert!(d.render().is_none());
    d.set_border_rect(rect(0, 0, 50, 50), 0x00BADA55, 4, 0, client, &ok());
    let cmd = d.render().unwrap();
    assert_eq!(cmd.color, 0x00BADA55);
    assert_eq!(cmd.thickness, 4);
    assert_eq!(cmd.kind, ShapeKind::Square);
    assert_eq!(cmd.corner_radius, 0);
    assert_eq!(cmd.rect, rect(0, 0, 50, 50));
}

#[test]
fn show_forces_one_render_and_hide_toggles() {
    let client = rect(0, 0, 50, 50);
    let mut d = FrameDrawer::new(Some(client), &ok()).unwrap();
    d.set_border_rect(rect(0, 0, 50, 50), 0x1, 4, 8, client, &ok());
    d.hide_overlay();
    assert!(!d.visible);
    let cmd = d.show();
    assert!(d.visible);
    assert!(cmd.is_some());
    assert_eq!(cmd.unwrap().kind, ShapeKind::Rounded);
}
