use cute_borders::config::{Config, RuleMatch, WindowRule};
use cute_borders::frame_drawer::TargetOutcome;
use cute_borders::geometry::Rect;
use cute_borders::registry::{
    dispatch, EventKind, RefreshInputs, RegistryAction, WindowInfo, WindowRegistry,
};
use cute_borders::window_border::PositionCmd;
use cute_borders::{WindowHandle, WS_EX_TOOLWINDOW};

fn rect(left: i32, top: i32, right: i32, bottom: i32) -> Rect {
    Rect { left, top, right, bottom }
}

fn handle(id: u64) -> WindowHandle {
    WindowHandle { id }
}

fn info(id: u64, visible: bool, title: &str, ex_style: u32, frame: Option<Rect>) -> WindowInfo {
    WindowInfo {
        handle: handle(id),
        visible,
        title: title.to_string(),
        class_name: format!("class{}", id),
        ex_style,
        frame,
        dpi: 96,
        corner_preference: 2,
    }
}

fn config() -> Config {
    Config {
        hide_tray_icon: None,
        window_rules: vec![WindowRule {
            rule_match: RuleMatch::Global,
            contains: None,
            active_border_color: "#c6a0f6".to_string(),
            inactive_border_color: "#ffffff".to_string(),
        }],
    }
}

fn inputs(foreground: u64) -> RefreshInputs {
    RefreshInputs { foreground: Some(handle(foreground)), accent: None, rainbow: 0 }
}

fn all_ok(n: usize) -> Vec<TargetOutcome> {
    vec![TargetOutcome { first_ok: true, retry_ok: false }; n]
}

#[test]
fn dispatch_table() {
    assert_eq!(dispatch(EventKind::Create), RegistryAction::Assign);
    assert_eq!(dispatch(EventKind::LocationChange), RegistryAction::UpdatePosition);
    assert_eq!(dispatch(EventKind::MoveSizeEnd), RegistryAction::UpdatePosition);
    assert_eq!(dispatch(EventKind::ForegroundChange), RegistryAction::FullRefresh);
    assert_eq!(dispatch(EventKind::Destroy), RegistryAction::SweepOnly);
    assert_eq!(dispatch(EventKind::MinimizeStart), RegistryAction::SweepOnly);
    assert_eq!(dispatch(EventKind::MinimizeEnd), RegistryAction::SweepOnly);
    assert_eq!(dispatch(EventKind::ObjectFocus), RegistryAction::SweepOnly);
}

#[test]
fn one_reconcile_pass_tracks_exactly_the_visible_eligible_windows() {
    // whatever notifications were dropped or reordered beforehand, one
    // pass against the live enumeration settles the tracked set
    let mut reg = WindowRegistry::new();
    let live = vec![
        info(1, true, "Editor", 0, Some(rect(0, 0, 100, 100))),
        info(2, true, "Palette", WS_EX_TOOLWINDOW, Some(rect(0, 0, 50, 50))),
        info(3, false, "Ghost", 0, Some(rect(0, 0, 10, 10))),
        info(4, true, "", 0, Some(rect(0, 0, 10, 10))),
    ];
    let (destroyed, created) = reg.reconcile(&live, &config(), &inputs(1), &all_ok(4));
    assert!(destroyed.is_empty());
    assert_eq!(created, vec![handle(1)]);
    assert!(reg.overlay_rect_of(handle(1)).is_some());
    assert!(reg.overlay_rect_of(handle(2)).is_none());
    assert!(reg.overlay_rect_of(handle(3)).is_none());
    assert!(reg.overlay_rect_of(handle(4)).is_none());
    assert_eq!(reg.overlay_rect_of(handle(1)), Some(rect(-4, -4, 104, 104)));
    assert!(reg.render_command_of(handle(1)).is_some());
}

#[test]
fn reconcile_is_idempotent() {
    let mut reg = WindowRegistry::new();
    let live = vec![
        info(1, true, "Editor", 0, Some(rect(0, 0, 100, 100))),
        info(2, true, "Terminal", 0, Some(rect(10, 10, 200, 200))),
    ];
    reg.reconcile(&live, &config(), &inputs(1), &all_ok(2));
    let before1 = reg.overlay_rect_of(handle(1));
    let before2 = reg.overlay_rect_of(handle(2));
    let (destroyed, created) = reg.reconcile(&live, &config(), &inputs(1), &all_ok(2));
    assert!(destroyed.is_empty());
    assert!(created.is_empty());
    assert_eq!(reg.overlay_rect_of(handle(1)), before1);
    assert_eq!(reg.overlay_rect_of(handle(2)), before2);
}

#[test]
fn ineligible_window_is_demoted_and_remembered() {
    let mut reg = WindowRegistry::new();
    let live = vec![info(1, true, "Editor", 0, Some(rect(0, 0, 100, 100)))];
    reg.reconcile(&live, &config(), &inputs(1), &all_ok(1));
    assert!(reg.overlay_rect_of(handle(1)).is_some());

    // the window turns into a tool window: border dropped
    let live2 = vec![info(1, true, "Editor", WS_EX_TOOLWINDOW, Some(rect(0, 0, 100, 100)))];
    let (destroyed, created) = reg.reconcile(&live2, &config(), &inputs(1), &all_ok(1));
    assert_eq!(destroyed, vec![handle(1)]);
    assert!(created.is_empty());
    assert!(reg.overlay_rect_of(handle(1)).is_none());

    // and back: border reconstructed
    let (destroyed, created) = reg.reconcile(&live, &config(), &inputs(1), &all_ok(1));
    assert!(destroyed.is_empty());
    assert_eq!(created, vec![handle(1)]);
    assert!(reg.overlay_rect_of(handle(1)).is_some());
}

#[test]
fn failed_construction_leaves_window_untracked_until_retry() {
    let mut reg = WindowRegistry::new();
    let live = vec![info(1, true, "Editor", 0, Some(rect(0, 0, 100, 100)))];
    let fail = vec![TargetOutcome { first_ok: false, retry_ok: false }];
    let (_, created) = reg.reconcile(&live, &config(), &inputs(1), &fail);
    assert!(created.is_empty());
    assert!(reg.overlay_rect_of(handle(1)).is_none());
    // the next pass retries and succeeds
    let (_, created) = reg.reconcile(&live, &config(), &inputs(1), &all_ok(1));
    assert_eq!(created, vec![handle(1)]);
}

#[test]
fn create_event_assigns_eligible_window() {
    let mut reg = WindowRegistry::new();
    let live = vec![info(5, true, "Notes", 0, Some(rect(20, 20, 120, 220)))];
    let r = reg.handle_event(EventKind::Create, handle(5), &live, &config(), &inputs(5), &all_ok(1));
    assert!(r.destroyed.is_empty());
    assert_eq!(r.created, vec![handle(5)]);
    assert!(r.moved.is_none());
    assert!(r.redraws.is_empty());
    assert_eq!(reg.overlay_rect_of(handle(5)), Some(rect(16, 16, 124, 224)));
}

#[test]
fn create_event_ignores_tool_windows() {
    let mut reg = WindowRegistry::new();
    let live = vec![info(5, true, "Notes", WS_EX_TOOLWINDOW, Some(rect(20, 20, 120, 220)))];
    let r = reg.handle_event(EventKind::Create, handle(5), &live, &config(), &inputs(5), &all_ok(1));
    assert!(r.created.is_empty());
    assert!(reg.overlay_rect_of(handle(5)).is_none());
}

#[test]
fn destroy_is_detected_by_the_sweep() {
    let mut reg = WindowRegistry::new();
    let live = vec![info(1, true, "Editor", 0, Some(rect(0, 0, 100, 100)))];
    reg.reconcile(&live, &config(), &inputs(1), &all_ok(1));
    // the window vanished; whatever event arrives next evicts it
    let gone: Vec<WindowInfo> = Vec::new();
    let r = reg.handle_event(EventKind::Destroy, handle(1), &gone, &config(), &inputs(1), &all_ok(0));
    assert_eq!(r.destroyed, vec![handle(1)]);
    assert!(reg.overlay_rect_of(handle(1)).is_none());
}

#[test]
fn move_event_updates_only_that_position_and_redraws_nothing() {
    let mut reg = WindowRegistry::new();
    let live = vec![
        info(1, true, "Editor", 0, Some(rect(0, 0, 400, 300))),
        info(2, true, "Terminal", 0, Some(rect(50, 50, 250, 250))),
    ];
    reg.reconcile(&live, &config(), &inputs(1), &all_ok(2));
    let other_before = reg.overlay_rect_of(handle(2));

    // the window moved without resizing
    let moved = vec![
        info(1, true, "Editor", 0, Some(rect(500, 500, 900, 800))),
        info(2, true, "Terminal", 0, Some(rect(50, 50, 250, 250))),
    ];
    let r = reg.handle_event(
        EventKind::MoveSizeEnd,
        handle(1),
        &moved,
        &config(),
        &inputs(1),
        &all_ok(2),
    );
    assert_eq!(r.moved, Some(PositionCmd::Move(rect(496, 496, 904, 804))));
    assert!(r.redraws.is_empty());
    assert!(r.created.is_empty());
    assert_eq!(reg.overlay_rect_of(handle(2)), other_before);

    // a refresh afterwards finds no delta: identical size, colors,
    // thickness and shape mean zero redraws
    let r2 = reg.handle_event(
        EventKind::ForegroundChange,
        handle(1),
        &moved,
        &config(),
        &inputs(1),
        &all_ok(2),
    );
    assert_eq!(r2.redraws.len(), 2);
    assert!(r2.redraws.iter().all(|(_, draw)| draw.is_none()));
}

#[test]
fn minimized_window_is_hidden_not_destroyed() {
    let mut reg = WindowRegistry::new();
    let live = vec![info(1, true, "Editor", 0, Some(rect(0, 0, 400, 300)))];
    reg.reconcile(&live, &config(), &inputs(1), &all_ok(1));

    // minimized: still visible to enumeration, but the bounds query fails
    let minimized = vec![info(1, true, "Editor", 0, None)];
    let r = reg.handle_event(
        EventKind::LocationChange,
        handle(1),
        &minimized,
        &config(),
        &inputs(1),
        &all_ok(1),
    );
    assert_eq!(r.moved, Some(PositionCmd::Hide));
    assert!(r.destroyed.is_empty());
    // still tracked, at its last known bounds
    assert_eq!(reg.overlay_rect_of(handle(1)), Some(rect(-4, -4, 404, 304)));
}

#[test]
fn foreground_change_recolors_every_entity() {
    let mut cfg = config();
    cfg.window_rules[0].inactive_border_color = "#000000".to_string();
    let mut reg = WindowRegistry::new();
    let live = vec![
        info(1, true, "Editor", 0, Some(rect(0, 0, 400, 300))),
        info(2, true, "Terminal", 0, Some(rect(50, 50, 250, 250))),
    ];
    reg.reconcile(&live, &cfg, &inputs(1), &all_ok(2));

    // focus moves from window 1 to window 2: both colors change
    let r = reg.handle_event(
        EventKind::ForegroundChange,
        handle(2),
        &live,
        &cfg,
        &inputs(2),
        &all_ok(2),
    );
    assert_eq!(r.redraws.len(), 2);
    assert!(r.redraws.iter().all(|(_, draw)| draw.is_some()));
    let active = 0x00F6A0C6;
    let inactive = 0x00000000;
    for (h, draw) in &r.redraws {
        let cmd = draw.unwrap();
        if *h == handle(2) {
            assert_eq!(cmd.color, active);
        } else {
            assert_eq!(cmd.color, inactive);
        }
    }
}

#[test]
fn terminate_tears_down_every_entity() {
    let mut reg = WindowRegistry::new();
    let live = vec![
        info(1, true, "Editor", 0, Some(rect(0, 0, 400, 300))),
        info(2, true, "Terminal", 0, Some(rect(50, 50, 250, 250))),
        info(3, true, "Palette", WS_EX_TOOLWINDOW, Some(rect(0, 0, 10, 10))),
    ];
    reg.reconcile(&live, &config(), &inputs(1), &all_ok(3));
    let mut destroyed = reg.terminate();
    destroyed.sort();
    assert_eq!(destroyed, vec![handle(1), handle(2)]);
    assert!(reg.entries.is_empty());
    assert!(reg.overlay_rect_of(handle(1)).is_none());
}
