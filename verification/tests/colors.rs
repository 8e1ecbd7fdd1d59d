use cute_borders::config::{Config, RuleMatch, WindowRule};
use cute_borders::util::{hex_to_colorref, hex_to_rgb, parse_hex_color};
use cute_borders::{COLOR_INVALID, DWMWA_COLOR_DEFAULT, DWMWA_COLOR_NONE};

fn rule(kind: RuleMatch, pat: Option<&str>, active: &str, inactive: &str) -> WindowRule {
    WindowRule {
        rule_match: kind,
        contains: pat.map(|p| p.to_string()),
        active_border_color: active.to_string(),
        inactive_border_color: inactive.to_string(),
    }
}

fn config_of(rules: Vec<WindowRule>) -> Config {
    Config { hide_tray_icon: None, window_rules: rules }
}

#[test]
fn hex_parses_to_packed_bbggrr() {
    assert_eq!(parse_hex_color("#c6a0f6"), Some(0x00F6A0C6));
    assert_eq!(parse_hex_color("#ffffff"), Some(0x00FFFFFF));
    assert_eq!(parse_hex_color("#000000"), Some(0));
    assert_eq!(parse_hex_color("#08A0fF"), Some(0x00FFA008));
    assert_eq!(parse_hex_color("08A0fF"), None);
    assert_eq!(parse_hex_color("#08A0f"), None);
    assert_eq!(parse_hex_color("#08A0fg"), None);
    assert_eq!(parse_hex_color(""), None);
}

#[test]
fn hex_to_rgb_marks_invalid_with_all_ones() {
    assert_eq!(hex_to_rgb("#c6a0f6"), 0x00F6A0C6);
    assert_eq!(hex_to_rgb("not a color"), 0xFFFFFFFF);
    assert_eq!(hex_to_rgb("#gggggg"), 0xFFFFFFFF);
}

#[test]
fn colorref_keywords() {
    assert_eq!(hex_to_colorref("transparent", None, 0), DWMWA_COLOR_NONE);
    assert_eq!(hex_to_colorref("accent", Some(0x00112233), 0), 0x00332211);
    assert_eq!(hex_to_colorref("accent", None, 0), DWMWA_COLOR_DEFAULT);
    assert_eq!(hex_to_colorref("rainbow", None, 0x00ABCDEF), 0x00ABCDEF);
    assert_eq!(hex_to_colorref("#c6a0f6", None, 0), 0x00F6A0C6);
    assert_eq!(hex_to_colorref("bogus", None, 0), COLOR_INVALID);
}

#[test]
fn reset_returns_compositor_defaults() {
    let cfg = config_of(vec![rule(RuleMatch::Global, None, "#ff0000", "#00ff00")]);
    let colors = cute_borders::config::get_colors_for_window("t", "c", true, &cfg, None, 0);
    assert_eq!(colors, (DWMWA_COLOR_DEFAULT, DWMWA_COLOR_DEFAULT));
}

#[test]
fn focused_notes_window_gets_title_rule_over_global_default() {
    // a window titled "Notes" against a global default plus a
    // case-insensitive title rule: the title rule decides
    let cfg = config_of(vec![
        rule(RuleMatch::Global, None, "#808080", "#808080"),
        rule(RuleMatch::Title, Some("note"), "#c6a0f6", "#ffffff"),
    ]);
    let colors = cute_borders::config::get_colors_for_window("Notes", "", false, &cfg, None, 0);
    assert_eq!(colors.0, 0x00F6A0C6);
    assert_eq!(colors.1, 0x00FFFFFF);
}

#[test]
fn global_rule_matches_without_pattern() {
    let cfg = config_of(vec![rule(RuleMatch::Global, None, "#010203", "#040506")]);
    let colors = cute_borders::config::get_colors_for_window("anything", "any", false, &cfg, None, 0);
    assert_eq!(colors, (0x00030201, 0x00060504));
}

#[test]
fn unmatched_title_falls_back_to_global() {
    let cfg = config_of(vec![
        rule(RuleMatch::Global, None, "#808080", "#808080"),
        rule(RuleMatch::Title, Some("note"), "#c6a0f6", "#ffffff"),
    ]);
    let colors = cute_borders::config::get_colors_for_window("Readme", "", false, &cfg, None, 0);
    assert_eq!(colors, (0x00808080, 0x00808080));
}

#[test]
fn patternless_title_rule_never_matches() {
    let cfg = config_of(vec![rule(RuleMatch::Title, None, "#ff0000", "#ff0000")]);
    let colors = cute_borders::config::get_colors_for_window("anything", "", false, &cfg, None, 0);
    assert_eq!(colors, (COLOR_INVALID, COLOR_INVALID));
}

#[test]
fn first_matching_pattern_rule_wins() {
    let cfg = config_of(vec![
        rule(RuleMatch::Title, Some("bar"), "#111111", "#111111"),
        rule(RuleMatch::Title, Some("bar"), "#222222", "#222222"),
    ]);
    let colors = cute_borders::config::get_colors_for_window("rebar", "", false, &cfg, None, 0);
    assert_eq!(colors, (0x00111111, 0x00111111));
}

#[test]
fn class_rule_matches_class_not_title() {
    let cfg = config_of(vec![rule(RuleMatch::Class, Some("chrome"), "#0000ff", "#000001")]);
    let miss = cute_borders::config::get_colors_for_window("chrome", "Explorer", false, &cfg, None, 0);
    assert_eq!(miss, (COLOR_INVALID, COLOR_INVALID));
    let hit = cute_borders::config::get_colors_for_window("x", "Chrome_WidgetWin_1", false, &cfg, None, 0);
    assert_eq!(hit, (0x00FF0000, 0x00010000));
}

#[test]
fn matching_is_case_insensitive_both_ways() {
    // fails if lowercasing handed its input back unchanged
    let cfg = config_of(vec![rule(RuleMatch::Title, Some("nOtE"), "#c6a0f6", "#ffffff")]);
    let colors = cute_borders::config::get_colors_for_window("MY NOTES", "", false, &cfg, None, 0);
    assert_eq!(colors.0, 0x00F6A0C6);
}

#[test]
fn later_global_overrides_earlier_default() {
    let cfg = config_of(vec![
        rule(RuleMatch::Global, None, "#111111", "#111111"),
        rule(RuleMatch::Global, None, "#222222", "#222222"),
    ]);
    let colors = cute_borders::config::get_colors_for_window("t", "c", false, &cfg, None, 0);
    assert_eq!(colors, (0x00222222, 0x00222222));
}

#[test]
fn config_snapshot_and_reload() {
    let mut cfg = Config::new();
    assert_eq!(cfg.window_rules.len(), 0);
    let fresh = config_of(vec![rule(RuleMatch::Global, None, "#010101", "#020202")]);
    cfg.reload(fresh);
    let snap = cfg.get();
    assert_eq!(snap.window_rules.len(), 1);
    assert_eq!(snap.window_rules[0].active_border_color, "#010101");
    assert_eq!(snap.hide_tray_icon, None);
}
