use cute_borders::cleanup::Cleanup;
use cute_borders::scaling_util::ScalingUtil;
use cute_borders::text::{contains_bytes, matches_ci, str_eq};
use cute_borders::window_corner_util::WindowCornerUtil;
use cute_borders::is_window_eligible;
use cute_borders::WS_EX_TOOLWINDOW;

#[test]
fn eligibility_requires_visible_titled_non_tool() {
    assert!(is_window_eligible(true, "Editor", 0));
    assert!(!is_window_eligible(false, "Editor", 0));
    assert!(!is_window_eligible(true, "", 0));
    assert!(!is_window_eligible(true, "Editor", WS_EX_TOOLWINDOW));
    assert!(!is_window_eligible(true, "Editor", WS_EX_TOOLWINDOW | 0x8));
    // unrelated style bits change nothing
    assert!(is_window_eligible(true, "Editor", 0x40000));
}

#[test]
fn eligibility_is_deterministic() {
    for _ in 0..3 {
        assert!(is_window_eligible(true, "same window", 0));
        assert!(!is_window_eligible(true, "", 0));
    }
}

#[test]
fn byte_containment() {
    assert!(contains_bytes(&vec![1, 2, 3, 4], &vec![2, 3]));
    assert!(contains_bytes(&vec![1, 2, 3, 4], &vec![1, 2, 3, 4]));
    assert!(contains_bytes(&vec![1, 2, 3, 4], &vec![]));
    assert!(contains_bytes(&vec![], &vec![]));
    assert!(!contains_bytes(&vec![1, 2, 3, 4], &vec![2, 4]));
    assert!(!contains_bytes(&vec![1, 2], &vec![1, 2, 3]));
}

#[test]
fn case_insensitive_matching_folds_both_sides() {
    assert!(matches_ci("Notes", "note"));
    assert!(matches_ci("NOTES", "nOtE"));
    assert!(matches_ci("GRÜN", "grün"));
    assert!(!matches_ci("Notes", "notebook"));
    assert!(matches_ci("anything", ""));
}

#[test]
fn string_equality_by_characters() {
    assert!(str_eq("transparent", "transparent"));
    assert!(!str_eq("transparent", "transparenT"));
    assert!(!str_eq("transparent", "transparen"));
    assert!(str_eq("", ""));
}

#[test]
fn dpi_scaling_rounds_down() {
    assert_eq!(ScalingUtil::scale_by_dpi(4, 96), 4);
    assert_eq!(ScalingUtil::scale_by_dpi(4, 120), 5);
    assert_eq!(ScalingUtil::scale_by_dpi(4, 144), 6);
    assert_eq!(ScalingUtil::scale_by_dpi(8, 192), 16);
    assert_eq!(ScalingUtil::scale_by_dpi(0, 144), 0);
}

#[test]
fn corner_preference_to_radius() {
    assert_eq!(WindowCornerUtil::corners_radius(0), 8);
    assert_eq!(WindowCornerUtil::corners_radius(1), 0);
    assert_eq!(WindowCornerUtil::corners_radius(2), 8);
    assert_eq!(WindowCornerUtil::corners_radius(3), 4);
    assert_eq!(WindowCornerUtil::corners_radius(-1), 0);
    assert_eq!(WindowCornerUtil::corners_radius(7), 0);
}

#[test]
fn shutdown_release_is_idempotent() {
    let mut c = Cleanup::new();
    c.add();
    c.add();
    assert_eq!(c.hooks, 2);
    assert!(c.release());
    assert!(!c.release());
    assert!(!c.release());
    assert_eq!(c.join_all(), 2);
    assert_eq!(c.hooks, 0);
}
