use space_manager::geometry::{
    change_zone_size_from, compute_anchor_margins, edge_distance_fits_check, edge_zone_hit, margins_fit_check,
    monitor_for_window, monitors_fit_check, overlay_width_fits_check, overlay_width_px, perpendicular_area,
    place_overlay, zone_axis, Anchor, Rect, DEFAULT_OVERLAY_WIDTH,
};
use space_manager::hypr::MonitorInfo;

#[test]
fn test_compute_anchor_margins_bot_left() {
    let win = Rect::new(0, 0, 800, 600);
    let monitor = Rect::new(0, 0, 1920, 1080);
    let (anchor, mx, my) = compute_anchor_margins(win, monitor, "bot_left", 8, 26, 250, 36);
    assert_eq!(anchor, Anchor::BotLeft);
    assert_eq!(mx, 8);
    assert_eq!(my, 506);
}

#[test]
fn test_compute_anchor_margins_top_right() {
    let win = Rect::new(100, 50, 800, 600);
    let monitor = Rect::new(0, 0, 1920, 1080);
    let (anchor, mx, my) = compute_anchor_margins(win, monitor, "top_right", 8, 26, 250, 36);
    assert_eq!(anchor, Anchor::TopRight);
    assert_eq!(mx, 1028);
    assert_eq!(my, 76);
}

#[test]
fn test_compute_anchor_margins_clamps_negative() {
    let win = Rect::new(-100, 0, 800, 600);
    let monitor = Rect::new(0, 0, 1920, 1080);
    let (_anchor, mx, _my) = compute_anchor_margins(win, monitor, "bot_left", 8, 26, 250, 36);
    assert_eq!(mx, 0);
}

#[test]
fn test_compute_anchor_margins_multi_monitor_offset() {
    let win = Rect::new(1920, 0, 800, 600);
    let monitor = Rect::new(1920, 0, 1920, 1080);
    let (anchor, mx, _my) = compute_anchor_margins(win, monitor, "bot_left", 8, 26, 250, 36);
    assert_eq!(anchor, Anchor::BotLeft);
    assert_eq!(mx, 8);
}

#[test]
fn anchor_margins_bot_right_and_top_left() {
    let win = Rect::new(100, 50, 800, 600);
    let monitor = Rect::new(0, 0, 1920, 1080);
    // left = 100 + 800 - 250 - 8 = 642 -> right margin 1920 - 892 = 1028;
    // top = 50 + 600 - 36 - 26 = 588 -> bottom margin 1080 - 624 = 456.
    assert_eq!(compute_anchor_margins(win, monitor, "bot_right", 8, 26, 250, 36), (Anchor::BotRight, 1028, 456));
    assert_eq!(compute_anchor_margins(win, monitor, "top_left", 8, 26, 250, 36), (Anchor::TopLeft, 108, 76));
    // Unknown names fall back to bottom-left.
    assert_eq!(compute_anchor_margins(win, monitor, "middle", 8, 26, 250, 36), (Anchor::BotLeft, 108, 456));
}

#[test]
fn anchor_margins_clamped_to_monitor_size() {
    let win = Rect::new(5000, 5000, 800, 600);
    let monitor = Rect::new(0, 0, 1920, 1080);
    let (_, mx, my) = compute_anchor_margins(win, monitor, "top_left", 8, 26, 250, 36);
    assert_eq!((mx, my), (1920, 1080));
}

#[test]
fn anchor_from_config_names() {
    assert_eq!(Anchor::from_config("bot_left"), Anchor::BotLeft);
    assert_eq!(Anchor::from_config("bot_right"), Anchor::BotRight);
    assert_eq!(Anchor::from_config("top_left"), Anchor::TopLeft);
    assert_eq!(Anchor::from_config("top_right"), Anchor::TopRight);
    assert_eq!(Anchor::from_config(""), Anchor::BotLeft);
}

#[test]
fn edge_zone_sides() {
    let win = Rect::new(0, 0, 800, 600);
    assert!(edge_zone_hit(win, (750, 300), "right", 100));
    assert!(!edge_zone_hit(win, (600, 300), "right", 100));
    assert!(edge_zone_hit(win, (400, 50), "top", 100));
    assert!(!edge_zone_hit(win, (400, 200), "top", 100));
    assert!(edge_zone_hit(win, (400, 550), "bottom", 100));
    assert!(!edge_zone_hit(win, (400, 400), "bottom", 100));
    // Left, and an unknown side, measure from the left edge.
    let w2 = Rect::new(100, 100, 800, 600);
    assert!(edge_zone_hit(w2, (150, 400), "left", 250));
    assert!(!edge_zone_hit(w2, (500, 400), "unknown", 50));
    // Outside the window on the left is no hit.
    assert!(!edge_zone_hit(w2, (90, 400), "left", 250));
}

#[test]
fn edge_zone_zero_size_window_never_hit() {
    assert!(!edge_zone_hit(Rect::new(0, 0, 0, 0), (0, 0), "left", 250));
    assert!(!edge_zone_hit(Rect::new(10, 10, 100, 0), (10, 10), "top", 250));
}

#[test]
fn change_zone_floors_and_axis() {
    let win = Rect::new(0, 0, 800, 600);
    assert_eq!(zone_axis(win, "left"), 800);
    assert_eq!(zone_axis(win, "bottom"), 600);
    // 12.5% of 100 is 12, below the 40 px floor.
    assert_eq!(change_zone_size_from(100, 12, 40), 40);
    assert_eq!(change_zone_size_from(800, 100, 50), 100);
    assert_eq!(change_zone_size_from(0, 0, 250), 250);
    assert_eq!(change_zone_size_from(-5, 0, -3), 0);
}

#[test]
fn overlay_width_variants() {
    assert_eq!(overlay_width_px("250", 250, 250, 8), 250);
    // zone 250 minus 2 * 8.
    assert_eq!(overlay_width_px("change_area_x", 250, 100, 8), 234);
    assert_eq!(overlay_width_px("change_area_y", 250, 100, 8), 84);
    assert_eq!(overlay_width_px("not-a-number", 250, 250, 8), DEFAULT_OVERLAY_WIDTH);
    // Never below 1.
    assert_eq!(overlay_width_px("change_area_x", 10, 10, 8), 1);
    assert_eq!(overlay_width_px("-40", 10, 10, 8), 1);
}

fn monitor(x: i32, y: i32) -> MonitorInfo {
    MonitorInfo {
        id: 0,
        name: "M".to_string(),
        x,
        y,
        width: 1920,
        height: 1080,
        active_workspace_id: 1,
        focused: false,
    }
}

#[test]
fn monitor_for_window_picks_containing_monitor() {
    let monitors = vec![monitor(0, 0), monitor(1920, 0)];
    assert_eq!(monitor_for_window(Rect::new(2000, 10, 100, 100), &monitors), Some(1));
    assert_eq!(monitor_for_window(Rect::new(10, 10, 100, 100), &monitors), Some(0));
    // Off every monitor: the first one.
    assert_eq!(monitor_for_window(Rect::new(-500, -500, 100, 100), &monitors), Some(0));
    assert_eq!(monitor_for_window(Rect::new(0, 0, 1, 1), &[]), None);
}

#[test]
fn arithmetic_bound_checks() {
    let win = Rect::new(0, 0, 800, 600);
    assert!(edge_distance_fits_check(win, (10, 10), "left"));
    assert!(!edge_distance_fits_check(Rect::new(i32::MAX, 0, 10, 10), (0, 0), "right"));
    assert!(!edge_distance_fits_check(Rect::new(1, 0, 800, 600), (i32::MIN, 0), "left"));
    assert!(overlay_width_fits_check("change_area_x", 250, 100, 8));
    assert!(!overlay_width_fits_check("change_area_x", i32::MIN, 100, 8));
    assert!(overlay_width_fits_check("250", i32::MIN, i32::MIN, i32::MAX));
    assert!(margins_fit_check(win, Rect::new(0, 0, 1920, 1080), Anchor::BotLeft, 8, 26, 250, 36));
    assert!(!margins_fit_check(Rect::new(i32::MAX, 0, 10, 10), Rect::new(i32::MIN, 0, 10, 10), Anchor::TopLeft, 0, 0, 1, 1));
    assert_eq!(perpendicular_area("top"), "left");
    assert_eq!(perpendicular_area("left"), "top");
    assert_eq!(perpendicular_area("anything"), "top");
    let mon = MonitorInfo { id: 0, name: "M".to_string(), x: i32::MAX, y: 0, width: 10, height: 10, active_workspace_id: 1, focused: true };
    assert!(!monitors_fit_check(&[mon.clone()]));
    assert_eq!(place_overlay(win, &[mon], "bot_left", 8, 26, 250, 36), None);
    let ok = MonitorInfo { id: 1, name: "DP-1".to_string(), x: 0, y: 0, width: 1920, height: 1080, active_workspace_id: 1, focused: true };
    assert_eq!(place_overlay(win, &[ok], "bot_left", 8, 26, 250, 36), Some((0, Anchor::BotLeft, 8, 506)));
}

#[test]
fn zero_sized_window_never_hit_even_far_away() {
    assert!(!edge_zone_hit(Rect::new(i32::MAX, 0, 0, 0), (i32::MIN, 0), "left", 250));
    assert!(!edge_zone_hit(Rect::new(i32::MAX, i32::MAX, 10, 0), (i32::MIN, i32::MIN), "right", 250));
}
