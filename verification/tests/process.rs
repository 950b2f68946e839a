use space_manager::process::{command_matches_class, PendingSpawn, ProcessLauncher};
use space_manager::text::{parse_i32, parse_i64, parse_usize};

#[test]
fn class_fallback_rules() {
    assert!(command_matches_class("kitty --single-instance", "kitty"));
    assert!(command_matches_class("brave --app=https://mail", "brave-browser"));
    assert!(command_matches_class("brave --app=https://mail", "webapp-mail"));
    assert!(!command_matches_class("brave --app=https://mail", "kitty"));
    assert!(command_matches_class("/usr/bin/chromium --x", "chromium-browser"));
    assert!(command_matches_class("firefox -P work", "org.mozilla.firefox"));
    assert!(!command_matches_class("firefox", "chromium"));
}

#[test]
fn match_by_pid_first() {
    let mut l = ProcessLauncher::new();
    l.record_spawn_at("kitty".to_string(), None, 10, 1000);
    l.record_spawn_at("brave".to_string(), Some("win_5".to_string()), 20, 1001);
    let s = l.match_window_at("Kitty", Some(20), 1002).unwrap();
    assert_eq!(s.command, "brave");
    assert_eq!(s.window_id, Some("win_5".to_string()));
    assert_eq!(l.pending().len(), 1);
}

#[test]
fn match_by_class_when_pid_unknown() {
    let mut l = ProcessLauncher::new();
    l.record_spawn_at("Brave --profile=work".to_string(), None, 10, 1000);
    let s = l.match_window_at("Brave-browser", Some(999), 1005).unwrap();
    assert_eq!(s.command, "Brave --profile=work");
    assert!(l.pending().is_empty());
    assert!(l.match_window_at("brave-browser", None, 1005).is_none());
}

#[test]
fn old_spawns_are_not_matched_and_are_dropped() {
    let mut l = ProcessLauncher::new();
    l.record_spawn_at("kitty".to_string(), None, 10, 1000);
    assert!(l.match_window_at("kitty", Some(10), 1010).is_none());
    assert_eq!(l.pending().len(), 1);
    l.cleanup_old_spawns(1010);
    assert!(l.pending().is_empty());
    l.record_spawn_at("a".to_string(), None, 1, 1000);
    // Recording a later spawn drops the ones no longer recent.
    l.record_spawn_at("b".to_string(), None, 2, 1020);
    let left: Vec<PendingSpawn> = l.pending();
    assert_eq!(left.len(), 1);
    assert_eq!(left[0].command, "b");
}

#[test]
fn parse_numbers_like_std() {
    assert_eq!(parse_i64("-9223372036854775808"), Some(i64::MIN));
    assert_eq!(parse_i64("9223372036854775807"), Some(i64::MAX));
    assert_eq!(parse_i64("9223372036854775808"), None);
    assert_eq!(parse_i64("+12"), Some(12));
    assert_eq!(parse_i64("-"), None);
    assert_eq!(parse_i32("2147483648"), None);
    assert_eq!(parse_i32("-2147483648"), Some(i32::MIN));
    assert_eq!(parse_usize("+7"), Some(7));
    assert_eq!(parse_usize("7a"), None);
    assert_eq!(parse_usize(""), None);
}
