use space_manager::manager::{ManagerError, SpaceManager};
use space_manager::types::{CommandTemplate, ManagedWindow};

fn window(id: &str, addr: &str) -> ManagedWindow {
    let mut w = ManagedWindow::created_at(format!("cmd-{}", id), 1);
    w.id = id.to_string();
    if !addr.is_empty() {
        w.open(addr.to_string(), "kitty".to_string(), "t".to_string(), Some(10));
    }
    w
}

fn manager_with(n: usize) -> SpaceManager {
    let mut m = SpaceManager::new();
    for i in 0..n {
        m.add_window(window(&format!("w{}", i), &format!("0x{}", i)));
    }
    m
}

fn ids(m: &SpaceManager) -> Vec<String> {
    m.get_windows().into_iter().map(|w| w.id).collect()
}

#[test]
fn new_manager_is_empty() {
    let m = SpaceManager::new();
    assert_eq!(m.window_count(), 0);
    assert_eq!(m.get_current_index(), 0);
    assert!(m.current_window().is_none());
    assert!(m.is_side_mouse_binds_enabled());
    assert!(m.current_id().is_none());
}

#[test]
fn add_window_makes_it_current() {
    let m = manager_with(3);
    assert_eq!(m.get_current_index(), 2);
    assert_eq!(m.current_id(), Some("w2".to_string()));
}

#[test]
fn next_and_prev_wrap_around() {
    let mut m = manager_with(3);
    assert_eq!(m.next().unwrap().id, "w0");
    assert_eq!(m.next().unwrap().id, "w1");
    assert_eq!(m.prev().unwrap().id, "w0");
    assert_eq!(m.prev().unwrap().id, "w2");
    let mut empty = SpaceManager::new();
    assert!(empty.next().is_none());
    assert!(empty.prev().is_none());
}

#[test]
fn remove_before_current_keeps_current_window() {
    let mut m = manager_with(4);
    m.switch_to(2);
    assert_eq!(m.remove_window_at_index(0).unwrap().id, "w0");
    assert_eq!(m.get_current_index(), 1);
    assert_eq!(m.current_id(), Some("w2".to_string()));
}

#[test]
fn remove_current_tail_clamps() {
    let mut m = manager_with(3);
    assert_eq!(m.get_current_index(), 2);
    m.remove_window_at_index(2);
    assert_eq!(m.get_current_index(), 1);
    assert!(m.remove_window_at_index(5).is_none());
    assert_eq!(ids(&m), vec!["w0", "w1"]);
    m.remove_window_at_index(0);
    m.remove_window_at_index(0);
    assert_eq!(m.get_current_index(), 0);
    assert_eq!(m.window_count(), 0);
}

#[test]
fn insert_at_or_before_current_shifts_current() {
    let mut m = manager_with(3);
    m.switch_to(1);
    m.insert_window_at(1, window("new", "0xn"));
    assert_eq!(ids(&m), vec!["w0", "new", "w1", "w2"]);
    assert_eq!(m.current_id(), Some("w1".to_string()));
    m.insert_window_at(99, window("tail", ""));
    assert_eq!(ids(&m).last().unwrap(), "tail");
    assert_eq!(m.current_id(), Some("w1".to_string()));
}

#[test]
fn swap_current_follows_window() {
    let mut m = manager_with(3);
    m.switch_to(0);
    assert_eq!(m.swap_windows(0, 2), Ok(()));
    assert_eq!(ids(&m), vec!["w2", "w1", "w0"]);
    assert_eq!(m.get_current_index(), 2);
    assert_eq!(m.swap_windows(0, 3), Err(ManagerError::InvalidIndex(3)));
    assert_eq!(m.swap_windows(4, 0), Err(ManagerError::InvalidIndex(4)));
}

#[test]
fn switch_to_out_of_range_is_refused() {
    let mut m = manager_with(2);
    assert!(m.switch_to(5).is_none());
    assert_eq!(m.get_current_index(), 1);
    assert_eq!(m.switch_to(0).unwrap().id, "w0");
    assert!(m.switch_to_address("0x1"));
    assert_eq!(m.get_current_index(), 1);
    assert!(!m.switch_to_address("0xnope"));
}

#[test]
fn open_and_close_by_id_and_address() {
    let mut m = SpaceManager::new();
    m.add_window(window("a", ""));
    assert!(m.open_window_by_id("a", "0xa".to_string(), "kitty".to_string(), "T".to_string(), Some(3)));
    assert!(m.current_window().unwrap().is_open());
    assert_eq!(m.find_window_index_by_address("0xa"), Some(0));
    assert!(m.mark_window_closed("0xa"));
    let w = m.current_window().unwrap();
    assert!(!w.is_open());
    assert_eq!(w.title, "(Closed)");
    assert_eq!(w.address, "");
    assert!(!m.mark_window_closed("0xa"));
    assert!(m.open_window_by_command("cmd-a", "0xb".to_string(), "k".to_string(), "T".to_string(), Some(4)));
    assert!(!m.open_window_by_command("cmd-a", "0xc".to_string(), "k".to_string(), "T".to_string(), Some(5)));
    assert!(m.mark_window_closed_by_id("a"));
    assert!(!m.mark_window_closed_by_id("zzz"));
}

#[test]
fn remove_by_address_reports_index() {
    let mut m = manager_with(3);
    assert_eq!(m.remove_window_by_address("0x1"), Some(1));
    assert_eq!(m.remove_window_by_address("0x1"), None);
    assert_eq!(ids(&m), vec!["w0", "w2"]);
    assert_eq!(m.get_current_index(), 1);
    m.remove_all_windows();
    assert_eq!(m.window_count(), 0);
}

#[test]
fn icons_and_templates() {
    let mut m = manager_with(2);
    assert_eq!(m.set_window_icon(1, "★".to_string()), Ok(()));
    assert_eq!(m.get_windows()[1].custom_icon, Some("★".to_string()));
    assert_eq!(m.set_window_icon(2, "x".to_string()), Err(ManagerError::InvalidIndex(2)));
    m.add_template(CommandTemplate { name: "web".to_string(), command: "brave {{url}}".to_string() });
    m.add_template(CommandTemplate { name: "term".to_string(), command: "kitty".to_string() });
    assert_eq!(m.remove_template("web"), Ok(()));
    assert_eq!(m.remove_template("web"), Err(ManagerError::TemplateNotFound));
    let names: Vec<String> = m.get_templates().into_iter().map(|t| t.name).collect();
    assert_eq!(names, vec!["term"]);
    m.set_settings(false, Vec::new());
    assert!(!m.is_side_mouse_binds_enabled());
    assert!(m.get_templates().is_empty());
}

#[test]
fn restore_from_saved_state() {
    let windows = vec![window("a", ""), window("b", ""), window("c", "")];
    let m = SpaceManager::from_saved(windows, Some("b".to_string()), false, Vec::new());
    assert_eq!(m.get_current_index(), 1);
    assert!(!m.is_side_mouse_binds_enabled());
    let windows = vec![window("a", ""), window("b", "")];
    let m = SpaceManager::from_saved(windows, Some("gone".to_string()), true, Vec::new());
    assert_eq!(m.get_current_index(), 0);
    let m = SpaceManager::from_saved(Vec::new(), None, true, Vec::new());
    assert!(m.current_window().is_none());
}

#[test]
fn created_window_id_and_title() {
    let w = ManagedWindow::created_at("kitty".to_string(), 1700000000123);
    assert_eq!(w.id, "win_1700000000123");
    assert_eq!(w.title, "(Not loaded)");
    assert!(!w.is_open());
    let fresh = ManagedWindow::new("kitty".to_string());
    assert!(fresh.id.starts_with("win_"));
    assert_eq!(fresh.spawn_command, "kitty");
}

#[test]
fn test_current_window_empty_returns_none() {
    let m = SpaceManager::new();
    assert!(m.current_window().is_none());
}

#[test]
fn test_remove_at_shifts_current_down() {
    let mut m = manager_with(3);
    m.remove_window_at_index(0);
    assert_eq!(m.get_current_index(), 1);
    assert_eq!(m.current_id(), Some("w2".to_string()));
}

#[test]
fn test_remove_last_clamps_current() {
    let mut m = manager_with(3);
    m.remove_window_at_index(2);
    assert_eq!(m.get_current_index(), 1);
}

#[test]
fn test_insert_before_current_increments() {
    let mut m = manager_with(3);
    m.insert_window_at(0, window("first", ""));
    assert_eq!(m.get_current_index(), 3);
    m.insert_window_at(3, window("at", ""));
    assert_eq!(m.get_current_index(), 4);
    assert_eq!(m.current_id(), Some("w2".to_string()));
}

#[test]
fn test_swap_updates_current() {
    let mut m = manager_with(3);
    m.swap_windows(2, 0).unwrap();
    assert_eq!(m.get_current_index(), 0);
    assert_eq!(m.current_id(), Some("w2".to_string()));
}

#[test]
fn test_next_wraps() {
    let mut m = manager_with(3);
    assert_eq!(m.next().unwrap().id, "w0");
    assert_eq!(m.get_current_index(), 0);
}

#[test]
fn test_prev_wraps() {
    let mut m = manager_with(3);
    m.switch_to(0);
    assert_eq!(m.prev().unwrap().id, "w2");
    assert_eq!(m.get_current_index(), 2);
}

#[test]
fn test_switch_to_out_of_range() {
    let mut m = manager_with(3);
    assert!(m.switch_to(3).is_none());
    assert_eq!(m.get_current_index(), 2);
}

#[test]
fn test_remove_out_of_range() {
    let mut m = manager_with(2);
    assert!(m.remove_window_at_index(2).is_none());
    assert_eq!(m.window_count(), 2);
}

#[test]
fn window_ids_differ_by_creation_millisecond() {
    let a = ManagedWindow::created_at("x".to_string(), 1700000000000);
    let b = ManagedWindow::created_at("x".to_string(), 1700000000001);
    assert_ne!(a.id, b.id);
    assert_eq!(ManagedWindow::created_at("y".to_string(), 7).id, "win_7");
}

#[test]
fn restored_windows_are_not_loaded() {
    let windows = vec![window("a", "0xa"), window("b", "")];
    let mut icon = window("c", "0xc");
    icon.custom_icon = Some("★".to_string());
    let mut all = windows;
    all.push(icon);
    let m = SpaceManager::from_saved(all, Some("c".to_string()), true, Vec::new());
    for w in m.get_windows() {
        assert_eq!(w.address, "");
        assert_eq!(w.class, "");
        assert_eq!(w.title, "");
        assert_eq!(w.pid, None);
    }
    let ws = m.get_windows();
    assert_eq!(ws[0].id, "a");
    assert_eq!(ws[0].spawn_command, "cmd-a");
    assert_eq!(ws[2].custom_icon, Some("★".to_string()));
    assert_eq!(m.get_current_index(), 2);
}

#[test]
fn issued_window_ids_are_distinct() {
    let mut m = SpaceManager::new();
    let a = m.new_window_at("x".to_string(), 1000);
    let b = m.new_window_at("x".to_string(), 1000);
    let c = m.new_window_at("x".to_string(), 999);
    let d = m.new_window_at("x".to_string(), 5000);
    assert_eq!(a.id, "win_1000");
    assert_eq!(b.id, "win_1001");
    assert_eq!(c.id, "win_1002");
    assert_eq!(d.id, "win_5000");
    let e = m.new_window("y".to_string());
    let f = m.new_window("y".to_string());
    assert_ne!(e.id, f.id);
    assert_eq!(m.window_count(), 0);
}
