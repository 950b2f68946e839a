use space_manager::daemon::commands::{
    close_space, command_step, gated_switch, hidden_window_addresses, open_window_addresses, switch_step, AfterClose,
    CommandStep, SwitchDir,
};
use space_manager::daemon::events::{
    command_for_button, on_window_closed, on_window_opened, on_workspace_change, should_reset_backoff,
    side_button_command, Backoff, WindowClosed,
};
use space_manager::daemon::recovery::{detect_drift, resync_windows, RepositionState};
use space_manager::geometry::Rect;
use space_manager::hypr::{client_pid, ClientInfo, MonitorInfo};
use space_manager::hypr_settings::{FollowMouseGuard, SuppressionStash};
use space_manager::input::{button_from_event, MouseButton, BTN_EXTRA, BTN_SIDE, EV_KEY};
use space_manager::manager::{ManagerError, SpaceManager};
use space_manager::process::PendingSpawn;
use space_manager::types::{Command, ManagedWindow, Response};

fn window(id: &str, command: &str, addr: &str) -> ManagedWindow {
    let mut w = ManagedWindow::created_at(command.to_string(), 5);
    w.id = id.to_string();
    if !addr.is_empty() {
        w.open(addr.to_string(), "kitty".to_string(), "t".to_string(), Some(10));
    }
    w
}

fn client(addr: &str, ws_name: &str) -> ClientInfo {
    ClientInfo {
        address: addr.to_string(),
        class: "kitty".to_string(),
        title: "t".to_string(),
        pid: Some(1),
        at: (0, 0),
        size: (10, 10),
        workspace_id: -98,
        workspace_name: ws_name.to_string(),
        monitor: Some(0),
    }
}

fn spawn(command: &str, window_id: Option<&str>) -> PendingSpawn {
    PendingSpawn {
        command: command.to_string(),
        spawn_time: 100,
        pid: Some(77),
        window_id: window_id.map(|s| s.to_string()),
    }
}

#[test]
fn backoff_doubles_to_cap_and_resets() {
    let mut b = Backoff::new();
    let delays: Vec<u64> = (0..7).map(|_| b.next()).collect();
    assert_eq!(delays, vec![250, 500, 1000, 2000, 4000, 5000, 5000]);
    b.reset();
    assert_eq!(b.next(), 250);
    assert!(should_reset_backoff(30001));
    assert!(!should_reset_backoff(30000));
}

#[test]
fn side_buttons_map_to_switches() {
    assert_eq!(button_from_event(EV_KEY, BTN_SIDE, 1), Some(MouseButton::Button4));
    assert_eq!(button_from_event(EV_KEY, BTN_EXTRA, 1), Some(MouseButton::Button5));
    assert_eq!(button_from_event(EV_KEY, BTN_SIDE, 0), None);
    assert_eq!(button_from_event(EV_KEY, BTN_SIDE, 2), None);
    assert_eq!(button_from_event(2, BTN_SIDE, 1), None);
    assert_eq!(button_from_event(EV_KEY, 0x110, 1), None);
    assert!(matches!(command_for_button(MouseButton::Button4), Command::Prev));
    assert!(matches!(command_for_button(MouseButton::Button5), Command::Next));
}

#[test]
fn window_opened_reopens_by_id() {
    let mut m = SpaceManager::new();
    m.add_window(window("a", "kitty", ""));
    m.add_window(window("b", "kitty", "0xb"));
    let reopened = on_window_opened(&mut m, spawn("kitty", Some("a")), "0xa".to_string(), "kitty".to_string(), "T".to_string(), Some(77));
    assert!(reopened);
    assert_eq!(m.get_current_index(), 0);
    assert_eq!(m.current_window().unwrap().address, "0xa");
    assert_eq!(m.window_count(), 2);
}

#[test]
fn window_opened_reopens_closed_by_command() {
    let mut m = SpaceManager::new();
    m.add_window(window("a", "brave", ""));
    m.add_window(window("b", "kitty", ""));
    assert!(on_window_opened(&mut m, spawn("kitty", None), "0xk".to_string(), "kitty".to_string(), "T".to_string(), Some(77)));
    assert_eq!(m.current_id(), Some("b".to_string()));
}

#[test]
fn window_opened_without_owner_adds_space() {
    let mut m = SpaceManager::new();
    m.add_window(window("a", "brave", "0xa"));
    let reopened = on_window_opened(&mut m, spawn("kitty", None), "0xk".to_string(), "kitty".to_string(), "T".to_string(), Some(77));
    assert!(!reopened);
    assert_eq!(m.window_count(), 2);
    let w = m.current_window().unwrap();
    assert_eq!(w.address, "0xk");
    assert_eq!(w.spawn_command, "kitty");
    assert!(w.id.starts_with("win_"));
    assert_eq!(m.get_current_index(), 1);
}

#[test]
fn window_closed_advances_only_from_current() {
    let mut m = SpaceManager::new();
    m.add_window(window("a", "x", "0xa"));
    m.add_window(window("b", "x", "0xb"));
    m.add_window(window("c", "x", "0xc"));
    m.switch_to(1);
    assert!(matches!(on_window_closed(&mut m, "0xa"), WindowClosed::Closed));
    assert_eq!(m.get_current_index(), 1);
    match on_window_closed(&mut m, "0xb") {
        WindowClosed::Advanced(w) => assert_eq!(w.id, "c"),
        other => panic!("unexpected {:?}", other),
    }
    assert_eq!(m.get_current_index(), 2);
    assert!(matches!(on_window_closed(&mut m, "0xnone"), WindowClosed::NotTracked));
    assert_eq!(m.window_count(), 3);
}

#[test]
fn close_space_reports_follow_up() {
    let mut m = SpaceManager::new();
    m.add_window(window("a", "x", "0xa"));
    m.add_window(window("b", "x", ""));
    m.add_window(window("c", "x", "0xc"));
    // Removing the current (last) window makes the closed "b" current.
    match close_space(&mut m, 2) {
        Some((removed, AfterClose::Respawn(w))) => {
            assert_eq!(removed.id, "c");
            assert_eq!(w.id, "b");
        }
        other => panic!("unexpected {:?}", other),
    }
    m.switch_to(0);
    match close_space(&mut m, 1) {
        Some((removed, AfterClose::Show(addr))) => {
            assert_eq!(removed.id, "b");
            assert_eq!(addr, "0xa");
        }
        other => panic!("unexpected {:?}", other),
    }
    assert!(close_space(&mut m, 3).is_none());
    assert!(matches!(close_space(&mut m, 0), Some((_, AfterClose::Nothing))));
    assert_eq!(m.window_count(), 0);
}

#[test]
fn cleanup_and_shutdown_targets() {
    let clients = vec![client("0x1", "special:spaces"), client("0x2", "3"), client("0x3", "special:spaces")];
    assert_eq!(hidden_window_addresses(&clients), vec!["0x1".to_string(), "0x3".to_string()]);
    let windows = vec![window("a", "x", "0xa"), window("b", "x", ""), window("c", "x", "0xc")];
    assert_eq!(open_window_addresses(&windows), vec!["0xa".to_string(), "0xc".to_string()]);
}

#[test]
fn drift_detection() {
    let monitors = vec![MonitorInfo {
        id: 0,
        name: "DP-1".to_string(),
        x: 0,
        y: 0,
        width: 1920,
        height: 1080,
        active_workspace_id: 1,
        focused: true,
    }];
    let clients = vec![client("0xa", "1")];
    let current = Some(window("a", "x", "0xa"));
    let last = Some(RepositionState {
        tracked_addr: "0xa".to_string(),
        monitor_name: "DP-1".to_string(),
        monitor_rect: Rect::new(0, 0, 1920, 1080),
    });
    assert!(!detect_drift(&current, &clients, &last, &monitors));
    assert!(detect_drift(&Some(window("b", "x", "0xgone")), &clients, &last, &monitors));
    // A closed current window is never "gone".
    assert!(!detect_drift(&Some(window("b", "x", "")), &clients, &None, &monitors));
    let moved = Some(RepositionState {
        tracked_addr: "0xa".to_string(),
        monitor_name: "DP-1".to_string(),
        monitor_rect: Rect::new(0, 0, 2560, 1440),
    });
    assert!(detect_drift(&current, &clients, &moved, &monitors));
    assert!(detect_drift(&None, &clients, &last, &[]));
}

#[test]
fn follow_mouse_guard_restores_once() {
    let mut stash = SuppressionStash::new();
    let mut guard = FollowMouseGuard::suppressed(Some(1), true, &mut stash);
    assert_eq!(guard.take_restore(&mut stash), Some(1));
    assert_eq!(guard.take_restore(&mut stash), None);
    assert_eq!(stash.take_stash(), None);

    let mut failed = FollowMouseGuard::suppressed(Some(2), false, &mut stash);
    assert_eq!(failed.take_restore(&mut stash), None);

    let _live = FollowMouseGuard::suppressed(Some(3), true, &mut stash);
    // Shutdown restores the stashed value even if the guard never did.
    assert_eq!(stash.take_stash(), Some(3));
    assert_eq!(stash.take_stash(), None);
}

#[test]
fn raw_pid_conversion() {
    assert_eq!(client_pid(1234), Some(1234));
    assert_eq!(client_pid(0), Some(0));
    assert_eq!(client_pid(-1), None);
}

#[test]
fn command_steps_follow_the_spaces() {
    let mut m = SpaceManager::new();
    m.add_window(window("a", "kitty", "0xa"));
    m.add_window(window("b", "brave", ""));
    match command_step(&mut m, Command::Next) {
        CommandStep::Reply(Response::Error(msg)) => assert_eq!(msg, "No active window"),
        other => panic!("unexpected {:?}", other),
    }
    match command_step(&mut m, Command::SwitchTo(0)) {
        CommandStep::Show(addr) => assert_eq!(addr, "0xa"),
        other => panic!("unexpected {:?}", other),
    }
    match command_step(&mut m, Command::Prev) {
        CommandStep::Switch(SwitchDir::Prev, addr) => assert_eq!(addr, "0xa"),
        other => panic!("unexpected {:?}", other),
    }
    match switch_step(&mut m, SwitchDir::Prev) {
        CommandStep::Respawn(w) => assert_eq!(w.id, "b"),
        other => panic!("unexpected {:?}", other),
    }
    match command_step(&mut m, Command::SwitchTo(7)) {
        CommandStep::Reply(Response::Error(msg)) => assert_eq!(msg, "Invalid window index: 7"),
        other => panic!("unexpected {:?}", other),
    }
    assert!(matches!(command_step(&mut m, Command::SwapWindows(0, 1)), CommandStep::WindowsChanged));
    assert_eq!(m.current_id(), Some("b".to_string()));
    match command_step(&mut m, Command::SetWindowIcon(5, "x".to_string())) {
        CommandStep::Reply(Response::Error(msg)) => assert_eq!(msg, "Failed to set icon: invalid window index 5"),
        other => panic!("unexpected {:?}", other),
    }
    match command_step(&mut m, Command::SwapWindows(0, 12)) {
        CommandStep::Reply(Response::Error(msg)) => assert_eq!(msg, "Failed to swap: invalid window index 12"),
        other => panic!("unexpected {:?}", other),
    }
    match command_step(&mut m, Command::SpawnAt(1, "kitty --x".to_string(), Some("K".to_string()))) {
        CommandStep::Spawn(cmd, Some(id)) => {
            assert_eq!(cmd, "kitty --x");
            let w = &m.get_windows()[1];
            assert_eq!(w.id, id);
            assert_eq!(w.custom_icon, Some("K".to_string()));
        }
        other => panic!("unexpected {:?}", other),
    }
    assert_eq!(m.window_count(), 3);
    match command_step(&mut m, Command::List) {
        CommandStep::Reply(Response::Windows(ws)) => assert_eq!(ws.len(), 3),
        other => panic!("unexpected {:?}", other),
    }
    assert!(matches!(command_step(&mut m, Command::AddTemplate("t".to_string(), "c".to_string())), CommandStep::TemplatesChanged));
    assert!(matches!(command_step(&mut m, Command::RemoveTemplate("t".to_string())), CommandStep::TemplatesChanged));
    match command_step(&mut m, Command::RemoveTemplate("t".to_string())) {
        CommandStep::Reply(Response::Error(msg)) => assert_eq!(msg, "Failed to remove template: template not found"),
        other => panic!("unexpected {:?}", other),
    }
    let before = m.get_windows().len();
    match command_step(&mut m, Command::CloseSpace(9)) {
        CommandStep::Reply(Response::Error(msg)) => assert_eq!(msg, "Invalid index: 9"),
        other => panic!("unexpected {:?}", other),
    }
    assert_eq!(m.window_count(), before);
    assert!(matches!(command_step(&mut m, Command::CloseSpace(0)), CommandStep::CloseSpace(_, _)));
    assert_eq!(m.window_count(), 2);
    assert!(matches!(command_step(&mut m, Command::Shutdown), CommandStep::Shutdown));
    let mut empty = SpaceManager::new();
    match switch_step(&mut empty, SwitchDir::Next) {
        CommandStep::Reply(Response::Error(msg)) => assert_eq!(msg, "No windows to switch to"),
        other => panic!("unexpected {:?}", other),
    }
}

#[test]
fn resync_reopens_matched_and_closes_the_rest() {
    let mut m = SpaceManager::new();
    let mut a = window("win_1", "kitty", "0xold");
    a.class = "kitty".to_string();
    m.add_window(a);
    let mut b = window("win_2", "brave", "0xgone");
    b.class = "brave".to_string();
    b.pid = Some(555);
    m.add_window(b);
    let mut fresh = client("0xnew", "4");
    fresh.pid = Some(10);
    fresh.title = "New title".to_string();
    let out = resync_windows(&mut m, &[fresh]);
    assert_eq!(out.matches, vec![("win_1".to_string(), "0xnew".to_string(), Some(10))]);
    assert_eq!(out.closed, vec!["win_2".to_string()]);
    let ws = m.get_windows();
    assert_eq!(ws[0].address, "0xnew");
    assert_eq!(ws[0].title, "New title");
    assert!(!ws[1].is_open());
    assert_eq!(ws[1].title, "(Closed)");
    assert_eq!(m.get_current_index(), 1);
}

#[test]
fn workspace_change_selects_visible_window() {
    let mut m = SpaceManager::new();
    m.add_window(window("a", "x", "0xa"));
    m.add_window(window("b", "x", "0xb"));
    let mut ca = client("0xa", "2");
    ca.workspace_id = 2;
    let mut cb = client("0xb", "special:spaces");
    cb.workspace_id = -98;
    let clients = vec![ca, cb];
    assert_eq!(on_workspace_change(&mut m, &clients, &[2, 5]), Some(("0xa".to_string(), 2)));
    assert_eq!(m.current_id(), Some("a".to_string()));
    assert_eq!(on_workspace_change(&mut m, &clients, &[7]), None);
    assert_eq!(m.current_id(), Some("a".to_string()));
}

#[test]
fn next_refused_outside_edge_zone() {
    let mut m = SpaceManager::new();
    m.add_window(window("a", "x", "0xa"));
    m.add_window(window("b", "x", "0xb"));
    let reply = |step: CommandStep| match step {
        CommandStep::Reply(Response::Error(msg)) => msg,
        other => panic!("unexpected {:?}", other),
    };
    assert_eq!(reply(gated_switch(&mut m, SwitchDir::Next, true, Ok(false))), "Mouse not in edge zone of window");
    assert_eq!(reply(gated_switch(&mut m, SwitchDir::Next, false, Ok(true))), "Tracked window not focused");
    assert_eq!(
        reply(gated_switch(&mut m, SwitchDir::Next, true, Err("no cursor".to_string()))),
        "Failed to check mouse position: no cursor"
    );
    assert_eq!(m.get_current_index(), 1);
    match gated_switch(&mut m, SwitchDir::Next, true, Ok(true)) {
        CommandStep::Show(addr) => assert_eq!(addr, "0xa"),
        other => panic!("unexpected {:?}", other),
    }
    assert_eq!(m.get_current_index(), 0);
}

#[test]
fn side_buttons_only_when_enabled() {
    let mut m = SpaceManager::new();
    assert!(matches!(side_button_command(&m, MouseButton::Button4), Some(Command::Prev)));
    assert!(matches!(side_button_command(&m, MouseButton::Button5), Some(Command::Next)));
    m.set_settings(false, Vec::new());
    assert!(side_button_command(&m, MouseButton::Button4).is_none());
    assert!(side_button_command(&m, MouseButton::Button5).is_none());
}

#[test]
fn manager_error_messages() {
    assert_eq!(ManagerError::InvalidIndex(42).message(), "invalid window index 42");
    assert_eq!(ManagerError::TemplateNotFound.message(), "template not found");
}
