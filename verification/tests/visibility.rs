use space_manager::daemon::visibility::{
    find_visible_window, hidden_addresses, managed_workspaces, resolve_target_workspace, visible_workspaces,
    window_workspace,
};
use space_manager::hypr::{ClientInfo, MonitorInfo};
use space_manager::types::ManagedWindow;

fn client(addr: &str, ws: i32) -> ClientInfo {
    ClientInfo {
        address: addr.to_string(),
        class: "brave".to_string(),
        title: "t".to_string(),
        pid: Some(1),
        at: (0, 0),
        size: (100, 100),
        workspace_id: ws,
        workspace_name: ws.to_string(),
        monitor: Some(0),
    }
}

fn open_window(addr: &str) -> ManagedWindow {
    let mut w = ManagedWindow::new("brave".to_string());
    w.open(addr.to_string(), "brave".to_string(), "t".to_string(), Some(1));
    w
}

fn monitor(id: i128, ws: i32) -> MonitorInfo {
    MonitorInfo {
        id,
        name: format!("DP-{}", id),
        x: 0,
        y: 0,
        width: 1920,
        height: 1080,
        active_workspace_id: ws,
        focused: id == 0,
    }
}

#[test]
fn test_resolve_target_ws_prefers_cached_visible() {
    assert_eq!(resolve_target_workspace(Some(3), &[1, 3, 5], &[7], 9), 3);
}

#[test]
fn test_resolve_target_ws_falls_back_to_visible_managed() {
    assert_eq!(resolve_target_workspace(Some(8), &[1, 5], &[5], 9), 5);
}

#[test]
fn test_resolve_target_ws_falls_back_to_cached_any() {
    assert_eq!(resolve_target_workspace(Some(4), &[1, 2], &[7], 9), 4);
}

#[test]
fn test_resolve_target_ws_defaults_to_active() {
    assert_eq!(resolve_target_workspace(None, &[1, 2], &[], 9), 9);
}

#[test]
fn test_resolve_target_ws_ignores_nonpositive() {
    assert_eq!(resolve_target_workspace(Some(0), &[2], &[-1, 2], 9), 2);
    assert_eq!(resolve_target_workspace(Some(0), &[0], &[0, -3], 9), 9);
}

#[test]
fn resolve_target_uses_managed_ws_when_none_visible() {
    // No cache and no visible managed workspace: first positive managed one.
    assert_eq!(resolve_target_workspace(None, &[1], &[-2, 6, 7], 9), 6);
}

#[test]
fn hidden_addresses_keeps_only_target_visible() {
    let mut closed = ManagedWindow::new("x".to_string());
    closed.close();
    let windows = vec![open_window("0xa"), closed, open_window("0xb"), open_window("0xc")];
    assert_eq!(hidden_addresses(&windows, "0xb"), vec!["0xa".to_string(), "0xc".to_string()]);
    assert_eq!(hidden_addresses(&windows, "0xzz").len(), 3);
}

#[test]
fn workspace_lookups() {
    let clients = vec![client("0xa", 2), client("0xb", 5)];
    assert_eq!(window_workspace("0xb", &clients), Some(5));
    assert_eq!(window_workspace("0xc", &clients), None);
    let windows = vec![open_window("0xb"), open_window("0xgone"), open_window("0xa")];
    assert_eq!(managed_workspaces(&windows, &clients), vec![5, 2]);
}

#[test]
fn visible_workspaces_one_per_monitor() {
    let monitors = vec![monitor(0, 3), monitor(1, 8)];
    assert_eq!(visible_workspaces(&monitors), vec![3, 8]);
}

#[test]
fn find_visible_window_first_on_visible_workspace() {
    let clients = vec![client("0xa", 2), client("0xb", 5), client("0xc", 5)];
    let windows = vec![open_window("0xa"), open_window("0xb"), open_window("0xc")];
    assert_eq!(find_visible_window(&windows, &clients, &[5]), Some(("0xb".to_string(), 5)));
    assert_eq!(find_visible_window(&windows, &clients, &[7]), None);
}
