use space_manager::daemon::rematch::{match_windows, MatchOutcome};
use space_manager::hypr::ClientInfo;
use space_manager::types::ManagedWindow;

fn client(addr: &str, class: &str, title: &str, pid: Option<u32>) -> ClientInfo {
    ClientInfo {
        address: addr.to_string(),
        class: class.to_string(),
        title: title.to_string(),
        pid,
        at: (0, 0),
        size: (100, 100),
        workspace_id: 1,
        workspace_name: "1".to_string(),
        monitor: Some(0),
    }
}

fn managed(id: &str, class: &str, title: &str, pid: Option<u32>) -> ManagedWindow {
    let mut w = ManagedWindow::new("cmd".to_string());
    w.id = id.to_string();
    w.class = class.to_string();
    w.title = title.to_string();
    w.pid = pid;
    w.address = String::new();
    w
}

fn matched_addr(outcome: &MatchOutcome, id: &str) -> Option<String> {
    outcome
        .matches
        .iter()
        .find(|(mid, _, _)| mid == id)
        .map(|(_, addr, _)| addr.clone())
}

#[test]
fn test_match_windows_by_pid_alive() {
    let managed = vec![managed("win_1", "brave", "A", Some(100))];
    let clients = vec![client("0xaaa", "brave", "A", Some(100))];
    let out = match_windows(&managed, &clients);
    assert_eq!(matched_addr(&out, "win_1"), Some("0xaaa".to_string()));
    assert!(out.closed.is_empty());
}

#[test]
fn test_match_windows_pid_wins_over_class() {
    let managed = vec![managed("win_1", "brave", "A", Some(100))];
    let clients = vec![client("0xaaa", "totally-different", "Z", Some(100))];
    let out = match_windows(&managed, &clients);
    assert_eq!(matched_addr(&out, "win_1"), Some("0xaaa".to_string()));
}

#[test]
fn test_match_windows_title_tiebreak() {
    let managed = vec![
        managed("win_1", "brave", "Work", None),
        managed("win_2", "brave", "Personal", None),
    ];
    let clients = vec![
        client("0xaaa", "brave", "Personal", None),
        client("0xbbb", "brave", "Work", None),
    ];
    let out = match_windows(&managed, &clients);
    assert_eq!(matched_addr(&out, "win_1"), Some("0xbbb".to_string()));
    assert_eq!(matched_addr(&out, "win_2"), Some("0xaaa".to_string()));
}

#[test]
fn test_match_windows_two_same_class_disambiguated_by_pid() {
    let managed = vec![
        managed("win_1", "brave", "A", Some(100)),
        managed("win_2", "brave", "A", Some(200)),
    ];
    let clients = vec![
        client("0xaaa", "brave", "A", Some(200)),
        client("0xbbb", "brave", "A", Some(100)),
    ];
    let out = match_windows(&managed, &clients);
    assert_eq!(matched_addr(&out, "win_1"), Some("0xbbb".to_string()));
    assert_eq!(matched_addr(&out, "win_2"), Some("0xaaa".to_string()));
}

#[test]
fn test_match_windows_ambiguous_oldest_first() {
    let managed = vec![
        managed("win_2", "brave", "", None),
        managed("win_1", "brave", "", None),
    ];
    let clients = vec![
        client("0xaaa", "brave", "", None),
        client("0xbbb", "brave", "", None),
    ];
    let out = match_windows(&managed, &clients);
    assert_eq!(matched_addr(&out, "win_1"), Some("0xaaa".to_string()));
    assert_eq!(matched_addr(&out, "win_2"), Some("0xbbb".to_string()));
}

#[test]
fn test_match_windows_pid_dead_marked_closed() {
    let managed = vec![managed("win_1", "brave", "A", Some(999))];
    let clients = vec![client("0xaaa", "firefox", "Z", Some(100))];
    let out = match_windows(&managed, &clients);
    assert!(matched_addr(&out, "win_1").is_none());
    assert_eq!(out.closed, vec!["win_1".to_string()]);
}

#[test]
fn test_match_windows_no_client_marked_closed() {
    let managed = vec![managed("win_1", "brave", "A", None)];
    let clients: Vec<ClientInfo> = Vec::new();
    let out = match_windows(&managed, &clients);
    assert!(out.matches.is_empty());
    assert_eq!(out.closed, vec!["win_1".to_string()]);
}

#[test]
fn test_match_windows_client_assigned_once() {
    let managed = vec![
        managed("win_1", "brave", "", None),
        managed("win_2", "brave", "", None),
    ];
    let clients = vec![client("0xaaa", "brave", "", None)];
    let out = match_windows(&managed, &clients);
    assert_eq!(out.matches.len(), 1);
    assert_eq!(out.closed.len(), 1);
    let assigned: Vec<_> = out.matches.iter().map(|(_, a, _)| a.clone()).collect();
    assert_eq!(assigned, vec!["0xaaa".to_string()]);
}

#[test]
fn test_match_windows_empty_inputs() {
    let out = match_windows(&[], &[]);
    assert!(out.matches.is_empty());
    assert!(out.closed.is_empty());

    let managed = vec![managed("win_1", "brave", "A", Some(1))];
    let out = match_windows(&managed, &[]);
    assert!(out.matches.is_empty());
    assert_eq!(out.closed, vec!["win_1".to_string()]);
}

#[test]
fn match_reports_client_pid_in_triple() {
    let managed = vec![managed("win_1", "brave", "A", None)];
    let clients = vec![client("0xaaa", "brave", "A", Some(4242))];
    let out = match_windows(&managed, &clients);
    assert_eq!(
        out.matches,
        vec![("win_1".to_string(), "0xaaa".to_string(), Some(4242))]
    );
}

#[test]
fn match_every_window_matched_or_closed_once() {
    let managed = vec![
        managed("win_3", "kitty", "", None),
        managed("win_1", "brave", "Mail", None),
        managed("win_2", "brave", "", Some(7)),
        managed("win_4", "", "", None),
    ];
    let clients = vec![
        client("0x1", "brave", "Mail", None),
        client("0x2", "brave", "Other", Some(7)),
        client("0x3", "kitty", "", None),
    ];
    let out = match_windows(&managed, &clients);
    let mut seen: Vec<String> = out.matches.iter().map(|(id, _, _)| id.clone()).collect();
    seen.extend(out.closed.iter().cloned());
    seen.sort();
    assert_eq!(seen, vec!["win_1", "win_2", "win_3", "win_4"]);
    assert_eq!(matched_addr(&out, "win_2"), Some("0x2".to_string()));
    assert_eq!(matched_addr(&out, "win_1"), Some("0x1".to_string()));
    assert_eq!(matched_addr(&out, "win_3"), Some("0x3".to_string()));
    // A window with no class and no pid is never guessed.
    assert_eq!(out.closed, vec!["win_4".to_string()]);
}

#[test]
fn match_closed_listed_in_id_order() {
    let managed = vec![
        managed("win_9", "brave", "", None),
        managed("win_10", "brave", "", None),
        managed("win_5", "brave", "", None),
    ];
    let out = match_windows(&managed, &[]);
    // Ids compare as text: "win_10" < "win_5" < "win_9".
    assert_eq!(out.closed, vec!["win_10", "win_5", "win_9"]);
}
