use space_manager::overlay::model::{build_spaces, indicator_text};
use space_manager::overlay::template::{fill_template, parse_position, space_request, template_variables};
use space_manager::types::{Command, ManagedWindow};

fn win(icon: Option<&str>) -> ManagedWindow {
    let mut w = ManagedWindow::new("cmd".to_string());
    w.custom_icon = icon.map(|s| s.to_string());
    w
}

#[test]
fn test_build_spaces_marks_current() {
    let windows: Vec<_> = (0..5).map(|_| win(None)).collect();
    let (buttons, current) = build_spaces(&windows, 2);
    assert_eq!(current, 2);
    assert!(buttons[2].is_current);
    for (i, b) in buttons.iter().enumerate() {
        if i != 2 {
            assert!(!b.is_current);
        }
    }
}

#[test]
fn test_build_spaces_custom_icon_used() {
    let windows = vec![win(Some("🌐"))];
    let (buttons, _) = build_spaces(&windows, 0);
    assert_eq!(buttons[0].label, "🌐");
}

#[test]
fn test_build_spaces_default_label_is_index() {
    let windows = vec![win(None), win(None), win(None)];
    let (buttons, _) = build_spaces(&windows, 0);
    assert_eq!(buttons[0].label, "1");
    assert_eq!(buttons[1].label, "2");
    assert_eq!(buttons[2].label, "3");
}

#[test]
fn test_build_spaces_empty() {
    let windows: Vec<ManagedWindow> = Vec::new();
    let (buttons, current) = build_spaces(&windows, 0);
    assert!(buttons.is_empty());
    assert_eq!(current, 0);
}

#[test]
fn test_build_spaces_current_out_of_range() {
    let windows = vec![win(None), win(None), win(None)];
    let (buttons, current) = build_spaces(&windows, 9);
    assert_eq!(current, 2);
    assert_eq!(buttons.len(), 3);
    assert!(buttons[2].is_current);
    assert!(!buttons[0].is_current);
    assert!(!buttons[1].is_current);
}

#[test]
fn build_spaces_labels_past_nine() {
    let windows: Vec<_> = (0..12).map(|_| win(None)).collect();
    let (buttons, _) = build_spaces(&windows, 11);
    assert_eq!(buttons[9].label, "10");
    assert_eq!(buttons[11].label, "12");
    assert!(buttons[11].is_current);
}

#[test]
fn indicator_text_brackets_current() {
    let windows = vec![win(None), win(Some("W")), win(None), win(None)];
    assert_eq!(indicator_text(&windows, 2), "1-W-[3]-4");
    assert_eq!(indicator_text(&windows, 0), "[1]-W-3-4");
    assert_eq!(indicator_text(&windows, 7), "1-W-3-4");
    assert_eq!(indicator_text(&[], 0), "");
}

#[test]
fn template_variables_in_order_without_repeats() {
    let vars = template_variables("brave --profile={{profile}} --url={{url}} {{profile}}");
    assert_eq!(vars, vec!["profile".to_string(), "url".to_string()]);
}

#[test]
fn template_variables_edge_cases() {
    assert!(template_variables("no placeholders").is_empty());
    assert!(template_variables("{{}} and {{ unclosed").is_empty());
    // The run of non-`}` characters may hold `{`.
    assert_eq!(template_variables("{{{a}}"), vec!["{a".to_string()]);
    assert_eq!(template_variables("x{{a b}}y{{c}}"), vec!["a b".to_string(), "c".to_string()]);
    // A single closing brace ends the run without a placeholder.
    assert!(template_variables("{{a}b}}").is_empty());
}

#[test]
fn fill_template_replaces_each_variable() {
    let values = vec![
        ("profile".to_string(), "work".to_string()),
        ("url".to_string(), "example.org".to_string()),
    ];
    let filled = fill_template("brave --p={{profile}} {{url}} {{profile}}", &values);
    assert_eq!(filled, "brave --p=work example.org work");
    assert_eq!(fill_template("plain", &[]), "plain");
}

#[test]
fn parse_position_is_one_based() {
    assert_eq!(parse_position("3"), Some(2));
    assert_eq!(parse_position("1"), Some(0));
    assert_eq!(parse_position("0"), None);
    assert_eq!(parse_position(""), None);
    assert_eq!(parse_position("x"), None);
    assert_eq!(parse_position("-2"), None);
}

#[test]
fn space_request_with_and_without_position() {
    match space_request("kitty".to_string(), "2", "K".to_string()) {
        Command::SpawnAt(i, c, icon) => {
            assert_eq!(i, 1);
            assert_eq!(c, "kitty");
            assert_eq!(icon, Some("K".to_string()));
        }
        other => panic!("unexpected {:?}", other),
    }
    match space_request("kitty".to_string(), "2", String::new()) {
        Command::SpawnAt(_, _, icon) => assert_eq!(icon, None),
        other => panic!("unexpected {:?}", other),
    }
    match space_request("kitty".to_string(), "", "K".to_string()) {
        Command::Spawn(c) => assert_eq!(c, "kitty"),
        other => panic!("unexpected {:?}", other),
    }
}
