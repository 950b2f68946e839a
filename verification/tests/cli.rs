use space_manager::cli::{parse_cli_args, CliError};
use space_manager::types::Command;

fn args(list: &[&str]) -> Vec<String> {
    list.iter().map(|s| s.to_string()).collect()
}

#[test]
fn cli_simple_commands() {
    assert!(matches!(parse_cli_args(&args(&["spacectl", "next"])), Ok(Command::Next)));
    assert!(matches!(parse_cli_args(&args(&["spacectl", "prev"])), Ok(Command::Prev)));
    assert!(matches!(parse_cli_args(&args(&["spacectl", "list"])), Ok(Command::List)));
    assert!(matches!(parse_cli_args(&args(&["spacectl", "cleanup"])), Ok(Command::Cleanup)));
    assert!(matches!(parse_cli_args(&args(&["spacectl", "shutdown"])), Ok(Command::Shutdown)));
}

#[test]
fn cli_spawn_joins_arguments() {
    match parse_cli_args(&args(&["spacectl", "spawn", "brave", "--user-data-dir=~/.config/brave-work"])) {
        Ok(Command::Spawn(c)) => assert_eq!(c, "brave --user-data-dir=~/.config/brave-work"),
        other => panic!("unexpected {:?}", other),
    }
    match parse_cli_args(&args(&["spacectl", "spawn", "kitty"])) {
        Ok(Command::Spawn(c)) => assert_eq!(c, "kitty"),
        other => panic!("unexpected {:?}", other),
    }
}

#[test]
fn cli_errors() {
    assert_eq!(parse_cli_args(&args(&["spacectl"])).unwrap_err(), CliError::MissingCommand);
    assert_eq!(parse_cli_args(&args(&["spacectl", "spawn"])).unwrap_err(), CliError::SpawnNeedsCommand);
    assert_eq!(
        parse_cli_args(&args(&["spacectl", "jump"])).unwrap_err(),
        CliError::UnknownCommand("jump".to_string())
    );
}

#[test]
fn cli_commands_with_arguments() {
    assert!(matches!(parse_cli_args(&args(&["spacectl", "switch-to", "3"])), Ok(Command::SwitchTo(3))));
    assert!(matches!(parse_cli_args(&args(&["spacectl", "swap-windows", "0", "2"])), Ok(Command::SwapWindows(0, 2))));
    match parse_cli_args(&args(&["spacectl", "spawn-at", "2", "firefox -P development"])) {
        Ok(Command::SpawnAt(2, c, None)) => assert_eq!(c, "firefox -P development"),
        other => panic!("unexpected {:?}", other),
    }
    match parse_cli_args(&args(&["spacectl", "set-window-icon", "1", "🎮"])) {
        Ok(Command::SetWindowIcon(1, icon)) => assert_eq!(icon, "🎮"),
        other => panic!("unexpected {:?}", other),
    }
    match parse_cli_args(&args(&["spacectl", "add-template", "Name", "command {{var}}", "var1", "var2"])) {
        Ok(Command::AddTemplate(name, command)) => {
            assert_eq!(name, "Name");
            assert_eq!(command, "command {{var}}");
        }
        other => panic!("unexpected {:?}", other),
    }
    assert!(matches!(parse_cli_args(&args(&["spacectl", "get-templates"])), Ok(Command::GetTemplates)));
    assert!(matches!(parse_cli_args(&args(&["spacectl", "reload-config"])), Ok(Command::ReloadConfig)));
}

#[test]
fn cli_argument_errors() {
    assert_eq!(
        parse_cli_args(&args(&["spacectl", "switch-to"])).unwrap_err(),
        CliError::MissingArgument("switch-to".to_string())
    );
    assert_eq!(
        parse_cli_args(&args(&["spacectl", "swap-windows", "1"])).unwrap_err(),
        CliError::MissingArgument("swap-windows".to_string())
    );
    assert_eq!(
        parse_cli_args(&args(&["spacectl", "switch-to", "three"])).unwrap_err(),
        CliError::InvalidIndex("three".to_string())
    );
    assert_eq!(
        parse_cli_args(&args(&["spacectl", "swap-windows", "1", "-2"])).unwrap_err(),
        CliError::InvalidIndex("-2".to_string())
    );
}
