//! The `spacectl` command line: which IPC command its arguments ask for.

use vstd::prelude::*;

use crate::text::{concat, joined, parse_usize, parsed_usize, str_is};
use crate::types::Command;

verus! {

/// Why the command line names no command.
#[derive(Debug, PartialEq, Eq)]
pub enum CliError {
    /// No subcommand was given.
    MissingCommand,
    /// `spawn` was given without a command to run.
    SpawnNeedsCommand,
    /// The subcommand (named here) lacks one of its arguments.
    MissingArgument(String),
    /// This argument should be a space index (a non-negative number).
    InvalidIndex(String),
    /// The subcommand is not known.
    UnknownCommand(String),
}

/// The views of a list of arguments.
pub open spec fn arg_views(args: Seq<String>) -> Seq<Seq<char>> {
    args.map_values(|a: String| a@)
}

/// `args[from..]` joined by single spaces.
pub open spec fn rest_joined(args: Seq<String>, from: int) -> Seq<char> {
    joined(arg_views(args.skip(from)), " "@)
}

/// The index in `args[k]`, or the error naming that argument.
pub open spec fn index_arg_ok(args: Seq<String>, k: int, r: Result<usize, CliError>) -> bool {
    match parsed_usize(args[k]@) {
        Some(n) => r == Ok::<usize, CliError>(n),
        None => r matches Err(CliError::InvalidIndex(s)) && s@ == args[k]@,
    }
}

/// The subcommands that take arguments, with how many they need at least.
pub open spec fn needed_args(a: Seq<char>) -> int {
    if a == "switch-to"@ {
        1
    } else if a == "spawn-at"@ || a == "swap-windows"@ || a == "set-window-icon"@ || a == "add-template"@ {
        2
    } else {
        0
    }
}

/// What the arguments (program name first) of a subcommand with arguments ask for.
pub open spec fn with_args_ok(args: Seq<String>, r: Result<Command, CliError>) -> bool {
    let a = args[1]@;
    if args.len() < 2 + needed_args(a) {
        r matches Err(CliError::MissingArgument(s)) && s@ == a
    } else if a == "add-template"@ {
        r matches Ok(Command::AddTemplate(name, command)) && name == args[2] && command == args[3]
    } else {
        match parsed_usize(args[2]@) {
            None => r matches Err(CliError::InvalidIndex(s)) && s@ == args[2]@,
            Some(i) => if a == "switch-to"@ {
                r == Ok::<Command, CliError>(Command::SwitchTo(i))
            } else if a == "spawn-at"@ {
                r matches Ok(Command::SpawnAt(k, c, None)) && k == i && c@ == rest_joined(args, 3)
            } else if a == "set-window-icon"@ {
                r matches Ok(Command::SetWindowIcon(k, icon)) && k == i && icon == args[3]
            } else {
                match parsed_usize(args[3]@) {
                    None => r matches Err(CliError::InvalidIndex(s)) && s@ == args[3]@,
                    Some(j) => r == Ok::<Command, CliError>(Command::SwapWindows(i, j)),
                }
            },
        }
    }
}

/// What the arguments (program name first) ask for: `next`, `prev`, `list`,
/// `cleanup`, `shutdown`, `get-templates`, `reload-config`; `spawn` followed
/// by a command (the remaining arguments joined by single spaces);
/// `switch-to <index>`; `spawn-at <index> <command...>`;
/// `swap-windows <index> <index>`; `set-window-icon <index> <icon>`;
/// `add-template <name> <command>` (further arguments are ignored).
pub open spec fn cli_result_ok(args: Seq<String>, r: Result<Command, CliError>) -> bool {
    if args.len() < 2 {
        r == Err::<Command, CliError>(CliError::MissingCommand)
    } else {
        let a = args[1]@;
        if a == "next"@ {
            r == Ok::<Command, CliError>(Command::Next)
        } else if a == "prev"@ {
            r == Ok::<Command, CliError>(Command::Prev)
        } else if a == "spawn"@ {
            if args.len() < 3 {
                r == Err::<Command, CliError>(CliError::SpawnNeedsCommand)
            } else {
                r matches Ok(Command::Spawn(c)) && c@ == rest_joined(args, 2)
            }
        } else if a == "list"@ {
            r == Ok::<Command, CliError>(Command::List)
        } else if a == "cleanup"@ {
            r == Ok::<Command, CliError>(Command::Cleanup)
        } else if a == "shutdown"@ {
            r == Ok::<Command, CliError>(Command::Shutdown)
        } else if a == "get-templates"@ {
            r == Ok::<Command, CliError>(Command::GetTemplates)
        } else if a == "reload-config"@ {
            r == Ok::<Command, CliError>(Command::ReloadConfig)
        } else if needed_args(a) > 0 {
            with_args_ok(args, r)
        } else {
            r matches Err(CliError::UnknownCommand(s)) && s@ == a
        }
    }
}

/// The `args[from..]` joined by single spaces.
fn join_args(args: &[String], from: usize) -> (s: String)
    requires
        from < args@.len(),
    ensures
        s@ == rest_joined(args@, from as int),
{
    let ghost parts = arg_views(args@.skip(from as int));
    let mut s = args[from].clone();
    let mut i: usize = from + 1;
    proof {
        assert(parts.take(1) =~= seq![args@[from as int]@]);
    }
    while i < args.len()
        invariant
            from < i <= args@.len(),
            parts == arg_views(args@.skip(from as int)),
            s@ == joined(parts.take(i - from), " "@),
        decreases args.len() - i,
    {
        proof {
            assert(parts.take(i + 1 - from).drop_last() =~= parts.take(i - from));
            assert(parts.take(i + 1 - from).last() == args@[i as int]@);
        }
        let with_sep = concat(s.as_str(), " ");
        s = concat(with_sep.as_str(), args[i].as_str());
        i = i + 1;
    }
    assert(parts.take(args@.len() - from) =~= parts);
    s
}

fn index_arg(args: &[String], k: usize) -> (r: Result<usize, CliError>)
    requires
        k < args@.len(),
    ensures
        index_arg_ok(args@, k as int, r),
{
    match parse_usize(args[k].as_str()) {
        Some(n) => Ok(n),
        None => Err(CliError::InvalidIndex(args[k].clone())),
    }
}

fn needed_args_exec(a: &str) -> (n: usize)
    ensures
        n == needed_args(a@),
{
    if str_is(a, "switch-to") {
        1
    } else if str_is(a, "spawn-at") || str_is(a, "swap-windows") || str_is(a, "set-window-icon") || str_is(
        a,
        "add-template",
    ) {
        2
    } else {
        0
    }
}

/// The command of a subcommand that takes arguments (see [`cli_result_ok`]).
fn parse_with_args(args: &[String]) -> (r: Result<Command, CliError>)
    requires
        args@.len() >= 2,
        needed_args(args@[1]@) > 0,
    ensures
        with_args_ok(args@, r),
{
    let a = args[1].as_str();
    let need = needed_args_exec(a);
    if args.len() < 2 + need {
        return Err(CliError::MissingArgument(args[1].clone()));
    }
    if str_is(a, "add-template") {
        proof {
            reveal_strlit("add-template");
            reveal_strlit("switch-to");
            assert("add-template"@.len() != "switch-to"@.len());
        }
        return Ok(Command::AddTemplate(args[2].clone(), args[3].clone()));
    }
    let i = match index_arg(args, 2) {
        Ok(i) => i,
        Err(e) => {
            return Err(e);
        },
    };
    if str_is(a, "switch-to") {
        Ok(Command::SwitchTo(i))
    } else if str_is(a, "spawn-at") {
        Ok(Command::SpawnAt(i, join_args(args, 3), None))
    } else if str_is(a, "set-window-icon") {
        Ok(Command::SetWindowIcon(i, args[3].clone()))
    } else {
        match index_arg(args, 3) {
            Ok(j) => Ok(Command::SwapWindows(i, j)),
            Err(e) => Err(e),
        }
    }
}

/// Parse `spacectl`'s arguments (program name first) into an IPC command.
pub fn parse_cli_args(args: &[String]) -> (r: Result<Command, CliError>)
    ensures
        cli_result_ok(args@, r),
{
    if args.len() < 2 {
        return Err(CliError::MissingCommand);
    }
    let a = args[1].as_str();
    if str_is(a, "next") {
        Ok(Command::Next)
    } else if str_is(a, "prev") {
        Ok(Command::Prev)
    } else if str_is(a, "spawn") {
        if args.len() < 3 {
            Err(CliError::SpawnNeedsCommand)
        } else {
            Ok(Command::Spawn(join_args(args, 2)))
        }
    } else if str_is(a, "list") {
        Ok(Command::List)
    } else if str_is(a, "cleanup") {
        Ok(Command::Cleanup)
    } else if str_is(a, "shutdown") {
        Ok(Command::Shutdown)
    } else if str_is(a, "get-templates") {
        Ok(Command::GetTemplates)
    } else if str_is(a, "reload-config") {
        Ok(Command::ReloadConfig)
    } else if needed_args_exec(a) > 0 {
        parse_with_args(args)
    } else {
        Err(CliError::UnknownCommand(args[1].clone()))
    }
}

} // verus!
