//! The state side of daemon commands: what each IPC command does to the
//! spaces and which outside work (showing, spawning, saving) follows,
//! closing a space, and choosing the windows that cleanup and shutdown close.

use vstd::prelude::*;

use crate::hypr::ClientInfo;
use crate::manager::{error_text, first_index, issue_millis, template_named, ManagerError, SpaceManager, SpacesView};
use crate::text::{concat, decimal, decimal_string, owned};
use crate::types::{fresh_window, Command, CommandTemplate, ManagedWindow, Response};

verus! {

/// What to do once a space is removed.
#[derive(Debug)]
pub enum AfterClose {
    /// No window is left.
    Nothing,
    /// Show the (open) current window at this address.
    Show(String),
    /// The current window is closed: respawn it.
    Respawn(ManagedWindow),
}

/// The follow-up for the state after a removal.
pub open spec fn after_close_of(s: SpacesView, a: AfterClose) -> bool {
    match s.current_window() {
        None => a is Nothing,
        Some(w) => if w.pid is Some {
            a == AfterClose::Show(w.address)
        } else {
            a == AfterClose::Respawn(w)
        },
    }
}

/// Remove the space at `index`. Returns the removed window (the caller closes
/// it if open) and what to do with the new current window; `None`, and no
/// change, when there is no window at `index`.
pub fn close_space(manager: &mut SpaceManager, index: usize) -> (r: Option<(ManagedWindow, AfterClose)>)
    requires
        old(manager)@.wf(),
    ensures
        final(manager)@.wf(),
        final(manager)@ == old(manager)@.remove_at(index as nat),
        index >= old(manager)@.windows.len() ==> r is None,
        index < old(manager)@.windows.len() ==> (r matches Some((w, a)) && w == old(manager)@.windows[index as int]
            && after_close_of(final(manager)@, a)),
{
    match manager.remove_window_at_index(index) {
        None => None,
        Some(removed) => {
            let after = match manager.current_window() {
                None => AfterClose::Nothing,
                Some(w) => {
                    if w.is_open() {
                        AfterClose::Show(w.address)
                    } else {
                        AfterClose::Respawn(w)
                    }
                },
            };
            Some((removed, after))
        },
    }
}

/// The special workspace where hidden managed windows are parked.
pub open spec fn parked(c: ClientInfo) -> bool {
    c.workspace_name@ == "special:spaces"@
}

/// Addresses of the clients parked in `special:spaces`, in client order.
pub open spec fn parked_addresses(clients: Seq<ClientInfo>) -> Seq<String>
    decreases clients.len(),
{
    if clients.len() == 0 {
        Seq::empty()
    } else {
        let rest = parked_addresses(clients.drop_last());
        if parked(clients.last()) {
            rest.push(clients.last().address)
        } else {
            rest
        }
    }
}

/// Some client at `address` is on the workspace named exactly `special:spaces`.
pub open spec fn on_spaces_workspace(clients: Seq<ClientInfo>, address: String) -> bool {
    exists|i: int|
        0 <= i < clients.len() && (#[trigger] clients[i]).workspace_name@ == "special:spaces"@ && clients[i].address
            == address
}

/// Cleanup closes exactly the windows parked in `special:spaces`: every
/// address it picks is that of a client whose workspace is named exactly
/// `special:spaces` (never another special workspace, such as a
/// scratchpad), and every such client is picked.
pub proof fn law_cleanup_closes_only_parked(clients: Seq<ClientInfo>)
    ensures
        forall|k: int|
            0 <= k < parked_addresses(clients).len() ==> on_spaces_workspace(
                clients,
                #[trigger] parked_addresses(clients)[k],
            ),
        forall|i: int|
            0 <= i < clients.len() && (#[trigger] clients[i]).workspace_name@ == "special:spaces"@
                ==> parked_addresses(clients).contains(clients[i].address),
    decreases clients.len(),
{
    if clients.len() > 0 {
        let rest = clients.drop_last();
        law_cleanup_closes_only_parked(rest);
        let r = parked_addresses(rest);
        let all = parked_addresses(clients);
        let last = clients.len() - 1;
        assert forall|k: int| 0 <= k < all.len() implies on_spaces_workspace(clients, #[trigger] all[k]) by {
            if k < r.len() {
                assert(all[k] == r[k]);
                assert(on_spaces_workspace(rest, r[k]));
                let i = choose|i: int|
                    0 <= i < rest.len() && (#[trigger] rest[i]).workspace_name@ == "special:spaces"@
                        && rest[i].address == r[k];
                assert(clients[i] == rest[i]);
            } else {
                assert(parked(clients.last()));
                assert(clients[last] == clients.last());
                assert(clients[last].address == all[k]);
            }
        }
        assert forall|i: int|
            0 <= i < clients.len() && (#[trigger] clients[i]).workspace_name@ == "special:spaces"@
                implies all.contains(clients[i].address) by {
            if i < last {
                assert(rest[i] == clients[i]);
                assert(r.contains(clients[i].address));
                let k = choose|k: int| 0 <= k < r.len() && r[k] == clients[i].address;
                assert(all[k] == r[k]);
            } else {
                assert(all[all.len() - 1] == clients[i].address);
            }
        }
    }
}

/// The clients the cleanup command closes: those parked in `special:spaces`.
pub fn hidden_window_addresses(clients: &[ClientInfo]) -> (r: Vec<String>)
    ensures
        r@ == parked_addresses(clients@),
{
    let special = String::from_str("special:spaces");
    let mut r: Vec<String> = Vec::new();
    let mut i: usize = 0;
    while i < clients.len()
        invariant
            i <= clients@.len(),
            special@ == "special:spaces"@,
            r@ == parked_addresses(clients@.take(i as int)),
        decreases clients.len() - i,
    {
        proof {
            assert(clients@.take(i + 1).drop_last() =~= clients@.take(i as int));
            assert(clients@.take(i + 1).last() == clients@[i as int]);
        }
        if clients[i].workspace_name == special {
            r.push(clients[i].address.clone());
        }
        i = i + 1;
    }
    assert(clients@.take(clients@.len() as int) =~= clients@);
    r
}

/// Addresses of the open windows, in order.
pub open spec fn open_addresses(windows: Seq<ManagedWindow>) -> Seq<String>
    decreases windows.len(),
{
    if windows.len() == 0 {
        Seq::empty()
    } else {
        let rest = open_addresses(windows.drop_last());
        if windows.last().pid is Some {
            rest.push(windows.last().address)
        } else {
            rest
        }
    }
}

/// The tracked windows shutdown closes: the open ones.
pub fn open_window_addresses(windows: &[ManagedWindow]) -> (r: Vec<String>)
    ensures
        r@ == open_addresses(windows@),
{
    let mut r: Vec<String> = Vec::new();
    let mut i: usize = 0;
    while i < windows.len()
        invariant
            i <= windows@.len(),
            r@ == open_addresses(windows@.take(i as int)),
        decreases windows.len() - i,
    {
        proof {
            assert(windows@.take(i + 1).drop_last() =~= windows@.take(i as int));
            assert(windows@.take(i + 1).last() == windows@[i as int]);
        }
        if windows[i].is_open() {
            r.push(windows[i].address.clone());
        }
        i = i + 1;
    }
    assert(windows@.take(windows@.len() as int) =~= windows@);
    r
}

/// Direction of a space switch.
#[derive(Debug, Clone, Copy, PartialEq, Eq, Structural)]
pub enum SwitchDir {
    Next,
    Prev,
}

/// What a command leaves to the daemon after its state change.
#[derive(Debug)]
pub enum CommandStep {
    /// Answer with this response; nothing else to do.
    Reply(Response),
    /// Switch in this direction once the window at this address (the open
    /// current one) is focused and the pointer is in its edge zone.
    Switch(SwitchDir, String),
    /// Spawn this command, for the managed window with this id when given.
    Spawn(String, Option<String>),
    /// The current window is open at this address: show it.
    Show(String),
    /// The current window is closed: spawn it again.
    Respawn(ManagedWindow),
    /// The windows were reordered or relabelled: save and redraw.
    WindowsChanged,
    /// The templates changed: save the configuration.
    TemplatesChanged,
    /// This space was removed (close its window if open); then this follow-up.
    CloseSpace(ManagedWindow, AfterClose),
    /// Close the windows parked in `special:spaces`.
    Cleanup,
    /// Read the configuration file again.
    ReloadConfig,
    /// Recompute the overlay placement and show it.
    ResetOverlayPosition,
    /// Save, restore settings, close the tracked windows and exit.
    Shutdown,
}

/// The step is the answer `Error(text)`.
pub open spec fn refused(step: CommandStep, text: Seq<char>) -> bool {
    step matches CommandStep::Reply(Response::Error(m)) && m@ == text
}

/// Show the window if it is open, spawn it again if it is closed.
pub open spec fn show_or_respawn(w: ManagedWindow) -> CommandStep {
    if w.pid is Some {
        CommandStep::Show(w.address)
    } else {
        CommandStep::Respawn(w)
    }
}

/// The step of a switch request: the direction and the address of the open
/// current window, or the answer "No active window".
pub open spec fn switch_request_ok(before: SpacesView, dir: SwitchDir, step: CommandStep) -> bool {
    match before.current_window() {
        Some(w) => if w.pid is Some {
            step == CommandStep::Switch(dir, w.address)
        } else {
            step matches CommandStep::Reply(Response::Error(m)) && m@ == "No active window"@
        },
        None => step matches CommandStep::Reply(Response::Error(m)) && m@ == "No active window"@,
    }
}

/// What `command_step` does for each command: the state after it and the
/// step left to the daemon.
pub open spec fn command_step_ok(before: SpacesView, cmd: Command, after: SpacesView, step: CommandStep) -> bool {
    match cmd {
        Command::Next => after == before && switch_request_ok(before, SwitchDir::Next, step),
        Command::Prev => after == before && switch_request_ok(before, SwitchDir::Prev, step),
        Command::SwitchTo(i) => after == before.switch_to(i as nat) && if i < before.windows.len() {
            step == show_or_respawn(before.windows[i as int])
        } else {
            refused(step, "Invalid window index: "@ + decimal(i as nat))
        },
        Command::SwapWindows(i, j) => after == before.swap(i as nat, j as nat) && if i >= before.windows.len() {
            refused(step, "Failed to swap: "@ + error_text(ManagerError::InvalidIndex(i)))
        } else if j >= before.windows.len() {
            refused(step, "Failed to swap: "@ + error_text(ManagerError::InvalidIndex(j)))
        } else {
            step is WindowsChanged
        },
        Command::SetWindowIcon(i, icon) => after == before.set_icon(i as nat, icon) && if i < before.windows.len() {
            step is WindowsChanged
        } else {
            refused(step, "Failed to set icon: "@ + error_text(ManagerError::InvalidIndex(i)))
        },
        Command::Spawn(c) => after == before && step == CommandStep::Spawn(c, None),
        Command::SpawnAt(i, c, icon) => exists|w: ManagedWindow, now: nat| {
            &&& #[trigger] fresh_window(w, c@, issue_millis(before.id_floor, now))
            &&& step == CommandStep::Spawn(c, Some(w.id))
            &&& after == match icon {
                Some(label) => before.issue(now).insert_at(i as nat, w).set_icon(i as nat, label),
                None => before.issue(now).insert_at(i as nat, w),
            }
        },
        Command::List => after == before && (step matches CommandStep::Reply(Response::Windows(v)) && v@ == before.windows),
        Command::Cleanup => after == before && step is Cleanup,
        Command::ReloadConfig => after == before && step is ReloadConfig,
        Command::ResetOverlayPosition => after == before && step is ResetOverlayPosition,
        Command::GetTemplates => after == before && (step matches CommandStep::Reply(Response::Templates(v))
            && v@ == before.templates),
        Command::AddTemplate(name, command) => after == (SpacesView {
            templates: before.templates.push(CommandTemplate { name, command }),
            ..before
        }) && step is TemplatesChanged,
        Command::RemoveTemplate(name) => match first_index(before.templates, template_named(name@)) {
            Some(k) => after == (SpacesView { templates: before.templates.remove(k), ..before })
                && step is TemplatesChanged,
            None => after == before && refused(
                step,
                "Failed to remove template: "@ + error_text(ManagerError::TemplateNotFound),
            ),
        },
        Command::CloseSpace(i) => after == before.remove_at(i as nat) && if i < before.windows.len() {
            step matches CommandStep::CloseSpace(w, a) && w == before.windows[i as int] && after_close_of(after, a)
        } else {
            refused(step, "Invalid index: "@ + decimal(i as nat))
        },
        Command::Shutdown => after == before && step is Shutdown,
    }
}

fn switch_request(manager: &SpaceManager, dir: SwitchDir) -> (step: CommandStep)
    ensures
        switch_request_ok(manager@, dir, step),
{
    match manager.current_window() {
        Some(w) => {
            if w.is_open() {
                CommandStep::Switch(dir, w.address)
            } else {
                CommandStep::Reply(Response::Error(owned("No active window")))
            }
        },
        None => CommandStep::Reply(Response::Error(owned("No active window"))),
    }
}

/// The answer `Error(prefix + detail)`.
fn refusal(prefix: &str, detail: String) -> (step: CommandStep)
    ensures
        refused(step, prefix@ + detail@),
{
    CommandStep::Reply(Response::Error(concat(prefix, detail.as_str())))
}

fn shown_step(w: ManagedWindow) -> (step: CommandStep)
    ensures
        step == show_or_respawn(w),
{
    if w.is_open() {
        CommandStep::Show(w.address)
    } else {
        CommandStep::Respawn(w)
    }
}

/// Apply an IPC command to the spaces and say what the daemon still has to
/// do (show, spawn, save, close) and how to answer.
pub fn command_step(manager: &mut SpaceManager, cmd: Command) -> (step: CommandStep)
    requires
        old(manager)@.wf(),
    ensures
        final(manager)@.wf(),
        command_step_ok(old(manager)@, cmd, final(manager)@, step),
{
    match cmd {
        Command::Next => switch_request(manager, SwitchDir::Next),
        Command::Prev => switch_request(manager, SwitchDir::Prev),
        Command::SwitchTo(i) => match manager.switch_to(i) {
            Some(w) => shown_step(w),
            None => refusal("Invalid window index: ", decimal_string(i as u128)),
        },
        Command::SwapWindows(i, j) => match manager.swap_windows(i, j) {
            Ok(()) => CommandStep::WindowsChanged,
            Err(e) => refusal("Failed to swap: ", e.message()),
        },
        Command::SetWindowIcon(i, icon) => match manager.set_window_icon(i, icon) {
            Ok(()) => CommandStep::WindowsChanged,
            Err(e) => refusal("Failed to set icon: ", e.message()),
        },
        Command::Spawn(c) => CommandStep::Spawn(c, None),
        Command::SpawnAt(i, c, icon) => {
            let ghost command = c;
            let ghost before = manager@;
            let window = manager.new_window(c.clone());
            let ghost now = choose|now: u128| {
                &&& fresh_window(window, command@, issue_millis(before.id_floor, now as nat))
                &&& #[trigger] manager@ == before.issue(now as nat)
            };
            let id = window.id.clone();
            let ghost w = window;
            manager.insert_window_at(i, window);
            match icon {
                Some(label) => {
                    let _ = manager.set_window_icon(i, label);
                },
                None => {},
            }
            assert(fresh_window(w, c@, issue_millis(before.id_floor, now as nat)));
            CommandStep::Spawn(c, Some(id))
        },
        Command::List => CommandStep::Reply(Response::Windows(manager.get_windows())),
        Command::Cleanup => CommandStep::Cleanup,
        Command::ReloadConfig => CommandStep::ReloadConfig,
        Command::ResetOverlayPosition => CommandStep::ResetOverlayPosition,
        Command::GetTemplates => CommandStep::Reply(Response::Templates(manager.get_templates())),
        Command::AddTemplate(name, command) => {
            manager.add_template(CommandTemplate { name, command });
            CommandStep::TemplatesChanged
        },
        Command::RemoveTemplate(name) => match manager.remove_template(name.as_str()) {
            Ok(()) => CommandStep::TemplatesChanged,
            Err(e) => refusal("Failed to remove template: ", e.message()),
        },
        Command::CloseSpace(i) => match close_space(manager, i) {
            Some((w, after)) => CommandStep::CloseSpace(w, after),
            None => refusal("Invalid index: ", decimal_string(i as u128)),
        },
        Command::Shutdown => CommandStep::Shutdown,
    }
}

/// A switch that was allowed: the next (or previous) window becomes current
/// and is shown, or spawned if it is closed; "No windows to switch to" when
/// there are none.
pub open spec fn switch_step_ok(before: SpacesView, dir: SwitchDir, after: SpacesView, step: CommandStep) -> bool {
    &&& after == (if dir == SwitchDir::Next { before.next() } else { before.prev() })
    &&& match after.current_window() {
        Some(w) => before.windows.len() > 0 && step == show_or_respawn(w),
        None => before.windows.len() == 0 && refused(step, "No windows to switch to"@),
    }
}

/// The step after a switch was allowed (see [`switch_step_ok`]).
pub fn switch_step(manager: &mut SpaceManager, dir: SwitchDir) -> (step: CommandStep)
    requires
        old(manager)@.wf(),
    ensures
        final(manager)@.wf(),
        switch_step_ok(old(manager)@, dir, final(manager)@, step),
{
    let moved = match dir {
        SwitchDir::Next => manager.next(),
        SwitchDir::Prev => manager.prev(),
    };
    match moved {
        Some(w) => shown_step(w),
        None => CommandStep::Reply(Response::Error(owned("No windows to switch to"))),
    }
}

/// Whether a `Next`/`Prev` request may go ahead, given whether the tracked
/// window is focused and whether the pointer is in its edge zone (`Err` when
/// the pointer or the window could not be read): unfocused, "Tracked window
/// not focused"; a failed test, "Failed to check mouse position: <why>";
/// outside the zone, "Mouse not in edge zone of window" (the spaces unchanged
/// in all three); otherwise the switch.
pub open spec fn gated_switch_ok(
    before: SpacesView,
    dir: SwitchDir,
    focused: bool,
    in_zone: Result<bool, String>,
    after: SpacesView,
    step: CommandStep,
) -> bool {
    if !focused {
        after == before && refused(step, "Tracked window not focused"@)
    } else {
        match in_zone {
            Err(why) => after == before && refused(step, "Failed to check mouse position: "@ + why@),
            Ok(inside) => if inside {
                switch_step_ok(before, dir, after, step)
            } else {
                after == before && refused(step, "Mouse not in edge zone of window"@)
            },
        }
    }
}

/// Decide a `Next`/`Prev` request once its checks are known (see
/// [`gated_switch_ok`]); the edge-zone test is only consulted for a focused
/// window.
pub fn gated_switch(
    manager: &mut SpaceManager,
    dir: SwitchDir,
    focused: bool,
    in_zone: Result<bool, String>,
) -> (step: CommandStep)
    requires
        old(manager)@.wf(),
    ensures
        final(manager)@.wf(),
        gated_switch_ok(old(manager)@, dir, focused, in_zone, final(manager)@, step),
{
    if !focused {
        return CommandStep::Reply(Response::Error(owned("Tracked window not focused")));
    }
    match in_zone {
        Err(why) => refusal("Failed to check mouse position: ", why),
        Ok(inside) => {
            if inside {
                switch_step(manager, dir)
            } else {
                CommandStep::Reply(Response::Error(owned("Mouse not in edge zone of window")))
            }
        },
    }
}

/// A command answered with an error leaves the spaces exactly as they were.
pub proof fn law_refused_command_changes_nothing(
    before: SpacesView,
    cmd: Command,
    after: SpacesView,
    step: CommandStep,
)
    requires
        before.wf(),
        command_step_ok(before, cmd, after, step),
        step matches CommandStep::Reply(Response::Error(_)),
    ensures
        after == before,
{
}

/// Reading commands (`List`, `GetTemplates`) and the commands handed on to
/// the daemon whole (`Spawn`, `Cleanup`, `ReloadConfig`,
/// `ResetOverlayPosition`, `Shutdown`, and `Next`/`Prev` before their
/// checks) leave the spaces unchanged.
pub proof fn law_queries_change_nothing(before: SpacesView, cmd: Command, after: SpacesView, step: CommandStep)
    requires
        command_step_ok(before, cmd, after, step),
        cmd is List || cmd is GetTemplates || cmd is Spawn || cmd is Cleanup || cmd is ReloadConfig
            || cmd is ResetOverlayPosition || cmd is Shutdown || cmd is Next || cmd is Prev,
    ensures
        after == before,
{
}

} // verus!
