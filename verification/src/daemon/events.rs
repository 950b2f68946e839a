//! Reactions to compositor and input events: reconnect backoff, side mouse
//! buttons, and the state changes when a window opens or closes or the
//! visible workspaces change.

use vstd::prelude::*;

use crate::daemon::visibility::{find_visible_window, shown_on_visible, workspace_of};
use crate::hypr::ClientInfo;
use crate::input::MouseButton;
use crate::manager::{
    closed_with_command, closes_first, first_index, has_address, has_id, issue_millis, SpaceManager, SpacesView,
};
use crate::process::PendingSpawn;
use crate::types::{window_id_for, Command, ManagedWindow};

verus! {

/// First reconnect delay, in milliseconds.
pub const BACKOFF_MIN_MS: u64 = 250;
/// Longest reconnect delay, in milliseconds.
pub const BACKOFF_MAX_MS: u64 = 5000;
/// A listener run longer than this (milliseconds) resets the backoff.
pub const BACKOFF_RESET_AFTER_MS: u64 = 30000;

/// Exponential reconnect backoff: 250 ms, doubling, capped at 5000 ms.
pub struct Backoff {
    current_ms: u64,
}

impl View for Backoff {
    type V = u64;

    closed spec fn view(&self) -> u64 {
        self.current_ms
    }
}

/// The delay after `d`: doubled, capped at the maximum.
pub open spec fn doubled_capped(d: u64) -> u64 {
    if 2 * d >= BACKOFF_MAX_MS { BACKOFF_MAX_MS } else { (2 * d) as u64 }
}

/// The `k`-th delay handed out after a reset.
pub open spec fn nth_delay(k: nat) -> u64
    decreases k,
{
    if k == 0 {
        BACKOFF_MIN_MS
    } else {
        doubled_capped(nth_delay((k - 1) as nat))
    }
}

impl Backoff {
    /// The delay that will be handed out next.
    pub open spec fn wf(self) -> bool {
        BACKOFF_MIN_MS <= self@ <= BACKOFF_MAX_MS
    }

    pub fn new() -> (b: Self)
        ensures
            b@ == BACKOFF_MIN_MS,
            b.wf(),
    {
        Backoff { current_ms: BACKOFF_MIN_MS }
    }

    /// Start again from the shortest delay.
    pub fn reset(&mut self)
        ensures
            final(self)@ == BACKOFF_MIN_MS,
            final(self).wf(),
    {
        self.current_ms = BACKOFF_MIN_MS;
    }

    /// The delay to wait now (milliseconds); the next one is doubled, capped.
    pub fn next(&mut self) -> (d: u64)
        requires
            old(self).wf(),
        ensures
            d == old(self)@,
            final(self)@ == doubled_capped(old(self)@),
            final(self).wf(),
            BACKOFF_MIN_MS <= d <= BACKOFF_MAX_MS,
    {
        let d = self.current_ms;
        self.current_ms = if d >= BACKOFF_MAX_MS / 2 { BACKOFF_MAX_MS } else { d * 2 };
        d
    }
}

/// After a reset, the delays are 250, 500, 1000, 2000, 4000 ms, then 5000 ms
/// for ever: never shrinking, never above 5 seconds.
pub proof fn law_backoff_schedule(k: nat)
    ensures
        BACKOFF_MIN_MS <= nth_delay(k) <= BACKOFF_MAX_MS,
        nth_delay(k) <= nth_delay(k + 1),
        k >= 5 ==> nth_delay(k) == BACKOFF_MAX_MS,
        nth_delay(1) == 500,
        nth_delay(4) == 4000,
    decreases k,
{
    reveal_with_fuel(nth_delay, 6);
    if k > 0 {
        law_backoff_schedule((k - 1) as nat);
    }
}

/// Should a listener run of this length (milliseconds) reset the backoff?
pub fn should_reset_backoff(run_ms: u64) -> (r: bool)
    ensures
        r == (run_ms > BACKOFF_RESET_AFTER_MS),
{
    run_ms > BACKOFF_RESET_AFTER_MS
}

/// The command a side button sends: back is `Prev`, forward is `Next`.
pub fn command_for_button(button: MouseButton) -> (c: Command)
    ensures
        button == MouseButton::Button4 ==> c is Prev,
        button == MouseButton::Button5 ==> c is Next,
{
    match button {
        MouseButton::Button4 => Command::Prev,
        MouseButton::Button5 => Command::Next,
    }
}

/// The command a side-button press sends: none while side mouse buttons are
/// disabled in the settings, otherwise back is `Prev` and forward is `Next`.
pub fn side_button_command(manager: &SpaceManager, button: MouseButton) -> (c: Option<Command>)
    ensures
        !manager@.side_mouse_binds ==> c is None,
        manager@.side_mouse_binds && button == MouseButton::Button4 ==> c == Some(Command::Prev),
        manager@.side_mouse_binds && button == MouseButton::Button5 ==> c == Some(Command::Next),
{
    if manager.is_side_mouse_binds_enabled() {
        Some(command_for_button(button))
    } else {
        None
    }
}

/// The managed window a matched spawn re-opens: the one with its window id,
/// or, for a spawn made without one, the first closed window with its command.
pub open spec fn reopen_target(p: PendingSpawn) -> spec_fn(ManagedWindow) -> bool {
    match p.window_id {
        Some(id) => has_id(id@),
        None => closed_with_command(p.command@),
    }
}

/// Record that a spawned window opened at `address`. The managed window it
/// belongs to is marked open and made current (returns true); if there is
/// none, a new window for the spawn's command is added, open and current
/// (returns false).
pub fn on_window_opened(
    manager: &mut SpaceManager,
    pending: PendingSpawn,
    address: String,
    class: String,
    title: String,
    pid: Option<u32>,
) -> (reopened: bool)
    requires
        old(manager)@.wf(),
    ensures
        final(manager)@.wf(),
        reopened == first_index(old(manager)@.windows, reopen_target(pending)) is Some,
        reopened ==> final(manager)@ == old(manager)@.open_first(reopen_target(pending), address, class, title, pid)
            .switch_to_address(address@),
        !reopened ==> exists|w: ManagedWindow, now: nat| {
            &&& #[trigger] final(manager)@ == old(manager)@.issue(now).add(w)
            &&& w.address == address && w.class == class && w.title == title && w.pid == pid
            &&& w.spawn_command@ == pending.command@ && w.custom_icon is None
            &&& w.id@ == window_id_for(issue_millis(old(manager)@.id_floor, now))
        },
{
    let addr = address.clone();
    let reopened = match &pending.window_id {
        Some(id) => manager.open_window_by_id(id.as_str(), address, class.clone(), title.clone(), pid),
        None => manager.open_window_by_command(pending.command.as_str(), address, class.clone(), title.clone(), pid),
    };
    if reopened {
        manager.switch_to_address(addr.as_str());
        true
    } else {
        let ghost before = manager@;
        assert(before == old(manager)@);
        let ghost command = pending.command;
        let mut window = manager.new_window(pending.command);
        let ghost now = choose|now: u128| {
            &&& crate::types::fresh_window(window, command@, issue_millis(before.id_floor, now as nat))
            &&& #[trigger] manager@ == before.issue(now as nat)
        };
        window.open(addr, class, title, pid);
        let ghost w = window;
        manager.add_window(window);
        assert(manager@ == before.issue(now as nat).add(w));
        assert(w.address == address && w.class == class && w.title == title && w.pid == pid);
        assert(w.id@ == window_id_for(issue_millis(before.id_floor, now as nat)));
        false
    }
}

/// What closing a tracked window did.
#[derive(Debug)]
pub enum WindowClosed {
    /// The address belongs to no managed window.
    NotTracked,
    /// The window was marked closed; it was not the current one.
    Closed,
    /// The current window was marked closed and the next one became current.
    Advanced(ManagedWindow),
}

/// Record that the window at `address` closed: mark it closed and, if it was
/// the current window, advance to the next one.
pub fn on_window_closed(manager: &mut SpaceManager, address: &str) -> (r: WindowClosed)
    requires
        old(manager)@.wf(),
    ensures
        final(manager)@.wf(),
        match first_index(old(manager)@.windows, has_address(address@)) {
            None => r is NotTracked && final(manager)@ == old(manager)@,
            Some(i) => exists|mid: SpacesView| {
                &&& #[trigger] closes_first(old(manager)@, mid, has_address(address@))
                &&& if i == old(manager)@.current {
                    final(manager)@ == mid.next() && r == WindowClosed::Advanced(final(manager)@.current_window()->0)
                } else {
                    final(manager)@ == mid && r is Closed
                }
            },
        },
{
    let closed_index = manager.find_window_index_by_address(address);
    let current_index = manager.get_current_index();
    match closed_index {
        None => WindowClosed::NotTracked,
        Some(idx) => {
            manager.mark_window_closed(address);
            let ghost mid = manager@;
            if idx == current_index {
                match manager.next() {
                    Some(w) => WindowClosed::Advanced(w),
                    None => WindowClosed::Closed,
                }
            } else {
                WindowClosed::Closed
            }
        },
    }
}

/// After a workspace change: the first open managed window now on a visible
/// workspace becomes current, and it is returned with that workspace (the
/// overlay is shown for it); `None`, and no change, when none is visible.
pub fn on_workspace_change(manager: &mut SpaceManager, clients: &[ClientInfo], visible_ws: &[i32]) -> (r: Option<(String, i32)>)
    requires
        old(manager)@.wf(),
    ensures
        final(manager)@.wf(),
        match first_index(old(manager)@.windows, shown_on_visible(clients@, visible_ws@)) {
            Some(i) => {
                let w = old(manager)@.windows[i];
                &&& r == Some((w.address, workspace_of(w.address@, clients@)->0))
                &&& final(manager)@ == old(manager)@.switch_to_address(w.address@)
            },
            None => r is None && final(manager)@ == old(manager)@,
        },
{
    let windows = manager.get_windows();
    match find_visible_window(windows.as_slice(), clients, visible_ws) {
        Some((address, ws)) => {
            manager.switch_to_address(address.as_str());
            Some((address, ws))
        },
        None => None,
    }
}

} // verus!
