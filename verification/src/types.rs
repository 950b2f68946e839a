//! Core data types: managed windows, IPC commands and responses, templates.

use vstd::prelude::*;

use crate::text::{concat, decimal, decimal_string, lemma_decimal_injective, owned};

verus! {

/// A window launched or tracked by the manager: one "space".
///
/// `id` is our own stable identifier; `address`, `class`, `title` and `pid`
/// describe the live Hyprland window and are only meaningful while it is open
/// (`pid` is `Some` exactly when the window is open).
#[derive(Debug)]
pub struct ManagedWindow {
    pub id: String,
    pub address: String,
    pub class: String,
    pub title: String,
    pub pid: Option<u32>,
    pub spawn_command: String,
    pub custom_icon: Option<String>,
}

impl Clone for ManagedWindow {
    fn clone(&self) -> (r: Self)
        ensures
            r == *self,
    {
        ManagedWindow {
            id: self.id.clone(),
            address: self.address.clone(),
            class: self.class.clone(),
            title: self.title.clone(),
            pid: self.pid,
            spawn_command: self.spawn_command.clone(),
            custom_icon: match &self.custom_icon {
                Some(s) => Some(s.clone()),
                None => None,
            },
        }
    }
}

/// The id given to a window created at `millis` milliseconds since the epoch.
pub open spec fn window_id_for(millis: nat) -> Seq<char> {
    "win_"@ + decimal(millis)
}

/// Windows created at different milliseconds get different ids. (Two
/// windows created within the same millisecond get the same id.)
pub proof fn law_window_ids_distinct(millis1: nat, millis2: nat)
    requires
        millis1 != millis2,
    ensures
        window_id_for(millis1) != window_id_for(millis2),
{
    lemma_decimal_injective(millis1, millis2);
    reveal_strlit("win_");
    let a = window_id_for(millis1);
    let b = window_id_for(millis2);
    if a == b {
        assert(a.skip(4) =~= decimal(millis1));
        assert(b.skip(4) =~= decimal(millis2));
    }
}

/// A freshly created (not yet loaded) window for `command`, created at `millis`.
pub open spec fn fresh_window(w: ManagedWindow, command: Seq<char>, millis: nat) -> bool {
    &&& w.id@ == window_id_for(millis)
    &&& w.address@ == Seq::<char>::empty()
    &&& w.class@ == Seq::<char>::empty()
    &&& w.title@ == "(Not loaded)"@
    &&& w.pid.is_none()
    &&& w.spawn_command@ == command
    &&& w.custom_icon.is_none()
}

/// Milliseconds since the Unix epoch, read from the system clock.
///
/// Trusted: calls `SystemTime::now().duration_since(UNIX_EPOCH)`; nothing is
/// promised of the value (it depends on the clock). A clock set before the
/// epoch reads as 0.
#[verifier::external_body]
pub(crate) fn unix_millis() -> u128 {
    match std::time::SystemTime::now().duration_since(std::time::UNIX_EPOCH) {
        Ok(d) => d.as_millis(),
        Err(_) => 0,
    }
}

impl ManagedWindow {
    /// A new, not yet loaded window for `command`, with an id derived from the
    /// current time. Two windows made this way within one millisecond share
    /// an id; [`crate::manager::SpaceManager::new_window`] issues distinct ones.
    pub fn new(command: String) -> (w: Self)
        ensures
            exists|millis: nat| fresh_window(w, command@, millis),
    {
        let millis = unix_millis();
        Self::created_at(command, millis)
    }

    /// A new, not yet loaded window for `command`, created at `millis`
    /// milliseconds since the epoch (its id is `win_<millis>`).
    pub fn created_at(command: String, millis: u128) -> (w: Self)
        ensures
            fresh_window(w, command@, millis as nat),
    {
        let digits = decimal_string(millis);
        let id = concat("win_", digits.as_str());
        ManagedWindow {
            id,
            address: String::new(),
            class: String::new(),
            title: owned("(Not loaded)"),
            pid: None,
            spawn_command: command,
            custom_icon: None,
        }
    }

    /// Mark this window as opened with the given Hyprland details.
    pub fn open(&mut self, address: String, class: String, title: String, pid: Option<u32>)
        ensures
            final(self).address == address,
            final(self).class == class,
            final(self).title == title,
            final(self).pid == pid,
            final(self).id == old(self).id,
            final(self).spawn_command == old(self).spawn_command,
            final(self).custom_icon == old(self).custom_icon,
    {
        self.address = address;
        self.class = class;
        self.title = title;
        self.pid = pid;
    }

    /// Mark this window as closed: clear its Hyprland details.
    pub fn close(&mut self)
        ensures
            final(self).address@ == Seq::<char>::empty(),
            final(self).class@ == Seq::<char>::empty(),
            final(self).title@ == "(Closed)"@,
            final(self).pid.is_none(),
            final(self).id == old(self).id,
            final(self).spawn_command == old(self).spawn_command,
            final(self).custom_icon == old(self).custom_icon,
    {
        self.address = String::new();
        self.class = String::new();
        self.title = owned("(Closed)");
        self.pid = None;
    }

    /// Is the window currently open?
    pub fn is_open(&self) -> (r: bool)
        ensures
            r == self.pid.is_some(),
    {
        self.pid.is_some()
    }
}

/// A named command with `{{variable}}` placeholders.
#[derive(Debug)]
pub struct CommandTemplate {
    pub name: String,
    pub command: String,
}

impl Clone for CommandTemplate {
    fn clone(&self) -> (r: Self)
        ensures
            r == *self,
    {
        CommandTemplate { name: self.name.clone(), command: self.command.clone() }
    }
}

/// A request sent to the daemon over the IPC socket.
#[derive(Debug)]
pub enum Command {
    Next,
    Prev,
    /// Switch to the window at this index.
    SwitchTo(usize),
    /// Swap two windows by index.
    SwapWindows(usize, usize),
    /// Set the custom icon/label of a window.
    SetWindowIcon(usize, String),
    Spawn(String),
    /// Spawn at an index, with an optional icon.
    SpawnAt(usize, String, Option<String>),
    List,
    /// Close all windows parked in `special:spaces`.
    Cleanup,
    ReloadConfig,
    ResetOverlayPosition,
    GetTemplates,
    /// Add a template (name, command).
    AddTemplate(String, String),
    /// Remove a template by name.
    RemoveTemplate(String),
    /// Close the window at this index and remove its space.
    CloseSpace(usize),
    Shutdown,
}

/// The daemon's answer to a [`Command`].
#[derive(Debug)]
pub enum Response {
    /// The command succeeded (sent on the wire as `Ok`).
    Success,
    Error(String),
    Windows(Vec<ManagedWindow>),
    Templates(Vec<CommandTemplate>),
}

} // verus!
