//! Local projections of Hyprland clients and monitors, so the rest of the
//! library never depends on the compositor client's own types.

use vstd::prelude::*;

verus! {

/// A live Hyprland client (window).
#[derive(Debug, PartialEq, Eq)]
pub struct ClientInfo {
    pub address: String,
    pub class: String,
    pub title: String,
    pub pid: Option<u32>,
    pub at: (i32, i32),
    pub size: (i32, i32),
    pub workspace_id: i32,
    pub workspace_name: String,
    pub monitor: Option<i128>,
}

/// A live Hyprland monitor.
#[derive(Debug, PartialEq, Eq)]
pub struct MonitorInfo {
    pub id: i128,
    pub name: String,
    pub x: i32,
    pub y: i32,
    pub width: i32,
    pub height: i32,
    pub active_workspace_id: i32,
    pub focused: bool,
}

/// Target workspace for a silent move: a normal id or a named special workspace.
#[derive(Debug)]
pub enum WorkspaceTarget {
    Id(i32),
    Special(String),
}

impl Clone for ClientInfo {
    fn clone(&self) -> (r: Self)
        ensures
            r == *self,
    {
        ClientInfo {
            address: self.address.clone(),
            class: self.class.clone(),
            title: self.title.clone(),
            pid: self.pid,
            at: self.at,
            size: self.size,
            workspace_id: self.workspace_id,
            workspace_name: self.workspace_name.clone(),
            monitor: self.monitor,
        }
    }
}

impl Clone for MonitorInfo {
    fn clone(&self) -> (r: Self)
        ensures
            r == *self,
    {
        MonitorInfo {
            id: self.id,
            name: self.name.clone(),
            x: self.x,
            y: self.y,
            width: self.width,
            height: self.height,
            active_workspace_id: self.active_workspace_id,
            focused: self.focused,
        }
    }
}

impl Clone for WorkspaceTarget {
    fn clone(&self) -> (r: Self)
        ensures
            r == *self,
    {
        match self {
            WorkspaceTarget::Id(id) => WorkspaceTarget::Id(*id),
            WorkspaceTarget::Special(name) => WorkspaceTarget::Special(name.clone()),
        }
    }
}

/// The process id of a client as Hyprland reports it: negative means "none".
pub open spec fn pid_of_raw(raw: i32) -> Option<u32> {
    if raw >= 0 {
        Some(raw as u32)
    } else {
        None
    }
}

/// Converts Hyprland's raw client pid (negative when unknown) to an optional pid.
pub fn client_pid(raw: i32) -> (r: Option<u32>)
    ensures
        r == pid_of_raw(raw),
{
    if raw >= 0 {
        Some(raw as u32)
    } else {
        None
    }
}

} // verus!
