//! Managed-window visibility: where the visible managed window goes, and
//! which windows are parked in `special:spaces` so that only one is visible.

use vstd::prelude::*;

use crate::hypr::{ClientInfo, MonitorInfo};
use crate::manager::{first_index, is_first, lemma_first_index, lemma_first_index_none};
use crate::types::ManagedWindow;

verus! {

/// A workspace id that is positive and currently visible.
pub open spec fn visible_positive(visible: Seq<i32>) -> spec_fn(i32) -> bool {
    |w: i32| w > 0 && visible.contains(w)
}

pub open spec fn positive() -> spec_fn(i32) -> bool {
    |w: i32| w > 0
}

/// Where the next visible managed window should be shown. Preference order:
/// `cached` if positive and visible; the first positive visible workspace of
/// an open managed window; `cached` if positive; the first positive
/// workspace of an open managed window; otherwise `active_ws`.
pub open spec fn target_workspace(cached: Option<i32>, visible: Seq<i32>, window_ws: Seq<i32>, active_ws: i32) -> i32 {
    if cached matches Some(c) && c > 0 && visible.contains(c) {
        cached->0
    } else if first_index(window_ws, visible_positive(visible)) is Some {
        window_ws[first_index(window_ws, visible_positive(visible))->0]
    } else if cached matches Some(c) && c > 0 {
        cached->0
    } else if first_index(window_ws, positive()) is Some {
        window_ws[first_index(window_ws, positive())->0]
    } else {
        active_ws
    }
}

fn contains_ws(s: &[i32], w: i32) -> (r: bool)
    ensures
        r == s@.contains(w),
{
    let mut i: usize = 0;
    while i < s.len()
        invariant
            i <= s@.len(),
            forall|k: int| 0 <= k < i ==> s@[k] != w,
        decreases s.len() - i,
    {
        if s[i] == w {
            assert(s@[i as int] == w);
            return true;
        }
        i = i + 1;
    }
    false
}

/// Resolve the workspace where the next visible managed window should be
/// shown (see [`target_workspace`]). Non-positive workspace ids are ignored.
pub fn resolve_target_workspace(cached: Option<i32>, visible_ws: &[i32], window_ws: &[i32], active_ws: i32) -> (r: i32)
    ensures
        r == target_workspace(cached, visible_ws@, window_ws@, active_ws),
        r > 0 || r == active_ws,
        r == active_ws || (cached == Some(r)) || window_ws@.contains(r),
{
    if let Some(ws) = cached {
        if ws > 0 && contains_ws(visible_ws, ws) {
            return ws;
        }
    }
    let mut i: usize = 0;
    while i < window_ws.len()
        invariant
            i <= window_ws@.len(),
            !(cached matches Some(c) && c > 0 && visible_ws@.contains(c)),
            forall|k: int| 0 <= k < i ==> !(#[trigger] visible_positive(visible_ws@)(window_ws@[k])),
        decreases window_ws.len() - i,
    {
        let w = window_ws[i];
        if w > 0 && contains_ws(visible_ws, w) {
            proof { lemma_first_index(window_ws@, visible_positive(visible_ws@), i as int); }
            return w;
        }
        i = i + 1;
    }
    proof { lemma_first_index_none(window_ws@, visible_positive(visible_ws@)); }
    if let Some(ws) = cached {
        if ws > 0 {
            return ws;
        }
    }
    let mut j: usize = 0;
    while j < window_ws.len()
        invariant
            j <= window_ws@.len(),
            !(cached matches Some(c) && c > 0 && visible_ws@.contains(c)),
            !(cached matches Some(c) && c > 0),
            first_index(window_ws@, visible_positive(visible_ws@)) is None,
            forall|k: int| 0 <= k < j ==> !(#[trigger] positive()(window_ws@[k])),
        decreases window_ws.len() - j,
    {
        let w = window_ws[j];
        if w > 0 {
            proof { lemma_first_index(window_ws@, positive(), j as int); }
            return w;
        }
        j = j + 1;
    }
    proof { lemma_first_index_none(window_ws@, positive()); }
    active_ws
}

/// When a positive visible candidate exists (a visible cached workspace or
/// a visible workspace of an open managed window), the target is visible
/// and positive.
pub proof fn law_target_prefers_visible(cached: Option<i32>, visible: Seq<i32>, window_ws: Seq<i32>, active_ws: i32)
    requires
        (cached matches Some(c) && c > 0 && visible.contains(c)) || exists|k: int| 0 <= k < window_ws.len() && (#[trigger] visible_positive(visible)(window_ws[k])),
    ensures
        target_workspace(cached, visible, window_ws, active_ws) > 0,
        visible.contains(target_workspace(cached, visible, window_ws, active_ws)),
{
    if !(cached matches Some(c) && c > 0 && visible.contains(c)) {
        assert(first_index(window_ws, visible_positive(visible)) is Some);
        crate::manager::lemma_first_index_some(window_ws, visible_positive(visible));
    }
}

/// The client carrying this address.
pub open spec fn client_with(address: Seq<char>) -> spec_fn(ClientInfo) -> bool {
    |c: ClientInfo| c.address@ == address
}

/// The workspace of the first client carrying this address.
pub open spec fn workspace_of(address: Seq<char>, clients: Seq<ClientInfo>) -> Option<i32> {
    match first_index(clients, client_with(address)) {
        Some(i) => Some(clients[i].workspace_id),
        None => None,
    }
}

/// Index of the first client carrying this address.
pub fn client_index(address: &str, clients: &[ClientInfo]) -> (r: Option<usize>)
    ensures
        r matches Some(i) ==> first_index(clients@, client_with(address@)) == Some(i as int) && i < clients@.len(),
        r is None ==> first_index(clients@, client_with(address@)) is None,
{
    let a = String::from_str(address);
    let mut i: usize = 0;
    while i < clients.len()
        invariant
            i <= clients@.len(),
            a@ == address@,
            forall|k: int| 0 <= k < i ==> !(#[trigger] client_with(address@)(clients@[k])),
        decreases clients.len() - i,
    {
        if clients[i].address == a {
            proof { lemma_first_index(clients@, client_with(address@), i as int); }
            return Some(i);
        }
        i = i + 1;
    }
    proof { lemma_first_index_none(clients@, client_with(address@)); }
    None
}

/// Workspace id of the window at `address`, if it is among the live clients.
pub fn window_workspace(address: &str, clients: &[ClientInfo]) -> (r: Option<i32>)
    ensures
        r == workspace_of(address@, clients@),
{
    match client_index(address, clients) {
        Some(i) => Some(clients[i].workspace_id),
        None => None,
    }
}

/// The workspace shown on each monitor.
pub fn visible_workspaces(monitors: &[MonitorInfo]) -> (r: Vec<i32>)
    ensures
        r@ == monitors@.map_values(|m: MonitorInfo| m.active_workspace_id),
{
    let mut r: Vec<i32> = Vec::new();
    let mut i: usize = 0;
    while i < monitors.len()
        invariant
            i <= monitors@.len(),
            r@ =~= monitors@.take(i as int).map_values(|m: MonitorInfo| m.active_workspace_id),
        decreases monitors.len() - i,
    {
        r.push(monitors[i].active_workspace_id);
        i = i + 1;
        proof {
            assert(monitors@.take(i as int).drop_last() =~= monitors@.take(i - 1));
        }
    }
    assert(monitors@.take(monitors@.len() as int) =~= monitors@);
    r
}

/// Workspaces of the open managed windows found among the clients, in window order.
pub open spec fn open_window_workspaces(windows: Seq<ManagedWindow>, clients: Seq<ClientInfo>) -> Seq<i32>
    decreases windows.len(),
{
    if windows.len() == 0 {
        Seq::empty()
    } else {
        let rest = open_window_workspaces(windows.drop_last(), clients);
        let w = windows.last();
        if w.pid is Some && workspace_of(w.address@, clients) is Some {
            rest.push(workspace_of(w.address@, clients)->0)
        } else {
            rest
        }
    }
}

/// The workspaces of the open managed windows that are among the live clients.
pub fn managed_workspaces(windows: &[ManagedWindow], clients: &[ClientInfo]) -> (r: Vec<i32>)
    ensures
        r@ == open_window_workspaces(windows@, clients@),
{
    let mut r: Vec<i32> = Vec::new();
    let mut i: usize = 0;
    while i < windows.len()
        invariant
            i <= windows@.len(),
            r@ == open_window_workspaces(windows@.take(i as int), clients@),
        decreases windows.len() - i,
    {
        proof {
            assert(windows@.take(i + 1).drop_last() =~= windows@.take(i as int));
            assert(windows@.take(i + 1).last() == windows@[i as int]);
        }
        if windows[i].is_open() {
            match window_workspace(windows[i].address.as_str(), clients) {
                Some(ws) => r.push(ws),
                None => {},
            }
        }
        i = i + 1;
    }
    assert(windows@.take(windows@.len() as int) =~= windows@);
    r
}

/// Addresses of the open managed windows other than `target`, in window order.
pub open spec fn windows_to_hide(windows: Seq<ManagedWindow>, target: Seq<char>) -> Seq<String>
    decreases windows.len(),
{
    if windows.len() == 0 {
        Seq::empty()
    } else {
        let rest = windows_to_hide(windows.drop_last(), target);
        let w = windows.last();
        if w.pid is Some && w.address@ != target {
            rest.push(w.address)
        } else {
            rest
        }
    }
}

/// The open managed windows to park in `special:spaces` when `target` is
/// shown: every open one except `target` (single-visible invariant).
pub fn hidden_addresses(windows: &[ManagedWindow], target_address: &str) -> (r: Vec<String>)
    ensures
        r@ == windows_to_hide(windows@, target_address@),
{
    let target = String::from_str(target_address);
    let mut r: Vec<String> = Vec::new();
    let mut i: usize = 0;
    while i < windows.len()
        invariant
            i <= windows@.len(),
            target@ == target_address@,
            r@ == windows_to_hide(windows@.take(i as int), target_address@),
        decreases windows.len() - i,
    {
        proof {
            assert(windows@.take(i + 1).drop_last() =~= windows@.take(i as int));
            assert(windows@.take(i + 1).last() == windows@[i as int]);
        }
        if windows[i].is_open() && windows[i].address != target {
            r.push(windows[i].address.clone());
        }
        i = i + 1;
    }
    assert(windows@.take(windows@.len() as int) =~= windows@);
    r
}

/// The target is never among the windows to hide, and every open managed
/// window other than the target is.
pub proof fn law_single_visible(windows: Seq<ManagedWindow>, target: Seq<char>)
    ensures
        forall|k: int| 0 <= k < windows_to_hide(windows, target).len() ==> (#[trigger] windows_to_hide(windows, target)[k])@ != target,
        forall|i: int| 0 <= i < windows.len() && (#[trigger] windows[i]).pid is Some && windows[i].address@ != target
            ==> windows_to_hide(windows, target).contains(windows[i].address),
    decreases windows.len(),
{
    if windows.len() > 0 {
        let rest = windows.drop_last();
        law_single_visible(rest, target);
        let h = windows_to_hide(windows, target);
        let hr = windows_to_hide(rest, target);
        assert forall|i: int| 0 <= i < windows.len() && (#[trigger] windows[i]).pid is Some && windows[i].address@ != target
            implies h.contains(windows[i].address) by {
            if i < windows.len() - 1 {
                assert(rest[i] == windows[i]);
                assert(hr.contains(windows[i].address));
                let k = choose|k: int| 0 <= k < hr.len() && hr[k] == windows[i].address;
                assert(h[k] == hr[k]);
            } else {
                assert(h[h.len() - 1] == windows[i].address);
            }
        }
        assert forall|k: int| 0 <= k < h.len() implies (#[trigger] h[k])@ != target by {
            if k < hr.len() {
                assert(h[k] == hr[k]);
            }
        }
    }
}

/// The first open managed window whose client is on a visible workspace.
pub open spec fn shown_on_visible(clients: Seq<ClientInfo>, visible: Seq<i32>) -> spec_fn(ManagedWindow) -> bool {
    |w: ManagedWindow|
        w.pid is Some && workspace_of(w.address@, clients) is Some && visible.contains(workspace_of(w.address@, clients)->0)
}

/// The first open managed window shown on a visible workspace, with that
/// workspace (after a workspace change).
pub fn find_visible_window(windows: &[ManagedWindow], clients: &[ClientInfo], visible_ws: &[i32]) -> (r: Option<(String, i32)>)
    ensures
        match first_index(windows@, shown_on_visible(clients@, visible_ws@)) {
            Some(i) => r == Some((windows@[i].address, workspace_of(windows@[i].address@, clients@)->0)),
            None => r is None,
        },
{
    let mut i: usize = 0;
    while i < windows.len()
        invariant
            i <= windows@.len(),
            forall|k: int| 0 <= k < i ==> !(#[trigger] shown_on_visible(clients@, visible_ws@)(windows@[k])),
        decreases windows.len() - i,
    {
        if windows[i].is_open() {
            match window_workspace(windows[i].address.as_str(), clients) {
                Some(ws) => {
                    if contains_ws(visible_ws, ws) {
                        proof { lemma_first_index(windows@, shown_on_visible(clients@, visible_ws@), i as int); }
                        return Some((windows[i].address.clone(), ws));
                    }
                },
                None => {},
            }
        }
        i = i + 1;
    }
    proof { lemma_first_index_none(windows@, shown_on_visible(clients@, visible_ws@)); }
    None
}

} // verus!
