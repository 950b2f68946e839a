//! Recovery after the compositor's state changed under us: re-binding the
//! managed windows to the live clients (resync), and drift detection for the
//! periodic consistency check (a resync is needed when the current window's
//! address is gone or when the monitor the overlay was last placed on
//! changed or disappeared).

use vstd::prelude::*;

use crate::daemon::rematch::{match_outcome, match_windows, MatchOutcome};
use crate::daemon::visibility::{client_index, client_with};
use crate::geometry::{monitor_rect, Rect};
use crate::hypr::{ClientInfo, MonitorInfo};
use crate::manager::{closes_first, first_index, has_id, SpaceManager, SpacesView};
use crate::types::ManagedWindow;

verus! {

/// Geometry the last overlay placement was computed against.
#[derive(Debug)]
pub struct RepositionState {
    pub tracked_addr: String,
    pub monitor_name: String,
    pub monitor_rect: Rect,
}

impl Clone for RepositionState {
    fn clone(&self) -> (r: Self)
        ensures
            r == *self,
    {
        RepositionState {
            tracked_addr: self.tracked_addr.clone(),
            monitor_name: self.monitor_name.clone(),
            monitor_rect: self.monitor_rect,
        }
    }
}

/// Is the state out of step with the compositor? Either the current window
/// is open but its address is on no live client, or the last placement's
/// monitor is gone or has a different geometry.
pub open spec fn drifted(
    current: Option<ManagedWindow>,
    clients: Seq<ClientInfo>,
    last: Option<RepositionState>,
    monitors: Seq<MonitorInfo>,
) -> bool {
    let window_gone = current matches Some(w) && w.pid is Some
        && !exists|i: int| 0 <= i < clients.len() && (#[trigger] clients[i]).address@ == w.address@;
    let monitor_changed = last matches Some(rs)
        && !exists|i: int| 0 <= i < monitors.len() && (#[trigger] monitors[i]).name@ == rs.monitor_name@
            && monitor_rect(monitors[i]) == rs.monitor_rect;
    window_gone || monitor_changed
}

/// The cheap drift probe of the periodic consistency check.
pub fn detect_drift(
    current: &Option<ManagedWindow>,
    clients: &[ClientInfo],
    last: &Option<RepositionState>,
    monitors: &[MonitorInfo],
) -> (r: bool)
    ensures
        r == drifted(*current, clients@, *last, monitors@),
{
    let mut window_gone = false;
    if let Some(w) = current {
        if w.is_open() {
            let mut found = false;
            let mut i: usize = 0;
            while i < clients.len()
                invariant
                    i <= clients@.len(),
                    found == exists|k: int| 0 <= k < i && (#[trigger] clients@[k]).address@ == w.address@,
                decreases clients.len() - i,
            {
                if clients[i].address == w.address {
                    found = true;
                }
                i = i + 1;
            }
            window_gone = !found;
        }
    }
    let mut monitor_changed = false;
    if let Some(rs) = last {
        let mut ok = false;
        let mut j: usize = 0;
        while j < monitors.len()
            invariant
                j <= monitors@.len(),
                ok == exists|k: int| 0 <= k < j && (#[trigger] monitors@[k]).name@ == rs.monitor_name@
                    && monitor_rect(monitors@[k]) == rs.monitor_rect,
            decreases monitors.len() - j,
        {
            let m = &monitors[j];
            let rect = Rect::new(m.x, m.y, m.width, m.height);
            if m.name == rs.monitor_name && rect == rs.monitor_rect {
                ok = true;
            }
            j = j + 1;
        }
        monitor_changed = !ok;
    }
    window_gone || monitor_changed
}

/// The spaces after re-opening each matched window (the first with its id)
/// with the class and title of the first client at its address; a match whose
/// address is on no client changes nothing.
pub open spec fn reopen_matched(
    s: SpacesView,
    matches: Seq<(String, String, Option<u32>)>,
    clients: Seq<ClientInfo>,
) -> SpacesView
    decreases matches.len(),
{
    if matches.len() == 0 {
        s
    } else {
        let prev = reopen_matched(s, matches.drop_last(), clients);
        let m = matches.last();
        match first_index(clients, client_with(m.1@)) {
            Some(c) => prev.open_first(has_id(m.0@), m.1, clients[c].class, clients[c].title, m.2),
            None => prev,
        }
    }
}

/// `after` is `before` with, for each id in turn, the first window carrying
/// that id marked closed.
pub open spec fn closes_each(before: SpacesView, after: SpacesView, ids: Seq<String>) -> bool
    decreases ids.len(),
{
    if ids.len() == 0 {
        after == before
    } else {
        exists|mid: SpacesView|
            closes_each(before, mid, ids.drop_last()) && #[trigger] closes_first(mid, after, has_id(ids.last()@))
    }
}

/// Re-bind the managed windows to the live clients (see
/// [`match_windows`]): every matched window is marked open with its client's
/// details, then every unmatched one is marked closed. Returns the outcome.
pub fn resync_windows(manager: &mut SpaceManager, clients: &[ClientInfo]) -> (out: MatchOutcome)
    requires
        old(manager)@.wf(),
    ensures
        final(manager)@.wf(),
        out.matches@ == match_outcome(old(manager)@.windows, clients@).0,
        out.closed@ == match_outcome(old(manager)@.windows, clients@).1,
        closes_each(reopen_matched(old(manager)@, out.matches@, clients@), final(manager)@, out.closed@),
{
    let windows = manager.get_windows();
    let outcome = match_windows(windows.as_slice(), clients);
    let ghost start = manager@;
    let mut k: usize = 0;
    while k < outcome.matches.len()
        invariant
            k <= outcome.matches@.len(),
            manager@.wf(),
            manager@ == reopen_matched(start, outcome.matches@.take(k as int), clients@),
        decreases outcome.matches.len() - k,
    {
        let m = &outcome.matches[k];
        proof {
            assert(outcome.matches@.take(k + 1).drop_last() =~= outcome.matches@.take(k as int));
            assert(outcome.matches@.take(k + 1).last() == outcome.matches@[k as int]);
        }
        match client_index(m.1.as_str(), clients) {
            Some(c) => {
                manager.open_window_by_id(
                    m.0.as_str(),
                    m.1.clone(),
                    clients[c].class.clone(),
                    clients[c].title.clone(),
                    m.2,
                );
            },
            None => {},
        }
        k = k + 1;
    }
    assert(outcome.matches@.take(outcome.matches@.len() as int) =~= outcome.matches@);
    let ghost reopened = manager@;
    let mut j: usize = 0;
    while j < outcome.closed.len()
        invariant
            j <= outcome.closed@.len(),
            manager@.wf(),
            closes_each(reopened, manager@, outcome.closed@.take(j as int)),
        decreases outcome.closed.len() - j,
    {
        let ghost prev = manager@;
        manager.mark_window_closed_by_id(outcome.closed[j].as_str());
        proof {
            let ids = outcome.closed@.take(j + 1);
            assert(ids.drop_last() =~= outcome.closed@.take(j as int));
            assert(ids.last() == outcome.closed@[j as int]);
            assert(closes_first(prev, manager@, has_id(ids.last()@)));
        }
        j = j + 1;
    }
    assert(outcome.closed@.take(outcome.closed@.len() as int) =~= outcome.closed@);
    outcome
}

} // verus!
