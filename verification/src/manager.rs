//! The ordered list of spaces (managed windows), the current index, and the
//! user settings and command templates kept beside them.
//!
//! Every operation is stated over [`SpacesView`] by an open spec function, and
//! the laws relating operations are proved over those spec functions.

use vstd::prelude::*;

use crate::text::{concat, decimal, decimal_string, owned};
use crate::types::{fresh_window, unix_millis, window_id_for, CommandTemplate, ManagedWindow};

verus! {

/// Abstract state of a [`SpaceManager`].
pub struct SpacesView {
    pub windows: Seq<ManagedWindow>,
    pub current: nat,
    pub side_mouse_binds: bool,
    pub templates: Seq<CommandTemplate>,
    /// New windows get ids from this millisecond on.
    pub id_floor: nat,
}

/// Why a manager operation was refused.
#[derive(Debug, Clone, Copy, PartialEq, Eq, Structural)]
pub enum ManagerError {
    /// No window at this index.
    InvalidIndex(usize),
    /// No template with the requested name.
    TemplateNotFound,
}

/// How a refusal reads: `invalid window index <i>` or `template not found`.
pub open spec fn error_text(e: ManagerError) -> Seq<char> {
    match e {
        ManagerError::InvalidIndex(i) => "invalid window index "@ + decimal(i as nat),
        ManagerError::TemplateNotFound => "template not found"@,
    }
}

impl ManagerError {
    /// The text of the refusal (see [`error_text`]).
    pub fn message(&self) -> (s: String)
        ensures
            s@ == error_text(*self),
    {
        match self {
            ManagerError::InvalidIndex(i) => {
                let digits = decimal_string(*i as u128);
                concat("invalid window index ", digits.as_str())
            },
            ManagerError::TemplateNotFound => owned("template not found"),
        }
    }
}

// ---------------------------------------------------------------------------
// First match in a sequence
// ---------------------------------------------------------------------------

/// `i` is the first index of `s` whose element satisfies `p`.
pub open spec fn is_first<T>(s: Seq<T>, p: spec_fn(T) -> bool, i: int) -> bool {
    0 <= i < s.len() && p(s[i]) && forall|k: int| 0 <= k < i ==> !p(#[trigger] s[k])
}

/// The first index of `s` whose element satisfies `p`, if any.
pub open spec fn first_index<T>(s: Seq<T>, p: spec_fn(T) -> bool) -> Option<int> {
    if exists|i: int| 0 <= i < s.len() && p(#[trigger] s[i]) {
        Some(choose|i: int| is_first(s, p, i))
    } else {
        None
    }
}

/// `first_index` is the unique first match.
pub proof fn lemma_first_index<T>(s: Seq<T>, p: spec_fn(T) -> bool, i: int)
    requires
        is_first(s, p, i),
    ensures
        first_index(s, p) == Some(i),
{
    assert(exists|i: int| 0 <= i < s.len() && p(#[trigger] s[i])) by {
        assert(p(s[i]));
    }
    assert(exists|j: int| is_first(s, p, j));
    let c = choose|j: int| is_first(s, p, j);
    if c < i {
        assert(!p(s[c]));
    }
    if c > i {
        assert(!p(s[i]));
    }
}

/// No element satisfies `p`: there is no first match.
pub proof fn lemma_first_index_none<T>(s: Seq<T>, p: spec_fn(T) -> bool)
    requires
        forall|k: int| 0 <= k < s.len() ==> !p(#[trigger] s[k]),
    ensures
        first_index(s, p) is None,
{
}

/// A first match is a match with no match before it.
pub proof fn lemma_first_index_some<T>(s: Seq<T>, p: spec_fn(T) -> bool)
    requires
        first_index(s, p) is Some,
    ensures
        is_first(s, p, first_index(s, p)->0),
{
    let w = choose|i: int| 0 <= i < s.len() && p(#[trigger] s[i]);
    lemma_has_first(s, p, w);
}

/// If some element satisfies `p`, some element is the first to.
proof fn lemma_has_first<T>(s: Seq<T>, p: spec_fn(T) -> bool, w: int)
    requires
        0 <= w < s.len(),
        p(s[w]),
    ensures
        exists|i: int| is_first(s, p, i),
    decreases w,
{
    if exists|k: int| 0 <= k < w && p(#[trigger] s[k]) {
        let k = choose|k: int| 0 <= k < w && p(#[trigger] s[k]);
        lemma_has_first(s, p, k);
    } else {
        assert(is_first(s, p, w));
    }
}

// ---------------------------------------------------------------------------
// Predicates on windows and templates
// ---------------------------------------------------------------------------

pub open spec fn has_address(a: Seq<char>) -> spec_fn(ManagedWindow) -> bool {
    |w: ManagedWindow| w.address@ == a
}

pub open spec fn has_id(id: Seq<char>) -> spec_fn(ManagedWindow) -> bool {
    |w: ManagedWindow| w.id@ == id
}

/// A closed window that was spawned by `command`.
pub open spec fn closed_with_command(command: Seq<char>) -> spec_fn(ManagedWindow) -> bool {
    |w: ManagedWindow| w.pid.is_none() && w.spawn_command@ == command
}

pub open spec fn template_named(name: Seq<char>) -> spec_fn(CommandTemplate) -> bool {
    |t: CommandTemplate| t.name@ == name
}

// ---------------------------------------------------------------------------
// The abstract operations
// ---------------------------------------------------------------------------

/// The window `w` marked open with the given details (`ManagedWindow::open`).
pub open spec fn opened(
    w: ManagedWindow,
    address: String,
    class: String,
    title: String,
    pid: Option<u32>,
) -> ManagedWindow {
    ManagedWindow { address, class, title, pid, ..w }
}

/// `w` marked closed (`ManagedWindow::close`): only `id`, `spawn_command` and
/// `custom_icon` are kept.
pub open spec fn closed_like(w: ManagedWindow, c: ManagedWindow) -> bool {
    &&& c.address@ == Seq::<char>::empty()
    &&& c.class@ == Seq::<char>::empty()
    &&& c.title@ == "(Closed)"@
    &&& c.pid.is_none()
    &&& c.id == w.id
    &&& c.spawn_command == w.spawn_command
    &&& c.custom_icon == w.custom_icon
}

/// The floor after issuing an id at millisecond `m`: the next millisecond.
pub open spec fn next_floor(m: nat) -> nat {
    if m < u128::MAX {
        m + 1
    } else {
        m
    }
}

/// The millisecond of the id issued at clock reading `now`: `now`, or the
/// floor when the clock reads earlier than it.
pub open spec fn issue_millis(floor: nat, now: nat) -> nat {
    if now >= floor {
        now
    } else {
        floor
    }
}

/// `c` is `w` as read back from saved state: not loaded (no address, class,
/// title or pid), with the same id, command and icon.
pub open spec fn unloaded_like(w: ManagedWindow, c: ManagedWindow) -> bool {
    &&& c.address@ == Seq::<char>::empty()
    &&& c.class@ == Seq::<char>::empty()
    &&& c.title@ == Seq::<char>::empty()
    &&& c.pid.is_none()
    &&& c.id == w.id
    &&& c.spawn_command == w.spawn_command
    &&& c.custom_icon == w.custom_icon
}

impl SpacesView {
    /// The current index points at a window, or is 0 when there is none.
    pub open spec fn wf(self) -> bool {
        if self.windows.len() == 0 {
            self.current == 0
        } else {
            self.current < self.windows.len()
        }
    }

    pub open spec fn with_windows_current(self, windows: Seq<ManagedWindow>, current: nat) -> SpacesView {
        SpacesView { windows, current, ..self }
    }

    /// The current window, if the index points at one.
    pub open spec fn current_window(self) -> Option<ManagedWindow> {
        if self.current < self.windows.len() {
            Some(self.windows[self.current as int])
        } else {
            None
        }
    }

    /// Advance to the next window, wrapping around.
    pub open spec fn next(self) -> SpacesView {
        if self.windows.len() == 0 {
            self
        } else {
            self.with_windows_current(self.windows, ((self.current + 1) % self.windows.len()) as nat)
        }
    }

    /// Step back to the previous window, wrapping around.
    pub open spec fn prev(self) -> SpacesView {
        if self.windows.len() == 0 {
            self
        } else if self.current == 0 {
            self.with_windows_current(self.windows, (self.windows.len() - 1) as nat)
        } else {
            self.with_windows_current(self.windows, (self.current - 1) as nat)
        }
    }

    /// Append a window and make it current.
    pub open spec fn add(self, w: ManagedWindow) -> SpacesView {
        self.with_windows_current(self.windows.push(w), self.windows.len())
    }

    /// The current index after removing one window, leaving `new_len` windows:
    /// 0 when none is left, otherwise clamped to the new last index.
    pub open spec fn clamped(current: nat, new_len: nat) -> nat {
        if new_len == 0 {
            0
        } else if current >= new_len {
            (new_len - 1) as nat
        } else {
            current
        }
    }

    /// Remove the first window with this address (the current index is only clamped).
    pub open spec fn remove_by_address(self, address: Seq<char>) -> SpacesView {
        match first_index(self.windows, has_address(address)) {
            Some(i) => {
                let ws = self.windows.remove(i);
                self.with_windows_current(ws, Self::clamped(self.current, ws.len()))
            },
            None => self,
        }
    }

    /// Remove the window at `index`; the current index follows the window it
    /// pointed at (or the one after it), clamped to the new last index.
    pub open spec fn remove_at(self, index: nat) -> SpacesView {
        if index >= self.windows.len() {
            self
        } else {
            let ws = self.windows.remove(index as int);
            let c = if index < self.current { (self.current - 1) as nat } else { self.current };
            self.with_windows_current(ws, Self::clamped(c, ws.len()))
        }
    }

    /// Insert a window at `min(index, len)`; the current index keeps pointing
    /// at the window it pointed at.
    pub open spec fn insert_at(self, index: nat, w: ManagedWindow) -> SpacesView {
        let idx: nat = if index <= self.windows.len() { index } else { self.windows.len() };
        let c = if self.windows.len() > 0 && idx <= self.current { self.current + 1 } else { self.current };
        self.with_windows_current(self.windows.insert(idx as int, w), c)
    }

    /// The state after issuing a window id at clock reading `now`.
    pub open spec fn issue(self, now: nat) -> SpacesView {
        SpacesView { id_floor: next_floor(issue_millis(self.id_floor, now)), ..self }
    }

    /// Make `index` current if there is a window there.
    pub open spec fn switch_to(self, index: nat) -> SpacesView {
        if index < self.windows.len() {
            self.with_windows_current(self.windows, index)
        } else {
            self
        }
    }

    /// Make the first window with this address current, if there is one.
    pub open spec fn switch_to_address(self, address: Seq<char>) -> SpacesView {
        match first_index(self.windows, has_address(address)) {
            Some(i) => self.with_windows_current(self.windows, i as nat),
            None => self,
        }
    }

    /// Swap two windows; the current index follows the window it pointed at.
    pub open spec fn swap(self, i: nat, j: nat) -> SpacesView {
        if i >= self.windows.len() || j >= self.windows.len() {
            self
        } else {
            let ws = self.windows.update(i as int, self.windows[j as int]).update(j as int, self.windows[i as int]);
            let c = if self.current == i { j } else if self.current == j { i } else { self.current };
            self.with_windows_current(ws, c)
        }
    }

    /// Give the window at `index` a custom icon.
    pub open spec fn set_icon(self, index: nat, icon: String) -> SpacesView {
        if index >= self.windows.len() {
            self
        } else {
            let w = self.windows[index as int];
            self.with_windows_current(
                self.windows.update(index as int, ManagedWindow { custom_icon: Some(icon), ..w }),
                self.current,
            )
        }
    }

    /// Mark the first window satisfying `p` as opened with the given details.
    pub open spec fn open_first(
        self,
        p: spec_fn(ManagedWindow) -> bool,
        address: String,
        class: String,
        title: String,
        pid: Option<u32>,
    ) -> SpacesView {
        match first_index(self.windows, p) {
            Some(i) => self.with_windows_current(
                self.windows.update(i, opened(self.windows[i], address, class, title, pid)),
                self.current,
            ),
            None => self,
        }
    }
}

/// `after` is `before` with the first window satisfying `p` (if any) closed.
pub open spec fn closes_first(before: SpacesView, after: SpacesView, p: spec_fn(ManagedWindow) -> bool) -> bool {
    &&& after.current == before.current
    &&& after.side_mouse_binds == before.side_mouse_binds
    &&& after.templates == before.templates
    &&& after.windows.len() == before.windows.len()
    &&& match first_index(before.windows, p) {
        Some(i) => {
            &&& closed_like(before.windows[i], after.windows[i])
            &&& forall|k: int| 0 <= k < before.windows.len() && k != i ==> after.windows[k] == before.windows[k]
        },
        None => after.windows == before.windows,
    }
}

// ---------------------------------------------------------------------------
// Laws
// ---------------------------------------------------------------------------

/// In a well-formed state there is a current window exactly when there is a window.
pub proof fn law_current_window_exists(s: SpacesView)
    requires
        s.wf(),
    ensures
        s.current_window() is Some <==> s.windows.len() > 0,
{
}

/// `prev` undoes `next`, and `next` undoes `prev`.
pub proof fn law_next_prev_inverse(s: SpacesView)
    requires
        s.wf(),
    ensures
        s.next().prev() == s,
        s.prev().next() == s,
{
    if s.windows.len() > 0 {
        let n = s.windows.len();
        if s.current + 1 < n {
            assert((s.current + 1) % n == s.current + 1) by (nonlinear_arith)
                requires s.current + 1 < n;
        } else {
            assert((s.current + 1) % n == 0) by (nonlinear_arith)
                requires s.current + 1 == n, n > 0;
        }
        if s.current > 0 {
            assert(((s.current - 1) + 1) % (n as int) == s.current) by (nonlinear_arith)
                requires 0 < s.current < n;
        } else {
            assert(((n - 1) + 1) % (n as int) == 0) by (nonlinear_arith)
                requires n > 0;
        }
    }
}

/// Stepping with `next` from the last window wraps to the first, and `prev`
/// from the first wraps to the last.
pub proof fn law_switch_wraps(s: SpacesView)
    requires
        s.wf(),
        s.windows.len() > 0,
    ensures
        s.current == s.windows.len() - 1 ==> s.next().current == 0,
        s.current == 0 ==> s.prev().current == s.windows.len() - 1,
{
    let n = s.windows.len();
    if s.current == n - 1 {
        assert((s.current + 1) % n == 0) by (nonlinear_arith)
            requires s.current + 1 == n, n > 0;
    }
}

/// An added window becomes the current window.
pub proof fn law_add_makes_current(s: SpacesView, w: ManagedWindow)
    ensures
        s.add(w).current_window() == Some(w),
        s.add(w).wf(),
{
}

/// After a successful `switch_to(i)` the current window is the one at `i`.
pub proof fn law_switch_to_selects(s: SpacesView, i: nat)
    requires
        i < s.windows.len(),
    ensures
        s.switch_to(i).current_window() == Some(s.windows[i as int]),
        s.switch_to(i).windows == s.windows,
{
}

/// Removing the window just inserted at the same place restores the state.
pub proof fn law_insert_then_remove(s: SpacesView, index: nat, w: ManagedWindow)
    requires
        s.wf(),
    ensures
        ({
            let idx: nat = if index <= s.windows.len() { index } else { s.windows.len() };
            s.insert_at(index, w).remove_at(idx) == s
        }),
{
    let idx: nat = if index <= s.windows.len() { index } else { s.windows.len() };
    let t = s.insert_at(index, w);
    assert(t.windows.remove(idx as int) =~= s.windows);
}

/// Inserting a window elsewhere keeps the same current window.
pub proof fn law_insert_keeps_current(s: SpacesView, index: nat, w: ManagedWindow)
    requires
        s.wf(),
        s.windows.len() > 0,
    ensures
        s.insert_at(index, w).current_window() == s.current_window(),
        s.insert_at(index, w).wf(),
{
}

/// Removing a window other than the current one keeps the same current window.
pub proof fn law_remove_other_keeps_current(s: SpacesView, index: nat)
    requires
        s.wf(),
        index < s.windows.len(),
        index != s.current,
    ensures
        s.remove_at(index).current_window() == s.current_window(),
        s.remove_at(index).wf(),
{
}

/// Removing the current window makes the window after it current, or, when
/// it was the last one, the window before it; with no window left there is
/// no current window.
pub proof fn law_remove_current_moves_on(s: SpacesView, index: nat)
    requires
        s.wf(),
        index == s.current,
        index < s.windows.len(),
    ensures
        index + 1 < s.windows.len() ==> s.remove_at(index).current == s.current
            && s.remove_at(index).current_window() == Some(s.windows[index as int + 1]),
        index + 1 == s.windows.len() && index > 0 ==> s.remove_at(index).current_window() == Some(
            s.windows[index as int - 1],
        ),
        s.windows.len() == 1 ==> s.remove_at(index).current_window() is None,
        s.remove_at(index).wf(),
{
}

/// Removing a window before the current one keeps the same current window,
/// now one place earlier.
pub proof fn law_remove_before_current_shifts(s: SpacesView, index: nat)
    requires
        s.wf(),
        index < s.current,
    ensures
        s.remove_at(index).current == s.current - 1,
        s.remove_at(index).current_window() == s.current_window(),
{
}

/// Swapping keeps the same current window, and swapping twice restores the state.
pub proof fn law_swap(s: SpacesView, i: nat, j: nat)
    requires
        s.wf(),
    ensures
        s.swap(i, j).current_window() == s.current_window(),
        s.swap(i, j).swap(i, j) == s,
        s.swap(i, j).wf(),
{
    if i < s.windows.len() && j < s.windows.len() {
        let t = s.swap(i, j);
        assert(t.swap(i, j).windows =~= s.windows);
    }
}

/// Ids issued one after the other by a manager differ: the first raises the
/// floor past its own millisecond, and every later one is at or above the
/// floor (no operation lowers it). The one exception is an id issued at the
/// last millisecond a `u128` can count.
pub proof fn law_issued_ids_distinct(s: SpacesView, now1: nat, t: SpacesView, now2: nat)
    requires
        t.id_floor >= s.issue(now1).id_floor,
        issue_millis(s.id_floor, now1) < u128::MAX,
    ensures
        window_id_for(issue_millis(s.id_floor, now1)) != window_id_for(issue_millis(t.id_floor, now2)),
{
    crate::types::law_window_ids_distinct(issue_millis(s.id_floor, now1), issue_millis(t.id_floor, now2));
}

/// Saving the current window's id and restoring from it (see
/// [`SpaceManager::current_id`] and [`SpaceManager::from_saved`]) brings back
/// the same current index when the ids are distinct.
pub proof fn law_saved_current_restores(s: SpacesView)
    requires
        s.wf(),
        s.windows.len() > 0,
        forall|a: int, b: int| 0 <= a < b < s.windows.len() ==> (#[trigger] s.windows[a]).id@ != (#[trigger] s.windows[b]).id@,
    ensures
        first_index(s.windows, has_id(s.windows[s.current as int].id@)) == Some(s.current as int),
{
    let c = s.current as int;
    assert forall|k: int| 0 <= k < c implies !has_id(s.windows[c].id@)(#[trigger] s.windows[k]) by {
        assert(s.windows[k].id@ != s.windows[c].id@);
    }
    assert(is_first(s.windows, has_id(s.windows[c].id@), c));
    lemma_first_index(s.windows, has_id(s.windows[c].id@), c);
}

/// No operation on the spaces moves the id floor; only issuing an id raises it.
pub proof fn law_operations_keep_id_floor(s: SpacesView, i: nat, j: nat, w: ManagedWindow, a: Seq<char>, icon: String)
    ensures
        s.next().id_floor == s.id_floor,
        s.prev().id_floor == s.id_floor,
        s.add(w).id_floor == s.id_floor,
        s.remove_at(i).id_floor == s.id_floor,
        s.remove_by_address(a).id_floor == s.id_floor,
        s.insert_at(i, w).id_floor == s.id_floor,
        s.switch_to(i).id_floor == s.id_floor,
        s.switch_to_address(a).id_floor == s.id_floor,
        s.swap(i, j).id_floor == s.id_floor,
        s.set_icon(i, icon).id_floor == s.id_floor,
        s.issue(i).id_floor >= s.id_floor,
{
}

// ---------------------------------------------------------------------------
// The executable manager
// ---------------------------------------------------------------------------

/// The ordered list of spaces and the index of the current one, with the
/// side-mouse-button setting and the command templates.
pub struct SpaceManager {
    windows: Vec<ManagedWindow>,
    current_index: usize,
    side_mouse_binds: bool,
    templates: Vec<CommandTemplate>,
    id_floor: u128,
}

impl View for SpaceManager {
    type V = SpacesView;

    closed spec fn view(&self) -> SpacesView {
        SpacesView {
            windows: self.windows@,
            current: self.current_index as nat,
            side_mouse_binds: self.side_mouse_binds,
            templates: self.templates@,
            id_floor: self.id_floor as nat,
        }
    }
}

fn clone_windows(v: &Vec<ManagedWindow>) -> (r: Vec<ManagedWindow>)
    ensures
        r@ == v@,
{
    let mut r: Vec<ManagedWindow> = Vec::new();
    let mut i: usize = 0;
    while i < v.len()
        invariant
            i <= v.len(),
            r@ == v@.subrange(0, i as int),
        decreases v.len() - i,
    {
        r.push(v[i].clone());
        i = i + 1;
    }
    assert(r@ =~= v@);
    r
}

fn clone_templates(v: &Vec<CommandTemplate>) -> (r: Vec<CommandTemplate>)
    ensures
        r@ == v@,
{
    let mut r: Vec<CommandTemplate> = Vec::new();
    let mut i: usize = 0;
    while i < v.len()
        invariant
            i <= v.len(),
            r@ == v@.subrange(0, i as int),
        decreases v.len() - i,
    {
        r.push(v[i].clone());
        i = i + 1;
    }
    assert(r@ =~= v@);
    r
}

/// Index of the first window with this address.
fn find_address(ws: &Vec<ManagedWindow>, address: &str) -> (r: Option<usize>)
    ensures
        r matches Some(i) ==> first_index(ws@, has_address(address@)) == Some(i as int) && is_first(ws@, has_address(address@), i as int),
        r is None ==> first_index(ws@, has_address(address@)) is None,
{
    let target = String::from_str(address);
    let mut i: usize = 0;
    while i < ws.len()
        invariant
            i <= ws.len(),
            target@ == address@,
            forall|k: int| 0 <= k < i ==> !(#[trigger] has_address(address@)(ws@[k])),
        decreases ws.len() - i,
    {
        if ws[i].address == target {
            proof { lemma_first_index(ws@, has_address(address@), i as int); }
            return Some(i);
        }
        i = i + 1;
    }
    proof { lemma_first_index_none(ws@, has_address(address@)); }
    None
}

/// Index of the first window with this id.
fn find_id(ws: &Vec<ManagedWindow>, id: &str) -> (r: Option<usize>)
    ensures
        r matches Some(i) ==> first_index(ws@, has_id(id@)) == Some(i as int) && is_first(ws@, has_id(id@), i as int),
        r is None ==> first_index(ws@, has_id(id@)) is None,
{
    let target = String::from_str(id);
    let mut i: usize = 0;
    while i < ws.len()
        invariant
            i <= ws.len(),
            target@ == id@,
            forall|k: int| 0 <= k < i ==> !(#[trigger] has_id(id@)(ws@[k])),
        decreases ws.len() - i,
    {
        if ws[i].id == target {
            proof { lemma_first_index(ws@, has_id(id@), i as int); }
            return Some(i);
        }
        i = i + 1;
    }
    proof { lemma_first_index_none(ws@, has_id(id@)); }
    None
}

/// Index of the first closed window spawned by `command`.
fn find_closed_command(ws: &Vec<ManagedWindow>, command: &str) -> (r: Option<usize>)
    ensures
        r matches Some(i) ==> first_index(ws@, closed_with_command(command@)) == Some(i as int) && is_first(ws@, closed_with_command(command@), i as int),
        r is None ==> first_index(ws@, closed_with_command(command@)) is None,
{
    let target = String::from_str(command);
    let mut i: usize = 0;
    while i < ws.len()
        invariant
            i <= ws.len(),
            target@ == command@,
            forall|k: int| 0 <= k < i ==> !(#[trigger] closed_with_command(command@)(ws@[k])),
        decreases ws.len() - i,
    {
        if !ws[i].is_open() && ws[i].spawn_command == target {
            proof { lemma_first_index(ws@, closed_with_command(command@), i as int); }
            return Some(i);
        }
        i = i + 1;
    }
    proof { lemma_first_index_none(ws@, closed_with_command(command@)); }
    None
}

impl SpaceManager {
    /// An empty manager: no windows, side mouse buttons enabled, no templates.
    pub fn new() -> (m: Self)
        ensures
            m@.windows.len() == 0,
            m@.current == 0,
            m@.side_mouse_binds,
            m@.templates.len() == 0,
            m@.wf(),
    {
        SpaceManager {
            windows: Vec::new(),
            current_index: 0,
            side_mouse_binds: true,
            templates: Vec::new(),
            id_floor: 0,
        }
    }

    /// A manager restored from saved state: the saved windows, all not loaded
    /// (no address, class, title or pid; id, command and icon kept), the
    /// current window given by its id (the first window when the id is absent
    /// or unknown), and the saved settings.
    pub fn from_saved(
        windows: Vec<ManagedWindow>,
        current_id: Option<String>,
        side_mouse_binds: bool,
        templates: Vec<CommandTemplate>,
    ) -> (m: Self)
        ensures
            m@.windows.len() == windows@.len(),
            forall|i: int| 0 <= i < windows@.len() ==> unloaded_like(windows@[i], #[trigger] m@.windows[i]),
            m@.side_mouse_binds == side_mouse_binds,
            m@.templates == templates@,
            m@.current == match current_id {
                Some(id) => match first_index(windows@, has_id(id@)) {
                    Some(i) => i as nat,
                    None => 0nat,
                },
                None => 0nat,
            },
            m@.id_floor == 0,
            m@.wf(),
    {
        let current_index = match &current_id {
            Some(id) => match find_id(&windows, id.as_str()) {
                Some(i) => i,
                None => 0,
            },
            None => 0,
        };
        let mut loaded: Vec<ManagedWindow> = Vec::new();
        let mut k: usize = 0;
        while k < windows.len()
            invariant
                k <= windows@.len(),
                loaded@.len() == k,
                forall|i: int| 0 <= i < k ==> unloaded_like(windows@[i], #[trigger] loaded@[i]),
            decreases windows.len() - k,
        {
            let w = &windows[k];
            loaded.push(ManagedWindow {
                id: w.id.clone(),
                address: String::new(),
                class: String::new(),
                title: String::new(),
                pid: None,
                spawn_command: w.spawn_command.clone(),
                custom_icon: match &w.custom_icon {
                    Some(icon) => Some(icon.clone()),
                    None => None,
                },
            });
            k = k + 1;
        }
        SpaceManager { windows: loaded, current_index, side_mouse_binds, templates, id_floor: 0 }
    }

    /// A new, not yet loaded window for `command` whose id is distinct from
    /// every id this manager issued before (see [`law_issued_ids_distinct`]):
    /// `win_<m>` with `m` the clock reading, or the floor when the clock reads
    /// earlier.
    pub fn new_window(&mut self, command: String) -> (w: ManagedWindow)
        ensures
            exists|now: u128| {
                &&& fresh_window(w, command@, issue_millis(old(self)@.id_floor, now as nat))
                &&& #[trigger] final(self)@ == old(self)@.issue(now as nat)
            },
    {
        let now = unix_millis();
        self.new_window_at(command, now)
    }

    /// [`SpaceManager::new_window`] for the clock reading `now`.
    pub fn new_window_at(&mut self, command: String, now: u128) -> (w: ManagedWindow)
        ensures
            fresh_window(w, command@, issue_millis(old(self)@.id_floor, now as nat)),
            final(self)@ == old(self)@.issue(now as nat),
    {
        let millis = if now >= self.id_floor { now } else { self.id_floor };
        self.id_floor = if millis < u128::MAX { millis + 1 } else { millis };
        ManagedWindow::created_at(command, millis)
    }

    /// Id of the current window, saved so the session restores to it.
    pub fn current_id(&self) -> (r: Option<String>)
        ensures
            match self@.current_window() {
                Some(w) => r == Some(w.id),
                None => r is None,
            },
    {
        if self.current_index < self.windows.len() {
            Some(self.windows[self.current_index].id.clone())
        } else {
            None
        }
    }

    pub fn is_side_mouse_binds_enabled(&self) -> (r: bool)
        ensures
            r == self@.side_mouse_binds,
    {
        self.side_mouse_binds
    }

    /// Replace the settings read from the configuration file.
    pub fn set_settings(&mut self, side_mouse_binds: bool, templates: Vec<CommandTemplate>)
        ensures
            final(self)@ == (SpacesView { side_mouse_binds, templates: templates@, ..old(self)@ }),
    {
        self.side_mouse_binds = side_mouse_binds;
        self.templates = templates;
    }

    /// Append a window and make it the current one.
    pub fn add_window(&mut self, window: ManagedWindow)
        requires
            old(self)@.wf(),
        ensures
            final(self)@ == old(self)@.add(window),
            final(self)@.wf(),
    {
        self.windows.push(window);
        self.current_index = self.windows.len() - 1;
    }

    /// Insert a window at `index` (or at the end when `index` is past it).
    pub fn insert_window_at(&mut self, index: usize, window: ManagedWindow)
        requires
            old(self)@.wf(),
        ensures
            final(self)@ == old(self)@.insert_at(index as nat, window),
            final(self)@.wf(),
    {
        let len = self.windows.len();
        let idx = if index <= len { index } else { len };
        if len > 0 && idx <= self.current_index {
            self.current_index = self.current_index + 1;
        }
        self.windows.insert(idx, window);
    }

    /// Remove the first window with this address; returns its former index.
    pub fn remove_window_by_address(&mut self, address: &str) -> (r: Option<usize>)
        requires
            old(self)@.wf(),
        ensures
            final(self)@ == old(self)@.remove_by_address(address@),
            final(self)@.wf(),
            r matches Some(i) ==> first_index(old(self)@.windows, has_address(address@)) == Some(i as int),
            r is None ==> first_index(old(self)@.windows, has_address(address@)) is None,
    {
        match find_address(&self.windows, address) {
            Some(pos) => {
                self.windows.remove(pos);
                let n = self.windows.len();
                if n == 0 {
                    self.current_index = 0;
                } else if self.current_index >= n {
                    self.current_index = n - 1;
                }
                Some(pos)
            },
            None => None,
        }
    }

    /// Remove the window at `index` and return it (`None` when out of range).
    pub fn remove_window_at_index(&mut self, index: usize) -> (r: Option<ManagedWindow>)
        requires
            old(self)@.wf(),
        ensures
            final(self)@ == old(self)@.remove_at(index as nat),
            final(self)@.wf(),
            index < old(self)@.windows.len() ==> r == Some(old(self)@.windows[index as int]),
            index >= old(self)@.windows.len() ==> r is None,
    {
        if index >= self.windows.len() {
            return None;
        }
        let removed = self.windows.remove(index);
        if index < self.current_index {
            self.current_index = self.current_index - 1;
        }
        let n = self.windows.len();
        if n == 0 {
            self.current_index = 0;
        } else if self.current_index >= n {
            self.current_index = n - 1;
        }
        Some(removed)
    }

    /// Remove every window.
    pub fn remove_all_windows(&mut self)
        ensures
            final(self)@ == (SpacesView { windows: Seq::<ManagedWindow>::empty(), current: 0, ..old(self)@ }),
            final(self)@.wf(),
    {
        self.windows = Vec::new();
        self.current_index = 0;
    }

    /// Mark the first window with this id as opened; false when there is none.
    pub fn open_window_by_id(
        &mut self,
        id: &str,
        address: String,
        class: String,
        title: String,
        pid: Option<u32>,
    ) -> (r: bool)
        requires
            old(self)@.wf(),
        ensures
            final(self)@ == old(self)@.open_first(has_id(id@), address, class, title, pid),
            final(self)@.wf(),
            r == first_index(old(self)@.windows, has_id(id@)) is Some,
    {
        match find_id(&self.windows, id) {
            Some(i) => {
                let mut w = self.windows[i].clone();
                w.open(address, class, title, pid);
                self.windows.set(i, w);
                true
            },
            None => false,
        }
    }

    /// Mark the first closed window spawned by `command` as opened; false
    /// when there is none.
    pub fn open_window_by_command(
        &mut self,
        command: &str,
        address: String,
        class: String,
        title: String,
        pid: Option<u32>,
    ) -> (r: bool)
        requires
            old(self)@.wf(),
        ensures
            final(self)@ == old(self)@.open_first(closed_with_command(command@), address, class, title, pid),
            final(self)@.wf(),
            r == first_index(old(self)@.windows, closed_with_command(command@)) is Some,
    {
        match find_closed_command(&self.windows, command) {
            Some(i) => {
                let mut w = self.windows[i].clone();
                w.open(address, class, title, pid);
                self.windows.set(i, w);
                true
            },
            None => false,
        }
    }

    /// Mark the first window with this address as closed.
    pub fn mark_window_closed(&mut self, address: &str) -> (r: bool)
        requires
            old(self)@.wf(),
        ensures
            closes_first(old(self)@, final(self)@, has_address(address@)),
            final(self)@.wf(),
            r == first_index(old(self)@.windows, has_address(address@)) is Some,
    {
        match find_address(&self.windows, address) {
            Some(i) => {
                let mut w = self.windows[i].clone();
                w.close();
                self.windows.set(i, w);
                true
            },
            None => false,
        }
    }

    /// Mark the first window with this id as closed.
    pub fn mark_window_closed_by_id(&mut self, id: &str) -> (r: bool)
        requires
            old(self)@.wf(),
        ensures
            closes_first(old(self)@, final(self)@, has_id(id@)),
            final(self)@.wf(),
            r == first_index(old(self)@.windows, has_id(id@)) is Some,
    {
        match find_id(&self.windows, id) {
            Some(i) => {
                let mut w = self.windows[i].clone();
                w.close();
                self.windows.set(i, w);
                true
            },
            None => false,
        }
    }

    /// Index of the first window with this address.
    pub fn find_window_index_by_address(&self, address: &str) -> (r: Option<usize>)
        ensures
            r matches Some(i) ==> first_index(self@.windows, has_address(address@)) == Some(i as int),
            r is None ==> first_index(self@.windows, has_address(address@)) is None,
    {
        find_address(&self.windows, address)
    }

    /// Advance to the next window (wrapping) and return it.
    pub fn next(&mut self) -> (r: Option<ManagedWindow>)
        requires
            old(self)@.wf(),
        ensures
            final(self)@ == old(self)@.next(),
            final(self)@.wf(),
            r == final(self)@.current_window(),
            r is Some <==> old(self)@.windows.len() > 0,
    {
        if self.windows.len() == 0 {
            return None;
        }
        self.current_index = (self.current_index + 1) % self.windows.len();
        Some(self.windows[self.current_index].clone())
    }

    /// Step back to the previous window (wrapping) and return it.
    pub fn prev(&mut self) -> (r: Option<ManagedWindow>)
        requires
            old(self)@.wf(),
        ensures
            final(self)@ == old(self)@.prev(),
            final(self)@.wf(),
            r == final(self)@.current_window(),
            r is Some <==> old(self)@.windows.len() > 0,
    {
        if self.windows.len() == 0 {
            return None;
        }
        if self.current_index == 0 {
            self.current_index = self.windows.len() - 1;
        } else {
            self.current_index = self.current_index - 1;
        }
        Some(self.windows[self.current_index].clone())
    }

    /// Make the window at `index` current and return it (`None`, and no
    /// change, when out of range).
    pub fn switch_to(&mut self, index: usize) -> (r: Option<ManagedWindow>)
        requires
            old(self)@.wf(),
        ensures
            final(self)@ == old(self)@.switch_to(index as nat),
            final(self)@.wf(),
            index < old(self)@.windows.len() ==> r == Some(old(self)@.windows[index as int]),
            index >= old(self)@.windows.len() ==> r is None,
    {
        if index < self.windows.len() {
            self.current_index = index;
            Some(self.windows[index].clone())
        } else {
            None
        }
    }

    /// Make the first window with this address current; false when there is none.
    pub fn switch_to_address(&mut self, address: &str) -> (r: bool)
        requires
            old(self)@.wf(),
        ensures
            final(self)@ == old(self)@.switch_to_address(address@),
            final(self)@.wf(),
            r == first_index(old(self)@.windows, has_address(address@)) is Some,
    {
        match find_address(&self.windows, address) {
            Some(i) => {
                self.current_index = i;
                true
            },
            None => false,
        }
    }

    /// Swap the windows at two indices; the current index follows its window.
    pub fn swap_windows(&mut self, index1: usize, index2: usize) -> (r: Result<(), ManagerError>)
        requires
            old(self)@.wf(),
        ensures
            final(self)@ == old(self)@.swap(index1 as nat, index2 as nat),
            final(self)@.wf(),
            r == if index1 >= old(self)@.windows.len() {
                Err(ManagerError::InvalidIndex(index1))
            } else if index2 >= old(self)@.windows.len() {
                Err(ManagerError::InvalidIndex(index2))
            } else {
                Ok(())
            },
    {
        let len = self.windows.len();
        if index1 >= len {
            return Err(ManagerError::InvalidIndex(index1));
        }
        if index2 >= len {
            return Err(ManagerError::InvalidIndex(index2));
        }
        let a = self.windows[index1].clone();
        let b = self.windows[index2].clone();
        self.windows.set(index1, b);
        self.windows.set(index2, a);
        if self.current_index == index1 {
            self.current_index = index2;
        } else if self.current_index == index2 {
            self.current_index = index1;
        }
        Ok(())
    }

    /// Set the custom icon of the window at `index`.
    pub fn set_window_icon(&mut self, index: usize, icon: String) -> (r: Result<(), ManagerError>)
        requires
            old(self)@.wf(),
        ensures
            final(self)@ == old(self)@.set_icon(index as nat, icon),
            final(self)@.wf(),
            r == if index >= old(self)@.windows.len() {
                Err(ManagerError::InvalidIndex(index))
            } else {
                Ok(())
            },
    {
        if index >= self.windows.len() {
            return Err(ManagerError::InvalidIndex(index));
        }
        let mut w = self.windows[index].clone();
        w.custom_icon = Some(icon);
        self.windows.set(index, w);
        Ok(())
    }

    /// The current window, if the index points at one.
    pub fn current_window(&self) -> (r: Option<ManagedWindow>)
        ensures
            r == self@.current_window(),
    {
        if self.current_index < self.windows.len() {
            Some(self.windows[self.current_index].clone())
        } else {
            None
        }
    }

    pub fn get_windows(&self) -> (r: Vec<ManagedWindow>)
        ensures
            r@ == self@.windows,
    {
        clone_windows(&self.windows)
    }

    pub fn get_current_index(&self) -> (r: usize)
        ensures
            r == self@.current,
    {
        self.current_index
    }

    pub fn window_count(&self) -> (r: usize)
        ensures
            r == self@.windows.len(),
    {
        self.windows.len()
    }

    pub fn get_templates(&self) -> (r: Vec<CommandTemplate>)
        ensures
            r@ == self@.templates,
    {
        clone_templates(&self.templates)
    }

    /// Append a command template.
    pub fn add_template(&mut self, template: CommandTemplate)
        ensures
            final(self)@ == (SpacesView { templates: old(self)@.templates.push(template), ..old(self)@ }),
    {
        self.templates.push(template);
    }

    /// Remove the first template with this name.
    pub fn remove_template(&mut self, name: &str) -> (r: Result<(), ManagerError>)
        ensures
            match first_index(old(self)@.templates, template_named(name@)) {
                Some(i) => r == Ok::<(), ManagerError>(())
                    && final(self)@ == (SpacesView { templates: old(self)@.templates.remove(i), ..old(self)@ }),
                None => r == Err::<(), ManagerError>(ManagerError::TemplateNotFound) && final(self)@ == old(self)@,
            },
    {
        let target = String::from_str(name);
        let mut i: usize = 0;
        while i < self.templates.len()
            invariant
                i <= self.templates.len(),
                target@ == name@,
                self@ == old(self)@,
                forall|k: int| 0 <= k < i ==> !(#[trigger] template_named(name@)(self.templates@[k])),
            decreases self.templates.len() - i,
        {
            if self.templates[i].name == target {
                proof { lemma_first_index(self.templates@, template_named(name@), i as int); }
                self.templates.remove(i);
                return Ok(());
            }
            i = i + 1;
        }
        proof { lemma_first_index_none(self.templates@, template_named(name@)); }
        Err(ManagerError::TemplateNotFound)
    }
}

} // verus!
