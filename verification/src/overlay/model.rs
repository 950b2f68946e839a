//! What the overlay bar shows: one button per space, labelled with the
//! space's custom icon or its 1-based position, the current one marked.

use vstd::prelude::*;

use crate::text::{concat, decimal, decimal_string, joined, owned};
use crate::types::ManagedWindow;

verus! {

/// One button in the overlay bar.
#[derive(Debug, PartialEq, Eq)]
pub struct SpaceButton {
    /// The label to render (custom icon if set, otherwise the 1-based index).
    pub label: String,
    /// Whether this button represents the currently visible space.
    pub is_current: bool,
}

impl Clone for SpaceButton {
    fn clone(&self) -> (r: Self)
        ensures
            r == *self,
    {
        SpaceButton { label: self.label.clone(), is_current: self.is_current }
    }
}

/// The label of the space at position `i`: its custom icon, else `i + 1`.
pub open spec fn space_label(w: ManagedWindow, i: int) -> Seq<char> {
    match w.custom_icon {
        Some(icon) => icon@,
        None => decimal((i + 1) as nat),
    }
}

/// The current index clamped to the window list (0 when it is empty).
pub open spec fn clamped_current(len: nat, current: nat) -> nat {
    if len == 0 {
        0
    } else if current < len {
        current
    } else {
        (len - 1) as nat
    }
}

fn label_for(w: &ManagedWindow, i: usize) -> (s: String)
    requires
        i < usize::MAX,
    ensures
        s@ == space_label(*w, i as int),
{
    match &w.custom_icon {
        Some(icon) => icon.clone(),
        None => decimal_string((i + 1) as u128),
    }
}

/// Build the button list and the clamped current index. An out-of-range
/// `current` is clamped to the last window (0 when there is none).
pub fn build_spaces(windows: &[ManagedWindow], current: usize) -> (r: (Vec<SpaceButton>, usize))
    ensures
        r.1 == clamped_current(windows@.len(), current as nat),
        r.0@.len() == windows@.len(),
        forall|i: int| 0 <= i < windows@.len() ==> (#[trigger] r.0@[i]).label@ == space_label(windows@[i], i)
            && r.0@[i].is_current == (i == r.1),
        windows@.len() > 0 ==> r.1 < windows@.len(),
{
    if windows.len() == 0 {
        return (Vec::new(), 0);
    }
    let clamped = if current < windows.len() - 1 { current } else { windows.len() - 1 };
    let mut buttons: Vec<SpaceButton> = Vec::new();
    let mut i: usize = 0;
    while i < windows.len()
        invariant
            i <= windows@.len(),
            clamped < windows@.len(),
            clamped == clamped_current(windows@.len(), current as nat),
            buttons@.len() == i,
            forall|k: int| 0 <= k < i ==> (#[trigger] buttons@[k]).label@ == space_label(windows@[k], k)
                && buttons@[k].is_current == (k == clamped),
        decreases windows.len() - i,
    {
        buttons.push(SpaceButton { label: label_for(&windows[i], i), is_current: i == clamped });
        i = i + 1;
    }
    (buttons, clamped)
}

/// With at least one window, exactly one button is marked current.
pub proof fn law_one_current_button(buttons: Seq<SpaceButton>, current: nat)
    requires
        current < buttons.len(),
        forall|i: int| 0 <= i < buttons.len() ==> (#[trigger] buttons[i]).is_current == (i == current),
    ensures
        buttons[current as int].is_current,
        forall|i: int, j: int| 0 <= i < buttons.len() && 0 <= j < buttons.len() && (#[trigger] buttons[i]).is_current
            && (#[trigger] buttons[j]).is_current ==> i == j,
{
}

/// The text indicator of the spaces: the labels joined by `-`, the current
/// one in brackets, e.g. `1-2-[3]-4`.
pub open spec fn indicator_parts(windows: Seq<ManagedWindow>, current: nat) -> Seq<Seq<char>> {
    Seq::new(
        windows.len(),
        |i: int| if i == current { "["@ + space_label(windows[i], i) + "]"@ } else { space_label(windows[i], i) },
    )
}

/// The text form of the spaces indicator, e.g. `1-2-[3]-4`.
pub fn indicator_text(windows: &[ManagedWindow], current: usize) -> (s: String)
    ensures
        s@ == joined(indicator_parts(windows@, current as nat), "-"@),
{
    let mut text = owned("");
    proof { reveal_strlit(""); }
    let ghost parts = indicator_parts(windows@, current as nat);
    let mut i: usize = 0;
    while i < windows.len()
        invariant
            i <= windows@.len(),
            parts == indicator_parts(windows@, current as nat),
            text@ == joined(parts.take(i as int), "-"@),
        decreases windows.len() - i,
    {
        let label = label_for(&windows[i], i);
        let part = if i == current {
            let open = concat("[", label.as_str());
            concat(open.as_str(), "]")
        } else {
            label
        };
        proof {
            assert(parts.take(i + 1).drop_last() =~= parts.take(i as int));
            assert(parts.take(i + 1).last() == part@);
            if i == 0 {
                assert(parts.take(1).len() == 1);
            }
        }
        if i > 0 {
            text = concat(text.as_str(), "-");
        }
        text = concat(text.as_str(), part.as_str());
        proof {
            if i == 0 {
                assert(text@ =~= part@);
            }
        }
        i = i + 1;
    }
    assert(parts.take(windows@.len() as int) =~= parts);
    text
}

} // verus!
