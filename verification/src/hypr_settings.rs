//! Suppressing focus-follows-mouse while managed windows are moved between
//! workspaces: the original `input:follow_mouse` value is kept in the guard
//! and mirrored in a process-wide stash, so it is restored exactly once, on
//! the normal path, on cancellation, or at shutdown.

use vstd::prelude::*;

verus! {

/// The Hyprland option being suppressed.
pub const FOLLOW_MOUSE_KEY: &'static str = "input:follow_mouse";

/// The original `follow_mouse` value while a suppression is live.
pub struct SuppressionStash {
    original: Option<i64>,
}

impl View for SuppressionStash {
    type V = Option<i64>;

    closed spec fn view(&self) -> Option<i64> {
        self.original
    }
}

impl SuppressionStash {
    pub fn new() -> (s: Self)
        ensures
            s@ is None,
    {
        SuppressionStash { original: None }
    }

    /// Record the original value of a live suppression (or clear it).
    pub fn stash(&mut self, original: Option<i64>)
        ensures
            final(self)@ == original,
    {
        self.original = original;
    }

    /// Take the stashed value, leaving none (what shutdown restores).
    pub fn take_stash(&mut self) -> (r: Option<i64>)
        ensures
            r == old(self)@,
            final(self)@ is None,
    {
        self.original.take()
    }
}

/// A live (or inert) suppression of focus-follows-mouse.
pub struct FollowMouseGuard {
    original: Option<i64>,
}

impl View for FollowMouseGuard {
    type V = Option<i64>;

    closed spec fn view(&self) -> Option<i64> {
        self.original
    }
}

impl FollowMouseGuard {
    /// The guard after trying to suppress: `read` is the value read from
    /// Hyprland (`None` when it could not be read) and `set_ok` whether
    /// setting it to 0 succeeded. Only a read value that was then set to 0
    /// makes a live guard, and it is stashed.
    pub fn suppressed(read: Option<i64>, set_ok: bool, stash: &mut SuppressionStash) -> (g: Self)
        ensures
            g@ == (if set_ok { read } else { None }),
            read is Some && set_ok ==> final(stash)@ == read,
            !(read is Some && set_ok) ==> final(stash)@ == old(stash)@,
    {
        match read {
            Some(original) => {
                if !set_ok {
                    return FollowMouseGuard { original: None };
                }
                stash.stash(Some(original));
                FollowMouseGuard { original: Some(original) }
            },
            None => FollowMouseGuard { original: None },
        }
    }

    /// The value to restore, if this guard is live: the guard becomes inert
    /// and the stash is cleared. An inert guard restores nothing.
    pub fn take_restore(&mut self, stash: &mut SuppressionStash) -> (r: Option<i64>)
        ensures
            r == old(self)@,
            final(self)@ is None,
            old(self)@ is Some ==> final(stash)@ is None,
            old(self)@ is None ==> final(stash)@ == old(stash)@,
    {
        match self.original.take() {
            Some(value) => {
                stash.take_stash();
                Some(value)
            },
            None => None,
        }
    }
}

} // verus!
