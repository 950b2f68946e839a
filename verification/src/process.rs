//! Spawned processes waiting for their window, and matching a newly opened
//! window to the spawn that produced it (by pid, else by class and command).
//!
//! A pending spawn is recent while fewer than 10 seconds have passed since it
//! was recorded; older ones are never matched and are dropped on cleanup.

use vstd::prelude::*;

use crate::manager::{first_index, is_first, lemma_first_index, lemma_first_index_none};
use crate::text::{chars_contain, chars_occur_at, chars_of, occurs_at, seq_contains, seq_starts_with};

verus! {

/// A process spawned for a space, waiting for its window to open.
#[derive(Debug)]
pub struct PendingSpawn {
    pub command: String,
    /// Seconds since the Unix epoch when the process was spawned.
    pub spawn_time: u64,
    pub pid: Option<u32>,
    /// The managed window this spawn (re)opens, if it was spawned for one.
    pub window_id: Option<String>,
}

impl Clone for PendingSpawn {
    fn clone(&self) -> (r: Self)
        ensures
            r == *self,
    {
        PendingSpawn {
            command: self.command.clone(),
            spawn_time: self.spawn_time,
            pid: self.pid,
            window_id: match &self.window_id {
                Some(id) => Some(id.clone()),
                None => None,
            },
        }
    }
}

/// Seconds elapsed from `t` to `now`, computed as the wrapping `u64`
/// difference (a spawn time after `now` reads as very old).
pub open spec fn secs_since(now: u64, t: u64) -> int {
    if now >= t {
        now - t
    } else {
        now - t + 0x1_0000_0000_0000_0000
    }
}

/// Was the spawn recorded fewer than 10 seconds before `now`?
pub open spec fn is_recent(s: PendingSpawn, now: u64) -> bool {
    secs_since(now, s.spawn_time) < 10
}

fn recent(s: &PendingSpawn, now: u64) -> (r: bool)
    ensures
        r == is_recent(*s, now),
{
    now.wrapping_sub(s.spawn_time) < 10
}

/// What `str::to_lowercase` returns for a string with the given characters.
pub uninterp spec fn lowercase_of(s: Seq<char>) -> Seq<char>;

/// The lowercase form of `s`.
///
/// Trusted: calls std's `str::to_lowercase`; its result is named by
/// [`lowercase_of`] and nothing more is claimed of it.
#[verifier::external_body]
fn to_lowercase(s: &str) -> (r: String)
    ensures
        r@ == lowercase_of(s@),
{
    s.to_lowercase()
}

/// Does a (lowercased) spawn command plausibly belong to a window of this
/// (lowercased) class? The class occurs in the command; or, for a Brave
/// command, the class mentions `brave` or starts with `webapp-`; or command
/// and class both mention `chromium`, or both mention `firefox`.
pub open spec fn command_fits_class(cmd: Seq<char>, class: Seq<char>) -> bool {
    if seq_contains(cmd, class) {
        true
    } else if seq_contains(cmd, "brave"@) {
        seq_contains(class, "brave"@) || seq_starts_with(class, "webapp-"@)
    } else if seq_contains(cmd, "chromium"@) && seq_contains(class, "chromium"@) {
        true
    } else {
        seq_contains(cmd, "firefox"@) && seq_contains(class, "firefox"@)
    }
}

/// A window's class fits a spawn command only for a reason: the class occurs
/// in the command; or both mention the same browser (`chromium`, `firefox`);
/// or the command starts Brave and the class mentions `brave` or is a
/// `webapp-` class. In particular a Chromium command never fits a class that
/// neither occurs in it nor mentions `chromium`. Conversely each of these
/// reasons makes the class fit, except that a Brave command only fits a Brave
/// or `webapp-` class (or one occurring in the command).
pub proof fn law_class_fit_has_a_reason(cmd: Seq<char>, class: Seq<char>)
    ensures
        command_fits_class(cmd, class) ==> {
            ||| seq_contains(cmd, class)
            ||| (seq_contains(cmd, "brave"@) && (seq_contains(class, "brave"@) || seq_starts_with(class, "webapp-"@)))
            ||| (seq_contains(cmd, "chromium"@) && seq_contains(class, "chromium"@))
            ||| (seq_contains(cmd, "firefox"@) && seq_contains(class, "firefox"@))
        },
        seq_contains(cmd, "chromium"@) && !seq_contains(cmd, class) && !seq_contains(cmd, "brave"@)
            && !seq_contains(cmd, "firefox"@) && !seq_contains(class, "chromium"@) ==> !command_fits_class(cmd, class),
        seq_contains(cmd, class) ==> command_fits_class(cmd, class),
        seq_contains(cmd, "brave"@) && (seq_contains(class, "brave"@) || seq_starts_with(class, "webapp-"@))
            ==> command_fits_class(cmd, class),
        !seq_contains(cmd, "brave"@) && seq_contains(cmd, "chromium"@) && seq_contains(class, "chromium"@)
            ==> command_fits_class(cmd, class),
        !seq_contains(cmd, "brave"@) && seq_contains(cmd, "firefox"@) && seq_contains(class, "firefox"@)
            ==> command_fits_class(cmd, class),
{
}

/// The class-fallback rule on already lowercased command and class.
pub fn command_matches_class(cmd_lower: &str, class_lower: &str) -> (r: bool)
    ensures
        r == command_fits_class(cmd_lower@, class_lower@),
{
    let cmd = chars_of(cmd_lower);
    let class = chars_of(class_lower);
    if chars_contain(cmd.as_slice(), class.as_slice()) {
        return true;
    }
    let brave = chars_of("brave");
    if chars_contain(cmd.as_slice(), brave.as_slice()) {
        let webapp = chars_of("webapp-");
        return chars_contain(class.as_slice(), brave.as_slice()) || chars_occur_at(
            class.as_slice(),
            webapp.as_slice(),
            0,
        );
    }
    let chromium = chars_of("chromium");
    if chars_contain(cmd.as_slice(), chromium.as_slice()) && chars_contain(class.as_slice(), chromium.as_slice()) {
        return true;
    }
    let firefox = chars_of("firefox");
    chars_contain(cmd.as_slice(), firefox.as_slice()) && chars_contain(class.as_slice(), firefox.as_slice())
}

/// A recent spawn of exactly this pid.
pub open spec fn pid_hit(pid: u32, now: u64) -> spec_fn(PendingSpawn) -> bool {
    |s: PendingSpawn| s.pid == Some(pid) && is_recent(s, now)
}

/// A recent spawn whose command fits the (lowercased) class.
pub open spec fn class_hit(class_lower: Seq<char>, now: u64) -> spec_fn(PendingSpawn) -> bool {
    |s: PendingSpawn| is_recent(s, now) && command_fits_class(lowercase_of(s.command@), class_lower)
}

/// Which pending spawn a window of this class and pid matches at `now`: the
/// first recent spawn with the window's pid, else the first recent spawn
/// whose command fits the window's class.
pub open spec fn matched_spawn(spawns: Seq<PendingSpawn>, class: Seq<char>, pid: Option<u32>, now: u64) -> Option<int> {
    let by_pid = match pid {
        Some(p) => first_index(spawns, pid_hit(p, now)),
        None => None,
    };
    match by_pid {
        Some(i) => Some(i),
        None => first_index(spawns, class_hit(lowercase_of(class), now)),
    }
}

/// Processes spawned for spaces whose windows have not appeared yet.
pub struct ProcessLauncher {
    pending_spawns: Vec<PendingSpawn>,
}

impl View for ProcessLauncher {
    type V = Seq<PendingSpawn>;

    closed spec fn view(&self) -> Seq<PendingSpawn> {
        self.pending_spawns@
    }
}

/// Seconds since the Unix epoch, read from the system clock.
///
/// Trusted: calls `SystemTime::now().duration_since(UNIX_EPOCH)`; nothing is
/// promised of the value. A clock set before the epoch reads as 0.
#[verifier::external_body]
fn unix_secs() -> u64 {
    match std::time::SystemTime::now().duration_since(std::time::UNIX_EPOCH) {
        Ok(d) => d.as_secs(),
        Err(_) => 0,
    }
}

impl ProcessLauncher {
    pub fn new() -> (l: Self)
        ensures
            l@.len() == 0,
    {
        ProcessLauncher { pending_spawns: Vec::new() }
    }

    /// The spawns still waiting for a window.
    pub fn pending(&self) -> (r: Vec<PendingSpawn>)
        ensures
            r@ == self@,
    {
        let mut r: Vec<PendingSpawn> = Vec::new();
        let mut i: usize = 0;
        while i < self.pending_spawns.len()
            invariant
                i <= self.pending_spawns@.len(),
                r@ == self.pending_spawns@.subrange(0, i as int),
            decreases self.pending_spawns.len() - i,
        {
            r.push(self.pending_spawns[i].clone());
            i = i + 1;
        }
        assert(r@ =~= self.pending_spawns@);
        r
    }

    /// Record a spawned process at the current time, then drop spawns that
    /// are no longer recent.
    pub fn record_spawn(&mut self, command: String, window_id: Option<String>, pid: u32)
        ensures
            exists|now: u64|
                final(self)@ == (#[trigger] old(self)@.push(
                    PendingSpawn { command, spawn_time: now, pid: Some(pid), window_id },
                )).filter(|s: PendingSpawn| is_recent(s, now)),
    {
        let now = unix_secs();
        self.record_spawn_at(command, window_id, pid, now);
    }

    /// Record a process spawned at `now`, then drop spawns that are no longer
    /// recent at `now`.
    pub fn record_spawn_at(&mut self, command: String, window_id: Option<String>, pid: u32, now: u64)
        ensures
            final(self)@ == old(self)@.push(PendingSpawn { command, spawn_time: now, pid: Some(pid), window_id }).filter(
                |s: PendingSpawn| is_recent(s, now),
            ),
    {
        self.pending_spawns.push(PendingSpawn { command, spawn_time: now, pid: Some(pid), window_id });
        self.cleanup_old_spawns(now);
    }

    /// Drop the spawns that are no longer recent at `now`.
    pub fn cleanup_old_spawns(&mut self, now: u64)
        ensures
            final(self)@ == old(self)@.filter(|s: PendingSpawn| is_recent(s, now)),
    {
        let ghost orig = self.pending_spawns@;
        let mut kept: Vec<PendingSpawn> = Vec::new();
        let mut i: usize = 0;
        while i < self.pending_spawns.len()
            invariant
                i <= self.pending_spawns@.len(),
                self.pending_spawns@ == orig,
                kept@ == orig.take(i as int).filter(|s: PendingSpawn| is_recent(s, now)),
            decreases self.pending_spawns.len() - i,
        {
            let s = self.pending_spawns[i].clone();
            proof {
                assert(orig.take(i + 1).drop_last() =~= orig.take(i as int));
                reveal(Seq::filter);
            }
            if recent(&s, now) {
                kept.push(s);
            }
            i = i + 1;
        }
        assert(orig.take(orig.len() as int) =~= orig);
        self.pending_spawns = kept;
    }

    /// Match a newly opened window to a pending spawn at the current time,
    /// removing and returning that spawn.
    pub fn match_window(&mut self, class: &str, pid: Option<u32>) -> (r: Option<PendingSpawn>)
        ensures
            exists|now: u64| {
                match #[trigger] matched_spawn(old(self)@, class@, pid, now) {
                    Some(i) => r == Some(old(self)@[i]) && final(self)@ == old(self)@.remove(i),
                    None => r is None && final(self)@ == old(self)@,
                }
            },
    {
        let now = unix_secs();
        self.match_window_at(class, pid, now)
    }

    /// Match a newly opened window to a pending spawn at `now`: the first
    /// recent spawn with the window's pid, else the first recent spawn whose
    /// command fits the window's class. The matched spawn is removed.
    pub fn match_window_at(&mut self, class: &str, pid: Option<u32>, now: u64) -> (r: Option<PendingSpawn>)
        ensures
            match matched_spawn(old(self)@, class@, pid, now) {
                Some(i) => r == Some(old(self)@[i]) && final(self)@ == old(self)@.remove(i),
                None => r is None && final(self)@ == old(self)@,
            },
    {
        let ghost orig = self.pending_spawns@;
        if let Some(window_pid) = pid {
            let mut i: usize = 0;
            while i < self.pending_spawns.len()
                invariant
                    i <= self.pending_spawns@.len(),
                    self.pending_spawns@ == orig,
                    orig == old(self)@,
                    pid == Some(window_pid),
                    forall|k: int| 0 <= k < i ==> !(#[trigger] pid_hit(window_pid, now)(orig[k])),
                decreases self.pending_spawns.len() - i,
            {
                let hit = match self.pending_spawns[i].pid {
                    Some(p) => p == window_pid && recent(&self.pending_spawns[i], now),
                    None => false,
                };
                if hit {
                    proof {
                        lemma_first_index(orig, pid_hit(window_pid, now), i as int);
                        assert(matched_spawn(orig, class@, pid, now) == Some(i as int));
                    }
                    let s = self.pending_spawns.remove(i);
                    assert(s == orig[i as int]);
                    assert(self.pending_spawns@ == orig.remove(i as int));
                    return Some(s);
                }
                i = i + 1;
            }
            proof { lemma_first_index_none(orig, pid_hit(window_pid, now)); }
        }
        let lower_class = to_lowercase(class);
        let mut j: usize = 0;
        while j < self.pending_spawns.len()
            invariant
                j <= self.pending_spawns@.len(),
                self.pending_spawns@ == orig,
                orig == old(self)@,
                match pid {
                    Some(p) => first_index(orig, pid_hit(p, now)) is None,
                    None => true,
                },
                lower_class@ == lowercase_of(class@),
                forall|k: int| 0 <= k < j ==> !(#[trigger] class_hit(lowercase_of(class@), now)(orig[k])),
            decreases self.pending_spawns.len() - j,
        {
            let hit = if recent(&self.pending_spawns[j], now) {
                let lower_cmd = to_lowercase(self.pending_spawns[j].command.as_str());
                command_matches_class(lower_cmd.as_str(), lower_class.as_str())
            } else {
                false
            };
            if hit {
                proof {
                    lemma_first_index(orig, class_hit(lowercase_of(class@), now), j as int);
                    assert(matched_spawn(orig, class@, pid, now) == Some(j as int));
                }
                let s = self.pending_spawns.remove(j);
                assert(s == orig[j as int]);
                assert(self.pending_spawns@ == orig.remove(j as int));
                return Some(s);
            }
            j = j + 1;
        }
        proof { lemma_first_index_none(orig, class_hit(lowercase_of(class@), now)); }
        None
    }
}

} // verus!
