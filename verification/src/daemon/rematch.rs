//! Re-binding managed windows to live Hyprland clients after their addresses
//! went stale (monitor wake, compositor reload).
//!
//! Matching rules, strong key first, never guessing:
//! 1. **PID.** A managed window whose last known pid is on a live client takes
//!    the first free such client. PID wins over class.
//! 2. **Title.** Still unmatched windows with a class take the first free
//!    client of the same class with exactly their (non-empty) title.
//! 3. **Oldest first.** The remaining windows with a class, in ascending `id`
//!    order (ids are creation-timestamp based), each take the first free
//!    client of the same class.
//! 4. **Never guess.** Every window still unmatched is reported closed, in
//!    that same `id` order. A client is assigned to at most one window.

use vstd::multiset::Multiset;
use vstd::prelude::*;

use crate::hypr::ClientInfo;
use crate::manager::{first_index, is_first, lemma_first_index, lemma_first_index_none};
use crate::text::{chars_lt, chars_of, lex_lt};
use crate::types::ManagedWindow;

verus! {

/// The outcome of re-matching managed windows to live clients.
#[derive(Debug, PartialEq, Eq)]
pub struct MatchOutcome {
    /// `(managed id, client address, client pid)` for the matched windows.
    pub matches: Vec<(String, String, Option<u32>)>,
    /// Ids of the managed windows with no confident match (to be marked closed).
    pub closed: Vec<String>,
}

/// The three matching passes.
#[derive(Clone, Copy, PartialEq, Eq, Structural)]
pub enum Rule {
    Pid,
    Title,
    Class,
}

/// Does window `m` take part in the pass for `rule`?
pub open spec fn eligible(rule: Rule, m: ManagedWindow) -> bool {
    match rule {
        Rule::Pid => m.pid is Some,
        Rule::Title | Rule::Class => m.class@.len() > 0,
    }
}

/// May window `m` be bound to client `c` under `rule`?
pub open spec fn fits(rule: Rule, m: ManagedWindow, c: ClientInfo) -> bool {
    match rule {
        Rule::Pid => m.pid is Some && c.pid == m.pid,
        Rule::Title => c.class@ == m.class@ && m.title@.len() > 0 && c.title@ == m.title@,
        Rule::Class => c.class@ == m.class@,
    }
}

/// For each client: is it still free and a fit for `m` under `rule`?
pub open spec fn free_fits(rule: Rule, m: ManagedWindow, clients: Seq<ClientInfo>, used: Seq<bool>) -> Seq<bool> {
    Seq::new(clients.len(), |ci: int| !used[ci] && fits(rule, m, clients[ci]))
}

/// The first free client fitting `m` under `rule`.
pub open spec fn first_free(rule: Rule, m: ManagedWindow, clients: Seq<ClientInfo>, used: Seq<bool>) -> Option<int> {
    first_index(free_fits(rule, m, clients, used), |b: bool| b)
}

/// Result of one pass: windows left unmatched (in order), the client-use
/// flags afterwards, and the `(window index, client index)` pairs made.
pub struct PassOut {
    pub kept: Seq<usize>,
    pub used: Seq<bool>,
    pub pairs: Seq<(usize, usize)>,
}

/// One matching pass over the pending windows, front to back: each eligible
/// window takes the first free client that fits it.
pub open spec fn pass(
    rule: Rule,
    managed: Seq<ManagedWindow>,
    clients: Seq<ClientInfo>,
    pend: Seq<usize>,
    used: Seq<bool>,
) -> PassOut
    decreases pend.len(),
{
    if pend.len() == 0 {
        PassOut { kept: Seq::empty(), used, pairs: Seq::empty() }
    } else {
        let mi = pend[0];
        let m = managed[mi as int];
        let found = if eligible(rule, m) { first_free(rule, m, clients, used) } else { None };
        match found {
            Some(ci) => {
                let r = pass(rule, managed, clients, pend.drop_first(), used.update(ci, true));
                PassOut { kept: r.kept, used: r.used, pairs: seq![(mi, ci as usize)] + r.pairs }
            },
            None => {
                let r = pass(rule, managed, clients, pend.drop_first(), used);
                PassOut { kept: seq![mi] + r.kept, used: r.used, pairs: r.pairs }
            },
        }
    }
}

/// Is window `a`'s id before window `b`'s?
pub open spec fn id_lt(managed: Seq<ManagedWindow>, a: usize, b: usize) -> bool {
    lex_lt(managed[a as int].id@, managed[b as int].id@)
}

/// Where `x` goes in the id-sorted `s`: after every element whose id is not
/// greater than its own.
pub open spec fn insert_pos(managed: Seq<ManagedWindow>, x: usize, s: Seq<usize>) -> nat
    decreases s.len(),
{
    if s.len() == 0 {
        0
    } else if !id_lt(managed, x, s.last()) {
        s.len()
    } else {
        insert_pos(managed, x, s.drop_last())
    }
}

/// `pend` stably sorted by window id (equal ids keep their order).
pub open spec fn sort_by_id(managed: Seq<ManagedWindow>, pend: Seq<usize>) -> Seq<usize>
    decreases pend.len(),
{
    if pend.len() == 0 {
        Seq::empty()
    } else {
        let s = sort_by_id(managed, pend.drop_last());
        s.insert(insert_pos(managed, pend.last(), s) as int, pend.last())
    }
}

/// All window indices `0 .. n`, in order.
pub open spec fn all_indices(n: nat) -> Seq<usize> {
    Seq::new(n, |i: int| i as usize)
}

/// The three passes: `(pid pass, title pass, sorted pending, class pass)`.
pub open spec fn passes(managed: Seq<ManagedWindow>, clients: Seq<ClientInfo>) -> (PassOut, PassOut, Seq<usize>, PassOut) {
    let r1 = pass(Rule::Pid, managed, clients, all_indices(managed.len()), Seq::new(clients.len(), |i: int| false));
    let r2 = pass(Rule::Title, managed, clients, r1.kept, r1.used);
    let sorted = sort_by_id(managed, r2.kept);
    let r3 = pass(Rule::Class, managed, clients, sorted, r2.used);
    (r1, r2, sorted, r3)
}

/// All `(window index, client index)` pairs made, in order, and the windows
/// left unmatched (in id order).
pub open spec fn match_indices(managed: Seq<ManagedWindow>, clients: Seq<ClientInfo>) -> (Seq<(usize, usize)>, Seq<usize>) {
    let (r1, r2, sorted, r3) = passes(managed, clients);
    (r1.pairs + r2.pairs + r3.pairs, r3.kept)
}

/// The outcome `match_windows` reports.
pub open spec fn match_outcome(managed: Seq<ManagedWindow>, clients: Seq<ClientInfo>) -> (Seq<(String, String, Option<u32>)>, Seq<String>) {
    let (pairs, closed) = match_indices(managed, clients);
    (
        pairs.map_values(|p: (usize, usize)| (managed[p.0 as int].id, clients[p.1 as int].address, clients[p.1 as int].pid)),
        closed.map_values(|mi: usize| managed[mi as int].id),
    )
}

fn eligible_exec(rule: Rule, m: &ManagedWindow) -> (r: bool)
    ensures
        r == eligible(rule, *m),
{
    match rule {
        Rule::Pid => m.pid.is_some(),
        _ => !m.class.as_str().is_empty(),
    }
}

fn fits_exec(rule: Rule, m: &ManagedWindow, c: &ClientInfo) -> (r: bool)
    ensures
        r == fits(rule, *m, *c),
{
    match rule {
        Rule::Pid => match (m.pid, c.pid) {
            (Some(p), Some(q)) => p == q,
            _ => false,
        },
        Rule::Title => c.class == m.class && !m.title.as_str().is_empty() && c.title == m.title,
        Rule::Class => c.class == m.class,
    }
}

fn find_free(rule: Rule, m: &ManagedWindow, clients: &[ClientInfo], used: &Vec<bool>) -> (r: Option<usize>)
    requires
        used@.len() == clients@.len(),
    ensures
        r matches Some(ci) ==> first_free(rule, *m, clients@, used@) == Some(ci as int) && ci < clients@.len(),
        r is None ==> first_free(rule, *m, clients@, used@) is None,
{
    let ghost flags = free_fits(rule, *m, clients@, used@);
    let mut ci: usize = 0;
    while ci < clients.len()
        invariant
            ci <= clients@.len(),
            used@.len() == clients@.len(),
            flags == free_fits(rule, *m, clients@, used@),
            forall|k: int| 0 <= k < ci ==> !((|b: bool| b)(#[trigger] flags[k])),
        decreases clients.len() - ci,
    {
        if !used[ci] && fits_exec(rule, m, &clients[ci]) {
            proof { lemma_first_index(flags, |b: bool| b, ci as int); }
            return Some(ci);
        }
        ci = ci + 1;
    }
    proof { lemma_first_index_none(flags, |b: bool| b); }
    None
}

/// Every pending index is a window index.
pub open spec fn in_range(pend: Seq<usize>, n: nat) -> bool {
    forall|k: int| 0 <= k < pend.len() ==> (#[trigger] pend[k]) < n
}

fn run_pass(
    rule: Rule,
    managed: &[ManagedWindow],
    clients: &[ClientInfo],
    pend: &Vec<usize>,
    used: &mut Vec<bool>,
) -> (r: (Vec<usize>, Vec<(usize, usize)>))
    requires
        old(used)@.len() == clients@.len(),
        in_range(pend@, managed@.len()),
    ensures
        ({
            let p = pass(rule, managed@, clients@, pend@, old(used)@);
            r.0@ == p.kept && final(used)@ == p.used && r.1@ == p.pairs
        }),
        final(used)@.len() == clients@.len(),
{
    let ghost used0 = used@;
    let mut kept: Vec<usize> = Vec::new();
    let mut found: Vec<(usize, usize)> = Vec::new();
    let mut i: usize = 0;
    proof {
        let rest = pass(rule, managed@, clients@, pend@.skip(0), used@);
        assert(pend@.skip(0) =~= pend@);
        assert(kept@ + rest.kept =~= rest.kept);
        assert(found@ + rest.pairs =~= rest.pairs);
    }
    while i < pend.len()
        invariant
            i <= pend@.len(),
            used@.len() == clients@.len(),
            in_range(pend@, managed@.len()),
            ({
                let rest = pass(rule, managed@, clients@, pend@.skip(i as int), used@);
                pass(rule, managed@, clients@, pend@, used0)
                    == PassOut { kept: kept@ + rest.kept, used: rest.used, pairs: found@ + rest.pairs }
            }),
        decreases pend.len() - i,
    {
        let mi = pend[i];
        let m = &managed[mi];
        proof {
            assert(pend@.skip(i as int)[0] == mi);
            assert(pend@.skip(i as int).drop_first() =~= pend@.skip(i + 1));
        }
        let hit = if eligible_exec(rule, m) { find_free(rule, m, clients, used) } else { None };
        match hit {
            Some(ci) => {
                let ghost before = used@;
                used.set(ci, true);
                proof {
                    let rest = pass(rule, managed@, clients@, pend@.skip(i + 1), used@);
                    assert(used@ == before.update(ci as int, true));
                    assert(found@.push((mi, ci)) + rest.pairs =~= found@ + (seq![(mi, ci)] + rest.pairs));
                }
                found.push((mi, ci));
            },
            None => {
                proof {
                    let rest = pass(rule, managed@, clients@, pend@.skip(i + 1), used@);
                    assert(kept@.push(mi) + rest.kept =~= kept@ + (seq![mi] + rest.kept));
                }
                kept.push(mi);
            },
        }
        i = i + 1;
    }
    proof {
        assert(pend@.skip(i as int).len() == 0);
        assert(kept@ + Seq::<usize>::empty() =~= kept@);
        assert(found@ + Seq::<(usize, usize)>::empty() =~= found@);
    }
    (kept, found)
}

/// Stably sorts `pend` by window id.
fn sort_pending(managed: &[ManagedWindow], ids: &Vec<Vec<char>>, pend: &Vec<usize>) -> (r: Vec<usize>)
    requires
        ids@.len() == managed@.len(),
        forall|i: int| 0 <= i < ids@.len() ==> (#[trigger] ids@[i])@ == managed@[i].id@,
        in_range(pend@, managed@.len()),
    ensures
        r@ == sort_by_id(managed@, pend@),
        in_range(r@, managed@.len()),
{
    let mut cur: Vec<usize> = Vec::new();
    let mut i: usize = 0;
    while i < pend.len()
        invariant
            i <= pend@.len(),
            ids@.len() == managed@.len(),
            forall|i: int| 0 <= i < ids@.len() ==> (#[trigger] ids@[i])@ == managed@[i].id@,
            in_range(pend@, managed@.len()),
            in_range(cur@, managed@.len()),
            cur@ == sort_by_id(managed@, pend@.take(i as int)),
        decreases pend.len() - i,
    {
        let x = pend[i];
        let mut j: usize = cur.len();
        assert(cur@.take(j as int) =~= cur@);
        while j > 0 && chars_lt(ids[x].as_slice(), ids[cur[j - 1]].as_slice())
            invariant
                j <= cur@.len(),
                x < managed@.len(),
                ids@.len() == managed@.len(),
                forall|i: int| 0 <= i < ids@.len() ==> (#[trigger] ids@[i])@ == managed@[i].id@,
                in_range(cur@, managed@.len()),
                insert_pos(managed@, x, cur@) == insert_pos(managed@, x, cur@.take(j as int)),
            decreases j,
        {
            proof {
                assert(cur@.take(j as int).last() == cur@[j - 1]);
                assert(cur@.take(j as int).drop_last() =~= cur@.take(j - 1));
            }
            j = j - 1;
        }
        proof {
            if j > 0 {
                assert(cur@.take(j as int).last() == cur@[j - 1]);
            } else {
                assert(cur@.take(0).len() == 0);
            }
            assert(pend@.take(i + 1).drop_last() =~= pend@.take(i as int));
            assert(pend@.take(i + 1).last() == x);
        }
        let ghost before = cur@;
        cur.insert(j, x);
        proof {
            assert forall|k: int| 0 <= k < cur@.len() implies (#[trigger] cur@[k]) < managed@.len() by {
                if k < j {
                    assert(cur@[k] == before[k]);
                } else if k > j {
                    assert(cur@[k] == before[k - 1]);
                }
            }
        }
        i = i + 1;
    }
    assert(pend@.take(pend@.len() as int) =~= pend@);
    cur
}

/// Re-match managed windows to live clients. Pure and deterministic.
pub fn match_windows(managed: &[ManagedWindow], clients: &[ClientInfo]) -> (out: MatchOutcome)
    ensures
        out.matches@ == match_outcome(managed@, clients@).0,
        out.closed@ == match_outcome(managed@, clients@).1,
{
    let n = managed.len();
    let mut pending: Vec<usize> = Vec::new();
    let mut k: usize = 0;
    while k < n
        invariant
            n == managed@.len(),
            k <= n,
            pending@ =~= all_indices(k as nat),
        decreases n - k,
    {
        pending.push(k);
        k = k + 1;
    }
    let mut used: Vec<bool> = Vec::new();
    let mut c: usize = 0;
    while c < clients.len()
        invariant
            c <= clients@.len(),
            used@ =~= Seq::new(c as nat, |i: int| false),
        decreases clients.len() - c,
    {
        used.push(false);
        c = c + 1;
    }
    let mut ids: Vec<Vec<char>> = Vec::new();
    let mut t: usize = 0;
    while t < n
        invariant
            n == managed@.len(),
            t <= n,
            ids@.len() == t,
            forall|i: int| 0 <= i < t ==> (#[trigger] ids@[i])@ == managed@[i].id@,
        decreases n - t,
    {
        ids.push(chars_of(managed[t].id.as_str()));
        t = t + 1;
    }
    proof {
        assert(in_range(pending@, n as nat));
    }
    let ghost u0 = used@;
    let (kept1, pairs1) = run_pass(Rule::Pid, managed, clients, &pending, &mut used);
    proof { lemma_pass_in_range(Rule::Pid, managed@, clients@, pending@, u0); }
    let ghost u1 = used@;
    let (kept2, pairs2) = run_pass(Rule::Title, managed, clients, &kept1, &mut used);
    proof { lemma_pass_in_range(Rule::Title, managed@, clients@, kept1@, u1); }
    let sorted = sort_pending(managed, &ids, &kept2);
    let ghost u2 = used@;
    let (kept3, pairs3) = run_pass(Rule::Class, managed, clients, &sorted, &mut used);
    proof { lemma_pass_in_range(Rule::Class, managed@, clients@, sorted@, u2); }

    let ghost all_pairs = pairs1@ + pairs2@ + pairs3@;
    let ghost spec_out = match_outcome(managed@, clients@);
    proof {
        lemma_pass_pairs_in_range(Rule::Pid, managed@, clients@, pending@, u0);
        lemma_pass_pairs_in_range(Rule::Title, managed@, clients@, kept1@, u1);
        lemma_pass_pairs_in_range(Rule::Class, managed@, clients@, sorted@, pass(Rule::Title, managed@, clients@, kept1@, u1).used);
        assert(match_indices(managed@, clients@).0 == all_pairs);
        assert(match_indices(managed@, clients@).1 == kept3@);
    }
    let mut matches: Vec<(String, String, Option<u32>)> = Vec::new();
    let mut q: usize = 0;
    let mut all: Vec<(usize, usize)> = Vec::new();
    let mut a: usize = 0;
    while a < pairs1.len()
        invariant
            a <= pairs1@.len(),
            all@ == pairs1@.take(a as int),
        decreases pairs1.len() - a,
    {
        all.push(pairs1[a]);
        a = a + 1;
        proof { assert(all@ =~= pairs1@.take(a as int)); }
    }
    let mut b: usize = 0;
    while b < pairs2.len()
        invariant
            a == pairs1@.len(),
            b <= pairs2@.len(),
            all@ == pairs1@ + pairs2@.take(b as int),
        decreases pairs2.len() - b,
    {
        all.push(pairs2[b]);
        b = b + 1;
        proof { assert(all@ =~= pairs1@ + pairs2@.take(b as int)); }
    }
    let mut d: usize = 0;
    while d < pairs3.len()
        invariant
            d <= pairs3@.len(),
            all@ == pairs1@ + pairs2@ + pairs3@.take(d as int),
        decreases pairs3.len() - d,
    {
        all.push(pairs3[d]);
        d = d + 1;
        proof { assert(all@ =~= pairs1@ + pairs2@ + pairs3@.take(d as int)); }
    }
    proof {
        assert(pairs2@.take(pairs2@.len() as int) =~= pairs2@);
        assert(pairs3@.take(pairs3@.len() as int) =~= pairs3@);
        assert(all@ =~= all_pairs);
    }
    while q < all.len()
        invariant
            q <= all@.len(),
            all@ == all_pairs,
            forall|k: int| 0 <= k < all@.len() ==> (#[trigger] all@[k]).0 < managed@.len() && all@[k].1 < clients@.len(),
            matches@ =~= all@.take(q as int).map_values(
                |p: (usize, usize)| (managed@[p.0 as int].id, clients@[p.1 as int].address, clients@[p.1 as int].pid),
            ),
        decreases all.len() - q,
    {
        let (mi, ci) = all[q];
        matches.push((managed[mi].id.clone(), clients[ci].address.clone(), clients[ci].pid));
        q = q + 1;
        proof {
            assert(all@.take(q as int).drop_last() =~= all@.take(q - 1));
        }
    }
    let mut closed: Vec<String> = Vec::new();
    let mut z: usize = 0;
    while z < kept3.len()
        invariant
            z <= kept3@.len(),
            in_range(kept3@, managed@.len()),
            closed@ =~= kept3@.take(z as int).map_values(|mi: usize| managed@[mi as int].id),
        decreases kept3.len() - z,
    {
        closed.push(managed[kept3[z]].id.clone());
        z = z + 1;
        proof {
            assert(kept3@.take(z as int).drop_last() =~= kept3@.take(z - 1));
        }
    }
    proof {
        assert(all@.take(all@.len() as int) =~= all@);
        assert(kept3@.take(kept3@.len() as int) =~= kept3@);
    }
    MatchOutcome { matches, closed }
}

// ---------------------------------------------------------------------------
// Facts about a pass
// ---------------------------------------------------------------------------

/// Windows left pending by a pass were pending before it.
pub proof fn lemma_pass_in_range(
    rule: Rule,
    managed: Seq<ManagedWindow>,
    clients: Seq<ClientInfo>,
    pend: Seq<usize>,
    used: Seq<bool>,
)
    requires
        in_range(pend, managed.len()),
    ensures
        in_range(pass(rule, managed, clients, pend, used).kept, managed.len()),
    decreases pend.len(),
{
    if pend.len() > 0 {
        let m = managed[pend[0] as int];
        let found = if eligible(rule, m) { first_free(rule, m, clients, used) } else { None };
        let u = match found { Some(ci) => used.update(ci, true), None => used };
        assert(in_range(pend.drop_first(), managed.len()));
        lemma_pass_in_range(rule, managed, clients, pend.drop_first(), u);
    }
}

/// The pairs a pass makes name pending windows and existing clients.
pub proof fn lemma_pass_pairs_in_range(
    rule: Rule,
    managed: Seq<ManagedWindow>,
    clients: Seq<ClientInfo>,
    pend: Seq<usize>,
    used: Seq<bool>,
)
    requires
        in_range(pend, managed.len()),
    ensures
        forall|k: int|
            0 <= k < pass(rule, managed, clients, pend, used).pairs.len() ==>
                (#[trigger] pass(rule, managed, clients, pend, used).pairs[k]).0 < managed.len()
                && pass(rule, managed, clients, pend, used).pairs[k].1 < clients.len(),
    decreases pend.len(),
{
    if pend.len() > 0 {
        let m = managed[pend[0] as int];
        let found = if eligible(rule, m) { first_free(rule, m, clients, used) } else { None };
        assert(in_range(pend.drop_first(), managed.len()));
        match found {
            Some(ci) => {
                lemma_first_index_some_free(rule, m, clients, used);
                lemma_pass_pairs_in_range(rule, managed, clients, pend.drop_first(), used.update(ci, true));
                let r = pass(rule, managed, clients, pend.drop_first(), used.update(ci, true));
                let all = pass(rule, managed, clients, pend, used).pairs;
                assert(all == seq![(pend[0], ci as usize)] + r.pairs);
                assert forall|k: int| 0 <= k < all.len() implies (#[trigger] all[k]).0 < managed.len() && all[k].1 < clients.len() by {
                    if k > 0 {
                        assert(all[k] == r.pairs[k - 1]);
                    }
                }
            },
            None => {
                lemma_pass_pairs_in_range(rule, managed, clients, pend.drop_first(), used);
                let r = pass(rule, managed, clients, pend.drop_first(), used);
                assert(pass(rule, managed, clients, pend, used).pairs == r.pairs);
            },
        }
    }
}

/// The facts one pass keeps: every pair is an eligible fitting window and a
/// client that was free before the pass and is taken after it; pairs take
/// distinct clients; taken clients stay taken; newly taken clients are those
/// of the pairs; and every pending window is either kept or paired, once.
pub open spec fn pass_facts(
    rule: Rule,
    managed: Seq<ManagedWindow>,
    clients: Seq<ClientInfo>,
    pend: Seq<usize>,
    used: Seq<bool>,
    r: PassOut,
) -> bool {
    &&& r.used.len() == used.len()
    &&& forall|k: int| 0 <= k < r.pairs.len() ==> pair_ok(rule, managed, clients, used, r.used, #[trigger] r.pairs[k])
    &&& forall|k1: int, k2: int|
        0 <= k1 < r.pairs.len() && 0 <= k2 < r.pairs.len() && k1 != k2 ==> (#[trigger] r.pairs[k1]).1 != (#[trigger] r.pairs[k2]).1
    &&& forall|c: int| 0 <= c < used.len() && used[c] ==> #[trigger] r.used[c]
    &&& forall|c: int|
        0 <= c < used.len() && #[trigger] r.used[c] ==> used[c] || exists|k: int| 0 <= k < r.pairs.len() && r.pairs[k].1 == c
    &&& pend.to_multiset() == r.kept.to_multiset().add(firsts(r.pairs).to_multiset())
}

/// A pair made by a pass: an eligible window and a fitting client that was
/// free before the pass (`before`) and is taken after it (`after`).
pub open spec fn pair_ok(
    rule: Rule,
    managed: Seq<ManagedWindow>,
    clients: Seq<ClientInfo>,
    before: Seq<bool>,
    after: Seq<bool>,
    p: (usize, usize),
) -> bool {
    &&& p.1 < before.len()
    &&& eligible(rule, managed[p.0 as int])
    &&& fits(rule, managed[p.0 as int], clients[p.1 as int])
    &&& !before[p.1 as int]
    &&& after[p.1 as int]
}

/// The window indices of a list of pairs.
pub open spec fn firsts(pairs: Seq<(usize, usize)>) -> Seq<usize> {
    pairs.map_values(|p: (usize, usize)| p.0)
}

pub proof fn lemma_pass_facts(
    rule: Rule,
    managed: Seq<ManagedWindow>,
    clients: Seq<ClientInfo>,
    pend: Seq<usize>,
    used: Seq<bool>,
)
    requires
        used.len() == clients.len(),
        clients.len() <= usize::MAX,
    ensures
        pass_facts(rule, managed, clients, pend, used, pass(rule, managed, clients, pend, used)),
    decreases pend.len(),
{
    broadcast use vstd::seq_lib::group_to_multiset_ensures, vstd::seq_lib::lemma_multiset_commutative;

    let r = pass(rule, managed, clients, pend, used);
    if pend.len() == 0 {
        assert(pend.to_multiset() =~= Multiset::<usize>::empty());
        assert(r.kept.to_multiset() =~= Multiset::<usize>::empty());
        assert(firsts(r.pairs) =~= Seq::<usize>::empty());
        assert(firsts(r.pairs).to_multiset() =~= Multiset::<usize>::empty());
        assert(r.kept.to_multiset().add(firsts(r.pairs).to_multiset()) =~= Multiset::<usize>::empty());
    } else {
        let mi = pend[0];
        let m = managed[mi as int];
        let rest = pend.drop_first();
        assert(pend =~= seq![mi] + rest);
        let found = if eligible(rule, m) { first_free(rule, m, clients, used) } else { None };
        match found {
            Some(ci) => {
                lemma_first_index_some_free(rule, m, clients, used);
                let u2 = used.update(ci, true);
                lemma_pass_facts(rule, managed, clients, rest, u2);
                let r2 = pass(rule, managed, clients, rest, u2);
                assert(r.pairs == seq![(mi, ci as usize)] + r2.pairs);
                assert(r.used == r2.used);
                assert(r.kept == r2.kept);
                assert(eligible(rule, m));
                assert(u2[ci]);
                assert(r2.used[ci]);
                assert forall|k: int| 0 <= k < r.pairs.len() implies pair_ok(rule, managed, clients, used, r.used, #[trigger] r.pairs[k]) by {
                    if k == 0 {
                        assert(r.pairs[0] == (mi, ci as usize));
                        assert((ci as usize) as int == ci);
                    } else {
                        assert(r.pairs[k] == r2.pairs[k - 1]);
                        assert(pair_ok(rule, managed, clients, u2, r2.used, r2.pairs[k - 1]));
                        let c = r2.pairs[k - 1].1 as int;
                        assert(!u2[c]);
                        assert(c != ci);
                        assert(used[c] == u2[c]);
                    }
                }
                assert forall|k1: int, k2: int|
                    0 <= k1 < r.pairs.len() && 0 <= k2 < r.pairs.len() && k1 != k2 implies (#[trigger] r.pairs[k1]).1 != (#[trigger] r.pairs[k2]).1 by {
                    if k1 > 0 {
                        assert(r.pairs[k1] == r2.pairs[k1 - 1]);
                    }
                    if k2 > 0 {
                        assert(r.pairs[k2] == r2.pairs[k2 - 1]);
                    }
                    if k1 == 0 {
                        assert(pair_ok(rule, managed, clients, u2, r2.used, r2.pairs[k2 - 1]));
                    }
                    if k2 == 0 {
                        assert(pair_ok(rule, managed, clients, u2, r2.used, r2.pairs[k1 - 1]));
                    }
                }
                assert forall|c: int|
                    0 <= c < used.len() && #[trigger] r.used[c] implies used[c] || exists|k: int| 0 <= k < r.pairs.len() && r.pairs[k].1 == c by {
                    assert(r2.used[c]);
                    if !used[c] {
                        if c == ci {
                            assert(r.pairs[0].1 == c);
                        } else {
                            assert(!u2[c]);
                            let k = choose|k: int| 0 <= k < r2.pairs.len() && r2.pairs[k].1 == c;
                            assert(r.pairs[k + 1] == r2.pairs[k]);
                        }
                    }
                }
                assert forall|c: int| 0 <= c < used.len() && used[c] implies #[trigger] r.used[c] by {
                    assert(u2[c]);
                }
                assert(firsts(r.pairs) =~= seq![mi] + firsts(r2.pairs));
                assert(r.used.len() == used.len());
                assert(pend.to_multiset() == r.kept.to_multiset().add(firsts(r.pairs).to_multiset()));
            },
            None => {
                lemma_pass_facts(rule, managed, clients, rest, used);
                let r2 = pass(rule, managed, clients, rest, used);
                assert(r.pairs == r2.pairs);
                assert(r.used == r2.used);
                assert(r.kept == seq![mi] + r2.kept);
                assert(firsts(r.pairs) =~= firsts(r2.pairs));
                assert(r.used.len() == used.len());
                assert forall|k: int| 0 <= k < r.pairs.len() implies pair_ok(rule, managed, clients, used, r.used, #[trigger] r.pairs[k]) by {
                    assert(pair_ok(rule, managed, clients, used, r2.used, r2.pairs[k]));
                }
                assert(pend.to_multiset() == r.kept.to_multiset().add(firsts(r.pairs).to_multiset()));
            },
        }
    }
}

/// Where a window goes in a sorted list is within it.
proof fn lemma_insert_pos_bound(managed: Seq<ManagedWindow>, x: usize, s: Seq<usize>)
    ensures
        insert_pos(managed, x, s) <= s.len(),
    decreases s.len(),
{
    if s.len() > 0 {
        lemma_insert_pos_bound(managed, x, s.drop_last());
    }
}

/// Sorting by id keeps the same windows.
pub proof fn lemma_sort_by_id_permutes(managed: Seq<ManagedWindow>, pend: Seq<usize>)
    ensures
        sort_by_id(managed, pend).to_multiset() == pend.to_multiset(),
    decreases pend.len(),
{
    broadcast use vstd::seq_lib::group_to_multiset_ensures;

    if pend.len() == 0 {
        assert(sort_by_id(managed, pend) =~= Seq::<usize>::empty());
    } else {
        let s = sort_by_id(managed, pend.drop_last());
        lemma_sort_by_id_permutes(managed, pend.drop_last());
        lemma_insert_pos_bound(managed, pend.last(), s);
        assert(pend =~= pend.drop_last().push(pend.last()));
    }
}

/// All matched pairs satisfy the pass facts chained over the three passes.
proof fn lemma_passes_facts(managed: Seq<ManagedWindow>, clients: Seq<ClientInfo>)
    requires
        clients.len() <= usize::MAX,
    ensures
        ({
            let (r1, r2, sorted, r3) = passes(managed, clients);
            let u0 = Seq::new(clients.len(), |i: int| false);
            &&& pass_facts(Rule::Pid, managed, clients, all_indices(managed.len()), u0, r1)
            &&& pass_facts(Rule::Title, managed, clients, r1.kept, r1.used, r2)
            &&& pass_facts(Rule::Class, managed, clients, sorted, r2.used, r3)
            &&& sorted.to_multiset() == r2.kept.to_multiset()
        }),
{
    let (r1, r2, sorted, r3) = passes(managed, clients);
    let u0 = Seq::new(clients.len(), |i: int| false);
    lemma_pass_facts(Rule::Pid, managed, clients, all_indices(managed.len()), u0);
    lemma_pass_facts(Rule::Title, managed, clients, r1.kept, r1.used);
    lemma_pass_facts(Rule::Class, managed, clients, sorted, r2.used);
    lemma_sort_by_id_permutes(managed, r2.kept);
}

/// No client is bound to two managed windows.
pub proof fn law_match_client_assigned_once(managed: Seq<ManagedWindow>, clients: Seq<ClientInfo>)
    requires
        managed.len() <= usize::MAX,
        clients.len() <= usize::MAX,
    ensures
        ({
            let pairs = match_indices(managed, clients).0;
            forall|k1: int, k2: int|
                0 <= k1 < pairs.len() && 0 <= k2 < pairs.len() && k1 != k2 ==> (#[trigger] pairs[k1]).1 != (#[trigger] pairs[k2]).1
        }),
{
    lemma_passes_facts(managed, clients);
    let (r1, r2, sorted, r3) = passes(managed, clients);
    let pairs = match_indices(managed, clients).0;
    let a = r1.pairs.len() as int;
    let b = a + r2.pairs.len();
    assert(pairs == r1.pairs + r2.pairs + r3.pairs);
    assert forall|k1: int, k2: int|
        0 <= k1 < pairs.len() && 0 <= k2 < pairs.len() && k1 != k2 implies (#[trigger] pairs[k1]).1 != (#[trigger] pairs[k2]).1 by {
        // Where each pair comes from, and whether its client was taken
        // before the pass that made it.
        if k1 < a {
            assert(pairs[k1] == r1.pairs[k1]);
        } else if k1 < b {
            assert(pairs[k1] == r2.pairs[k1 - a]);
        } else {
            assert(pairs[k1] == r3.pairs[k1 - b]);
        }
        if k2 < a {
            assert(pairs[k2] == r1.pairs[k2]);
        } else if k2 < b {
            assert(pairs[k2] == r2.pairs[k2 - a]);
        } else {
            assert(pairs[k2] == r3.pairs[k2 - b]);
        }
        if k1 < a && a <= k2 < b {
            assert(r1.used[r1.pairs[k1].1 as int]);
        }
        if k2 < a && a <= k1 < b {
            assert(r1.used[r1.pairs[k2].1 as int]);
        }
        if k1 < a && b <= k2 {
            assert(r1.used[r1.pairs[k1].1 as int]);
            assert(r2.used[r1.pairs[k1].1 as int]);
        }
        if k2 < a && b <= k1 {
            assert(r1.used[r1.pairs[k2].1 as int]);
            assert(r2.used[r1.pairs[k2].1 as int]);
        }
        if a <= k1 < b && b <= k2 {
            assert(r2.used[r2.pairs[k1 - a].1 as int]);
        }
        if a <= k2 < b && b <= k1 {
            assert(r2.used[r2.pairs[k2 - a].1 as int]);
        }
    }
}

/// Every managed window is reported exactly once: matched, or closed.
pub proof fn law_match_partitions_windows(managed: Seq<ManagedWindow>, clients: Seq<ClientInfo>)
    requires
        managed.len() <= usize::MAX,
        clients.len() <= usize::MAX,
    ensures
        ({
            let (pairs, closed) = match_indices(managed, clients);
            (firsts(pairs) + closed).to_multiset() == all_indices(managed.len()).to_multiset()
        }),
{
    broadcast use vstd::seq_lib::lemma_multiset_commutative;

    lemma_passes_facts(managed, clients);
    let (r1, r2, sorted, r3) = passes(managed, clients);
    let (pairs, closed) = match_indices(managed, clients);
    assert(firsts(pairs) =~= firsts(r1.pairs) + firsts(r2.pairs) + firsts(r3.pairs));
    let f1 = firsts(r1.pairs).to_multiset();
    let f2 = firsts(r2.pairs).to_multiset();
    let f3 = firsts(r3.pairs).to_multiset();
    assert((firsts(pairs) + closed).to_multiset() =~= f1.add(f2).add(f3).add(closed.to_multiset()));
    assert(all_indices(managed.len()).to_multiset() =~= r3.kept.to_multiset().add(f3).add(f2).add(f1));
}

/// A window is only ever bound to a client sharing its pid, or to a client
/// of its own (non-empty) class: nothing is guessed.
pub proof fn law_match_never_guesses(managed: Seq<ManagedWindow>, clients: Seq<ClientInfo>)
    requires
        managed.len() <= usize::MAX,
        clients.len() <= usize::MAX,
    ensures
        ({
            let pairs = match_indices(managed, clients).0;
            forall|k: int| 0 <= k < pairs.len() ==> {
                let (mi, ci) = #[trigger] pairs[k];
                let m = managed[mi as int];
                let c = clients[ci as int];
                (m.pid is Some && c.pid == m.pid) || (m.class@.len() > 0 && c.class@ == m.class@)
            }
        }),
{
    lemma_passes_facts(managed, clients);
    let (r1, r2, sorted, r3) = passes(managed, clients);
    let pairs = match_indices(managed, clients).0;
    let a = r1.pairs.len() as int;
    let b = a + r2.pairs.len();
    assert forall|k: int| 0 <= k < pairs.len() implies {
        let (mi, ci) = #[trigger] pairs[k];
        let m = managed[mi as int];
        let c = clients[ci as int];
        (m.pid is Some && c.pid == m.pid) || (m.class@.len() > 0 && c.class@ == m.class@)
    } by {
        if k < a {
            assert(pairs[k] == r1.pairs[k]);
        } else if k < b {
            assert(pairs[k] == r2.pairs[k - a]);
        } else {
            assert(pairs[k] == r3.pairs[k - b]);
        }
    }
}

/// The pid pass binds `mi` to a client with its pid when such a client is
/// free and no other pending window shares that pid.
proof fn lemma_pid_pass_binds(
    managed: Seq<ManagedWindow>,
    clients: Seq<ClientInfo>,
    pend: Seq<usize>,
    used: Seq<bool>,
    mi: usize,
    ci0: int,
)
    requires
        used.len() == clients.len(),
        clients.len() <= usize::MAX,
        pend.contains(mi),
        pend.no_duplicates(),
        managed[mi as int].pid is Some,
        0 <= ci0 < clients.len(),
        clients[ci0].pid == managed[mi as int].pid,
        !used[ci0],
        forall|k: int| 0 <= k < pend.len() && pend[k] != mi ==> managed[#[trigger] pend[k] as int].pid != managed[mi as int].pid,
    ensures
        ({
            let pairs = pass(Rule::Pid, managed, clients, pend, used).pairs;
            exists|k: int| 0 <= k < pairs.len() && (#[trigger] pairs[k]).0 == mi && clients[pairs[k].1 as int].pid == managed[mi as int].pid
        }),
    decreases pend.len(),
{
    let r = pass(Rule::Pid, managed, clients, pend, used);
    let mj = pend[0];
    let m = managed[mj as int];
    let rest = pend.drop_first();
    lemma_first_index_some_free(Rule::Pid, m, clients, used);
    if mj == mi {
        let flags = free_fits(Rule::Pid, m, clients, used);
        assert(flags[ci0]);
        assert(first_free(Rule::Pid, m, clients, used) is Some) by {
            if first_free(Rule::Pid, m, clients, used) is None {
                assert((|b: bool| b)(flags[ci0]));
            }
        }
        assert(r.pairs[0].0 == mi);
    } else {
        assert(pend[0] != mi);
        assert(rest.contains(mi)) by {
            let k = choose|k: int| 0 <= k < pend.len() && pend[k] == mi;
            assert(rest[k - 1] == mi);
        }
        assert(rest.no_duplicates());
        assert forall|k: int| 0 <= k < rest.len() && rest[k] != mi implies managed[#[trigger] rest[k] as int].pid != managed[mi as int].pid by {
            assert(rest[k] == pend[k + 1]);
        }
        let found = if eligible(Rule::Pid, m) { first_free(Rule::Pid, m, clients, used) } else { None };
        match found {
            Some(ci) => {
                assert(managed[mj as int].pid != managed[mi as int].pid);
                assert(ci != ci0);
                lemma_pid_pass_binds(managed, clients, rest, used.update(ci, true), mi, ci0);
                let r2 = pass(Rule::Pid, managed, clients, rest, used.update(ci, true));
                assert(r.pairs == seq![(mj, ci as usize)] + r2.pairs);
                let k = choose|k: int| 0 <= k < r2.pairs.len() && (#[trigger] r2.pairs[k]).0 == mi && clients[r2.pairs[k].1 as int].pid == managed[mi as int].pid;
                assert(r.pairs[k + 1] == r2.pairs[k]);
            },
            None => {
                lemma_pid_pass_binds(managed, clients, rest, used, mi, ci0);
                let r2 = pass(Rule::Pid, managed, clients, rest, used);
                assert(r.pairs == r2.pairs);
            },
        }
    }
}

/// The pid is the strong key: a window whose pid is on a live client, and
/// which no other managed window shares, is bound to a client with that pid.
pub proof fn law_match_pid_wins(managed: Seq<ManagedWindow>, clients: Seq<ClientInfo>, mi: usize, ci: int)
    requires
        managed.len() <= usize::MAX,
        clients.len() <= usize::MAX,
        mi < managed.len(),
        managed[mi as int].pid is Some,
        0 <= ci < clients.len(),
        clients[ci].pid == managed[mi as int].pid,
        forall|j: int| 0 <= j < managed.len() && j != mi ==> (#[trigger] managed[j]).pid != managed[mi as int].pid,
    ensures
        ({
            let pairs = match_indices(managed, clients).0;
            exists|k: int| 0 <= k < pairs.len() && (#[trigger] pairs[k]).0 == mi && clients[pairs[k].1 as int].pid == managed[mi as int].pid
        }),
{
    let pend = all_indices(managed.len());
    let u0 = Seq::new(clients.len(), |i: int| false);
    assert(pend[mi as int] == mi);
    assert(pend.no_duplicates());
    assert forall|k: int| 0 <= k < pend.len() && pend[k] != mi implies managed[#[trigger] pend[k] as int].pid != managed[mi as int].pid by {
        assert(pend[k] as int == k);
    }
    lemma_pid_pass_binds(managed, clients, pend, u0, mi, ci);
    let (r1, r2, sorted, r3) = passes(managed, clients);
    let pairs = match_indices(managed, clients).0;
    let k = choose|k: int| 0 <= k < r1.pairs.len() && (#[trigger] r1.pairs[k]).0 == mi && clients[r1.pairs[k].1 as int].pid == managed[mi as int].pid;
    assert(pairs[k] == r1.pairs[k]);
}

/// A first free fit is a free fitting client.
pub proof fn lemma_first_index_some_free(rule: Rule, m: ManagedWindow, clients: Seq<ClientInfo>, used: Seq<bool>)
    ensures
        first_free(rule, m, clients, used) matches Some(ci) ==> 0 <= ci < clients.len() && !used[ci] && fits(rule, m, clients[ci])
            && forall|k: int| 0 <= k < ci ==> !(!used[k] && fits(rule, m, #[trigger] clients[k])),
{
    let flags = free_fits(rule, m, clients, used);
    if first_free(rule, m, clients, used) is Some {
        crate::manager::lemma_first_index_some(flags, |b: bool| b);
        let ci = first_free(rule, m, clients, used)->0;
        assert(is_first(flags, |b: bool| b, ci));
        assert forall|k: int| 0 <= k < ci implies !(!used[k] && fits(rule, m, #[trigger] clients[k])) by {
            assert(!((|b: bool| b)(flags[k])));
        }
    }
}

} // verus!
