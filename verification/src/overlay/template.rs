//! Command templates: `{{name}}` placeholders, filling them in, and the
//! request the new-space dialog sends.
//!
//! A placeholder is `{{`, one or more characters other than `}`, then `}}`.
//! Placeholders are found left to right without overlapping: at each
//! position the longest run of non-`}` characters after `{{` must be closed
//! by `}}`, otherwise the search moves on by one character.

use vstd::prelude::*;

use crate::text::{chars_of, concat, occurs_at, parse_usize, parsed_usize, seq_contains, string_from_chars};
use crate::types::Command;

verus! {

/// End of the run of non-`}` characters starting at `k`: the first index at
/// or after `k` holding `}`, or the length.
pub open spec fn run_end(s: Seq<char>, k: int) -> int
    decreases s.len() - k,
{
    if k >= s.len() || s[k] == '}' {
        k
    } else {
        run_end(s, k + 1)
    }
}

/// If a placeholder starts at `i`, the index of its first closing `}`.
pub open spec fn placeholder_at(s: Seq<char>, i: int) -> Option<int> {
    if 0 <= i && i + 1 < s.len() && s[i] == '{' && s[i + 1] == '{' {
        let j = run_end(s, i + 2);
        if j > i + 2 && j < s.len() - 1 && s[j + 1] == '}' {
            Some(j)
        } else {
            None
        }
    } else {
        None
    }
}

/// The placeholder names found from position `i` on, in order.
pub open spec fn names_from(s: Seq<char>, i: int) -> Seq<Seq<char>>
    decreases s.len() - i,
{
    if i < 0 || i >= s.len() {
        Seq::empty()
    } else {
        match placeholder_at(s, i) {
            Some(j) => if j + 2 > i { seq![s.subrange(i + 2, j)] + names_from(s, j + 2) } else { Seq::empty() },
            None => names_from(s, i + 1),
        }
    }
}

/// `names` with later repeats dropped (first occurrences, in order).
pub open spec fn first_occurrences(names: Seq<Seq<char>>) -> Seq<Seq<char>>
    decreases names.len(),
{
    if names.len() == 0 {
        Seq::empty()
    } else {
        let u = first_occurrences(names.drop_last());
        if u.contains(names.last()) {
            u
        } else {
            u.push(names.last())
        }
    }
}

/// The distinct placeholder names of a template, in order of first appearance.
pub open spec fn template_vars(s: Seq<char>) -> Seq<Seq<char>> {
    first_occurrences(names_from(s, 0))
}

proof fn lemma_first_occurrences(names: Seq<Seq<char>>)
    ensures
        forall|i: int, j: int|
            0 <= i < j < first_occurrences(names).len() ==> first_occurrences(names)[i] != first_occurrences(names)[j],
        forall|k: int| 0 <= k < names.len() ==> first_occurrences(names).contains(#[trigger] names[k]),
        forall|v: Seq<char>| first_occurrences(names).contains(v) ==> names.contains(v),
    decreases names.len(),
{
    if names.len() > 0 {
        let rest = names.drop_last();
        lemma_first_occurrences(rest);
        let u = first_occurrences(rest);
        let last = names.last();
        assert forall|k: int| 0 <= k < names.len() implies first_occurrences(names).contains(#[trigger] names[k]) by {
            if k < names.len() - 1 {
                assert(rest[k] == names[k]);
                assert(u.contains(rest[k]));
                if !u.contains(last) {
                    let q = choose|q: int| 0 <= q < u.len() && u[q] == rest[k];
                    assert(u.push(last)[q] == names[k]);
                }
            } else if !u.contains(last) {
                assert(u.push(last)[u.len() as int] == last);
            }
        }
        assert forall|v: Seq<char>| first_occurrences(names).contains(v) implies names.contains(v) by {
            if u.contains(v) {
                assert(rest.contains(v));
                let k = choose|k: int| 0 <= k < rest.len() && rest[k] == v;
                assert(names[k] == v);
            } else {
                assert(v == last);
                assert(names[names.len() - 1] == v);
            }
        }
    }
}

/// The variables of a template are listed once each, every `{{name}}` of the
/// template is among them, and nothing else is.
pub proof fn law_template_vars_distinct(s: Seq<char>)
    ensures
        forall|i: int, j: int| 0 <= i < j < template_vars(s).len() ==> template_vars(s)[i] != template_vars(s)[j],
        forall|k: int| 0 <= k < names_from(s, 0).len() ==> template_vars(s).contains(#[trigger] names_from(s, 0)[k]),
        forall|v: Seq<char>| template_vars(s).contains(v) ==> names_from(s, 0).contains(v),
{
    lemma_first_occurrences(names_from(s, 0));
}

proof fn lemma_run_end(s: Seq<char>, k: int)
    requires
        0 <= k <= s.len(),
    ensures
        k <= run_end(s, k) <= s.len(),
        run_end(s, k) < s.len() ==> s[run_end(s, k)] == '}',
        forall|m: int| k <= m < run_end(s, k) ==> s[m] != '}',
    decreases s.len() - k,
{
    if k < s.len() && s[k] != '}' {
        lemma_run_end(s, k + 1);
    }
}

/// Finds the placeholder starting at `i`, if any.
fn placeholder_exec(s: &Vec<char>, i: usize) -> (r: Option<usize>)
    requires
        i < s@.len(),
    ensures
        match r {
            Some(j) => placeholder_at(s@, i as int) == Some(j as int),
            None => placeholder_at(s@, i as int) is None,
        },
{
    if i >= s.len() - 1 || s[i] != '{' || s[i + 1] != '{' {
        return None;
    }
    let mut j: usize = i + 2;
    proof { lemma_run_end(s@, i + 2); }
    while j < s.len() && s[j] != '}'
        invariant
            i + 2 <= j <= s@.len(),
            run_end(s@, j as int) == run_end(s@, i + 2),
        decreases s.len() - j,
    {
        j = j + 1;
    }
    if j > i + 2 && j < s.len() - 1 && s[j + 1] == '}' {
        Some(j)
    } else {
        None
    }
}

fn chars_between(s: &Vec<char>, a: usize, b: usize) -> (r: Vec<char>)
    requires
        a <= b <= s@.len(),
    ensures
        r@ == s@.subrange(a as int, b as int),
{
    let mut r: Vec<char> = Vec::new();
    let mut k: usize = a;
    while k < b
        invariant
            a <= k <= b,
            b <= s@.len(),
            r@ == s@.subrange(a as int, k as int),
        decreases b - k,
    {
        r.push(s[k]);
        k = k + 1;
        proof {
            assert(s@.subrange(a as int, k as int) =~= s@.subrange(a as int, k - 1).push(s@[k - 1]));
        }
    }
    r
}

/// The distinct `{{name}}` placeholders of a template command, in order of
/// first appearance.
pub fn template_variables(command: &str) -> (r: Vec<String>)
    ensures
        r@.map_values(|v: String| v@) == template_vars(command@),
{
    let s = chars_of(command);
    let mut found: Vec<Vec<char>> = Vec::new();
    let mut i: usize = 0;
    proof {
        assert(found@.map_values(|v: Vec<char>| v@) + names_from(s@, 0) =~= names_from(s@, 0));
    }
    while i < s.len()
        invariant
            i <= s@.len(),
            s@ == command@,
            names_from(s@, 0) == found@.map_values(|v: Vec<char>| v@) + names_from(s@, i as int),
        decreases s.len() - i,
    {
        match placeholder_exec(&s, i) {
            Some(j) => {
                let name = chars_between(&s, i + 2, j);
                let ghost prev = found@.map_values(|v: Vec<char>| v@);
                proof {
                    lemma_run_end(s@, i + 2);
                    assert(names_from(s@, i as int) == seq![s@.subrange(i + 2, j as int)] + names_from(s@, j + 2));
                }
                found.push(name);
                proof {
                    assert(found@.map_values(|v: Vec<char>| v@) =~= prev.push(name@));
                    assert(prev + (seq![name@] + names_from(s@, j + 2)) =~= prev.push(name@) + names_from(s@, j + 2));
                }
                i = j + 2;
            },
            None => {
                i = i + 1;
            },
        }
    }
    proof {
        assert(names_from(s@, i as int) =~= Seq::<Seq<char>>::empty());
        assert(found@.map_values(|v: Vec<char>| v@) + Seq::<Seq<char>>::empty() =~= found@.map_values(|v: Vec<char>| v@));
    }
    let ghost names = names_from(s@, 0);
    let mut vars: Vec<Vec<char>> = Vec::new();
    let mut k: usize = 0;
    while k < found.len()
        invariant
            k <= found@.len(),
            names == found@.map_values(|v: Vec<char>| v@),
            vars@.map_values(|v: Vec<char>| v@) == first_occurrences(names.take(k as int)),
        decreases found.len() - k,
    {
        let mut seen = false;
        let mut t: usize = 0;
        while t < vars.len()
            invariant
                t <= vars@.len(),
                k < found@.len(),
                seen == exists|q: int| 0 <= q < t && (#[trigger] vars@[q])@ == found@[k as int]@,
            decreases vars.len() - t,
        {
            if crate::text::chars_eq(vars[t].as_slice(), found[k].as_slice()) {
                seen = true;
            }
            t = t + 1;
        }
        proof {
            let u = first_occurrences(names.take(k as int));
            assert(names.take(k + 1).drop_last() =~= names.take(k as int));
            assert(names.take(k + 1).last() == found@[k as int]@);
            assert(vars@.map_values(|v: Vec<char>| v@) == u);
            if seen {
                let q = choose|q: int| 0 <= q < vars@.len() && (#[trigger] vars@[q])@ == found@[k as int]@;
                assert(u[q] == found@[k as int]@);
                assert(u.contains(found@[k as int]@));
            } else {
                assert(!u.contains(found@[k as int]@)) by {
                    if u.contains(found@[k as int]@) {
                        let q = choose|q: int| 0 <= q < u.len() && u[q] == found@[k as int]@;
                        assert(vars@[q]@ == u[q]);
                    }
                }
            }
        }
        if !seen {
            let v = chars_between(&found[k], 0, found[k].len());
            proof {
                assert(found@[k as int]@.subrange(0, found@[k as int]@.len() as int) =~= found@[k as int]@);
                assert(vars@.push(v).map_values(|v: Vec<char>| v@) =~= vars@.map_values(|v: Vec<char>| v@).push(v@));
            }
            vars.push(v);
        }
        k = k + 1;
    }
    proof {
        assert(names.take(found@.len() as int) =~= names);
    }
    let mut out: Vec<String> = Vec::new();
    let mut m: usize = 0;
    while m < vars.len()
        invariant
            m <= vars@.len(),
            out@.map_values(|v: String| v@) == vars@.take(m as int).map_values(|v: Vec<char>| v@),
        decreases vars.len() - m,
    {
        let st = string_from_chars(vars[m].as_slice());
        proof {
            assert(out@.push(st).map_values(|v: String| v@) =~= out@.map_values(|v: String| v@).push(st@));
            assert(vars@.take(m + 1).map_values(|v: Vec<char>| v@) =~= vars@.take(m as int).map_values(|v: Vec<char>| v@).push(vars@[m as int]@));
        }
        out.push(st);
        m = m + 1;
    }
    proof {
        assert(vars@.take(vars@.len() as int) =~= vars@);
    }
    out
}

/// `s` with every non-overlapping occurrence of the (non-empty) pattern `p`,
/// scanning left to right, replaced by `r` (`str::replace`).
pub open spec fn replace_all(s: Seq<char>, p: Seq<char>, r: Seq<char>) -> Seq<char>
    decreases s.len(),
{
    if p.len() == 0 || s.len() == 0 {
        s
    } else if occurs_at(s, p, 0) {
        r + replace_all(s.skip(p.len() as int), p, r)
    } else {
        seq![s[0]] + replace_all(s.drop_first(), p, r)
    }
}

/// The placeholder text for a variable name: `{{name}}`.
pub open spec fn placeholder_of(name: Seq<char>) -> Seq<char> {
    "{{"@ + name + "}}"@
}

/// The template with each `(name, value)` substituted in turn: every
/// `{{name}}` replaced by `value`.
pub open spec fn filled(template: Seq<char>, values: Seq<(String, String)>) -> Seq<char>
    decreases values.len(),
{
    if values.len() == 0 {
        template
    } else {
        let prev = filled(template, values.drop_last());
        replace_all(prev, placeholder_of(values.last().0@), values.last().1@)
    }
}

fn replace_exec(s: &str, p: &str, r: &str) -> (out: String)
    ensures
        out@ == replace_all(s@, p@, r@),
{
    let sv = chars_of(s);
    let pv = chars_of(p);
    let rv = chars_of(r);
    if pv.len() == 0 {
        return string_from_chars(sv.as_slice());
    }
    let mut out: Vec<char> = Vec::new();
    let mut i: usize = 0;
    proof {
        assert(sv@.skip(0) =~= sv@);
        assert(out@ + replace_all(sv@.skip(0), pv@, rv@) =~= replace_all(sv@, pv@, rv@));
    }
    while i < sv.len()
        invariant
            i <= sv@.len(),
            pv@.len() > 0,
            out@ + replace_all(sv@.skip(i as int), pv@, rv@) == replace_all(sv@, pv@, rv@),
        decreases sv.len() - i,
    {
        let ghost rest = sv@.skip(i as int);
        if crate::text::chars_occur_at(sv.as_slice(), pv.as_slice(), i) {
            proof {
                assert(rest.subrange(0, pv@.len() as int) =~= sv@.subrange(i as int, i + pv@.len()));
                assert(occurs_at(rest, pv@, 0));
                assert(rest.skip(pv@.len() as int) =~= sv@.skip(i + pv@.len()));
            }
            let mut t: usize = 0;
            let ghost before = out@;
            while t < rv.len()
                invariant
                    t <= rv@.len(),
                    out@ == before + rv@.take(t as int),
                decreases rv.len() - t,
            {
                out.push(rv[t]);
                t = t + 1;
                proof { assert(before + rv@.take(t as int) =~= (before + rv@.take(t - 1)).push(rv@[t - 1])); }
            }
            proof {
                assert(rv@.take(rv@.len() as int) =~= rv@);
                assert(before + (rv@ + replace_all(sv@.skip(i + pv@.len()), pv@, rv@))
                    =~= out@ + replace_all(sv@.skip(i + pv@.len()), pv@, rv@));
            }
            i = i + pv.len();
        } else {
            proof {
                if i + pv@.len() <= sv@.len() {
                    assert(rest.subrange(0, pv@.len() as int) =~= sv@.subrange(i as int, i + pv@.len()));
                }
                assert(!occurs_at(rest, pv@, 0));
                assert(rest.drop_first() =~= sv@.skip(i + 1));
                assert(out@ + (seq![sv@[i as int]] + replace_all(sv@.skip(i + 1), pv@, rv@))
                    =~= out@.push(sv@[i as int]) + replace_all(sv@.skip(i + 1), pv@, rv@));
            }
            out.push(sv[i]);
            i = i + 1;
        }
    }
    proof {
        assert(sv@.skip(i as int).len() == 0);
        assert(out@ + replace_all(sv@.skip(i as int), pv@, rv@) =~= out@);
    }
    string_from_chars(out.as_slice())
}

/// The command with each variable's `{{name}}` replaced by its value, in order.
pub fn fill_template(template: &str, values: &[(String, String)]) -> (r: String)
    ensures
        r@ == filled(template@, values@),
{
    let mut cur = String::from_str(template);
    let mut k: usize = 0;
    while k < values.len()
        invariant
            k <= values@.len(),
            cur@ == filled(template@, values@.take(k as int)),
        decreases values.len() - k,
    {
        let open = concat("{{", values[k].0.as_str());
        let pattern = concat(open.as_str(), "}}");
        cur = replace_exec(cur.as_str(), pattern.as_str(), values[k].1.as_str());
        proof {
            assert(values@.take(k + 1).drop_last() =~= values@.take(k as int));
            assert(values@.take(k + 1).last() == values@[k as int]);
        }
        k = k + 1;
    }
    assert(values@.take(values@.len() as int) =~= values@);
    cur
}

/// The 0-based position typed as a 1-based number: `None` when empty, not
/// a number, or 0.
pub open spec fn position_of(text: Seq<char>) -> Option<usize> {
    if text.len() == 0 {
        None
    } else {
        match parsed_usize(text) {
            Some(p) => if p > 0 { Some((p - 1) as usize) } else { None },
            None => None,
        }
    }
}

/// Read the 1-based position field of the new-space dialog.
pub fn parse_position(text: &str) -> (r: Option<usize>)
    ensures
        r == position_of(text@),
{
    if text.unicode_len() == 0 {
        return None;
    }
    match parse_usize(text) {
        Some(p) => if p > 0 { Some(p - 1) } else { None },
        None => None,
    }
}

/// The request the new-space dialog sends: `SpawnAt` when a position was
/// given (with the icon, when one was typed), otherwise `Spawn`.
pub fn space_request(command: String, position_text: &str, icon_text: String) -> (c: Command)
    ensures
        match position_of(position_text@) {
            Some(idx) => c == Command::SpawnAt(
                idx,
                command,
                if icon_text@.len() == 0 { None } else { Some(icon_text) },
            ),
            None => c == Command::Spawn(command),
        },
{
    let icon = if icon_text.as_str().unicode_len() == 0 { None } else { Some(icon_text) };
    match parse_position(position_text) {
        Some(idx) => Command::SpawnAt(idx, command, icon),
        None => Command::Spawn(command),
    }
}

/// No `{` or `}` in `s`.
pub open spec fn brace_free(s: Seq<char>) -> bool {
    forall|i: int| 0 <= i < s.len() ==> s[i] != '{' && s[i] != '}'
}

/// Text without `{` is left alone by replacing a pattern that starts with `{`.
proof fn lemma_replace_all_brace_free(b: Seq<char>, p: Seq<char>, r: Seq<char>)
    requires
        brace_free(b),
        p.len() > 0,
        p[0] == '{',
    ensures
        replace_all(b, p, r) == b,
    decreases b.len(),
{
    if b.len() > 0 {
        assert(!occurs_at(b, p, 0)) by {
            if occurs_at(b, p, 0) {
                assert(b.subrange(0, p.len() as int)[0] == b[0]);
            }
        }
        let t = b.drop_first();
        assert(brace_free(t)) by {
            assert forall|i: int| 0 <= i < t.len() implies t[i] != '{' && t[i] != '}' by {
                assert(t[i] == b[i + 1]);
            }
        }
        lemma_replace_all_brace_free(t, p, r);
        assert(seq![b[0]] + t =~= b);
    }
}

/// `a + p + b` with `p` starting with `{` and `a`, `b` free of `{`: its one
/// occurrence of `p` is replaced by `r`.
proof fn lemma_replace_all_single(a: Seq<char>, p: Seq<char>, b: Seq<char>, r: Seq<char>)
    requires
        brace_free(a),
        brace_free(b),
        p.len() > 0,
        p[0] == '{',
    ensures
        replace_all(a + p + b, p, r) == a + r + b,
    decreases a.len(),
{
    let x = a + p + b;
    if a.len() == 0 {
        assert(x =~= p + b);
        assert(x.subrange(0, p.len() as int) =~= p);
        assert(x.skip(p.len() as int) =~= b);
        lemma_replace_all_brace_free(b, p, r);
        assert(a + r + b =~= r + b);
    } else {
        assert(!occurs_at(x, p, 0)) by {
            if occurs_at(x, p, 0) {
                assert(x.subrange(0, p.len() as int)[0] == x[0]);
                assert(x[0] == a[0]);
            }
        }
        let t = a.drop_first();
        assert(brace_free(t)) by {
            assert forall|i: int| 0 <= i < t.len() implies t[i] != '{' && t[i] != '}' by {
                assert(t[i] == a[i + 1]);
            }
        }
        lemma_replace_all_single(t, p, b, r);
        assert(x.drop_first() =~= t + p + b);
        assert(seq![a[0]] + (t + r + b) =~= a + r + b);
    }
}

/// Filling a template whose only braces are one `{{name}}` puts the value in
/// its place and keeps the text around it, whatever the value (an empty one
/// included): `a{{name}}b` filled with `(name, v)` is `a v b`.
pub proof fn law_fill_replaces_placeholder(a: Seq<char>, b: Seq<char>, name: String, value: String)
    requires
        brace_free(a),
        brace_free(b),
    ensures
        filled(a + placeholder_of(name@) + b, seq![(name, value)]) == a + value@ + b,
{
    reveal_strlit("{{");
    reveal_strlit("}}");
    let p = placeholder_of(name@);
    assert(p[0] == '{');
    let values = seq![(name, value)];
    assert(values.drop_last() =~= Seq::<(String, String)>::empty());
    assert(filled(a + p + b, values.drop_last()) == a + p + b);
    assert(values.last() == (name, value));
    lemma_replace_all_single(a, p, b, value@);
    assert(filled(a + p + b, values) == replace_all(a + p + b, p, value@));
}

/// Filling a variable that the template does not mention leaves it as it is.
pub proof fn law_fill_unmentioned_keeps_text(t: Seq<char>, name: String, value: String)
    requires
        !seq_contains(t, placeholder_of(name@)),
    ensures
        filled(t, seq![(name, value)]) == t,
{
    reveal_strlit("{{");
    let values = seq![(name, value)];
    assert(values.drop_last() =~= Seq::<(String, String)>::empty());
    assert(filled(t, values.drop_last()) == t);
    assert(values.last() == (name, value));
    lemma_replace_all_absent(t, placeholder_of(name@), value@);
    assert(filled(t, values) == replace_all(t, placeholder_of(name@), value@));
}

proof fn lemma_replace_all_absent(s: Seq<char>, p: Seq<char>, r: Seq<char>)
    requires
        !seq_contains(s, p),
    ensures
        replace_all(s, p, r) == s,
    decreases s.len(),
{
    if p.len() > 0 && s.len() > 0 {
        assert(!occurs_at(s, p, 0));
        let t = s.drop_first();
        assert(!seq_contains(t, p)) by {
            if seq_contains(t, p) {
                let i = choose|i: int| occurs_at(t, p, i);
                assert(s.subrange(i + 1, i + 1 + p.len()) =~= t.subrange(i, i + p.len()));
                assert(occurs_at(s, p, i + 1));
            }
        }
        lemma_replace_all_absent(t, p, r);
        assert(seq![s[0]] + t =~= s);
    }
}

} // verus!
