//! Prefixes, local names, blank-node labels, variables, and IRI references.
//!
//! The segment grammar shared by these rules is: a start character, an
//! optional period, then groups of continuation characters separated by
//! single periods.  A period is consumed only when a further group follows
//! it, except for the one optional period right after the start character,
//! which is always kept.
use vstd::prelude::*;

use crate::ast::{Iri, PrefixedName, ResolvableName, SpName, Variable};
use crate::chars::{
    is_digit, is_hex, is_local_esc, is_pn_chars, is_pn_chars_base, is_pn_chars_u,
    is_iri_forbidden, spec_is_digit, spec_is_hex, spec_is_local_esc, spec_is_pn_chars,
    spec_is_pn_chars_base, spec_is_pn_chars_u, spec_is_iri_forbidden,
};
use crate::scan::{copy_range, skip_ws, ws_end};
use crate::trust::{chars_to_string, iri_text_ok, iri_text_valid};
use vstd::string::StringExecFns;

verus! {

broadcast use vstd::seq::group_seq_axioms;

// ---------------------------------------------------------------------------
// Runs of name-continuation characters.
// ---------------------------------------------------------------------------

/// The end of the run of name-continuation characters that starts at `i`.
pub open spec fn pn_run_end(s: Seq<char>, i: int) -> int
    decreases s.len() - i,
{
    if 0 <= i < s.len() && spec_is_pn_chars(s[i]) {
        pn_run_end(s, i + 1)
    } else {
        i
    }
}

pub proof fn lemma_pn_run_end_bounds(s: Seq<char>, i: int)
    requires
        0 <= i <= s.len(),
    ensures
        i <= pn_run_end(s, i) <= s.len(),
    decreases s.len() - i,
{
    if i < s.len() && spec_is_pn_chars(s[i]) {
        lemma_pn_run_end_bounds(s, i + 1);
    }
}

/// Skips the run of name-continuation characters that starts at `i`.
pub fn pn_run(s: &Vec<char>, i: usize) -> (j: usize)
    requires
        i <= s@.len(),
    ensures
        i <= j <= s@.len(),
        j as int == pn_run_end(s@, i as int),
        i < s@.len() && spec_is_pn_chars(s@[i as int]) ==> j > i,
{
    let mut j = i;
    while j < s.len() && is_pn_chars(s[j])
        invariant
            i <= j <= s@.len(),
            pn_run_end(s@, i as int) == pn_run_end(s@, j as int),
        decreases s@.len() - j,
    {
        j = j + 1;
    }
    proof {
        if i < s@.len() && spec_is_pn_chars(s@[i as int]) {
            lemma_pn_run_end_bounds(s@, i + 1);
        }
    }
    j
}

// ---------------------------------------------------------------------------
// Period-separated groups of name-continuation characters.
// ---------------------------------------------------------------------------

/// One group: at least one name-continuation character; its end.
pub open spec fn sp_name_group(s: Seq<char>, i: int) -> Option<int> {
    if 0 <= i < s.len() && spec_is_pn_chars(s[i]) {
        Some(pn_run_end(s, i))
    } else {
        None
    }
}

/// Further `.`-separated groups after a group that ended at `i`: the text
/// they contribute (each with its leading period) and the end position.
/// A period not followed by a group is left unconsumed.
pub open spec fn sp_name_segs_more(s: Seq<char>, i: int) -> (Seq<char>, int)
    decreases s.len() - i,
{
    if 0 <= i < s.len() && s[i] == '.' {
        match sp_name_group(s, i + 1) {
            Some(e) => if i + 1 < e && e <= s.len() {
                let (t2, e2) = sp_name_segs_more(s, e);
                (seq!['.'] + s.subrange(i + 1, e) + t2, e2)
            } else {
                (Seq::empty(), i)
            },
            None => (Seq::empty(), i),
        }
    } else {
        (Seq::empty(), i)
    }
}

/// Zero or more `.`-separated groups starting at `i`: their joined text and
/// the end position.
pub open spec fn sp_name_segs(s: Seq<char>, i: int) -> (Seq<char>, int) {
    match sp_name_group(s, i) {
        None => (Seq::empty(), i),
        Some(e) => if i < e && e <= s.len() {
            let (t2, e2) = sp_name_segs_more(s, e);
            (s.subrange(i, e) + t2, e2)
        } else {
            (Seq::empty(), i)
        },
    }
}

pub proof fn lemma_name_segs_more_bounds(s: Seq<char>, i: int)
    requires
        0 <= i <= s.len(),
    ensures
        i <= sp_name_segs_more(s, i).1 <= s.len(),
    decreases s.len() - i,
{
    if i < s.len() && s[i] == '.' {
        if let Some(e) = sp_name_group(s, i + 1) {
            if i + 1 < e && e <= s.len() {
                lemma_name_segs_more_bounds(s, e);
            }
        }
    }
}

pub proof fn lemma_name_segs_bounds(s: Seq<char>, i: int)
    requires
        0 <= i <= s.len(),
    ensures
        i <= sp_name_segs(s, i).1 <= s.len(),
{
    if let Some(e) = sp_name_group(s, i) {
        lemma_pn_run_end_bounds(s, i);
        if i < e && e <= s.len() {
            lemma_name_segs_more_bounds(s, e);
        }
    }
}

/// Collects zero or more `.`-separated groups starting at `i`.
pub fn name_segs(s: &Vec<char>, i: usize) -> (r: (Vec<char>, usize))
    requires
        i <= s@.len(),
    ensures
        r.0@ == sp_name_segs(s@, i as int).0,
        r.1 as int == sp_name_segs(s@, i as int).1,
        i <= r.1 <= s@.len(),
{
    if !(i < s.len() && is_pn_chars(s[i])) {
        return (Vec::new(), i);
    }
    let e0 = pn_run(s, i);
    let mut out = copy_range(s, i, e0);
    let mut j = e0;
    while j < s.len() && s[j] == '.' && j + 1 < s.len() && is_pn_chars(s[j + 1])
        invariant
            i <= j <= s@.len(),
            sp_name_segs(s@, i as int).0 == out@ + sp_name_segs_more(s@, j as int).0,
            sp_name_segs(s@, i as int).1 == sp_name_segs_more(s@, j as int).1,
        decreases s@.len() - j,
    {
        let ghost j0 = j as int;
        let ghost out0 = out@;
        let e = pn_run(s, j + 1);
        out.push('.');
        let mut seg = copy_range(s, j + 1, e);
        out.append(&mut seg);
        j = e;
        proof {
            assert(out@ =~= out0 + (seq!['.'] + s@.subrange(j0 + 1, e as int)));
            assert(seq!['.'] + s@.subrange(j0 + 1, e as int) + sp_name_segs_more(s@, e as int).0
                =~= (seq!['.'] + s@.subrange(j0 + 1, e as int)) + sp_name_segs_more(
                s@,
                e as int,
            ).0);
            assert(out0 + ((seq!['.'] + s@.subrange(j0 + 1, e as int)) + sp_name_segs_more(
                s@,
                e as int,
            ).0) =~= out@ + sp_name_segs_more(s@, e as int).0);
        }
    }
    proof {
        assert(sp_name_segs_more(s@, j as int).0 =~= Seq::<char>::empty());
        assert(out@ + Seq::<char>::empty() =~= out@);
    }
    (out, j)
}

// ---------------------------------------------------------------------------
// Prefix tokens.
// ---------------------------------------------------------------------------

/// A namespace-prefix token: a letter, an optional period, then
/// `.`-separated groups of continuation characters.
pub open spec fn sp_pn_prefix(s: Seq<char>, i: int) -> Option<(Seq<char>, int)> {
    if 0 <= i < s.len() && spec_is_pn_chars_base(s[i]) {
        if i + 1 < s.len() && s[i + 1] == '.' {
            let (t, e) = sp_name_segs(s, i + 2);
            Some((seq![s[i], '.'] + t, e))
        } else {
            let (t, e) = sp_name_segs(s, i + 1);
            Some((seq![s[i]] + t, e))
        }
    } else {
        None
    }
}

/// Parses a namespace-prefix token.
pub fn pn_prefix(s: &Vec<char>, i: usize) -> (r: Option<(String, usize)>)
    requires
        i <= s@.len(),
    ensures
        match r {
            Some((t, j)) => i < j <= s@.len() && sp_pn_prefix(s@, i as int) == Some((
                t@,
                j as int,
            )),
            None => sp_pn_prefix(s@, i as int) is None,
        },
{
    if !(i < s.len() && is_pn_chars_base(s[i])) {
        return None;
    }
    let mut out: Vec<char> = Vec::new();
    out.push(s[i]);
    if i + 1 < s.len() && s[i + 1] == '.' {
        out.push('.');
        let (mut t, e) = name_segs(s, i + 2);
        out.append(&mut t);
        proof {
            assert(out@ =~= seq![s@[i as int], '.'] + sp_name_segs(s@, i + 2).0);
        }
        Some((chars_to_string(out), e))
    } else {
        let (mut t, e) = name_segs(s, i + 1);
        out.append(&mut t);
        proof {
            assert(out@ =~= seq![s@[i as int]] + sp_name_segs(s@, i + 1).0);
        }
        Some((chars_to_string(out), e))
    }
}

/// A namespace token: an optional prefix followed by `:`; yields the prefix
/// text, which is empty when absent.
pub open spec fn sp_pname_ns(s: Seq<char>, i: int) -> Option<(Seq<char>, int)> {
    match sp_pn_prefix(s, i) {
        Some((t, j)) => if j < s.len() && s[j] == ':' {
            Some((t, j + 1))
        } else {
            None
        },
        None => if 0 <= i < s.len() && s[i] == ':' {
            Some((Seq::empty(), i + 1))
        } else {
            None
        },
    }
}

// ---------------------------------------------------------------------------
// Local names: continuation items may also be colons, percent escapes
// (kept as their two hex digits), and backslash escapes (kept as the
// escaped character).
// ---------------------------------------------------------------------------

/// The first item of a local name.
pub open spec fn sp_local_first(s: Seq<char>, i: int) -> Option<(Seq<char>, int)> {
    if 0 <= i < s.len() && (spec_is_pn_chars_u(s[i]) || s[i] == ':' || spec_is_digit(s[i])) {
        Some((seq![s[i]], i + 1))
    } else if 0 <= i && i + 2 < s.len() && s[i] == '%' && spec_is_hex(s[i + 1]) && spec_is_hex(
        s[i + 2],
    ) {
        Some((seq![s[i + 1], s[i + 2]], i + 3))
    } else if 0 <= i && i + 1 < s.len() && s[i] == '\\' && spec_is_local_esc(s[i + 1]) {
        Some((seq![s[i + 1]], i + 2))
    } else {
        None
    }
}

/// A continuation item of a local name.
pub open spec fn sp_local_item(s: Seq<char>, i: int) -> Option<(Seq<char>, int)> {
    if 0 <= i < s.len() && (spec_is_pn_chars(s[i]) || s[i] == ':') {
        Some((seq![s[i]], i + 1))
    } else if 0 <= i && i + 2 < s.len() && s[i] == '%' && spec_is_hex(s[i + 1]) && spec_is_hex(
        s[i + 2],
    ) {
        Some((seq![s[i + 1], s[i + 2]], i + 3))
    } else if 0 <= i && i + 1 < s.len() && s[i] == '\\' && spec_is_local_esc(s[i + 1]) {
        Some((seq![s[i + 1]], i + 2))
    } else {
        None
    }
}

/// One group: at least one continuation item; its text and end.
pub open spec fn sp_local_group(s: Seq<char>, i: int) -> Option<(Seq<char>, int)>
    decreases s.len() - i,
{
    match sp_local_item(s, i) {
        None => None,
        Some((t, j)) => if i < j && j <= s.len() {
            match sp_local_group(s, j) {
                None => Some((t, j)),
                Some((t2, k)) => Some((t + t2, k)),
            }
        } else {
            None
        },
    }
}

/// Further `.`-separated groups of local-name items after position `i`.
pub open spec fn sp_local_segs_more(s: Seq<char>, i: int) -> (Seq<char>, int)
    decreases s.len() - i,
{
    if 0 <= i < s.len() && s[i] == '.' {
        match sp_local_group(s, i + 1) {
            Some((t, e)) => if i + 1 < e && e <= s.len() {
                let (t2, e2) = sp_local_segs_more(s, e);
                (seq!['.'] + t + t2, e2)
            } else {
                (Seq::empty(), i)
            },
            None => (Seq::empty(), i),
        }
    } else {
        (Seq::empty(), i)
    }
}

/// Zero or more `.`-separated groups of local-name items starting at `i`.
pub open spec fn sp_local_segs(s: Seq<char>, i: int) -> (Seq<char>, int) {
    match sp_local_group(s, i) {
        None => (Seq::empty(), i),
        Some((t, e)) => if i < e && e <= s.len() {
            let (t2, e2) = sp_local_segs_more(s, e);
            (t + t2, e2)
        } else {
            (Seq::empty(), i)
        },
    }
}

/// Parses one continuation item of a local name.
pub fn local_item(s: &Vec<char>, i: usize) -> (r: Option<(Vec<char>, usize)>)
    requires
        i <= s@.len(),
    ensures
        match r {
            Some((t, j)) => i < j <= s@.len() && sp_local_item(s@, i as int) == Some((
                t@,
                j as int,
            )),
            None => sp_local_item(s@, i as int) is None,
        },
{
    if i < s.len() && (is_pn_chars(s[i]) || s[i] == ':') {
        let mut v: Vec<char> = Vec::new();
        v.push(s[i]);
        proof {
            assert(v@ =~= seq![s@[i as int]]);
        }
        Some((v, i + 1))
    } else if i < s.len() && s.len() - i > 2 && s[i] == '%' && is_hex(s[i + 1]) && is_hex(
        s[i + 2],
    ) {
        let mut v: Vec<char> = Vec::new();
        v.push(s[i + 1]);
        v.push(s[i + 2]);
        proof {
            assert(v@ =~= seq![s@[i as int + 1], s@[i as int + 2]]);
        }
        Some((v, i + 3))
    } else if i < s.len() && s.len() - i > 1 && s[i] == '\\' && is_local_esc(s[i + 1]) {
        let mut v: Vec<char> = Vec::new();
        v.push(s[i + 1]);
        proof {
            assert(v@ =~= seq![s@[i as int + 1]]);
        }
        Some((v, i + 2))
    } else {
        None
    }
}

/// Parses one group of continuation items.
pub fn local_group(s: &Vec<char>, i: usize) -> (r: Option<(Vec<char>, usize)>)
    requires
        i <= s@.len(),
    ensures
        match r {
            Some((t, j)) => i < j <= s@.len() && sp_local_group(s@, i as int) == Some((
                t@,
                j as int,
            )),
            None => sp_local_group(s@, i as int) is None,
        },
    decreases s@.len() - i,
{
    match local_item(s, i) {
        None => None,
        Some((mut t, j)) => match local_group(s, j) {
            None => Some((t, j)),
            Some((mut t2, k)) => {
                t.append(&mut t2);
                Some((t, k))
            },
        },
    }
}

/// Parses the `.`-separated groups that may follow a group.
pub fn local_segs_more(s: &Vec<char>, i: usize) -> (r: (Vec<char>, usize))
    requires
        i <= s@.len(),
    ensures
        r.0@ == sp_local_segs_more(s@, i as int).0,
        r.1 as int == sp_local_segs_more(s@, i as int).1,
        i <= r.1 <= s@.len(),
    decreases s@.len() - i,
{
    if i < s.len() && s[i] == '.' {
        match local_group(s, i + 1) {
            Some((t, e)) => {
                let (mut t2, e2) = local_segs_more(s, e);
                let mut out: Vec<char> = Vec::new();
                out.push('.');
                let mut tt = t;
                out.append(&mut tt);
                out.append(&mut t2);
                proof {
                    assert(out@ =~= seq!['.'] + sp_local_group(s@, i as int + 1)->Some_0.0
                        + sp_local_segs_more(s@, e as int).0);
                }
                (out, e2)
            },
            None => (Vec::new(), i),
        }
    } else {
        (Vec::new(), i)
    }
}

/// Parses zero or more `.`-separated groups of local-name items.
pub fn local_segs(s: &Vec<char>, i: usize) -> (r: (Vec<char>, usize))
    requires
        i <= s@.len(),
    ensures
        r.0@ == sp_local_segs(s@, i as int).0,
        r.1 as int == sp_local_segs(s@, i as int).1,
        i <= r.1 <= s@.len(),
{
    match local_group(s, i) {
        None => (Vec::new(), i),
        Some((mut t, e)) => {
            let (mut t2, e2) = local_segs_more(s, e);
            t.append(&mut t2);
            (t, e2)
        },
    }
}

/// A local name: a first item, an optional period, then `.`-separated
/// groups of continuation items.
pub open spec fn sp_pn_local(s: Seq<char>, i: int) -> Option<(Seq<char>, int)> {
    match sp_local_first(s, i) {
        None => None,
        Some((t0, j)) => if j < s.len() && s[j] == '.' {
            let (t, e) = sp_local_segs(s, j + 1);
            Some((t0 + seq!['.'] + t, e))
        } else {
            let (t, e) = sp_local_segs(s, j);
            Some((t0 + t, e))
        },
    }
}

/// Parses a local name.
pub fn pn_local(s: &Vec<char>, i: usize) -> (r: Option<(String, usize)>)
    requires
        i <= s@.len(),
    ensures
        match r {
            Some((t, j)) => i < j <= s@.len() && sp_pn_local(s@, i as int) == Some((
                t@,
                j as int,
            )),
            None => sp_pn_local(s@, i as int) is None,
        },
{
    let first = if i < s.len() && (is_pn_chars_u(s[i]) || s[i] == ':' || is_digit(s[i])) {
        let mut v: Vec<char> = Vec::new();
        v.push(s[i]);
        proof {
            assert(v@ =~= seq![s@[i as int]]);
        }
        Some((v, i + 1))
    } else if i < s.len() && s.len() - i > 2 && s[i] == '%' && is_hex(s[i + 1]) && is_hex(
        s[i + 2],
    ) {
        let mut v: Vec<char> = Vec::new();
        v.push(s[i + 1]);
        v.push(s[i + 2]);
        proof {
            assert(v@ =~= seq![s@[i as int + 1], s@[i as int + 2]]);
        }
        Some((v, i + 3))
    } else if i < s.len() && s.len() - i > 1 && s[i] == '\\' && is_local_esc(s[i + 1]) {
        let mut v: Vec<char> = Vec::new();
        v.push(s[i + 1]);
        proof {
            assert(v@ =~= seq![s@[i as int + 1]]);
        }
        Some((v, i + 2))
    } else {
        None
    };
    proof {
        match first {
            Some((ref t, j)) => {
                assert(sp_local_first(s@, i as int) == Some((t@, j as int)));
            },
            None => {
                assert(sp_local_first(s@, i as int) is None);
            },
        }
    }
    match first {
        None => None,
        Some((mut out, j)) => {
            if j < s.len() && s[j] == '.' {
                out.push('.');
                let (mut t, e) = local_segs(s, j + 1);
                let ghost t0 = sp_local_first(s@, i as int)->Some_0.0;
                out.append(&mut t);
                proof {
                    assert(out@ =~= t0 + seq!['.'] + sp_local_segs(s@, j as int + 1).0);
                }
                Some((chars_to_string(out), e))
            } else {
                let (mut t, e) = local_segs(s, j);
                out.append(&mut t);
                Some((chars_to_string(out), e))
            }
        },
    }
}

// ---------------------------------------------------------------------------
// Prefixed names.
// ---------------------------------------------------------------------------

/// A prefixed name: a namespace token with a local name, or a namespace
/// token alone, whose local part is then empty.
pub open spec fn sp_prefixed_name(s: Seq<char>, i: int) -> Option<((Seq<char>, Seq<char>), int)> {
    match sp_pname_ns(s, i) {
        None => None,
        Some((p, j)) => match sp_pn_local(s, j) {
            Some((l, k)) => Some(((p, l), k)),
            None => Some(((p, Seq::empty()), j)),
        },
    }
}

/// Parses a prefixed name.
pub fn prefixed_name(s: &Vec<char>, i: usize) -> (r: Option<(PrefixedName, usize)>)
    requires
        i <= s@.len(),
    ensures
        match r {
            Some((pn, j)) => i < j <= s@.len() && sp_prefixed_name(s@, i as int) == Some((
                (pn.prefix@, pn.name@),
                j as int,
            )),
            None => sp_prefixed_name(s@, i as int) is None,
        },
{
    match pname_ns(s, i) {
        None => None,
        Some((p, j)) => match pn_local(s, j) {
            Some((l, k)) => Some((PrefixedName { prefix: p, name: l }, k)),
            None => Some((PrefixedName { prefix: p, name: String::new() }, j)),
        },
    }
}

// ---------------------------------------------------------------------------
// Blank-node labels and variables.
// ---------------------------------------------------------------------------

/// The label shape shared by variables: an underscore-extended start
/// character, an optional period, then `.`-separated groups.
pub open spec fn sp_b_node_label(s: Seq<char>, i: int) -> Option<(Seq<char>, int)> {
    if 0 <= i < s.len() && spec_is_pn_chars_u(s[i]) {
        if i + 1 < s.len() && s[i + 1] == '.' {
            let (t, e) = sp_name_segs(s, i + 2);
            Some((seq![s[i], '.'] + t, e))
        } else {
            let (t, e) = sp_name_segs(s, i + 1);
            Some((seq![s[i]] + t, e))
        }
    } else {
        None
    }
}

/// Parses a variable-style label.
pub fn b_node_label(s: &Vec<char>, i: usize) -> (r: Option<(String, usize)>)
    requires
        i <= s@.len(),
    ensures
        match r {
            Some((t, j)) => i < j <= s@.len() && sp_b_node_label(s@, i as int) == Some((
                t@,
                j as int,
            )),
            None => sp_b_node_label(s@, i as int) is None,
        },
{
    if !(i < s.len() && is_pn_chars_u(s[i])) {
        return None;
    }
    let mut out: Vec<char> = Vec::new();
    out.push(s[i]);
    if i + 1 < s.len() && s[i + 1] == '.' {
        out.push('.');
        let (mut t, e) = name_segs(s, i + 2);
        out.append(&mut t);
        proof {
            assert(out@ =~= seq![s@[i as int], '.'] + sp_name_segs(s@, i + 2).0);
        }
        Some((chars_to_string(out), e))
    } else {
        let (mut t, e) = name_segs(s, i + 1);
        out.append(&mut t);
        proof {
            assert(out@ =~= seq![s@[i as int]] + sp_name_segs(s@, i + 1).0);
        }
        Some((chars_to_string(out), e))
    }
}

/// A blank-node label: `_:`, a start character that may also be a digit,
/// an optional period, then `.`-separated groups.
pub open spec fn sp_blank_node_label(s: Seq<char>, i: int) -> Option<(Seq<char>, int)> {
    if 0 <= i && i + 2 < s.len() && s[i] == '_' && s[i + 1] == ':' && (spec_is_pn_chars_u(
        s[i + 2],
    ) || spec_is_digit(s[i + 2])) {
        if i + 3 < s.len() && s[i + 3] == '.' {
            let (t, e) = sp_name_segs(s, i + 4);
            Some((seq![s[i + 2], '.'] + t, e))
        } else {
            let (t, e) = sp_name_segs(s, i + 3);
            Some((seq![s[i + 2]] + t, e))
        }
    } else {
        None
    }
}

/// Parses a blank-node label, `_:` included.
pub fn blank_node_label(s: &Vec<char>, i: usize) -> (r: Option<(String, usize)>)
    requires
        i <= s@.len(),
    ensures
        match r {
            Some((t, j)) => i < j <= s@.len() && sp_blank_node_label(s@, i as int) == Some((
                t@,
                j as int,
            )),
            None => sp_blank_node_label(s@, i as int) is None,
        },
{
    if !(i < s.len() && s.len() - i > 2 && s[i] == '_' && s[i + 1] == ':' && (is_pn_chars_u(
        s[i + 2],
    ) || is_digit(s[i + 2]))) {
        return None;
    }
    let mut out: Vec<char> = Vec::new();
    out.push(s[i + 2]);
    if s.len() - i > 3 && s[i + 3] == '.' {
        out.push('.');
        let (mut t, e) = name_segs(s, i + 4);
        out.append(&mut t);
        proof {
            assert(out@ =~= seq![s@[i as int + 2], '.'] + sp_name_segs(s@, i + 4).0);
        }
        Some((chars_to_string(out), e))
    } else {
        let (mut t, e) = name_segs(s, i + 3);
        out.append(&mut t);
        proof {
            assert(out@ =~= seq![s@[i as int + 2]] + sp_name_segs(s@, i + 3).0);
        }
        Some((chars_to_string(out), e))
    }
}

/// A variable: surrounding whitespace, `?`, and a label.
pub open spec fn sp_variable(s: Seq<char>, i: int) -> Option<(Seq<char>, int)> {
    let w = ws_end(s, i);
    if 0 <= w < s.len() && s[w] == '?' {
        match sp_b_node_label(s, w + 1) {
            Some((t, j)) => Some((t, ws_end(s, j))),
            None => None,
        }
    } else {
        None
    }
}

/// Parses a variable.
pub fn variable(s: &Vec<char>, i: usize) -> (r: Option<(Variable, usize)>)
    requires
        i <= s@.len(),
    ensures
        match r {
            Some((v, j)) => i < j <= s@.len() && sp_variable(s@, i as int) == Some((
                v.name@,
                j as int,
            )),
            None => sp_variable(s@, i as int) is None,
        },
{
    let w = skip_ws(s, i);
    if w < s.len() && s[w] == '?' {
        match b_node_label(s, w + 1) {
            Some((t, j)) => {
                let j2 = skip_ws(s, j);
                Some((Variable { name: t }, j2))
            },
            None => None,
        }
    } else {
        None
    }
}

// ---------------------------------------------------------------------------
// IRI references and resolvable names.
// ---------------------------------------------------------------------------

/// The end of the run of IRI-permitted characters that starts at `i`.
pub open spec fn iri_run_end(s: Seq<char>, i: int) -> int
    decreases s.len() - i,
{
    if 0 <= i < s.len() && !spec_is_iri_forbidden(s[i]) {
        iri_run_end(s, i + 1)
    } else {
        i
    }
}

pub proof fn lemma_iri_run_end_bounds(s: Seq<char>, i: int)
    requires
        0 <= i <= s.len(),
    ensures
        i <= iri_run_end(s, i) <= s.len(),
    decreases s.len() - i,
{
    if i < s.len() && !spec_is_iri_forbidden(s[i]) {
        lemma_iri_run_end_bounds(s, i + 1);
    }
}

/// A bracketed IRI reference: `<`, a run of permitted characters, `>`,
/// whose text must also be a valid absolute IRI.
pub open spec fn sp_iri_ref(s: Seq<char>, i: int) -> Option<(Seq<char>, int)> {
    if 0 <= i < s.len() && s[i] == '<' {
        let e = iri_run_end(s, i + 1);
        if e < s.len() && s[e] == '>' && iri_text_ok(s.subrange(i + 1, e)) {
            Some((s.subrange(i + 1, e), e + 1))
        } else {
            None
        }
    } else {
        None
    }
}

/// Parses a bracketed IRI reference; text that is not a valid absolute IRI
/// is a parse error, not a panic.
pub fn iri_ref(s: &Vec<char>, i: usize) -> (r: Option<(Iri, usize)>)
    requires
        i <= s@.len(),
    ensures
        match r {
            Some((v, j)) => i < j <= s@.len() && sp_iri_ref(s@, i as int) == Some((
                v.text@,
                j as int,
            )),
            None => sp_iri_ref(s@, i as int) is None,
        },
{
    if !(i < s.len() && s[i] == '<') {
        return None;
    }
    let mut e = i + 1;
    while e < s.len() && !is_iri_forbidden(s[e])
        invariant
            i + 1 <= e <= s@.len(),
            iri_run_end(s@, i as int + 1) == iri_run_end(s@, e as int),
        decreases s@.len() - e,
    {
        e = e + 1;
    }
    if !(e < s.len() && s[e] == '>') {
        return None;
    }
    let body = copy_range(s, i + 1, e);
    let text = chars_to_string(body);
    if iri_text_valid(text.as_str()) {
        Some((Iri { text }, e + 1))
    } else {
        None
    }
}

/// The IRI denoted by the keyword `a`: the RDF type predicate.
pub open spec fn rdf_type_text() -> Seq<char> {
    "http://www.w3.org/1999/02/22-rdf-syntax-ns#type"@
}

/// A resolvable name: an IRI reference, a prefixed name, or the keyword
/// `a`, which denotes the RDF type predicate.
pub open spec fn sp_iri(s: Seq<char>, i: int) -> Option<(SpName, int)> {
    match sp_iri_ref(s, i) {
        Some((t, j)) => Some((SpName::Named(t), j)),
        None => match sp_prefixed_name(s, i) {
            Some(((p, l), j)) => Some((SpName::Prefixed { prefix: p, name: l }, j)),
            None => if 0 <= i < s.len() && s[i] == 'a' {
                Some((SpName::Named(rdf_type_text()), i + 1))
            } else {
                None
            },
        },
    }
}

/// Parses a resolvable name.
pub fn iri(s: &Vec<char>, i: usize) -> (r: Option<(ResolvableName, usize)>)
    requires
        i <= s@.len(),
    ensures
        match r {
            Some((n, j)) => i < j <= s@.len() && sp_iri(s@, i as int) == Some((
                crate::ast::name_view(n),
                j as int,
            )),
            None => sp_iri(s@, i as int) is None,
        },
{
    match iri_ref(s, i) {
        Some((v, j)) => Some((ResolvableName::NamedNode(v), j)),
        None => match prefixed_name(s, i) {
            Some((pn, j)) => Some((ResolvableName::PrefixedName(pn), j)),
            None => {
                if i < s.len() && s[i] == 'a' {
                    let t = String::from_str("http://www.w3.org/1999/02/22-rdf-syntax-ns#type");
                    Some((ResolvableName::NamedNode(Iri { text: t }), i + 1))
                } else {
                    None
                }
            },
        },
    }
}

/// Parses a namespace token.
pub fn pname_ns(s: &Vec<char>, i: usize) -> (r: Option<(String, usize)>)
    requires
        i <= s@.len(),
    ensures
        match r {
            Some((t, j)) => i < j <= s@.len() && sp_pname_ns(s@, i as int) == Some((
                t@,
                j as int,
            )),
            None => sp_pname_ns(s@, i as int) is None,
        },
{
    match pn_prefix(s, i) {
        Some((t, j)) => {
            if j < s.len() && s[j] == ':' {
                Some((t, j + 1))
            } else {
                None
            }
        },
        None => {
            if i < s.len() && s[i] == ':' {
                let out: Vec<char> = Vec::new();
                Some((chars_to_string(out), i + 1))
            } else {
                None
            }
        },
    }
}

} // verus!
