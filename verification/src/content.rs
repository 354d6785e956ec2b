//! Splitting a prompt file into its system and user parts.
//!
//! A marker line introduces each part.  Text before the first marker, or
//! the whole text when no marker occurs, counts as the system part; each
//! extracted part is trimmed of surrounding whitespace.
use vstd::prelude::*;

use crate::chars::{is_white, spec_is_white};
use crate::scan::{chars_of, copy_range, has_tag, sp_tag};
use crate::trust::chars_to_string;

verus! {

broadcast use vstd::seq::group_seq_axioms;

/// The marker that introduces the system part.
pub open spec fn sys_pat() -> Seq<char> {
    "[//]: # (SYSTEM)\n"@
}

/// The marker that introduces the user part.
pub open spec fn user_pat() -> Seq<char> {
    "[//]: # (USER)\n"@
}

/// The first position at or after `k` where `pat` occurs in `s`.
pub open spec fn sp_find_from(s: Seq<char>, pat: Seq<char>, k: int) -> Option<int>
    decreases s.len() - k,
{
    if 0 <= k && k + pat.len() <= s.len() {
        if sp_tag(s, k, pat) {
            Some(k)
        } else {
            sp_find_from(s, pat, k + 1)
        }
    } else {
        None
    }
}

/// The first non-whitespace position at or after `a`, capped at `b`.
pub open spec fn trim_from(s: Seq<char>, a: int, b: int) -> int
    decreases b - a,
{
    if 0 <= a && a < b && a < s.len() && spec_is_white(s[a]) {
        trim_from(s, a + 1, b)
    } else {
        a
    }
}

/// The position after the last non-whitespace character before `e`, going
/// no lower than `a`.
pub open spec fn trim_back(s: Seq<char>, a: int, e: int) -> int
    decreases e - a,
{
    if a < e && 0 <= e - 1 < s.len() && spec_is_white(s[e - 1]) {
        trim_back(s, a, e - 1)
    } else {
        e
    }
}

/// The text between `a` and `b`, trimmed of surrounding whitespace.
pub open spec fn sp_trim_range(s: Seq<char>, a: int, b: int) -> Seq<char> {
    let a2 = trim_from(s, a, b);
    let b2 = trim_back(s, a2, b);
    s.subrange(a2, b2)
}

/// What `parse_content` yields: the system part and the user part of the
/// text, decided by the first occurrence of each marker.
pub open spec fn sp_parse_content(c: Seq<char>) -> (Seq<char>, Seq<char>) {
    let sl = sys_pat().len();
    let ul = user_pat().len();
    match (sp_find_from(c, sys_pat(), 0), sp_find_from(c, user_pat(), 0)) {
        (Some(sy), None) => (sp_trim_range(c, sy + sl, c.len() as int), Seq::empty()),
        (Some(sy), Some(us)) => if us < sy {
            (sp_trim_range(c, sy + sl, c.len() as int), sp_trim_range(c, us + ul, sy))
        } else {
            (sp_trim_range(c, sy + sl, us), sp_trim_range(c, us + ul, c.len() as int))
        },
        (None, Some(us)) => (Seq::empty(), sp_trim_range(c, us + ul, c.len() as int)),
        (None, None) => (sp_trim_range(c, 0, c.len() as int), Seq::empty()),
    }
}

/// Finds the first occurrence of a pattern.
fn find_pat(s: &Vec<char>, pat: &str) -> (r: Option<usize>)
    requires
        pat@.len() > 0,
    ensures
        match r {
            Some(k) => k + pat@.len() <= s@.len() && sp_find_from(s@, pat@, 0) == Some(k as int)
                && sp_tag(s@, k as int, pat@),
            None => sp_find_from(s@, pat@, 0) is None,
        },
{
    let pl = pat.unicode_len();
    let n = s.len();
    let mut k: usize = 0;
    while k <= n && n - k >= pl
        invariant
            k <= n,
            n == s@.len(),
            pl == pat@.len(),
            pl > 0,
            sp_find_from(s@, pat@, 0) == sp_find_from(s@, pat@, k as int),
        decreases n - k,
    {
        if has_tag(s, k, pat) {
            return Some(k);
        }
        k = k + 1;
    }
    None
}

/// Copies the text between `a` and `b`, trimmed of surrounding whitespace.
fn trim_str(s: &Vec<char>, a: usize, b: usize) -> (r: String)
    requires
        a <= b <= s@.len(),
    ensures
        r@ == sp_trim_range(s@, a as int, b as int),
{
    let mut a2 = a;
    while a2 < b && is_white(s[a2])
        invariant
            a <= a2 <= b <= s@.len(),
            trim_from(s@, a as int, b as int) == trim_from(s@, a2 as int, b as int),
        decreases b - a2,
    {
        a2 = a2 + 1;
    }
    let mut b2 = b;
    while b2 > a2 && is_white(s[b2 - 1])
        invariant
            a2 <= b2 <= b <= s@.len(),
            trim_back(s@, a2 as int, b as int) == trim_back(s@, a2 as int, b2 as int),
        decreases b2,
    {
        b2 = b2 - 1;
    }
    chars_to_string(copy_range(s, a2, b2))
}

/// Within the user marker, the opening bracket occurs only at its start,
/// so a system marker beyond it starts at least a whole marker later.
proof fn lemma_user_then_sys(c: Seq<char>, us: int, sy: int)
    requires
        sp_tag(c, us, user_pat()),
        sp_tag(c, sy, sys_pat()),
        us < sy,
    ensures
        us + user_pat().len() <= sy,
{
    reveal_strlit("[//]: # (SYSTEM)\n");
    reveal_strlit("[//]: # (USER)\n");
    if sy < us + user_pat().len() {
        let d = sy - us;
        assert(c[sy] == sys_pat()[0]);
        assert(c[us + d] == user_pat()[d]);
        assert(false);
    }
}

/// Within the system marker, the opening bracket occurs only at its start,
/// so a user marker beyond it starts at least a whole marker later.
proof fn lemma_sys_then_user(c: Seq<char>, sy: int, us: int)
    requires
        sp_tag(c, sy, sys_pat()),
        sp_tag(c, us, user_pat()),
        sy < us,
    ensures
        sy + sys_pat().len() <= us,
{
    reveal_strlit("[//]: # (SYSTEM)\n");
    reveal_strlit("[//]: # (USER)\n");
    if us < sy + sys_pat().len() {
        let d = us - sy;
        assert(c[us] == user_pat()[0]);
        assert(c[sy + d] == sys_pat()[d]);
        assert(false);
    }
}

/// Splits a prompt text into its trimmed system and user parts.
pub fn parse_content(content: String) -> (r: (String, String))
    ensures
        r.0@ == sp_parse_content(content@).0,
        r.1@ == sp_parse_content(content@).1,
{
    let v = chars_of(content.as_str());
    proof {
        reveal_strlit("[//]: # (SYSTEM)\n");
        reveal_strlit("[//]: # (USER)\n");
    }
    let sys = find_pat(&v, "[//]: # (SYSTEM)\n");
    let usr = find_pat(&v, "[//]: # (USER)\n");
    let n = v.len();
    match (sys, usr) {
        (Some(sy), None) => (trim_str(&v, sy + 17, n), String::new()),
        (Some(sy), Some(us)) => {
            if us < sy {
                proof {
                    lemma_user_then_sys(v@, us as int, sy as int);
                }
                (trim_str(&v, sy + 17, n), trim_str(&v, us + 15, sy))
            } else {
                proof {
                    reveal_strlit("[//]: # (SYSTEM)\n");
                    reveal_strlit("[//]: # (USER)\n");
                    if us == sy {
                        assert(v@[us as int + 9] == user_pat()[9]);
                        assert(v@[sy as int + 9] == sys_pat()[9]);
                        assert(false);
                    }
                    lemma_sys_then_user(v@, sy as int, us as int);
                }
                (trim_str(&v, sy + 17, us), trim_str(&v, us + 15, n))
            }
        },
        (None, Some(us)) => (String::new(), trim_str(&v, us + 15, n)),
        (None, None) => (trim_str(&v, 0, n), String::new()),
    }
}

} // verus!
