//! Quoted strings and language tags.
//!
//! Four quoted forms are tried in order: double quote, single quote, long
//! (triple) double quote, long single quote; each form closes with its own
//! quoting style.  Every form scans its body with the same escape rule: a
//! backslash introduces one of `t b n r f " ' \`.  The body is kept raw,
//! escapes included.  Because the short forms come first and admit empty
//! bodies, an input opening with three like quotes is taken by the short
//! form as an empty string; the long forms parse such text when called
//! directly.
use vstd::prelude::*;

use crate::chars::{is_alnum, is_alpha, is_echar, spec_is_alnum, spec_is_alpha, spec_is_echar};
use crate::scan::copy_range;
use crate::trust::chars_to_string;

verus! {

broadcast use vstd::seq::group_seq_axioms;

// ---------------------------------------------------------------------------
// Single-line forms.
// ---------------------------------------------------------------------------

/// Scans a single-line string body from `i`: characters other than the
/// quote `q`, backslash and line breaks, with backslash escapes.  Yields
/// the position where the body stops, or nothing when the input ends or an
/// escape is invalid.
pub open spec fn sl_stop(s: Seq<char>, i: int, q: char) -> Option<int>
    decreases s.len() - i,
{
    if i < 0 || i >= s.len() {
        None
    } else if s[i] == q || s[i] == '\n' || s[i] == '\r' {
        Some(i)
    } else if s[i] == '\\' {
        if i + 1 < s.len() && spec_is_echar(s[i + 1]) {
            sl_stop(s, i + 2, q)
        } else {
            None
        }
    } else {
        sl_stop(s, i + 1, q)
    }
}

/// A single-line string form: opening quote `q`, a scanned body, and the
/// same quote again.
pub open spec fn sp_string_sl(s: Seq<char>, i: int, q: char) -> Option<(Seq<char>, int)> {
    if 0 <= i < s.len() && s[i] == q {
        match sl_stop(s, i + 1, q) {
            Some(e) => if e < s.len() && s[e] == q {
                Some((s.subrange(i + 1, e), e + 1))
            } else {
                None
            },
            None => None,
        }
    } else {
        None
    }
}

/// Scans a single-line string body.
pub fn sl_scan(s: &Vec<char>, i: usize, q: char) -> (r: Option<usize>)
    requires
        i <= s@.len(),
    ensures
        match r {
            Some(e) => i <= e < s@.len() && sl_stop(s@, i as int, q) == Some(e as int),
            None => sl_stop(s@, i as int, q) is None,
        },
{
    let mut j = i;
    loop
        invariant
            i <= j <= s@.len(),
            sl_stop(s@, i as int, q) == sl_stop(s@, j as int, q),
        decreases s@.len() - j,
    {
        if j >= s.len() {
            return None;
        }
        if s[j] == q || s[j] == '\n' || s[j] == '\r' {
            return Some(j);
        }
        if s[j] == '\\' {
            if j + 1 < s.len() && is_echar(s[j + 1]) {
                j = j + 2;
            } else {
                return None;
            }
        } else {
            j = j + 1;
        }
    }
}

/// Parses a single-line string form.
pub fn string_sl(s: &Vec<char>, i: usize, q: char) -> (r: Option<(String, usize)>)
    requires
        i <= s@.len(),
    ensures
        match r {
            Some((t, j)) => i < j <= s@.len() && sp_string_sl(s@, i as int, q) == Some((
                t@,
                j as int,
            )),
            None => sp_string_sl(s@, i as int, q) is None,
        },
{
    if !(i < s.len() && s[i] == q) {
        return None;
    }
    match sl_scan(s, i + 1, q) {
        None => None,
        Some(e) => {
            if s[e] == q {
                let body = copy_range(s, i + 1, e);
                Some((chars_to_string(body), e + 1))
            } else {
                None
            }
        },
    }
}

// ---------------------------------------------------------------------------
// Long forms.
// ---------------------------------------------------------------------------

/// Scans a long string body from `i`: the quote `q` may occur singly or
/// doubly when a body character follows; backslash escapes are as in the
/// single-line forms; line breaks are permitted.
pub open spec fn long_stop(s: Seq<char>, i: int, q: char) -> Option<int>
    decreases s.len() - i,
{
    if i < 0 || i >= s.len() {
        None
    } else if s[i] == '\\' {
        if i + 1 < s.len() && spec_is_echar(s[i + 1]) {
            long_stop(s, i + 2, q)
        } else {
            None
        }
    } else if s[i] == q {
        if i + 1 < s.len() && s[i + 1] != q && s[i + 1] != '\\' {
            long_stop(s, i + 2, q)
        } else if i + 2 < s.len() && s[i + 1] == q && s[i + 2] != q && s[i + 2] != '\\' {
            long_stop(s, i + 3, q)
        } else {
            Some(i)
        }
    } else {
        long_stop(s, i + 1, q)
    }
}

/// A long string form: three opening `q` characters, a scanned body, and
/// three closing `q` characters.
pub open spec fn sp_string_long(s: Seq<char>, i: int, q: char) -> Option<(Seq<char>, int)> {
    if 0 <= i && i + 2 < s.len() && s[i] == q && s[i + 1] == q && s[i + 2] == q {
        match long_stop(s, i + 3, q) {
            Some(e) => if e + 2 < s.len() && s[e] == q && s[e + 1] == q && s[e + 2] == q {
                Some((s.subrange(i + 3, e), e + 3))
            } else {
                None
            },
            None => None,
        }
    } else {
        None
    }
}

/// Scans a long string body.
pub fn long_scan(s: &Vec<char>, i: usize, q: char) -> (r: Option<usize>)
    requires
        i <= s@.len(),
    ensures
        match r {
            Some(e) => i <= e < s@.len() && long_stop(s@, i as int, q) == Some(e as int),
            None => long_stop(s@, i as int, q) is None,
        },
{
    let mut j = i;
    loop
        invariant
            i <= j <= s@.len(),
            long_stop(s@, i as int, q) == long_stop(s@, j as int, q),
        decreases s@.len() - j,
    {
        if j >= s.len() {
            return None;
        }
        if s[j] == '\\' {
            if j + 1 < s.len() && is_echar(s[j + 1]) {
                j = j + 2;
            } else {
                return None;
            }
        } else if s[j] == q {
            if j + 1 < s.len() && s[j + 1] != q && s[j + 1] != '\\' {
                j = j + 2;
            } else if s.len() - j > 2 && s[j + 1] == q && s[j + 2] != q && s[j + 2] != '\\' {
                j = j + 3;
            } else {
                return Some(j);
            }
        } else {
            j = j + 1;
        }
    }
}

/// Parses a long string form.
pub fn string_long(s: &Vec<char>, i: usize, q: char) -> (r: Option<(String, usize)>)
    requires
        i <= s@.len(),
    ensures
        match r {
            Some((t, j)) => i < j <= s@.len() && sp_string_long(s@, i as int, q) == Some((
                t@,
                j as int,
            )),
            None => sp_string_long(s@, i as int, q) is None,
        },
{
    if !(i < s.len() && s.len() - i > 2 && s[i] == q && s[i + 1] == q && s[i + 2] == q) {
        return None;
    }
    match long_scan(s, i + 3, q) {
        None => None,
        Some(e) => {
            if s.len() - e > 2 && s[e] == q && s[e + 1] == q && s[e + 2] == q {
                let body = copy_range(s, i + 3, e);
                Some((chars_to_string(body), e + 3))
            } else {
                None
            }
        },
    }
}

/// A quoted string, in the order the forms are tried: double quote, single
/// quote, long double quote, long single quote.  The raw body is yielded.
pub open spec fn sp_string(s: Seq<char>, i: int) -> Option<(Seq<char>, int)> {
    match sp_string_sl(s, i, '"') {
        Some(r) => Some(r),
        None => match sp_string_sl(s, i, '\'') {
            Some(r) => Some(r),
            None => match sp_string_long(s, i, '"') {
                Some(r) => Some(r),
                None => sp_string_long(s, i, '\''),
            },
        },
    }
}

/// Parses a quoted string.
pub fn string(s: &Vec<char>, i: usize) -> (r: Option<(String, usize)>)
    requires
        i <= s@.len(),
    ensures
        match r {
            Some((t, j)) => i < j <= s@.len() && sp_string(s@, i as int) == Some((t@, j as int)),
            None => sp_string(s@, i as int) is None,
        },
{
    match string_sl(s, i, '"') {
        Some(r) => Some(r),
        None => match string_sl(s, i, '\'') {
            Some(r) => Some(r),
            None => match string_long(s, i, '"') {
                Some(r) => Some(r),
                None => string_long(s, i, '\''),
            },
        },
    }
}

// ---------------------------------------------------------------------------
// Language tags.
// ---------------------------------------------------------------------------

/// The end of the run of ASCII letters that starts at `i`.
pub open spec fn alpha_run_end(s: Seq<char>, i: int) -> int
    decreases s.len() - i,
{
    if 0 <= i < s.len() && spec_is_alpha(s[i]) {
        alpha_run_end(s, i + 1)
    } else {
        i
    }
}

/// The end of the run of ASCII letters and digits that starts at `i`.
pub open spec fn alnum_run_end(s: Seq<char>, i: int) -> int
    decreases s.len() - i,
{
    if 0 <= i < s.len() && spec_is_alnum(s[i]) {
        alnum_run_end(s, i + 1)
    } else {
        i
    }
}

/// The end of the `-`-separated subtags that may follow a language tag.
pub open spec fn sp_subtags_end(s: Seq<char>, i: int) -> int
    decreases s.len() - i,
{
    if 0 <= i < s.len() && s[i] == '-' && i + 1 < s.len() && spec_is_alnum(s[i + 1]) {
        let e = alnum_run_end(s, i + 1);
        if i + 1 < e && e <= s.len() {
            sp_subtags_end(s, e)
        } else {
            i
        }
    } else {
        i
    }
}

/// A language tag: `@`, an alphabetic tag, then `-`-separated alphanumeric
/// subtags; its text without the `@`.
pub open spec fn sp_lang_tag(s: Seq<char>, i: int) -> Option<(Seq<char>, int)> {
    if 0 <= i < s.len() && s[i] == '@' && i + 1 < s.len() && spec_is_alpha(s[i + 1]) {
        let e1 = alpha_run_end(s, i + 1);
        if i + 1 < e1 && e1 <= s.len() {
            let e = sp_subtags_end(s, e1);
            Some((s.subrange(i + 1, e), e))
        } else {
            None
        }
    } else {
        None
    }
}

/// Skips the run of ASCII letters that starts at `i`.
pub fn alpha_run(s: &Vec<char>, i: usize) -> (j: usize)
    requires
        i <= s@.len(),
    ensures
        i <= j <= s@.len(),
        j as int == alpha_run_end(s@, i as int),
        i < s@.len() && spec_is_alpha(s@[i as int]) ==> j > i,
{
    let mut j = i;
    while j < s.len() && is_alpha(s[j])
        invariant
            i <= j <= s@.len(),
            alpha_run_end(s@, i as int) == alpha_run_end(s@, j as int),
            i < j ==> (i < s@.len() && spec_is_alpha(s@[i as int])),
            i == j || j > i,
        decreases s@.len() - j,
    {
        j = j + 1;
    }
    proof {
        if i < s@.len() && spec_is_alpha(s@[i as int]) {
            lemma_alpha_run_end_bounds(s@, i + 1);
        }
    }
    j
}

pub proof fn lemma_alpha_run_end_bounds(s: Seq<char>, i: int)
    requires
        0 <= i <= s.len(),
    ensures
        i <= alpha_run_end(s, i) <= s.len(),
    decreases s.len() - i,
{
    if i < s.len() && spec_is_alpha(s[i]) {
        lemma_alpha_run_end_bounds(s, i + 1);
    }
}

pub proof fn lemma_alnum_run_end_bounds(s: Seq<char>, i: int)
    requires
        0 <= i <= s.len(),
    ensures
        i <= alnum_run_end(s, i) <= s.len(),
    decreases s.len() - i,
{
    if i < s.len() && spec_is_alnum(s[i]) {
        lemma_alnum_run_end_bounds(s, i + 1);
    }
}

/// Skips the run of ASCII letters and digits that starts at `i`.
pub fn alnum_run(s: &Vec<char>, i: usize) -> (j: usize)
    requires
        i <= s@.len(),
    ensures
        i <= j <= s@.len(),
        j as int == alnum_run_end(s@, i as int),
        i < s@.len() && spec_is_alnum(s@[i as int]) ==> j > i,
{
    let mut j = i;
    while j < s.len() && is_alnum(s[j])
        invariant
            i <= j <= s@.len(),
            alnum_run_end(s@, i as int) == alnum_run_end(s@, j as int),
        decreases s@.len() - j,
    {
        j = j + 1;
    }
    proof {
        if i < s@.len() && spec_is_alnum(s@[i as int]) {
            lemma_alnum_run_end_bounds(s@, i + 1);
        }
    }
    j
}

/// Parses a language tag.
pub fn lang_tag(s: &Vec<char>, i: usize) -> (r: Option<(String, usize)>)
    requires
        i <= s@.len(),
    ensures
        match r {
            Some((t, j)) => i < j <= s@.len() && sp_lang_tag(s@, i as int) == Some((
                t@,
                j as int,
            )),
            None => sp_lang_tag(s@, i as int) is None,
        },
{
    if !(i < s.len() && s[i] == '@' && i + 1 < s.len() && is_alpha(s[i + 1])) {
        return None;
    }
    let e1 = alpha_run(s, i + 1);
    let mut j = e1;
    while j < s.len() && s[j] == '-' && j + 1 < s.len() && is_alnum(s[j + 1])
        invariant
            i + 1 <= j <= s@.len(),
            sp_subtags_end(s@, e1 as int) == sp_subtags_end(s@, j as int),
        decreases s@.len() - j,
    {
        let e = alnum_run(s, j + 1);
        j = e;
    }
    let body = copy_range(s, i + 1, j);
    Some((chars_to_string(body), j))
}

} // verus!
