//! Low-level scanning helpers shared by the parsing rules: whitespace
//! skipping, literal-tag matching, and copying slices of the input.
use vstd::prelude::*;

use crate::chars::{is_ws, spec_is_ws};

verus! {

broadcast use vstd::seq::group_seq_axioms;

/// The end of the whitespace run that starts at `i`.
pub open spec fn ws_end(s: Seq<char>, i: int) -> int
    decreases s.len() - i,
{
    if 0 <= i < s.len() && spec_is_ws(s[i]) {
        ws_end(s, i + 1)
    } else {
        i
    }
}

pub proof fn lemma_ws_end_bounds(s: Seq<char>, i: int)
    requires
        0 <= i <= s.len(),
    ensures
        i <= ws_end(s, i) <= s.len(),
    decreases s.len() - i,
{
    if i < s.len() && spec_is_ws(s[i]) {
        lemma_ws_end_bounds(s, i + 1);
    }
}

/// Skips the whitespace run that starts at `i`.
pub fn skip_ws(s: &Vec<char>, i: usize) -> (j: usize)
    requires
        i <= s@.len(),
    ensures
        i <= j <= s@.len(),
        j as int == ws_end(s@, i as int),
{
    let mut j = i;
    while j < s.len() && is_ws(s[j])
        invariant
            i <= j <= s@.len(),
            ws_end(s@, i as int) == ws_end(s@, j as int),
        decreases s@.len() - j,
    {
        j = j + 1;
    }
    j
}

/// The text `t` occurs in `s` at position `i`.
pub open spec fn sp_tag(s: Seq<char>, i: int, t: Seq<char>) -> bool {
    i + t.len() <= s.len() && (forall|m: int| 0 <= m < t.len() ==> s[i + m] == t[m])
}

/// Whether the literal `t` occurs in the input at position `i`.
pub fn has_tag(s: &Vec<char>, i: usize, t: &str) -> (r: bool)
    requires
        i <= s@.len(),
    ensures
        r == sp_tag(s@, i as int, t@),
{
    let n = t.unicode_len();
    let slen = s.len();
    if slen - i < n {
        return false;
    }
    let mut k: usize = 0;
    while k < n
        invariant
            0 <= k <= n,
            i + n <= slen,
            slen == s@.len(),
            n == t@.len(),
            forall|m: int| 0 <= m < k ==> s@[i + m] == t@[m],
        decreases n - k,
    {
        if s[i + k] != t.get_char(k) {
            proof {
                assert(s@[i + k] != t@[k as int]);
            }
            return false;
        }
        k = k + 1;
    }
    true
}

/// Copies `s[a..b]` into a fresh vector.
pub fn copy_range(s: &Vec<char>, a: usize, b: usize) -> (v: Vec<char>)
    requires
        a <= b <= s@.len(),
    ensures
        v@ == s@.subrange(a as int, b as int),
{
    let mut v: Vec<char> = Vec::new();
    let mut j = a;
    while j < b
        invariant
            a <= j <= b <= s@.len(),
            v@ == s@.subrange(a as int, j as int),
        decreases b - j,
    {
        v.push(s[j]);
        j = j + 1;
        proof {
            assert(v@ =~= s@.subrange(a as int, j as int));
        }
    }
    v
}

/// Collects the characters of a string slice into a vector, in order.
pub fn chars_of(s: &str) -> (v: Vec<char>)
    ensures
        v@ == s@,
{
    let n = s.unicode_len();
    let mut v: Vec<char> = Vec::new();
    let mut i: usize = 0;
    while i < n
        invariant
            i <= n,
            n == s@.len(),
            v@ == s@.subrange(0, i as int),
        decreases n - i,
    {
        v.push(s.get_char(i));
        i = i + 1;
        proof {
            assert(v@ =~= s@.subrange(0, i as int));
        }
    }
    proof {
        assert(v@ =~= s@);
    }
    v
}

} // verus!
