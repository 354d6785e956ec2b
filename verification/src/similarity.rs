//! Word-count similarity primitives: splitting text into whitespace-
//! separated tokens, counting each distinct token, and the dot product of
//! two such counts.
use vstd::prelude::*;

use crate::chars::{is_white, spec_is_white};
use crate::scan::{chars_of, copy_range};
use crate::trust::chars_to_string;

verus! {

broadcast use vstd::seq::group_seq_axioms;

// ---------------------------------------------------------------------------
// Tokens.
// ---------------------------------------------------------------------------

/// The end of the run of whitespace characters that starts at `i`.
pub open spec fn wht_end(s: Seq<char>, i: int) -> int
    decreases s.len() - i,
{
    if 0 <= i < s.len() && spec_is_white(s[i]) {
        wht_end(s, i + 1)
    } else {
        i
    }
}

/// The end of the run of non-whitespace characters that starts at `i`.
pub open spec fn word_end(s: Seq<char>, i: int) -> int
    decreases s.len() - i,
{
    if 0 <= i < s.len() && !spec_is_white(s[i]) {
        word_end(s, i + 1)
    } else {
        i
    }
}

/// The whitespace-separated tokens of `s` from position `i` on.
pub open spec fn sp_tokens(s: Seq<char>, i: int) -> Seq<Seq<char>>
    decreases s.len() - i,
{
    let a = wht_end(s, i);
    if i <= a && a < s.len() {
        let b = word_end(s, a);
        if a < b && b <= s.len() {
            seq![s.subrange(a, b)] + sp_tokens(s, b)
        } else {
            Seq::empty()
        }
    } else {
        Seq::empty()
    }
}

/// The texts of a vector of strings.
pub open spec fn strings_view(v: Seq<String>) -> Seq<Seq<char>>
    decreases v.len(),
{
    if v.len() == 0 {
        Seq::empty()
    } else {
        seq![v.first()@] + strings_view(v.drop_first())
    }
}

pub proof fn lemma_strings_view_cons(x: String, s: Seq<String>)
    ensures
        strings_view(seq![x] + s) == seq![x@] + strings_view(s),
{
    assert((seq![x] + s).drop_first() =~= s);
    assert((seq![x] + s).first() == x);
}

/// Skips the run of whitespace characters that starts at `i`.
fn white_run(s: &Vec<char>, i: usize) -> (j: usize)
    requires
        i <= s@.len(),
    ensures
        i <= j <= s@.len(),
        j as int == wht_end(s@, i as int),
        j < s@.len() ==> !spec_is_white(s@[j as int]),
    decreases s@.len() - i,
{
    let mut j = i;
    while j < s.len() && is_white(s[j])
        invariant
            i <= j <= s@.len(),
            wht_end(s@, i as int) == wht_end(s@, j as int),
        decreases s@.len() - j,
    {
        j = j + 1;
    }
    j
}

/// Skips the run of non-whitespace characters that starts at `i`.
fn word_run(s: &Vec<char>, i: usize) -> (j: usize)
    requires
        i <= s@.len(),
    ensures
        i <= j <= s@.len(),
        j as int == word_end(s@, i as int),
        i < s@.len() && !spec_is_white(s@[i as int]) ==> j > i,
        j < s@.len() ==> spec_is_white(s@[j as int]),
    decreases s@.len() - i,
{
    let mut j = i;
    while j < s.len() && !is_white(s[j])
        invariant
            i <= j <= s@.len(),
            word_end(s@, i as int) == word_end(s@, j as int),
        decreases s@.len() - j,
    {
        j = j + 1;
    }
    proof {
        if i < s@.len() && !spec_is_white(s@[i as int]) {
            lemma_word_end_bounds(s@, i + 1);
        }
    }
    j
}

proof fn lemma_word_end_bounds(s: Seq<char>, i: int)
    requires
        0 <= i <= s.len(),
    ensures
        i <= word_end(s, i) <= s.len(),
    decreases s.len() - i,
{
    if i < s.len() && !spec_is_white(s[i]) {
        lemma_word_end_bounds(s, i + 1);
    }
}

/// Collects the tokens of the input from position `i` on.
fn tokenize_from(s: &Vec<char>, i: usize) -> (r: Vec<String>)
    requires
        i <= s@.len(),
    ensures
        strings_view(r@) == sp_tokens(s@, i as int),
    decreases s@.len() - i,
{
    let a = white_run(s, i);
    if a < s.len() {
        let b = word_run(s, a);
        let t = chars_to_string(copy_range(s, a, b));
        let mut rest = tokenize_from(s, b);
        let ghost restv = rest@;
        let mut out: Vec<String> = Vec::new();
        out.push(t);
        out.append(&mut rest);
        proof {
            assert(out@ =~= seq![out@[0]] + restv);
            lemma_strings_view_cons(out@[0], restv);
        }
        out
    } else {
        Vec::new()
    }
}

/// Splits text into its whitespace-separated tokens.
pub fn tokenize(text: &str) -> (r: Vec<String>)
    ensures
        strings_view(r@) == sp_tokens(text@, 0),
{
    let v = chars_of(text);
    tokenize_from(&v, 0)
}

// ---------------------------------------------------------------------------
// Word counts.
// ---------------------------------------------------------------------------

/// How often the text `w` occurs among the strings `ts`.
pub open spec fn count_str_occ(ts: Seq<String>, w: Seq<char>) -> int
    decreases ts.len(),
{
    if ts.len() == 0 {
        0int
    } else {
        count_str_occ(ts.drop_last(), w) + if ts.last()@ == w {
            1int
        } else {
            0int
        }
    }
}

pub proof fn lemma_count_str_occ_bound(ts: Seq<String>, w: Seq<char>)
    ensures
        0 <= count_str_occ(ts, w) <= ts.len(),
    decreases ts.len(),
{
    if ts.len() > 0 {
        lemma_count_str_occ_bound(ts.drop_last(), w);
    }
}

/// Whether some entry of a count carries the text `w`.
pub open spec fn has_key(c: Seq<(String, usize)>, w: Seq<char>) -> bool {
    exists|e: int| 0 <= e < c.len() && c[e].0@ == w
}

/// Counts each distinct token: the result holds every token of the input
/// exactly once, with the number of its occurrences.
pub fn count_words(tokens: &Vec<String>) -> (r: Vec<(String, usize)>)
    ensures
        forall|k1: int, k2: int|
            0 <= k1 < k2 < r@.len() ==> r@[k1].0@ != r@[k2].0@,
        forall|k: int|
            0 <= k < r@.len() ==> r@[k].1 as int == count_str_occ(tokens@, #[trigger] r@[k].0@),
        forall|k: int| 0 <= k < r@.len() ==> (#[trigger] r@[k]).1 >= 1,
        forall|m: int| 0 <= m < tokens@.len() ==> has_key(r@, #[trigger] tokens@[m]@),
{
    let mut out: Vec<(String, usize)> = Vec::new();
    let mut k: usize = 0;
    while k < tokens.len()
        invariant
            k <= tokens@.len(),
            forall|k1: int, k2: int|
                0 <= k1 < k2 < out@.len() ==> out@[k1].0@ != out@[k2].0@,
            forall|e: int|
                0 <= e < out@.len() ==> out@[e].1 as int == count_str_occ(
                    tokens@.subrange(0, k as int),
                    #[trigger] out@[e].0@,
                ),
            forall|e: int| 0 <= e < out@.len() ==> (#[trigger] out@[e]).1 >= 1,
            forall|m: int| 0 <= m < k ==> has_key(out@, #[trigger] tokens@[m]@),
        decreases tokens@.len() - k,
    {
        let ghost pre = tokens@.subrange(0, k as int);
        let ghost post = tokens@.subrange(0, k as int + 1);
        proof {
            assert(post.drop_last() =~= pre);
            assert(post.last() == tokens@[k as int]);
        }
        let mut e: usize = 0;
        let mut found: bool = false;
        let mut found_at: usize = 0;
        while e < out.len()
            invariant
                e <= out@.len(),
                !found ==> forall|x: int| 0 <= x < e ==> out@[x].0@ != tokens@[k as int]@,
                found ==> found_at < out@.len() && out@[found_at as int].0@ == tokens@[k as int]@,
                k < tokens@.len(),
            decreases out@.len() - e,
        {
            if !found && out[e].0 == tokens[k] {
                found = true;
                found_at = e;
            }
            e = e + 1;
        }
        if found {
            proof {
                lemma_count_str_occ_bound(pre, out@[found_at as int].0@);
            }
            let key = out[found_at].0.clone();
            let cnt = out[found_at].1;
            let ghost out0 = out@;
            out[found_at] = (key, cnt + 1);
            proof {
                assert forall|ee: int| 0 <= ee < out@.len() implies out@[ee].1 as int
                    == count_str_occ(post, #[trigger] out@[ee].0@) by {
                    if ee == found_at {
                        assert(out@[ee].0@ == tokens@[k as int]@);
                        assert(count_str_occ(post, out@[ee].0@) == count_str_occ(
                            pre,
                            out@[ee].0@,
                        ) + 1);
                    } else {
                        assert(out@[ee] == out0[ee]);
                        assert(out@[ee].0@ != tokens@[k as int]@);
                    }
                }
                assert forall|m: int| 0 <= m < k + 1 implies has_key(
                    out@,
                    #[trigger] tokens@[m]@,
                ) by {
                    if m == k {
                        assert(out@[found_at as int].0@ == tokens@[m]@);
                    } else {
                        assert(has_key(out0, tokens@[m]@));
                        let ee0 = choose|ee0: int|
                            0 <= ee0 < out0.len() && out0[ee0].0@ == tokens@[m]@;
                        if ee0 == found_at {
                            assert(out@[found_at as int].0@ == tokens@[m]@);
                        } else {
                            assert(out@[ee0].0@ == tokens@[m]@);
                        }
                    }
                }
            }
        } else {
            let key = tokens[k].clone();
            let ghost out0 = out@;
            out.push((key, 1));
            proof {
                assert forall|ee: int| 0 <= ee < out@.len() implies out@[ee].1 as int
                    == count_str_occ(post, #[trigger] out@[ee].0@) by {
                    if ee < out0.len() {
                        assert(out@[ee] == out0[ee]);
                        assert(out@[ee].0@ != tokens@[k as int]@);
                    } else {
                        assert(out@[ee].0@ == tokens@[k as int]@);
                        assert forall|m: int| 0 <= m < pre.len() implies (#[trigger] pre[m])@
                            != tokens@[k as int]@ by {
                            assert(pre[m] == tokens@[m]);
                            assert(has_key(out0, tokens@[m]@));
                            let e0 = choose|e0: int|
                                0 <= e0 < out0.len() && out0[e0].0@ == tokens@[m]@;
                            assert(out0[e0].0@ != tokens@[k as int]@);
                        }
                        lemma_count_none(pre, tokens@[k as int]@);
                    }
                }
                assert forall|m: int| 0 <= m < k + 1 implies has_key(
                    out@,
                    #[trigger] tokens@[m]@,
                ) by {
                    if m == k {
                        assert(out@[out@.len() - 1].0@ == tokens@[m]@);
                    } else {
                        assert(has_key(out0, tokens@[m]@));
                        let ee0 = choose|ee0: int|
                            0 <= ee0 < out0.len() && out0[ee0].0@ == tokens@[m]@;
                        assert(out@[ee0].0@ == tokens@[m]@);
                    }
                }
            }
        }
        k = k + 1;
    }
    proof {
        assert(tokens@.subrange(0, tokens@.len() as int) =~= tokens@);
    }
    out
}

/// A text that differs from every element occurs zero times.
proof fn lemma_count_none(pre: Seq<String>, w: Seq<char>)
    requires
        forall|m: int| 0 <= m < pre.len() ==> (#[trigger] pre[m])@ != w,
    ensures
        count_str_occ(pre, w) == 0,
    decreases pre.len(),
{
    if pre.len() > 0 {
        assert forall|m: int| 0 <= m < pre.drop_last().len() implies (#[trigger] pre.drop_last()[m])@
            != w by {
            assert(pre.drop_last()[m] == pre[m]);
        }
        assert(pre.last() == pre[pre.len() - 1]);
        lemma_count_none(pre.drop_last(), w);
    }
}

// ---------------------------------------------------------------------------
// Dot products of counts.
// ---------------------------------------------------------------------------

/// The count stored under the text `w`, or zero when `w` is not present.
pub open spec fn sp_lookup(c: Seq<(String, usize)>, w: Seq<char>) -> int
    decreases c.len(),
{
    if c.len() == 0 {
        0int
    } else if c.first().0@ == w {
        c.first().1 as int
    } else {
        sp_lookup(c.drop_first(), w)
    }
}

/// The dot product of two counts: for each entry of the first, its count
/// times the count stored under the same text in the second.
pub open spec fn sp_dot(a: Seq<(String, usize)>, b: Seq<(String, usize)>) -> int
    decreases a.len(),
{
    if a.len() == 0 {
        0int
    } else {
        sp_dot(a.drop_last(), b) + a.last().1 * sp_lookup(b, a.last().0@)
    }
}

pub proof fn lemma_lookup_nonneg(c: Seq<(String, usize)>, w: Seq<char>)
    ensures
        sp_lookup(c, w) >= 0,
    decreases c.len(),
{
    if c.len() > 0 && c.first().0@ != w {
        lemma_lookup_nonneg(c.drop_first(), w);
    }
}

/// A dot product over a prefix never exceeds the whole dot product.
pub proof fn lemma_dot_prefix(a: Seq<(String, usize)>, b: Seq<(String, usize)>, m: int)
    requires
        0 <= m <= a.len(),
    ensures
        sp_dot(a.subrange(0, m), b) <= sp_dot(a, b),
    decreases a.len() - m,
{
    if m == a.len() {
        assert(a.subrange(0, m) =~= a);
    } else {
        lemma_dot_prefix(a, b, m + 1);
        let p = a.subrange(0, m + 1);
        assert(p.drop_last() =~= a.subrange(0, m));
        assert(p.last() == a[m]);
        lemma_lookup_nonneg(b, a[m].0@);
        assert(a[m].1 * sp_lookup(b, a[m].0@) >= 0) by (nonlinear_arith)
            requires
                a[m].1 >= 0,
                sp_lookup(b, a[m].0@) >= 0,
        ;
    }
}

/// Looks up the count stored under a text.
fn lookup(c: &Vec<(String, usize)>, w: &String) -> (r: usize)
    ensures
        r as int == sp_lookup(c@, w@),
{
    let mut e: usize = 0;
    proof {
        assert(c@.skip(0) =~= c@);
    }
    while e < c.len()
        invariant
            e <= c@.len(),
            sp_lookup(c@, w@) == sp_lookup(c@.skip(e as int), w@),
        decreases c@.len() - e,
    {
        proof {
            assert(c@.skip(e as int).first() == c@[e as int]);
            assert(c@.skip(e as int).drop_first() =~= c@.skip(e as int + 1));
        }
        if c[e].0 == *w {
            return c[e].1;
        }
        e = e + 1;
    }
    proof {
        assert(c@.skip(c@.len() as int).len() == 0);
    }
    0
}

/// The dot product of two word counts.  The sum must fit the machine word,
/// as the additions are unchecked.
pub fn dot_product(counter1: &Vec<(String, usize)>, counter2: &Vec<(String, usize)>) -> (r:
    usize)
    requires
        sp_dot(counter1@, counter2@) <= usize::MAX,
    ensures
        r as int == sp_dot(counter1@, counter2@),
{
    let mut acc: usize = 0;
    let mut k: usize = 0;
    while k < counter1.len()
        invariant
            k <= counter1@.len(),
            acc as int == sp_dot(counter1@.subrange(0, k as int), counter2@),
            sp_dot(counter1@, counter2@) <= usize::MAX,
        decreases counter1@.len() - k,
    {
        let l = lookup(counter2, &counter1[k].0);
        proof {
            let p = counter1@.subrange(0, k as int + 1);
            assert(p.drop_last() =~= counter1@.subrange(0, k as int));
            assert(p.last() == counter1@[k as int]);
            lemma_dot_prefix(counter1@, counter2@, k as int + 1);
            lemma_lookup_nonneg(counter2@, counter1@[k as int].0@);
            assert(counter1@[k as int].1 * sp_lookup(counter2@, counter1@[k as int].0@)
                >= 0) by (nonlinear_arith)
                requires
                    counter1@[k as int].1 >= 0,
                    sp_lookup(counter2@, counter1@[k as int].0@) >= 0,
            ;
        }
        let term = counter1[k].1 * l;
        acc = acc + term;
        k = k + 1;
    }
    proof {
        assert(counter1@.subrange(0, counter1@.len() as int) =~= counter1@);
    }
    acc
}

} // verus!
