//! Round-trip laws: text printed from parsed values parses back to the
//! same values.
//!
//! The IRI and literal laws cover every permitted body.  The name,
//! variable, term-list, instance and statement laws cover names whose
//! segments are plain runs of name characters — no embedded periods,
//! percent escapes or backslash escapes; for those surface spellings the
//! printed text is not the canonical one, and the laws here do not speak
//! of them.
use vstd::prelude::*;

use crate::ast::{SpArgument, SpDirective, SpInstance, SpLiteral, SpName, SpPrefix, SpStatement, SpTerm};
use crate::chars::{
    spec_is_digit, spec_is_iri_forbidden, spec_is_pn_chars, spec_is_pn_chars_base,
    spec_is_pn_chars_u, spec_is_ws,
};
use crate::names::{
    iri_run_end, pn_run_end, sp_b_node_label, sp_iri, sp_iri_ref, sp_local_group, sp_local_item,
    sp_local_segs, sp_local_segs_more, sp_name_segs, sp_name_segs_more, sp_pn_local,
    sp_pn_prefix, sp_pname_ns, sp_prefixed_name, sp_variable,
};
use crate::scan::{sp_tag, ws_end};
use crate::stmts::{sp_directive, sp_document, sp_instance, sp_list_expander, sp_signature, sp_statement, sp_template};
use crate::terms::{sp_args, sp_args_rest, sp_argument, sp_list, sp_term, sp_terms, sp_terms_rest};
use crate::literals::{
    digit_run_end, sign_end, sp_exponent, sp_literal, xsd_boolean_text, xsd_integer_text,
    xsd_string_text,
};
use crate::strings::{sl_stop, sp_lang_tag};
use crate::trust::iri_text_ok;

verus! {

broadcast use vstd::seq::group_seq_axioms;

// ---------------------------------------------------------------------------
// Printed forms.
// ---------------------------------------------------------------------------

/// The printed form of a resolvable name: `<iri>` or `prefix:local`.
pub open spec fn print_name(n: SpName) -> Seq<char> {
    match n {
        SpName::Named(t) => seq!['<'] + t + seq!['>'],
        SpName::Prefixed { prefix, name } => prefix + seq![':'] + name,
    }
}

/// The printed form of a variable.
pub open spec fn print_variable(v: Seq<char>) -> Seq<char> {
    seq!['?'] + v
}

/// A prefix whose text is one plain run: a letter followed by
/// name-continuation characters.
pub open spec fn simple_prefix(p: Seq<char>) -> bool {
    p.len() > 0 && spec_is_pn_chars_base(p[0]) && (forall|k: int|
        1 <= k < p.len() ==> spec_is_pn_chars(#[trigger] p[k]))
}

/// A local part that is empty or one plain run: an underscore-extended
/// start character or digit, then name-continuation characters.
pub open spec fn simple_local(l: Seq<char>) -> bool {
    l.len() == 0 || ((spec_is_pn_chars_u(l[0]) || spec_is_digit(l[0])) && (forall|k: int|
        1 <= k < l.len() ==> spec_is_pn_chars(#[trigger] l[k])))
}

/// A variable name that is one plain run: an underscore-extended start
/// character, then name-continuation characters.
pub open spec fn simple_label(v: Seq<char>) -> bool {
    v.len() > 0 && spec_is_pn_chars_u(v[0]) && (forall|k: int|
        1 <= k < v.len() ==> spec_is_pn_chars(#[trigger] v[k]))
}

// ---------------------------------------------------------------------------
// Run characterizations.
// ---------------------------------------------------------------------------

proof fn lemma_iri_run(s: Seq<char>, i: int, e: int)
    requires
        0 <= i <= e <= s.len(),
        forall|k: int| i <= k < e ==> !spec_is_iri_forbidden(#[trigger] s[k]),
        e == s.len() || spec_is_iri_forbidden(s[e]),
    ensures
        iri_run_end(s, i) == e,
    decreases e - i,
{
    if i < e {
        lemma_iri_run(s, i + 1, e);
    }
}

proof fn lemma_pn_run(s: Seq<char>, i: int, e: int)
    requires
        0 <= i <= e <= s.len(),
        forall|k: int| i <= k < e ==> spec_is_pn_chars(#[trigger] s[k]),
        e == s.len() || !spec_is_pn_chars(s[e]),
    ensures
        pn_run_end(s, i) == e,
    decreases e - i,
{
    if i < e {
        lemma_pn_run(s, i + 1, e);
    }
}

/// A plain run of name characters that reaches a position where no further
/// item starts parses as one group ending there.
proof fn lemma_name_segs_run(s: Seq<char>, a: int, e: int)
    requires
        0 <= a <= e <= s.len(),
        forall|k: int| a <= k < e ==> spec_is_pn_chars(#[trigger] s[k]),
        e == s.len() || (!spec_is_pn_chars(s[e]) && s[e] != '.'),
    ensures
        sp_name_segs(s, a) == (s.subrange(a, e), e),
{
    if a == e {
        assert(sp_name_segs(s, a) == (Seq::<char>::empty(), a));
        assert(s.subrange(a, a) =~= Seq::<char>::empty());
    } else {
        lemma_pn_run(s, a, e);
        assert(sp_name_segs_more(s, e) == (Seq::<char>::empty(), e));
        assert(s.subrange(a, e) + Seq::<char>::empty() =~= s.subrange(a, e));
    }
}

/// A plain run of name characters that reaches the end of the input, or a
/// character that starts no local-name item, parses as one local group.
proof fn lemma_local_group_run(s: Seq<char>, a: int, e: int)
    requires
        0 <= a < e <= s.len(),
        forall|k: int| a <= k < e ==> spec_is_pn_chars(#[trigger] s[k]),
        sp_local_item(s, e) is None,
    ensures
        sp_local_group(s, a) == Some((s.subrange(a, e), e)),
    decreases e - a,
{
    assert(sp_local_item(s, a) == Some((seq![s[a]], a + 1)));
    if a + 1 == e {
        assert(sp_local_group(s, e) is None);
        assert(s.subrange(a, e) =~= seq![s[a]]);
    } else {
        lemma_local_group_run(s, a + 1, e);
        assert(seq![s[a]] + s.subrange(a + 1, e) =~= s.subrange(a, e));
    }
}

// ---------------------------------------------------------------------------
// The laws.
// ---------------------------------------------------------------------------

/// Round trip on the body of an IRI reference: for every valid
/// absolute-IRI text containing no forbidden characters, parsing the
/// bracketed text yields that text back and consumes the whole input.
pub proof fn lemma_iri_ref_round_trip(body: Seq<char>)
    ensures
        ((forall|k: int| 0 <= k < body.len() ==> !spec_is_iri_forbidden(#[trigger] body[k]))
            && iri_text_ok(body)) ==> sp_iri_ref(seq!['<'] + body + seq!['>'], 0) == Some(
            (body, body.len() + 2int),
        ),
{
    if (forall|k: int| 0 <= k < body.len() ==> !spec_is_iri_forbidden(#[trigger] body[k]))
        && iri_text_ok(body) {
        let s = seq!['<'] + body + seq!['>'];
        assert(s[0] == '<');
        assert(s[s.len() - 1] == '>');
        assert forall|k: int| 1 <= k < s.len() - 1 implies !spec_is_iri_forbidden(
            #[trigger] s[k],
        ) by {
            assert(s[k] == body[k - 1]);
        }
        lemma_iri_run(s, 1, s.len() - 1);
        assert(s.subrange(1, s.len() - 1) =~= body);
    }
}

/// Round trip for a bracketed name: parsing the printed form of a valid
/// absolute IRI yields the same name and consumes the whole input.
pub proof fn lemma_named_name_round_trip(t: Seq<char>)
    ensures
        ((forall|k: int| 0 <= k < t.len() ==> !spec_is_iri_forbidden(#[trigger] t[k]))
            && iri_text_ok(t)) ==> sp_iri(print_name(SpName::Named(t)), 0) == Some(
            (SpName::Named(t), t.len() + 2int),
        ),
{
    lemma_iri_ref_round_trip(t);
}

/// Round trip for a prefixed name whose prefix and local part are plain
/// runs: parsing the printed `prefix:local` yields the same pair and
/// consumes the whole input.
pub proof fn lemma_prefixed_name_round_trip(p: Seq<char>, l: Seq<char>)
    ensures
        (simple_prefix(p) && simple_local(l)) ==> sp_iri(
            print_name(SpName::Prefixed { prefix: p, name: l }),
            0,
        ) == Some((SpName::Prefixed { prefix: p, name: l }, p.len() + 1 + l.len() as int)),
{
    if simple_prefix(p) && simple_local(l) {
        let s = p + seq![':'] + l;
        let pl = p.len() as int;
        assert(s.len() == pl + 1 + l.len());
        assert forall|k: int| 0 <= k < pl implies s[k] == p[k] by {}
        assert(s[pl] == ':');
        assert forall|k: int| 0 <= k < l.len() implies s[pl + 1 + k] == l[k] by {}
        // no bracketed form: the first character is a letter
        assert(s[0] == p[0]);
        assert(sp_iri_ref(s, 0) is None);
        // the prefix token
        assert forall|k: int| 1 <= k < pl implies spec_is_pn_chars(#[trigger] s[k]) by {
            assert(s[k] == p[k]);
        }
        assert(!spec_is_pn_chars(':') && ':' != '.') by {
            assert(':' as u32 == 58);
        }
        lemma_name_segs_run(s, 1, pl);
        assert(sp_pn_prefix(s, 0) == Some((seq![s[0]] + s.subrange(1, pl), pl)));
        assert(seq![s[0]] + s.subrange(1, pl) =~= p);
        assert(sp_pname_ns(s, 0) == Some((p, pl + 1)));
        // the local part
        if l.len() == 0 {
            assert(sp_pn_local(s, pl + 1) is None);
            assert(sp_prefixed_name(s, 0) == Some(((p, l), pl + 1))) by {
                assert(l =~= Seq::<char>::empty());
            }
        } else {
            assert(sp_local_item(s, pl + 1) == Some((seq![s[pl + 1]], pl + 2)));
            if l.len() == 1 {
                assert(sp_local_segs(s, pl + 2).0 =~= Seq::<char>::empty());
                assert(sp_pn_local(s, pl + 1) == Some((seq![s[pl + 1]] + Seq::<char>::empty(),
                    pl + 2)));
                assert(seq![s[pl + 1]] + Seq::<char>::empty() =~= l);
            } else {
                assert forall|k: int| pl + 2 <= k < s.len() implies spec_is_pn_chars(
                    #[trigger] s[k],
                ) by {
                    assert(s[k] == l[k - pl - 1]);
                }
                assert(s[pl + 2] != '.') by {
                    assert(s[pl + 2] == l[1]);
                }
                assert(sp_local_item(s, s.len() as int) is None);
                lemma_local_group_run(s, pl + 2, s.len() as int);
                assert(sp_local_segs_more(s, s.len() as int) == (Seq::<char>::empty(),
                    s.len() as int));
                assert(sp_local_segs(s, pl + 2) == (s.subrange(pl + 2, s.len() as int)
                    + Seq::<char>::empty(), s.len() as int));
                assert(sp_pn_local(s, pl + 1) == Some((seq![s[pl + 1]] + (s.subrange(
                    pl + 2,
                    s.len() as int,
                ) + Seq::<char>::empty()), s.len() as int)));
                assert(seq![s[pl + 1]] + (s.subrange(pl + 2, s.len() as int)
                    + Seq::<char>::empty()) =~= l);
            }
        }
    }
}

// ---------------------------------------------------------------------------
// Term lists of variables.
// ---------------------------------------------------------------------------

/// A text occurring at a position splits across concatenation.
proof fn lemma_tag_concat(s: Seq<char>, i: int, a: Seq<char>, b: Seq<char>)
    ensures
        sp_tag(s, i, a + b) <==> (sp_tag(s, i, a) && sp_tag(s, i + a.len(), b)),
{
    if sp_tag(s, i, a + b) {
        assert forall|m: int| 0 <= m < a.len() implies s[i + m] == a[m] by {
            assert((a + b)[m] == a[m]);
        }
        assert forall|m: int| 0 <= m < b.len() implies s[i + a.len() + m] == b[m] by {
            assert((a + b)[a.len() + m] == b[m]);
            assert(s[i + (a.len() + m)] == (a + b)[a.len() + m]);
        }
    }
    if sp_tag(s, i, a) && sp_tag(s, i + a.len(), b) {
        assert forall|m: int| 0 <= m < (a + b).len() implies s[i + m] == (a + b)[m] by {
            if m < a.len() {
                assert((a + b)[m] == a[m]);
            } else {
                assert((a + b)[m] == b[m - a.len()]);
                assert(s[i + a.len() + (m - a.len())] == b[m - a.len()]);
            }
        }
    }
}

/// No term form starts at a closing parenthesis.
proof fn lemma_no_term_at_paren(s: Seq<char>, i: int)
    requires
        0 <= i < s.len(),
        s[i] == ')',
    ensures
        sp_term(s, i) is None,
{
    assert(ws_end(s, i) == i);
    if sp_tag(s, i, "true"@) {
        reveal_strlit("true");
        assert(s[i + 0] == "true"@[0]);
    }
    if sp_tag(s, i, "false"@) {
        reveal_strlit("false");
        assert(s[i + 0] == "false"@[0]);
    }
    if sp_tag(s, i, "none"@) {
        reveal_strlit("none");
        assert(s[i + 0] == "none"@[0]);
    }
}

/// A variable at position `i`, immediately followed by a character that
/// neither continues the name nor is a period or whitespace, parses as
/// exactly its printed text.
proof fn lemma_variable_at(s: Seq<char>, i: int, v: Seq<char>)
    requires
        simple_label(v),
        0 <= i,
        i + 1 + v.len() <= s.len(),
        s[i] == '?',
        sp_tag(s, i + 1, v),
        ({
            let e = i + 1 + v.len();
            e == s.len() || (!spec_is_pn_chars(s[e]) && s[e] != '.' && !spec_is_ws(s[e]))
        }),
    ensures
        sp_variable(s, i) == Some((v, i + 1 + v.len() as int)),
{
    let e = i + 1 + v.len() as int;
    assert(ws_end(s, i) == i);
    assert(s[i + 1] == v[0]);
    assert forall|k: int| i + 2 <= k < e implies spec_is_pn_chars(#[trigger] s[k]) by {
        assert(s[k] == v[k - i - 1]);
    }
    if v.len() == 1 {
        assert(sp_name_segs(s, i + 2).0 =~= Seq::<char>::empty());
        assert(seq![s[i + 1]] + Seq::<char>::empty() =~= v);
    } else {
        assert(s[i + 2] == v[1]);
        lemma_name_segs_run(s, i + 2, e);
        assert(seq![s[i + 1]] + s.subrange(i + 2, e) =~= v);
    }
    assert(ws_end(s, e) == e);
}

/// The elements of a printed variable list after the first: each is a
/// comma and a variable.
pub open spec fn print_vars_rest(vs: Seq<Seq<char>>) -> Seq<char>
    decreases vs.len(),
{
    if vs.len() == 0 {
        Seq::empty()
    } else {
        seq![','] + seq!['?'] + vs[0] + print_vars_rest(vs.drop_first())
    }
}

/// The inside of a printed variable list.
pub open spec fn print_vars_inner(vs: Seq<Seq<char>>) -> Seq<char> {
    if vs.len() == 0 {
        Seq::empty()
    } else {
        seq!['?'] + vs[0] + print_vars_rest(vs.drop_first())
    }
}

/// The printed form of a list of variables.
pub open spec fn print_var_list(vs: Seq<Seq<char>>) -> Seq<char> {
    seq!['('] + print_vars_inner(vs) + seq![')']
}

/// The terms such a list denotes.
pub open spec fn vars_seq(vs: Seq<Seq<char>>) -> Seq<SpTerm> {
    vs.map_values(|v: Seq<char>| SpTerm::Variable(v))
}

proof fn lemma_vars_rest_at(s: Seq<char>, j: int, vs: Seq<Seq<char>>)
    requires
        forall|k: int| 0 <= k < vs.len() ==> simple_label(#[trigger] vs[k]),
        0 <= j,
        j + print_vars_rest(vs).len() < s.len(),
        sp_tag(s, j, print_vars_rest(vs)),
        s[j + print_vars_rest(vs).len()] == ')',
    ensures
        sp_terms_rest(s, j) == (vars_seq(vs), j + print_vars_rest(vs).len() as int),
    decreases vs.len(),
{
    if vs.len() == 0 {
        assert(s[j] == ')');
        assert(vars_seq(vs) =~= Seq::<SpTerm>::empty());
    } else {
        let v0 = vs[0];
        let rest = vs.drop_first();
        let p = print_vars_rest(vs);
        assert(p == seq![','] + seq!['?'] + v0 + print_vars_rest(rest));
        lemma_tag_concat(s, j, seq![','] + seq!['?'] + v0, print_vars_rest(rest));
        assert((seq![','] + seq!['?'] + v0 + print_vars_rest(rest)) =~= (seq![','] + seq!['?']
            + v0) + print_vars_rest(rest));
        lemma_tag_concat(s, j, seq![','] + seq!['?'], v0);
        assert((seq![','] + seq!['?'] + v0) =~= (seq![','] + seq!['?']) + v0);
        assert(s[j] == ',') by {
            assert(s[j + 0] == (seq![','] + seq!['?'])[0]);
        }
        assert(s[j + 1] == '?') by {
            assert(s[j + 1] == (seq![','] + seq!['?'])[1]);
        }
        let e0 = j + 2 + v0.len() as int;
        // what follows the first variable: a comma when more variables
        // come, else the closing parenthesis
        if rest.len() == 0 {
            assert(e0 == j + p.len());
            assert(s[e0] == ')');
        } else {
            assert(sp_tag(s, e0, print_vars_rest(rest)));
            assert(s[e0] == ',') by {
                assert(s[e0 + 0] == print_vars_rest(rest)[0]);
            }
        }
        lemma_variable_at(s, j + 1, v0);
        assert(sp_term(s, j + 1) == Some((SpTerm::Variable(v0), e0)));
        lemma_vars_rest_at(s, e0, rest);
        assert(seq![SpTerm::Variable(v0)] + vars_seq(rest) =~= vars_seq(vs));
    }
}

/// Round trip for a parenthesized list of variables whose names are plain
/// runs: parsing the printed list yields exactly those variables as terms
/// and consumes the whole input.
pub proof fn lemma_variable_list_round_trip(vs: Seq<Seq<char>>)
    ensures
        (forall|k: int| 0 <= k < vs.len() ==> simple_label(#[trigger] vs[k])) ==> sp_list(
            print_var_list(vs),
            0,
        ) == Some((vars_seq(vs), print_var_list(vs).len() as int)),
{
    if forall|k: int| 0 <= k < vs.len() ==> simple_label(#[trigger] vs[k]) {
        let s = print_var_list(vs);
        let inner = print_vars_inner(vs);
        assert(s[0] == '(');
        assert(s[s.len() - 1] == ')');
        assert(sp_tag(s, 1, inner)) by {
            assert forall|m: int| 0 <= m < inner.len() implies s[1 + m] == inner[m] by {
                assert(s[1 + m] == (seq!['('] + inner + seq![')'])[1 + m]);
            }
        }
        assert(1 + inner.len() < s.len());
        assert(s[1 + inner.len() as int] == ')');
        assert(ws_end(s, 1) == 1) by {
            if vs.len() == 0 {
                assert(s[1] == ')');
            } else {
                assert(s[1] == '?') by {
                    assert(inner[0] == '?');
                }
            }
        }
        if vs.len() == 0 {
            lemma_no_term_at_paren(s, 1);
            assert(vars_seq(vs) =~= Seq::<SpTerm>::empty());
            assert(ws_end(s, 1) == 1);
        } else {
            let v0 = vs[0];
            let rest = vs.drop_first();
            assert(inner =~= (seq!['?'] + v0) + print_vars_rest(rest));
            lemma_tag_concat(s, 1, seq!['?'] + v0, print_vars_rest(rest));
            lemma_tag_concat(s, 1, seq!['?'], v0);
            assert((seq!['?'] + v0) =~= seq!['?'] + v0);
            assert(s[1] == '?') by {
                assert(s[1int] == seq!['?'][0]);
            }
            let e0 = 2 + v0.len() as int;
            if rest.len() == 0 {
                assert(s[e0] == ')');
            } else {
                assert(sp_tag(s, e0, print_vars_rest(rest)));
                assert(s[e0] == ',') by {
                    assert(s[e0 + 0] == print_vars_rest(rest)[0]);
                }
            }
            lemma_variable_at(s, 1, v0);
            assert(sp_term(s, 1) == Some((SpTerm::Variable(v0), e0)));
            lemma_vars_rest_at(s, e0, rest);
            assert(seq![SpTerm::Variable(v0)] + vars_seq(rest) =~= vars_seq(vs));
            assert(ws_end(s, 1 + inner.len() as int) == 1 + inner.len());
        }
    }
}

/// Round trip for a variable whose name is one plain run: parsing the
/// printed `?name` yields the same name and consumes the whole input.
pub proof fn lemma_variable_round_trip(v: Seq<char>)
    ensures
        simple_label(v) ==> sp_variable(print_variable(v), 0) == Some((v, v.len() + 1int)),
{
    if simple_label(v) {
        let s = seq!['?'] + v;
        assert(s[0] == '?');
        assert(!spec_is_ws('?')) by {
            assert('?' as u32 == 63);
        }
        assert(ws_end(s, 0) == 0);
        assert(s[1] == v[0]);
        assert forall|k: int| 2 <= k < s.len() implies spec_is_pn_chars(#[trigger] s[k]) by {
            assert(s[k] == v[k - 1]);
        }
        if v.len() == 1 {
            assert(sp_name_segs(s, 2).0 =~= Seq::<char>::empty());
            assert(sp_b_node_label(s, 1) == Some((seq![s[1]] + Seq::<char>::empty(), 2int)));
            assert(seq![s[1]] + Seq::<char>::empty() =~= v);
        } else {
            assert(s[2] != '.') by {
                assert(s[2] == v[1]);
            }
            lemma_name_segs_run(s, 2, s.len() as int);
            assert(sp_b_node_label(s, 1) == Some((seq![s[1]] + s.subrange(2, s.len() as int),
                s.len() as int)));
            assert(seq![s[1]] + s.subrange(2, s.len() as int) =~= v);
        }
        assert(ws_end(s, s.len() as int) == s.len());
    }
}

// ---------------------------------------------------------------------------
// Instances.
// ---------------------------------------------------------------------------

/// Name-continuation characters are plain text: never a pipe, never
/// whitespace.
proof fn lemma_pn_char_plain(c: char)
    requires
        spec_is_pn_chars(c),
    ensures
        c != '|',
        !spec_is_ws(c),
{
}

/// A prefixed name standing at `i`, followed by a character that cannot
/// extend or start a local part, parses as exactly its printed text.
proof fn lemma_prefixed_name_at(s: Seq<char>, i: int, p: Seq<char>, l: Seq<char>)
    requires
        simple_prefix(p),
        simple_local(l),
        0 <= i,
        i + p.len() + 1 + l.len() <= s.len(),
        sp_tag(s, i, p),
        s[i + p.len()] == ':',
        sp_tag(s, i + p.len() + 1, l),
        ({
            let e = i + p.len() + 1 + l.len();
            e == s.len() || (!spec_is_pn_chars(s[e]) && s[e] != '.' && s[e] != ':' && s[e] != '%'
                && s[e] != '\\')
        }),
    ensures
        sp_iri(s, i) == Some(
            (SpName::Prefixed { prefix: p, name: l }, i + p.len() + 1 + l.len() as int),
        ),
{
    let pl = p.len() as int;
    let e = i + pl + 1 + l.len() as int;
    assert(s[i + 0] == p[0]);
    assert(sp_iri_ref(s, i) is None);
    assert forall|k: int| i + 1 <= k < i + pl implies spec_is_pn_chars(#[trigger] s[k]) by {
        assert(s[i + (k - i)] == p[k - i]);
    }
    assert(!spec_is_pn_chars(':') && ':' != '.') by {
        assert(':' as u32 == 58);
    }
    if pl > 1 {
        assert(s[i + 1] == p[1]);
    }
    lemma_name_segs_run(s, i + 1, i + pl);
    assert(sp_pn_prefix(s, i) == Some((seq![s[i]] + s.subrange(i + 1, i + pl), i + pl)));
    assert(seq![s[i]] + s.subrange(i + 1, i + pl) =~= p);
    assert(sp_pname_ns(s, i) == Some((p, i + pl + 1)));
    let b = i + pl + 1;
    if l.len() == 0 {
        assert(sp_pn_local(s, b) is None);
        assert(l =~= Seq::<char>::empty());
    } else {
        assert(s[b + 0] == l[0]);
        assert(sp_local_item(s, b) == Some((seq![s[b]], b + 1)));
        assert forall|k: int| b + 1 <= k < e implies spec_is_pn_chars(#[trigger] s[k]) by {
            assert(s[b + (k - b)] == l[k - b]);
        }
        if l.len() == 1 {
            assert(sp_local_group(s, b + 1) is None);
            assert(sp_local_segs(s, b + 1).0 =~= Seq::<char>::empty());
            assert(sp_pn_local(s, b) == Some((seq![s[b]] + Seq::<char>::empty(), b + 1)));
            assert(seq![s[b]] + Seq::<char>::empty() =~= l);
        } else {
            assert(s[b + 1] == l[1]);
            assert(sp_local_item(s, e) is None);
            lemma_local_group_run(s, b + 1, e);
            assert(sp_local_segs_more(s, e) == (Seq::<char>::empty(), e));
            assert(sp_local_segs(s, b + 1) == (s.subrange(b + 1, e) + Seq::<char>::empty(), e));
            assert(sp_pn_local(s, b) == Some((seq![s[b]] + (s.subrange(b + 1, e)
                + Seq::<char>::empty()), e)));
            assert(seq![s[b]] + (s.subrange(b + 1, e) + Seq::<char>::empty()) =~= l);
        }
    }
}

/// The arguments a printed variable list denotes: each variable as a term,
/// without the list-expansion marker.
pub open spec fn vars_args(vs: Seq<Seq<char>>) -> Seq<SpArgument> {
    vs.map_values(|v: Seq<char>| SpArgument { list_expand: false, term: SpTerm::Variable(v) })
}

proof fn lemma_var_args_rest_at(s: Seq<char>, j: int, vs: Seq<Seq<char>>)
    requires
        forall|k: int| 0 <= k < vs.len() ==> simple_label(#[trigger] vs[k]),
        0 <= j,
        j + print_vars_rest(vs).len() < s.len(),
        sp_tag(s, j, print_vars_rest(vs)),
        s[j + print_vars_rest(vs).len() as int] == ')',
    ensures
        sp_args_rest(s, j) == (vars_args(vs), j + print_vars_rest(vs).len() as int),
    decreases vs.len(),
{
    if vs.len() == 0 {
        assert(s[j] == ')');
        assert(vars_args(vs) =~= Seq::<SpArgument>::empty());
    } else {
        let v0 = vs[0];
        let rest = vs.drop_first();
        let p = print_vars_rest(vs);
        assert(p == seq![','] + seq!['?'] + v0 + print_vars_rest(rest));
        lemma_tag_concat(s, j, seq![','] + seq!['?'] + v0, print_vars_rest(rest));
        assert((seq![','] + seq!['?'] + v0 + print_vars_rest(rest)) =~= (seq![','] + seq!['?']
            + v0) + print_vars_rest(rest));
        lemma_tag_concat(s, j, seq![','] + seq!['?'], v0);
        assert((seq![','] + seq!['?'] + v0) =~= (seq![','] + seq!['?']) + v0);
        assert(s[j] == ',') by {
            assert(s[j + 0] == (seq![','] + seq!['?'])[0]);
        }
        assert(s[j + 1] == '?') by {
            assert(s[j + 1] == (seq![','] + seq!['?'])[1]);
        }
        let e0 = j + 2 + v0.len() as int;
        if rest.len() == 0 {
            assert(e0 == j + p.len());
            assert(s[e0] == ')');
        } else {
            assert(sp_tag(s, e0, print_vars_rest(rest)));
            assert(s[e0] == ',') by {
                assert(s[e0 + 0] == print_vars_rest(rest)[0]);
            }
        }
        // one argument: no whitespace, no marker, then the variable
        assert(ws_end(s, j + 1) == j + 1);
        assert(s[j + 1] != '+');
        lemma_variable_at(s, j + 1, v0);
        assert(sp_term(s, j + 1) == Some((SpTerm::Variable(v0), e0)));
        assert(ws_end(s, e0) == e0);
        assert(sp_argument(s, j + 1) == Some(
            (SpArgument { list_expand: false, term: SpTerm::Variable(v0) }, e0),
        ));
        lemma_var_args_rest_at(s, e0, rest);
        assert(seq![SpArgument { list_expand: false, term: SpTerm::Variable(v0) }] + vars_args(
            rest,
        ) =~= vars_args(vs));
    }
}

/// No argument form starts at a closing parenthesis.
proof fn lemma_no_argument_at_paren(s: Seq<char>, i: int)
    requires
        0 <= i < s.len(),
        s[i] == ')',
    ensures
        sp_argument(s, i) is None,
{
    assert(ws_end(s, i) == i);
    lemma_no_term_at_paren(s, i);
}

proof fn lemma_var_args_at(s: Seq<char>, i: int, vs: Seq<Seq<char>>)
    requires
        forall|k: int| 0 <= k < vs.len() ==> simple_label(#[trigger] vs[k]),
        0 <= i,
        i + print_vars_inner(vs).len() < s.len(),
        sp_tag(s, i, print_vars_inner(vs)),
        s[i + print_vars_inner(vs).len() as int] == ')',
    ensures
        sp_args(s, i) == (vars_args(vs), i + print_vars_inner(vs).len() as int),
{
    if vs.len() == 0 {
        assert(s[i] == ')');
        lemma_no_argument_at_paren(s, i);
        assert(vars_args(vs) =~= Seq::<SpArgument>::empty());
    } else {
        let v0 = vs[0];
        let rest = vs.drop_first();
        let inner = print_vars_inner(vs);
        assert(inner =~= (seq!['?'] + v0) + print_vars_rest(rest));
        lemma_tag_concat(s, i, seq!['?'] + v0, print_vars_rest(rest));
        lemma_tag_concat(s, i, seq!['?'], v0);
        assert(s[i] == '?') by {
            assert(s[i + 0] == seq!['?'][0]);
        }
        let e0 = i + 1 + v0.len() as int;
        if rest.len() == 0 {
            assert(s[e0] == ')');
        } else {
            assert(sp_tag(s, e0, print_vars_rest(rest)));
            assert(s[e0] == ',') by {
                assert(s[e0 + 0] == print_vars_rest(rest)[0]);
            }
        }
        assert(ws_end(s, i) == i);
        assert(s[i] != '+');
        lemma_variable_at(s, i, v0);
        assert(sp_term(s, i) == Some((SpTerm::Variable(v0), e0)));
        assert(ws_end(s, e0) == e0);
        assert(sp_argument(s, i) == Some(
            (SpArgument { list_expand: false, term: SpTerm::Variable(v0) }, e0),
        ));
        lemma_var_args_rest_at(s, e0, rest);
        assert(seq![SpArgument { list_expand: false, term: SpTerm::Variable(v0) }] + vars_args(
            rest,
        ) =~= vars_args(vs));
    }
}

/// The printed form of an instance: a prefixed name applied to variables.
pub open spec fn print_instance(p: Seq<char>, l: Seq<char>, vs: Seq<Seq<char>>) -> Seq<char> {
    p + seq![':'] + l + seq!['('] + print_vars_inner(vs) + seq![')']
}

/// Every character of such a printed instance is plain: never a pipe,
/// never whitespace.
proof fn lemma_print_instance_plain(p: Seq<char>, l: Seq<char>, vs: Seq<Seq<char>>, m: int)
    requires
        simple_prefix(p),
        simple_local(l),
        forall|k: int| 0 <= k < vs.len() ==> simple_label(#[trigger] vs[k]),
        0 <= m < print_instance(p, l, vs).len(),
    ensures
        print_instance(p, l, vs)[m] != '|',
        !spec_is_ws(print_instance(p, l, vs)[m]),
{
    let s = print_instance(p, l, vs);
    let pl = p.len() as int;
    let ll = l.len() as int;
    let il = print_vars_inner(vs).len() as int;
    if m < pl {
        assert(s[m] == p[m]);
        if m == 0 {
            assert(spec_is_pn_chars(p[0]));
        }
        lemma_pn_char_plain(p[m]);
    } else if m == pl {
        assert(s[m] == ':');
    } else if m < pl + 1 + ll {
        assert(s[m] == l[m - pl - 1]);
        assert(spec_is_pn_chars(l[m - pl - 1])) by {
            if m - pl - 1 == 0 {
                assert(spec_is_pn_chars_u(l[0]) || spec_is_digit(l[0]));
            }
        }
        lemma_pn_char_plain(l[m - pl - 1]);
    } else if m == pl + 1 + ll {
        assert(s[m] == '(');
    } else if m < pl + 2 + ll + il {
        assert(s[m] == print_vars_inner(vs)[m - pl - 2 - ll]);
        lemma_print_vars_inner_plain(vs, m - pl - 2 - ll);
    } else {
        assert(s[m] == ')');
    }
}

/// Every character of a printed variable list is plain.
proof fn lemma_print_vars_inner_plain(vs: Seq<Seq<char>>, m: int)
    requires
        forall|k: int| 0 <= k < vs.len() ==> simple_label(#[trigger] vs[k]),
        0 <= m < print_vars_inner(vs).len(),
    ensures
        print_vars_inner(vs)[m] != '|',
        !spec_is_ws(print_vars_inner(vs)[m]),
{
    let v0 = vs[0];
    let rest = vs.drop_first();
    if m == 0 {
        assert(print_vars_inner(vs)[0] == '?');
    } else if m < 1 + v0.len() {
        assert(print_vars_inner(vs)[m] == v0[m - 1]);
        assert(spec_is_pn_chars(v0[m - 1])) by {
            if m == 1 {
                assert(spec_is_pn_chars_u(v0[0]));
            }
        }
        lemma_pn_char_plain(v0[m - 1]);
    } else {
        assert(print_vars_inner(vs)[m] == print_vars_rest(rest)[m - 1 - v0.len()]);
        lemma_print_vars_rest_plain(rest, m - 1 - v0.len() as int);
    }
}

/// Every character of the tail of a printed variable list is plain.
proof fn lemma_print_vars_rest_plain(vs: Seq<Seq<char>>, m: int)
    requires
        forall|k: int| 0 <= k < vs.len() ==> simple_label(#[trigger] vs[k]),
        0 <= m < print_vars_rest(vs).len(),
    ensures
        print_vars_rest(vs)[m] != '|',
        !spec_is_ws(print_vars_rest(vs)[m]),
    decreases vs.len(),
{
    let v0 = vs[0];
    let rest = vs.drop_first();
    if m == 0 {
        assert(print_vars_rest(vs)[0] == ',');
    } else if m == 1 {
        assert(print_vars_rest(vs)[1] == '?');
    } else if m < 2 + v0.len() {
        assert(print_vars_rest(vs)[m] == v0[m - 2]);
        assert(spec_is_pn_chars(v0[m - 2])) by {
            if m == 2 {
                assert(spec_is_pn_chars_u(v0[0]));
            }
        }
        lemma_pn_char_plain(v0[m - 2]);
    } else {
        assert(print_vars_rest(vs)[m] == print_vars_rest(rest)[m - 2 - v0.len()]);
        lemma_print_vars_rest_plain(rest, m - 2 - v0.len() as int);
    }
}

/// The parts of a printed instance, read off its occurrence at `i`.
proof fn lemma_instance_tag_parts(
    s: Seq<char>,
    i: int,
    p: Seq<char>,
    l: Seq<char>,
    vs: Seq<Seq<char>>,
)
    requires
        0 <= i,
        i + print_instance(p, l, vs).len() <= s.len(),
        sp_tag(s, i, print_instance(p, l, vs)),
    ensures
        sp_tag(s, i, p),
        s[i + p.len()] == ':',
        sp_tag(s, i + p.len() + 1, l),
        s[i + p.len() + 1 + l.len()] == '(',
        sp_tag(s, i + p.len() + 2 + l.len(), print_vars_inner(vs)),
        s[i + p.len() + 2 + l.len() + print_vars_inner(vs).len()] == ')',
{
    let pl = p.len() as int;
    let ll = l.len() as int;
    let inner = print_vars_inner(vs);
    let il = inner.len() as int;
    assert(print_instance(p, l, vs) =~= ((((p + seq![':']) + l) + seq!['(']) + inner)
        + seq![')']);
    lemma_tag_concat(s, i, (((p + seq![':']) + l) + seq!['(']) + inner, seq![')']);
    lemma_tag_concat(s, i, ((p + seq![':']) + l) + seq!['('], inner);
    lemma_tag_concat(s, i, (p + seq![':']) + l, seq!['(']);
    lemma_tag_concat(s, i, p + seq![':'], l);
    lemma_tag_concat(s, i, p, seq![':']);
    assert(s[i + pl + 0] == seq![':'][0]);
    assert(s[i + pl + 1 + ll + 0] == seq!['('][0]);
    assert(s[i + pl + 2 + ll + il + 0] == seq![')'][0]);
}

/// An instance standing at `i`: a prefixed name with plain segments
/// applied to variables with plain names, not followed by whitespace,
/// parses as exactly its printed text, with no list expander.
#[verifier::rlimit(80)]
proof fn lemma_instance_at(s: Seq<char>, i: int, p: Seq<char>, l: Seq<char>, vs: Seq<Seq<char>>)
    requires
        simple_prefix(p),
        simple_local(l),
        forall|k: int| 0 <= k < vs.len() ==> simple_label(#[trigger] vs[k]),
        0 <= i,
        i + print_instance(p, l, vs).len() <= s.len(),
        sp_tag(s, i, print_instance(p, l, vs)),
        ({
            let e = i + print_instance(p, l, vs).len();
            e == s.len() || !spec_is_ws(s[e])
        }),
    ensures
        sp_instance(s, i) == Some(
            (
                SpInstance {
                    list_expander: None,
                    template_name: SpName::Prefixed { prefix: p, name: l },
                    argument_list: vars_args(vs),
                },
                i + print_instance(p, l, vs).len() as int,
            ),
        ),
{
    let pr = print_instance(p, l, vs);
    let pl = p.len() as int;
    let ll = l.len() as int;
    let inner = print_vars_inner(vs);
    let il = inner.len() as int;
    let e = i + pr.len() as int;
    assert forall|m: int| 0 <= m < pr.len() implies s[i + m] != '|' && !spec_is_ws(
        #[trigger] s[i + m],
    ) by {
        lemma_print_instance_plain(p, l, vs, m);
        assert(s[i + m] == pr[m]);
    }
    // split the printed text into its parts
    lemma_instance_tag_parts(s, i, p, l, vs);
    let ne = i + pl + 1 + ll;
    assert(s[i + 0] == p[0]);
    assert(ws_end(s, i) == i);
    // an expander tag may happen to match the head of the name, but it
    // then lies within the name, and no pipe can follow it
    match sp_list_expander(s, i) {
        Some((ex, j)) => {
            assert(i < j <= s.len() && j <= i + 6) by {
                reveal_strlit("cross");
                reveal_strlit("zipMin");
                reveal_strlit("zipMax");
            }
            assert(j < e) by {
                reveal_strlit("cross");
                reveal_strlit("zipMin");
                reveal_strlit("zipMax");
                if sp_tag(s, i, "cross"@) {
                    if pl < 5 {
                        assert(s[i + pl] == "cross"@[pl]);
                    }
                } else if sp_tag(s, i, "zipMin"@) {
                    if pl < 6 {
                        assert(s[i + pl] == "zipMin"@[pl]);
                    }
                } else {
                    if pl < 6 {
                        assert(s[i + pl] == "zipMax"@[pl]);
                    }
                }
            }
            assert(!spec_is_ws(s[j]) && s[j] != '|');
            assert(ws_end(s, j) == j);
        },
        None => {},
    }
    // the name, then the argument list
    assert(!spec_is_pn_chars('(') && '(' != '.' && '(' != ':' && '(' != '%' && '(' != '\\') by {
        assert('(' as u32 == 40);
    }
    lemma_prefixed_name_at(s, i, p, l);
    assert(ws_end(s, ne) == ne);
    lemma_var_args_at(s, ne + 1, vs);
    assert(ws_end(s, e) == e);
}

/// Round trip for an instance: a prefixed name with plain segments applied
/// to variables with plain names parses back to exactly that instance —
/// no list expander, that name, those variables in order — and consumes
/// the whole input.
pub proof fn lemma_instance_round_trip(p: Seq<char>, l: Seq<char>, vs: Seq<Seq<char>>)
    ensures
        (simple_prefix(p) && simple_local(l) && (forall|k: int|
            0 <= k < vs.len() ==> simple_label(#[trigger] vs[k]))) ==> sp_instance(
            print_instance(p, l, vs),
            0,
        ) == Some(
            (
                SpInstance {
                    list_expander: None,
                    template_name: SpName::Prefixed { prefix: p, name: l },
                    argument_list: vars_args(vs),
                },
                print_instance(p, l, vs).len() as int,
            ),
        ),
{
    if simple_prefix(p) && simple_local(l) && (forall|k: int|
        0 <= k < vs.len() ==> simple_label(#[trigger] vs[k])) {
        let s = print_instance(p, l, vs);
        assert(sp_tag(s, 0, s)) by {
            assert forall|m: int| 0 <= m < s.len() implies s[0 + m] == #[trigger] s[m] by {}
        }
        lemma_instance_at(s, 0, p, l, vs);
    }
}

/// The printed form of an instance statement: the instance and its
/// closing period.
pub open spec fn print_instance_statement(p: Seq<char>, l: Seq<char>, vs: Seq<Seq<char>>) -> Seq<
    char,
> {
    print_instance(p, l, vs) + seq!['.']
}

/// A signature cannot begin where an instance's argument list opens: the
/// name is followed by `(`, not `[`.
proof fn lemma_no_signature_at(s: Seq<char>, i: int, p: Seq<char>, l: Seq<char>)
    requires
        simple_prefix(p),
        simple_local(l),
        0 <= i,
        i + p.len() + 1 + l.len() < s.len(),
        sp_tag(s, i, p),
        s[i + p.len()] == ':',
        sp_tag(s, i + p.len() + 1, l),
        s[i + p.len() + 1 + l.len()] == '(',
    ensures
        sp_signature(s, i) is None,
        sp_template(s, i) is None,
{
    assert(!spec_is_pn_chars('(') && '(' != '.' && '(' != ':' && '(' != '%' && '(' != '\\'
        && !spec_is_ws('(')) by {
        assert('(' as u32 == 40);
    }
    lemma_prefixed_name_at(s, i, p, l);
    let ne = i + p.len() + 1 + l.len() as int;
    assert(ws_end(s, ne) == ne);
}

/// Round trip for an instance statement: the printed instance followed by
/// `.` parses as a statement wrapping exactly that instance and consumes
/// the whole input.
pub proof fn lemma_instance_statement_round_trip(p: Seq<char>, l: Seq<char>, vs: Seq<Seq<char>>)
    ensures
        (simple_prefix(p) && simple_local(l) && (forall|k: int|
            0 <= k < vs.len() ==> simple_label(#[trigger] vs[k]))) ==> sp_statement(
            print_instance_statement(p, l, vs),
            0,
        ) == Some(
            (
                SpStatement::Instance(
                    SpInstance {
                        list_expander: None,
                        template_name: SpName::Prefixed { prefix: p, name: l },
                        argument_list: vars_args(vs),
                    },
                ),
                print_instance_statement(p, l, vs).len() as int,
            ),
        ),
{
    if simple_prefix(p) && simple_local(l) && (forall|k: int|
        0 <= k < vs.len() ==> simple_label(#[trigger] vs[k])) {
        let s = print_instance_statement(p, l, vs);
        let pr = print_instance(p, l, vs);
        let pl = p.len() as int;
        let ll = l.len() as int;
        let e = pr.len() as int;
        assert(sp_tag(s, 0, pr)) by {
            assert forall|m: int| 0 <= m < pr.len() implies s[0 + m] == pr[m] by {
                assert(s[m] == (pr + seq!['.'])[m]);
            }
        }
        assert(s[e] == '.');
        assert(!spec_is_ws('.')) by {
            assert('.' as u32 == 46);
        }
        lemma_instance_tag_parts(s, 0, p, l, vs);
        lemma_no_signature_at(s, 0, p, l);
        lemma_instance_at(s, 0, p, l, vs);
        assert(ws_end(s, e) == e);
    }
}

// ---------------------------------------------------------------------------
// Literals.
// ---------------------------------------------------------------------------

/// A lexical value that a double-quoted string can carry verbatim: no
/// quote, no backslash, no line break.
pub open spec fn simple_string_value(v: Seq<char>) -> bool {
    forall|k: int|
        0 <= k < v.len() ==> #[trigger] v[k] != '"' && v[k] != '\\' && v[k] != '\n' && v[k]
            != '\r'
}

/// The printed form of a plain string literal.
pub open spec fn print_string(v: Seq<char>) -> Seq<char> {
    seq!['"'] + v + seq!['"']
}

proof fn lemma_sl_stop_run(s: Seq<char>, i: int, e: int, q: char)
    requires
        0 <= i <= e < s.len(),
        forall|k: int|
            i <= k < e ==> #[trigger] s[k] != q && s[k] != '\\' && s[k] != '\n' && s[k]
                != '\r',
        s[e] == q || s[e] == '\n' || s[e] == '\r',
    ensures
        sl_stop(s, i, q) == Some(e),
    decreases e - i,
{
    if i < e {
        lemma_sl_stop_run(s, i + 1, e, q);
    }
}

/// Round trip for a plain string literal: quoting any value free of
/// quotes, backslashes and line breaks, and parsing it back, yields a
/// string-typed literal with exactly that value and consumes the whole
/// input.
pub proof fn lemma_string_literal_round_trip(v: Seq<char>)
    ensures
        simple_string_value(v) ==> sp_literal(print_string(v), 0) == Some(
            (
                SpLiteral {
                    value: v,
                    language: None,
                    data_type_iri: Some(SpName::Named(xsd_string_text())),
                },
                v.len() + 2int,
            ),
        ),
{
    if simple_string_value(v) {
        let s = print_string(v);
        assert(s[0] == '"');
        assert(s[s.len() - 1] == '"');
        assert forall|k: int|
            1 <= k < s.len() - 1 implies #[trigger] s[k] != '"' && s[k] != '\\' && s[k]
            != '\n' && s[k] != '\r' by {
            assert(s[k] == v[k - 1]);
        }
        lemma_sl_stop_run(s, 1, s.len() - 1, '"');
        assert(s.subrange(1, s.len() - 1) =~= v);
        // nothing follows the closing quote: no language tag, no datatype
        assert(sp_lang_tag(s, s.len() as int) is None);
    }
}

proof fn lemma_digit_run(s: Seq<char>, i: int, e: int)
    requires
        0 <= i <= e <= s.len(),
        forall|k: int| i <= k < e ==> spec_is_digit(#[trigger] s[k]),
        e == s.len() || !spec_is_digit(s[e]),
    ensures
        digit_run_end(s, i) == e,
    decreases e - i,
{
    if i < e {
        lemma_digit_run(s, i + 1, e);
    }
}

/// Round trip for an integer literal: a nonempty run of digits parses as
/// an integer-typed literal with exactly that text and consumes the whole
/// input.
pub proof fn lemma_integer_literal_round_trip(d: Seq<char>)
    ensures
        (d.len() > 0 && (forall|k: int| 0 <= k < d.len() ==> spec_is_digit(#[trigger] d[k])))
            ==> sp_literal(d, 0) == Some(
            (
                SpLiteral {
                    value: d,
                    language: None,
                    data_type_iri: Some(SpName::Named(xsd_integer_text())),
                },
                d.len() as int,
            ),
        ),
{
    if d.len() > 0 && (forall|k: int| 0 <= k < d.len() ==> spec_is_digit(#[trigger] d[k])) {
        let n = d.len() as int;
        assert(spec_is_digit(d[0]));
        // no string literal: a digit opens no quote form
        assert(d[0] != '"' && d[0] != '\'') by {
            assert('0' as u32 == 48 && '9' as u32 == 57);
        }
        // the digit run covers the whole input
        lemma_digit_run(d, 0, n);
        assert(sign_end(d, 0) == 0);
        // no decimal point and no exponent follow
        assert(sp_exponent(d, n) is None);
        assert(d.subrange(0, n) =~= d);
    }
}

/// Round trip for the boolean literals: the texts `true` and `false` parse
/// as boolean-typed literals with exactly those values, consuming the
/// whole input.
pub proof fn lemma_boolean_literal_round_trip()
    ensures
        sp_literal("true"@, 0) == Some(
            (
                SpLiteral {
                    value: "true"@,
                    language: None,
                    data_type_iri: Some(SpName::Named(xsd_boolean_text())),
                },
                4int,
            ),
        ),
        sp_literal("false"@, 0) == Some(
            (
                SpLiteral {
                    value: "false"@,
                    language: None,
                    data_type_iri: Some(SpName::Named(xsd_boolean_text())),
                },
                5int,
            ),
        ),
{
    reveal_strlit("true");
    reveal_strlit("false");
    let t = "true"@;
    let f = "false"@;
    assert(sp_tag(t, 0, "true"@));
    assert(sp_tag(f, 0, "false"@));
    assert(!sp_tag(f, 0, "true"@)) by {
        assert(f[0int + 1] == 'a');
    }
}

// ---------------------------------------------------------------------------
// Documents.
// ---------------------------------------------------------------------------

/// No directive form starts where a printed instance stands: its name
/// opens with a letter, not `@`, and even when the name happens to begin
/// with a directive keyword, no bracketed IRI follows.
proof fn lemma_no_directive_at(s: Seq<char>, i: int, p: Seq<char>, l: Seq<char>, vs: Seq<Seq<char>>)
    requires
        simple_prefix(p),
        simple_local(l),
        0 <= i,
        i + print_instance(p, l, vs).len() <= s.len(),
        sp_tag(s, i, p),
        s[i + p.len()] == ':',
        sp_tag(s, i + p.len() + 1, l),
        s[i + p.len() + 1 + l.len()] == '(',
    ensures
        sp_directive(s, i) is None,
{
    let pl = p.len() as int;
    let ll = l.len() as int;
    assert(s[i + 0] == p[0]);
    assert(!spec_is_ws(s[i])) by {
        lemma_pn_char_plain(p[0]);
    }
    assert(ws_end(s, i) == i);
    // not a `@prefix` directive: the first character is a letter
    if sp_tag(s, i, "@prefix"@) {
        reveal_strlit("@prefix");
        assert(s[i + 0] == "@prefix"@[0]);
        assert(spec_is_pn_chars_base(p[0]));
        assert(false);
    }
    // the characters of the name region and the parenthesis are never `<`
    assert forall|m: int| i + 1 <= m <= i + pl + 1 + ll implies #[trigger] s[m] != '<' by {
        if m < i + pl {
            assert(s[i + (m - i)] == p[m - i]);
            assert(spec_is_pn_chars(p[m - i]));
        } else if m == i + pl {
            assert(s[m] == ':');
        } else if m < i + pl + 1 + ll {
            assert(s[i + pl + 1 + (m - i - pl - 1)] == l[m - i - pl - 1]);
            assert(spec_is_pn_chars(l[m - i - pl - 1])) by {
                if m - i - pl - 1 == 0 {
                    assert(spec_is_pn_chars_u(l[0]) || spec_is_digit(l[0]));
                }
            }
        } else {
            assert(s[m] == '(');
        }
    }
    // not a base directive: whatever `BASE` overlaps, no `<` follows it
    if sp_tag(s, i, "BASE"@) {
        reveal_strlit("BASE");
        if pl < 4 {
            assert(s[i + pl] == "BASE"@[pl]);
            assert(false);
        }
        assert(s[i + 4] != '<');
        assert(sp_iri_ref(s, i + 4) is None);
    }
    // not a SPARQL-style prefix directive: whatever `PREFIX` overlaps, the
    // namespace token it may read ends before `(` or a local character,
    // never before `<`
    if sp_tag(s, i, "PREFIX"@) {
        reveal_strlit("PREFIX");
        if pl < 6 {
            assert(s[i + pl] == "PREFIX"@[pl]);
            assert(false);
        }
        let b = i + 6;
        if pl == 6 {
            assert(s[b] == ':');
            assert(sp_pn_prefix(s, b) is None);
            assert(sp_pname_ns(s, b) == Some((Seq::<char>::empty(), b + 1)));
            assert(s[b + 1] != '<');
            assert(sp_iri_ref(s, b + 1) is None);
        } else {
            assert(s[i + 6] == p[6]);
            if spec_is_pn_chars_base(p[6]) {
                assert forall|k: int| b + 1 <= k < i + pl implies spec_is_pn_chars(
                    #[trigger] s[k],
                ) by {
                    assert(s[i + (k - i)] == p[k - i]);
                }
                assert(!spec_is_pn_chars(':') && ':' != '.') by {
                    assert(':' as u32 == 58);
                }
                if b + 1 < i + pl {
                    assert(s[b + 1] == p[7]);
                }
                lemma_name_segs_run(s, b + 1, i + pl);
                assert(sp_pn_prefix(s, b) is Some);
                assert(sp_pn_prefix(s, b)->Some_0.1 == i + pl);
                assert(sp_pname_ns(s, b) is Some);
                assert(sp_pname_ns(s, b)->Some_0.1 == i + pl + 1);
                assert(s[i + pl + 1] != '<');
                assert(sp_iri_ref(s, i + pl + 1) is None);
            } else {
                assert(spec_is_pn_chars(p[6]));
                assert(s[i + 6] != ':') by {
                    assert(':' as u32 == 58);
                }
                assert(sp_pn_prefix(s, b) is None);
                assert(sp_pname_ns(s, b) is None);
            }
        }
    }
}

/// Round trip for a one-statement document: the printed instance statement
/// parses as a document holding no directives and exactly that statement,
/// with nothing left over.
pub proof fn lemma_document_round_trip(p: Seq<char>, l: Seq<char>, vs: Seq<Seq<char>>)
    ensures
        (simple_prefix(p) && simple_local(l) && (forall|k: int|
            0 <= k < vs.len() ==> simple_label(#[trigger] vs[k]))) ==> sp_document(
            print_instance_statement(p, l, vs),
            0,
        ) == (
            Seq::<SpDirective>::empty(),
            seq![
                SpStatement::Instance(
                    SpInstance {
                        list_expander: None,
                        template_name: SpName::Prefixed { prefix: p, name: l },
                        argument_list: vars_args(vs),
                    },
                ),
            ],
            print_instance_statement(p, l, vs).len() as int,
        ),
{
    if simple_prefix(p) && simple_local(l) && (forall|k: int|
        0 <= k < vs.len() ==> simple_label(#[trigger] vs[k])) {
        let s = print_instance_statement(p, l, vs);
        let pr = print_instance(p, l, vs);
        let n = s.len() as int;
        assert(sp_tag(s, 0, pr)) by {
            assert forall|m: int| 0 <= m < pr.len() implies s[0 + m] == pr[m] by {
                assert(s[m] == (pr + seq!['.'])[m]);
            }
        }
        lemma_instance_tag_parts(s, 0, p, l, vs);
        assert(s[0int] == p[0]);
        assert(!spec_is_ws(s[0int])) by {
            lemma_pn_char_plain(p[0]);
        }
        assert(ws_end(s, 0) == 0);
        lemma_no_directive_at(s, 0, p, l, vs);
        lemma_instance_statement_round_trip(p, l, vs);
        // after the closing period the input ends: nothing more is parsed
        assert(ws_end(s, n) == n);
        assert(sp_directive(s, n) is None) by {
            reveal_strlit("@prefix");
            reveal_strlit("BASE");
            reveal_strlit("PREFIX");
            assert(ws_end(s, n) == n);
        }
        assert(sp_statement(s, n) is None) by {
            reveal_strlit("cross");
            reveal_strlit("zipMin");
            reveal_strlit("zipMax");
            assert(ws_end(s, n) == n);
        }
        assert(sp_document(s, n) == (Seq::<SpDirective>::empty(), Seq::<SpStatement>::empty(),
            n));
        let stmt = SpStatement::Instance(
            SpInstance {
                list_expander: None,
                template_name: SpName::Prefixed { prefix: p, name: l },
                argument_list: vars_args(vs),
            },
        );
        assert(seq![stmt] + Seq::<SpStatement>::empty() =~= seq![stmt]);
    }
}

/// A bracketed IRI reference standing at `i` parses as exactly its
/// printed text when its body is a valid absolute IRI of permitted
/// characters.
proof fn lemma_iri_ref_at(s: Seq<char>, i: int, body: Seq<char>)
    requires
        0 <= i,
        i + body.len() + 2 <= s.len(),
        s[i] == '<',
        sp_tag(s, i + 1, body),
        s[i + 1 + body.len()] == '>',
        forall|k: int| 0 <= k < body.len() ==> !spec_is_iri_forbidden(#[trigger] body[k]),
        iri_text_ok(body),
    ensures
        sp_iri_ref(s, i) == Some((body, i + body.len() + 2 as int)),
{
    let e = i + 1 + body.len() as int;
    assert forall|k: int| i + 1 <= k < e implies !spec_is_iri_forbidden(#[trigger] s[k]) by {
        assert(s[i + 1 + (k - i - 1)] == body[k - i - 1]);
    }
    lemma_iri_run(s, i + 1, e);
    assert(s.subrange(i + 1, e) =~= body);
}

/// The printed form of a namespace directive: `@prefix name: <iri> .`.
pub open spec fn print_prefix_directive(pn: Seq<char>, iri: Seq<char>) -> Seq<char> {
    "@prefix"@ + seq![' '] + pn + seq![':', ' ', '<'] + iri + seq!['>', ' ', '.']
}

/// Round trip for a namespace directive whose prefix name is one plain
/// run and whose IRI is valid text of permitted characters: parsing the
/// printed directive yields that binding and consumes the whole input.
pub proof fn lemma_prefix_directive_round_trip(pn: Seq<char>, iri: Seq<char>)
    ensures
        (simple_prefix(pn) && (forall|k: int|
            0 <= k < iri.len() ==> !spec_is_iri_forbidden(#[trigger] iri[k])) && iri_text_ok(
            iri,
        )) ==> sp_directive(print_prefix_directive(pn, iri), 0) == Some(
            (
                SpDirective::Prefix(SpPrefix { name: pn, iri: iri }),
                print_prefix_directive(pn, iri).len() as int,
            ),
        ),
{
    reveal_strlit("@prefix");
    if simple_prefix(pn) && (forall|k: int|
        0 <= k < iri.len() ==> !spec_is_iri_forbidden(#[trigger] iri[k])) && iri_text_ok(iri) {
        let s = print_prefix_directive(pn, iri);
        let pl = pn.len() as int;
        let il = iri.len() as int;
        // the pieces of the printed text
        assert(sp_tag(s, 0, "@prefix"@) && s[7int] == ' ' && sp_tag(s, 8, pn) && s[8 + pl] == ':'
            && s[8 + pl + 1] == ' ' && s[8 + pl + 2] == '<' && sp_tag(s, 8 + pl + 3, iri) && s[8
            + pl + 3 + il] == '>' && s[8 + pl + 3 + il + 1] == ' ' && s[8 + pl + 3 + il + 2]
            == '.') by {
            assert(s =~= (((((("@prefix"@ + seq![' ']) + pn) + seq![':', ' ', '<']) + iri)
                + seq!['>', ' ', '.'])));
            lemma_tag_concat(s, 0, (("@prefix"@ + seq![' ']) + pn + seq![':', ' ', '<']) + iri,
                seq!['>', ' ', '.']);
            assert((("@prefix"@ + seq![' ']) + pn + seq![':', ' ', '<']) + iri + seq!['>', ' ', '.']
                =~= s);
            lemma_tag_concat(s, 0, ("@prefix"@ + seq![' ']) + pn + seq![':', ' ', '<'], iri);
            lemma_tag_concat(s, 0, ("@prefix"@ + seq![' ']) + pn, seq![':', ' ', '<']);
            lemma_tag_concat(s, 0, "@prefix"@ + seq![' '], pn);
            lemma_tag_concat(s, 0, "@prefix"@, seq![' ']);
            assert(s[7int] == seq![' '][0]);
            assert(s[8 + pl + 0] == seq![':', ' ', '<'][0]);
            assert(s[8 + pl + 1] == seq![':', ' ', '<'][1]);
            assert(s[8 + pl + 2] == seq![':', ' ', '<'][2]);
            assert(s[8 + pl + 3 + il + 0] == seq!['>', ' ', '.'][0]);
            assert(s[8 + pl + 3 + il + 1] == seq!['>', ' ', '.'][1]);
            assert(s[8 + pl + 3 + il + 2] == seq!['>', ' ', '.'][2]);
        }
        assert(s[0int] == '@');
        assert(ws_end(s, 0) == 0);
        // whitespace runs: one space before the name, one before the IRI,
        // one before the period
        assert(s[8int] == pn[0]);
        assert(!spec_is_ws(pn[0])) by {
            lemma_pn_char_plain(pn[0]);
        }
        assert(ws_end(s, 8) == 8);
        assert(ws_end(s, 7) == 8);
        // the namespace token
        assert forall|k: int| 9 <= k < 8 + pl implies spec_is_pn_chars(#[trigger] s[k]) by {
            assert(s[8 + (k - 8)] == pn[k - 8]);
        }
        assert(!spec_is_pn_chars(':') && ':' != '.') by {
            assert(':' as u32 == 58);
        }
        if pl > 1 {
            assert(s[9int] == pn[1]);
        }
        lemma_name_segs_run(s, 9, 8 + pl);
        assert(sp_pn_prefix(s, 8) == Some((seq![s[8int]] + s.subrange(9, 8 + pl), 8 + pl)));
        assert(seq![s[8int]] + s.subrange(9, 8 + pl) =~= pn);
        assert(sp_pname_ns(s, 8) == Some((pn, 8 + pl + 1)));
        // the IRI reference
        assert(!spec_is_ws('<')) by {
            assert('<' as u32 == 60);
        }
        assert(ws_end(s, 8 + pl + 2) == 8 + pl + 2);
        assert(ws_end(s, 8 + pl + 1) == 8 + pl + 2);
        lemma_iri_ref_at(s, 8 + pl + 2, iri);
        // the closing period
        let e = 8 + pl + 2 + il + 2;
        assert(!spec_is_ws('.')) by {
            assert('.' as u32 == 46);
        }
        assert(ws_end(s, e + 1) == e + 1);
        assert(ws_end(s, e) == e + 1);
        assert(s[e + 1] == '.');
    }
}

/// Round trip for a one-directive document: the printed namespace
/// directive parses as a document holding exactly that directive and no
/// statements, with nothing left over.
pub proof fn lemma_directive_document_round_trip(pn: Seq<char>, iri: Seq<char>)
    ensures
        (simple_prefix(pn) && (forall|k: int|
            0 <= k < iri.len() ==> !spec_is_iri_forbidden(#[trigger] iri[k])) && iri_text_ok(
            iri,
        )) ==> sp_document(print_prefix_directive(pn, iri), 0) == (
            seq![SpDirective::Prefix(SpPrefix { name: pn, iri: iri })],
            Seq::<SpStatement>::empty(),
            print_prefix_directive(pn, iri).len() as int,
        ),
{
    if simple_prefix(pn) && (forall|k: int|
        0 <= k < iri.len() ==> !spec_is_iri_forbidden(#[trigger] iri[k])) && iri_text_ok(iri) {
        let s = print_prefix_directive(pn, iri);
        let n = s.len() as int;
        lemma_prefix_directive_round_trip(pn, iri);
        assert(s[0int] == '@') by {
            reveal_strlit("@prefix");
        }
        assert(ws_end(s, 0) == 0);
        assert(ws_end(s, n) == n);
        assert(sp_directive(s, n) is None) by {
            reveal_strlit("@prefix");
            reveal_strlit("BASE");
            reveal_strlit("PREFIX");
            assert(ws_end(s, n) == n);
        }
        assert(sp_statement(s, n) is None) by {
            reveal_strlit("cross");
            reveal_strlit("zipMin");
            reveal_strlit("zipMax");
            assert(ws_end(s, n) == n);
        }
        assert(sp_document(s, n) == (Seq::<SpDirective>::empty(), Seq::<SpStatement>::empty(),
            n));
        let d = SpDirective::Prefix(SpPrefix { name: pn, iri: iri });
        assert(seq![d] + Seq::<SpDirective>::empty() =~= seq![d]);
    }
}

} // verus!
