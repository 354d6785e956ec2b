//! Terms and arguments: constant literals, constant terms and constant
//! lists, general terms and term lists, and comma-separated argument lists.
use vstd::prelude::*;

use crate::ast::{
    Argument, ConstantLiteral, ConstantTerm, SpArgument, SpConstantLiteral, SpConstantTerm,
    SpTerm, Term, args_view, argument_view, constant_literal_view, constant_term_view,
    cterms_view, lemma_args_view_cons, lemma_cterms_view_cons, lemma_terms_view_cons, term_view,
    terms_view,
};
use crate::literals::{blank_node, literal, sp_blank_node, sp_literal};
use crate::names::{iri, sp_iri, sp_variable, variable};
use crate::scan::{has_tag, skip_ws, sp_tag, ws_end};

verus! {

broadcast use vstd::seq::group_seq_axioms;

// ---------------------------------------------------------------------------
// Constant literals.
// ---------------------------------------------------------------------------

/// An atomic constant: a name, a blank node, a literal, or the keyword
/// `none`, in that order.
pub open spec fn sp_constant_literal(s: Seq<char>, i: int) -> Option<(SpConstantLiteral, int)> {
    match sp_iri(s, i) {
        Some((n, j)) => Some((SpConstantLiteral::Iri(n), j)),
        None => match sp_blank_node(s, i) {
            Some((b, j)) => Some((SpConstantLiteral::BlankNode(b), j)),
            None => match sp_literal(s, i) {
                Some((l, j)) => Some((SpConstantLiteral::Literal(l), j)),
                None => if sp_tag(s, i, "none"@) {
                    Some((SpConstantLiteral::Absent, i + 4))
                } else {
                    None
                },
            },
        },
    }
}

/// Parses an atomic constant.
pub fn constant_literal(s: &Vec<char>, i: usize) -> (r: Option<(ConstantLiteral, usize)>)
    requires
        i <= s@.len(),
    ensures
        match r {
            Some((c, j)) => i < j <= s@.len() && sp_constant_literal(s@, i as int) == Some((
                constant_literal_view(c),
                j as int,
            )),
            None => sp_constant_literal(s@, i as int) is None,
        },
{
    let n = s.len();
    match iri(s, i) {
        Some((nm, j)) => Some((ConstantLiteral::Iri(nm), j)),
        None => match blank_node(s, i) {
            Some((b, j)) => Some((ConstantLiteral::BlankNode(b), j)),
            None => match literal(s, i) {
                Some((l, j)) => Some((ConstantLiteral::Literal(l), j)),
                None => {
                    if has_tag(s, i, "none") {
                        proof {
                            reveal_strlit("none");
                            assert(i + 4 <= n);
                        }
                        Some((ConstantLiteral::Absent, i + 4))
                    } else {
                        None
                    }
                },
            },
        },
    }
}

// ---------------------------------------------------------------------------
// Constant terms: a parenthesized constant list or a single constant, with
// surrounding whitespace.
// ---------------------------------------------------------------------------

/// A parenthesized, comma-separated constant list.
pub open spec fn sp_constant_term_list(s: Seq<char>, i: int) -> Option<(SpConstantTerm, int)>
    decreases s.len() - i, 0int,
{
    if 0 <= i < s.len() && s[i] == '(' {
        let w0 = ws_end(s, i + 1);
        if i + 1 <= w0 <= s.len() {
            let (elems, j) = sp_cterms(s, w0);
            let w1 = ws_end(s, j);
            if w1 < s.len() && s[w1] == ')' {
                Some((SpConstantTerm::ConstantList(elems), w1 + 1))
            } else {
                None
            }
        } else {
            None
        }
    } else {
        None
    }
}

/// A constant term: whitespace, a constant list or a single constant, and
/// whitespace again.
pub open spec fn sp_constant_term(s: Seq<char>, i: int) -> Option<(SpConstantTerm, int)>
    decreases s.len() - i, 1int,
{
    let w = ws_end(s, i);
    if i <= w <= s.len() {
        match sp_constant_term_list(s, w) {
            Some((t, j)) => Some((t, ws_end(s, j))),
            None => match sp_constant_literal(s, w) {
                Some((l, j)) => Some((SpConstantTerm::Constant(l), ws_end(s, j))),
                None => None,
            },
        }
    } else {
        None
    }
}

/// The comma-separated constant terms of a constant list: zero or more.
pub open spec fn sp_cterms(s: Seq<char>, i: int) -> (Seq<SpConstantTerm>, int)
    decreases s.len() - i, 2int,
{
    match sp_constant_term(s, i) {
        None => (Seq::empty(), i),
        Some((t, j)) => if i < j && j <= s.len() {
            let (rest, e) = sp_cterms_rest(s, j);
            (seq![t] + rest, e)
        } else {
            (Seq::empty(), i)
        },
    }
}

/// Further `,`-separated constant terms; a comma not followed by a constant
/// term is left unconsumed.
pub open spec fn sp_cterms_rest(s: Seq<char>, i: int) -> (Seq<SpConstantTerm>, int)
    decreases s.len() - i, 3int,
{
    if 0 <= i < s.len() && s[i] == ',' {
        match sp_constant_term(s, i + 1) {
            Some((t, j)) => if i + 1 < j && j <= s.len() {
                let (rest, e) = sp_cterms_rest(s, j);
                (seq![t] + rest, e)
            } else {
                (Seq::empty(), i)
            },
            None => (Seq::empty(), i),
        }
    } else {
        (Seq::empty(), i)
    }
}

/// Parses a parenthesized constant list.
pub fn constant_term_list(s: &Vec<char>, i: usize) -> (r: Option<(ConstantTerm, usize)>)
    requires
        i <= s@.len(),
    ensures
        match r {
            Some((c, j)) => i < j <= s@.len() && sp_constant_term_list(s@, i as int) == Some((
                constant_term_view(c),
                j as int,
            )),
            None => sp_constant_term_list(s@, i as int) is None,
        },
    decreases s@.len() - i, 0int,
{
    if !(i < s.len() && s[i] == '(') {
        return None;
    }
    let w0 = skip_ws(s, i + 1);
    let (elems, j) = cterms(s, w0);
    let w1 = skip_ws(s, j);
    if w1 < s.len() && s[w1] == ')' {
        Some((ConstantTerm::ConstantList(elems), w1 + 1))
    } else {
        None
    }
}

/// Parses a constant term.
pub fn constant_term(s: &Vec<char>, i: usize) -> (r: Option<(ConstantTerm, usize)>)
    requires
        i <= s@.len(),
    ensures
        match r {
            Some((c, j)) => i < j <= s@.len() && sp_constant_term(s@, i as int) == Some((
                constant_term_view(c),
                j as int,
            )),
            None => sp_constant_term(s@, i as int) is None,
        },
    decreases s@.len() - i, 1int,
{
    let w = skip_ws(s, i);
    match constant_term_list(s, w) {
        Some((t, j)) => {
            let j2 = skip_ws(s, j);
            Some((t, j2))
        },
        None => match constant_literal(s, w) {
            Some((l, j)) => {
                let j2 = skip_ws(s, j);
                Some((ConstantTerm::Constant(l), j2))
            },
            None => None,
        },
    }
}

/// Parses the comma-separated constant terms of a constant list.
pub fn cterms(s: &Vec<char>, i: usize) -> (r: (Vec<ConstantTerm>, usize))
    requires
        i <= s@.len(),
    ensures
        cterms_view(r.0@) == sp_cterms(s@, i as int).0,
        r.1 as int == sp_cterms(s@, i as int).1,
        i <= r.1 <= s@.len(),
    decreases s@.len() - i, 2int,
{
    match constant_term(s, i) {
        None => (Vec::new(), i),
        Some((t, j)) => {
            let (mut rest, e) = cterms_rest(s, j);
            let ghost restv = rest@;
            let mut out: Vec<ConstantTerm> = Vec::new();
            out.push(t);
            out.append(&mut rest);
            proof {
                assert(out@ =~= seq![out@[0]] + restv);
                lemma_cterms_view_cons(out@[0], restv);
            }
            (out, e)
        },
    }
}

/// Parses further `,`-separated constant terms.
pub fn cterms_rest(s: &Vec<char>, i: usize) -> (r: (Vec<ConstantTerm>, usize))
    requires
        i <= s@.len(),
    ensures
        cterms_view(r.0@) == sp_cterms_rest(s@, i as int).0,
        r.1 as int == sp_cterms_rest(s@, i as int).1,
        i <= r.1 <= s@.len(),
    decreases s@.len() - i, 3int,
{
    if i < s.len() && s[i] == ',' {
        match constant_term(s, i + 1) {
            Some((t, j)) => {
                let (mut rest, e) = cterms_rest(s, j);
                let ghost restv = rest@;
                let mut out: Vec<ConstantTerm> = Vec::new();
                out.push(t);
                out.append(&mut rest);
                proof {
                    assert(out@ =~= seq![out@[0]] + restv);
                    lemma_cterms_view_cons(out@[0], restv);
                }
                (out, e)
            },
            None => (Vec::new(), i),
        }
    } else {
        (Vec::new(), i)
    }
}

// ---------------------------------------------------------------------------
// General terms: a variable, a constant term, or a parenthesized term list.
// ---------------------------------------------------------------------------

/// A term: a variable, a constant term, or a term list, in that order.
pub open spec fn sp_term(s: Seq<char>, i: int) -> Option<(SpTerm, int)>
    decreases s.len() - i, 1int,
{
    match sp_variable(s, i) {
        Some((v, j)) => Some((SpTerm::Variable(v), j)),
        None => match sp_constant_term(s, i) {
            Some((c, j)) => Some((SpTerm::ConstantTerm(c), j)),
            None => match sp_list(s, i) {
                Some((ts, j)) => Some((SpTerm::List(ts), j)),
                None => None,
            },
        },
    }
}

/// A parenthesized, comma-separated term list.
pub open spec fn sp_list(s: Seq<char>, i: int) -> Option<(Seq<SpTerm>, int)>
    decreases s.len() - i, 0int,
{
    if 0 <= i < s.len() && s[i] == '(' {
        let w0 = ws_end(s, i + 1);
        if i + 1 <= w0 <= s.len() {
            let (elems, j) = sp_terms(s, w0);
            let w1 = ws_end(s, j);
            if w1 < s.len() && s[w1] == ')' {
                Some((elems, w1 + 1))
            } else {
                None
            }
        } else {
            None
        }
    } else {
        None
    }
}

/// The comma-separated terms of a term list: zero or more.
pub open spec fn sp_terms(s: Seq<char>, i: int) -> (Seq<SpTerm>, int)
    decreases s.len() - i, 2int,
{
    match sp_term(s, i) {
        None => (Seq::empty(), i),
        Some((t, j)) => if i < j && j <= s.len() {
            let (rest, e) = sp_terms_rest(s, j);
            (seq![t] + rest, e)
        } else {
            (Seq::empty(), i)
        },
    }
}

/// Further `,`-separated terms; a comma not followed by a term is left
/// unconsumed.
pub open spec fn sp_terms_rest(s: Seq<char>, i: int) -> (Seq<SpTerm>, int)
    decreases s.len() - i, 3int,
{
    if 0 <= i < s.len() && s[i] == ',' {
        match sp_term(s, i + 1) {
            Some((t, j)) => if i + 1 < j && j <= s.len() {
                let (rest, e) = sp_terms_rest(s, j);
                (seq![t] + rest, e)
            } else {
                (Seq::empty(), i)
            },
            None => (Seq::empty(), i),
        }
    } else {
        (Seq::empty(), i)
    }
}

/// Parses a term.
pub fn term(s: &Vec<char>, i: usize) -> (r: Option<(Term, usize)>)
    requires
        i <= s@.len(),
    ensures
        match r {
            Some((t, j)) => i < j <= s@.len() && sp_term(s@, i as int) == Some((
                term_view(t),
                j as int,
            )),
            None => sp_term(s@, i as int) is None,
        },
    decreases s@.len() - i, 1int,
{
    match variable(s, i) {
        Some((v, j)) => Some((Term::Variable(v), j)),
        None => match constant_term(s, i) {
            Some((c, j)) => Some((Term::ConstantTerm(c), j)),
            None => match list(s, i) {
                Some((ts, j)) => Some((Term::List(ts), j)),
                None => None,
            },
        },
    }
}

/// Parses a parenthesized term list.
pub fn list(s: &Vec<char>, i: usize) -> (r: Option<(Vec<Term>, usize)>)
    requires
        i <= s@.len(),
    ensures
        match r {
            Some((ts, j)) => i < j <= s@.len() && sp_list(s@, i as int) == Some((
                terms_view(ts@),
                j as int,
            )),
            None => sp_list(s@, i as int) is None,
        },
    decreases s@.len() - i, 0int,
{
    if !(i < s.len() && s[i] == '(') {
        return None;
    }
    let w0 = skip_ws(s, i + 1);
    let (elems, j) = terms(s, w0);
    let w1 = skip_ws(s, j);
    if w1 < s.len() && s[w1] == ')' {
        Some((elems, w1 + 1))
    } else {
        None
    }
}

/// Parses the comma-separated terms of a term list.
pub fn terms(s: &Vec<char>, i: usize) -> (r: (Vec<Term>, usize))
    requires
        i <= s@.len(),
    ensures
        terms_view(r.0@) == sp_terms(s@, i as int).0,
        r.1 as int == sp_terms(s@, i as int).1,
        i <= r.1 <= s@.len(),
    decreases s@.len() - i, 2int,
{
    match term(s, i) {
        None => (Vec::new(), i),
        Some((t, j)) => {
            let (mut rest, e) = terms_rest(s, j);
            let ghost restv = rest@;
            let mut out: Vec<Term> = Vec::new();
            out.push(t);
            out.append(&mut rest);
            proof {
                assert(out@ =~= seq![out@[0]] + restv);
                lemma_terms_view_cons(out@[0], restv);
            }
            (out, e)
        },
    }
}

/// Parses further `,`-separated terms.
pub fn terms_rest(s: &Vec<char>, i: usize) -> (r: (Vec<Term>, usize))
    requires
        i <= s@.len(),
    ensures
        terms_view(r.0@) == sp_terms_rest(s@, i as int).0,
        r.1 as int == sp_terms_rest(s@, i as int).1,
        i <= r.1 <= s@.len(),
    decreases s@.len() - i, 3int,
{
    if i < s.len() && s[i] == ',' {
        match term(s, i + 1) {
            Some((t, j)) => {
                let (mut rest, e) = terms_rest(s, j);
                let ghost restv = rest@;
                let mut out: Vec<Term> = Vec::new();
                out.push(t);
                out.append(&mut rest);
                proof {
                    assert(out@ =~= seq![out@[0]] + restv);
                    lemma_terms_view_cons(out@[0], restv);
                }
                (out, e)
            },
            None => (Vec::new(), i),
        }
    } else {
        (Vec::new(), i)
    }
}

// ---------------------------------------------------------------------------
// Arguments.
// ---------------------------------------------------------------------------

/// One argument: whitespace, an optional `++` marker, a term, whitespace.
pub open spec fn sp_argument(s: Seq<char>, i: int) -> Option<(SpArgument, int)> {
    let w = ws_end(s, i);
    let expand = w + 1 < s.len() && s[w] == '+' && s[w + 1] == '+';
    let p = if expand {
        w + 2
    } else {
        w
    };
    match sp_term(s, p) {
        Some((t, j)) => Some((SpArgument { list_expand: expand, term: t }, ws_end(s, j))),
        None => None,
    }
}

/// Parses one argument.
pub fn argument(s: &Vec<char>, i: usize) -> (r: Option<(Argument, usize)>)
    requires
        i <= s@.len(),
    ensures
        match r {
            Some((a, j)) => i < j <= s@.len() && sp_argument(s@, i as int) == Some((
                argument_view(a),
                j as int,
            )),
            None => sp_argument(s@, i as int) is None,
        },
{
    let w = skip_ws(s, i);
    let expand = w < s.len() && s.len() - w > 1 && s[w] == '+' && s[w + 1] == '+';
    let p = if expand {
        w + 2
    } else {
        w
    };
    match term(s, p) {
        Some((t, j)) => {
            let j2 = skip_ws(s, j);
            Some((Argument { list_expand: expand, term: t }, j2))
        },
        None => None,
    }
}

/// The comma-separated arguments of an argument list: zero or more.
pub open spec fn sp_args(s: Seq<char>, i: int) -> (Seq<SpArgument>, int) {
    match sp_argument(s, i) {
        None => (Seq::empty(), i),
        Some((a, j)) => if i < j && j <= s.len() {
            let (rest, e) = sp_args_rest(s, j);
            (seq![a] + rest, e)
        } else {
            (Seq::empty(), i)
        },
    }
}

/// Further `,`-separated arguments; a comma not followed by an argument is
/// left unconsumed.
pub open spec fn sp_args_rest(s: Seq<char>, i: int) -> (Seq<SpArgument>, int)
    decreases s.len() - i,
{
    if 0 <= i < s.len() && s[i] == ',' {
        match sp_argument(s, i + 1) {
            Some((a, j)) => if i + 1 < j && j <= s.len() {
                let (rest, e) = sp_args_rest(s, j);
                (seq![a] + rest, e)
            } else {
                (Seq::empty(), i)
            },
            None => (Seq::empty(), i),
        }
    } else {
        (Seq::empty(), i)
    }
}

/// A parenthesized, comma-separated argument list; no trailing comma is
/// permitted.
pub open spec fn sp_argument_list(s: Seq<char>, i: int) -> Option<(Seq<SpArgument>, int)> {
    if 0 <= i < s.len() && s[i] == '(' {
        let (elems, j) = sp_args(s, i + 1);
        if j < s.len() && s[j] == ')' {
            Some((elems, j + 1))
        } else {
            None
        }
    } else {
        None
    }
}

/// Parses the comma-separated arguments of an argument list.
pub fn args(s: &Vec<char>, i: usize) -> (r: (Vec<Argument>, usize))
    requires
        i <= s@.len(),
    ensures
        args_view(r.0@) == sp_args(s@, i as int).0,
        r.1 as int == sp_args(s@, i as int).1,
        i <= r.1 <= s@.len(),
{
    match argument(s, i) {
        None => (Vec::new(), i),
        Some((a, j)) => {
            let (mut rest, e) = args_rest(s, j);
            let ghost restv = rest@;
            let mut out: Vec<Argument> = Vec::new();
            out.push(a);
            out.append(&mut rest);
            proof {
                assert(out@ =~= seq![out@[0]] + restv);
                lemma_args_view_cons(out@[0], restv);
            }
            (out, e)
        },
    }
}

/// Parses further `,`-separated arguments.
pub fn args_rest(s: &Vec<char>, i: usize) -> (r: (Vec<Argument>, usize))
    requires
        i <= s@.len(),
    ensures
        args_view(r.0@) == sp_args_rest(s@, i as int).0,
        r.1 as int == sp_args_rest(s@, i as int).1,
        i <= r.1 <= s@.len(),
    decreases s@.len() - i,
{
    if i < s.len() && s[i] == ',' {
        match argument(s, i + 1) {
            Some((a, j)) => {
                let (mut rest, e) = args_rest(s, j);
                let ghost restv = rest@;
                let mut out: Vec<Argument> = Vec::new();
                out.push(a);
                out.append(&mut rest);
                proof {
                    assert(out@ =~= seq![out@[0]] + restv);
                    lemma_args_view_cons(out@[0], restv);
                }
                (out, e)
            },
            None => (Vec::new(), i),
        }
    } else {
        (Vec::new(), i)
    }
}

/// Parses a parenthesized argument list.
pub fn argument_list(s: &Vec<char>, i: usize) -> (r: Option<(Vec<Argument>, usize)>)
    requires
        i <= s@.len(),
    ensures
        match r {
            Some((xs, j)) => i < j <= s@.len() && sp_argument_list(s@, i as int) == Some((
                args_view(xs@),
                j as int,
            )),
            None => sp_argument_list(s@, i as int) is None,
        },
{
    if !(i < s.len() && s[i] == '(') {
        return None;
    }
    let (elems, j) = args(s, i + 1);
    if j < s.len() && s[j] == ')' {
        Some((elems, j + 1))
    } else {
        None
    }
}

} // verus!
