//! Statements, directives, and whole documents.
//!
//! A statement is one of template, instance, signature, or base template —
//! tried in that order — followed by `.`.  The alternatives commit: once
//! one of them matches, the closing `.` must follow what it consumed.
use vstd::prelude::*;

use crate::ast::{
    Annotation, BaseTemplate, Directive, Document, Instance, ListExpanderType, Prefix, Signature,
    SpAnnotation, SpBaseTemplate, SpDirective, SpDocument, SpInstance, SpPrefix, SpSignature,
    SpStatement, SpTemplate, Statement, Template, annos_view, annotation_view, directive_view,
    directives_view, instance_view, instances_view, lemma_annos_view_cons,
    lemma_directives_view_cons, lemma_instances_view_cons, lemma_params_view_cons,
    lemma_statements_view_cons, params_view, signature_view, statement_view,
    statements_view, template_view,
};
use crate::names::{iri, iri_ref, pname_ns, sp_iri, sp_iri_ref, sp_pname_ns};
use crate::params::{parameter, sp_parameter};
use crate::scan::{chars_of, has_tag, skip_ws, sp_tag, ws_end};
use crate::terms::{argument_list, sp_argument_list};

verus! {

broadcast use vstd::seq::group_seq_axioms;

use crate::ast::Iri;

// ---------------------------------------------------------------------------
// Instances.
// ---------------------------------------------------------------------------

/// A list expander tag: `cross`, `zipMin`, or `zipMax`.
pub open spec fn sp_list_expander(s: Seq<char>, i: int) -> Option<(ListExpanderType, int)> {
    if sp_tag(s, i, "cross"@) {
        Some((ListExpanderType::Cross, i + 5))
    } else if sp_tag(s, i, "zipMin"@) {
        Some((ListExpanderType::ZipMin, i + 6))
    } else if sp_tag(s, i, "zipMax"@) {
        Some((ListExpanderType::ZipMax, i + 6))
    } else {
        None
    }
}

/// Parses a list expander tag.
pub fn list_expander(s: &Vec<char>, i: usize) -> (r: Option<(ListExpanderType, usize)>)
    requires
        i <= s@.len(),
    ensures
        match r {
            Some((x, j)) => i < j <= s@.len() && sp_list_expander(s@, i as int) == Some((
                x,
                j as int,
            )),
            None => sp_list_expander(s@, i as int) is None,
        },
{
    let n = s.len();
    if has_tag(s, i, "cross") {
        proof {
            reveal_strlit("cross");
            assert(i + 5 <= n);
        }
        Some((ListExpanderType::Cross, i + 5))
    } else if has_tag(s, i, "zipMin") {
        proof {
            reveal_strlit("zipMin");
            assert(i + 6 <= n);
        }
        Some((ListExpanderType::ZipMin, i + 6))
    } else if has_tag(s, i, "zipMax") {
        proof {
            reveal_strlit("zipMax");
            assert(i + 6 <= n);
        }
        Some((ListExpanderType::ZipMax, i + 6))
    } else {
        None
    }
}

/// An instance: an optional `expander |` prefix, a name, and an argument
/// list, with surrounding whitespace.
pub open spec fn sp_instance(s: Seq<char>, i: int) -> Option<(SpInstance, int)> {
    let w = ws_end(s, i);
    let (exp, p) = match sp_list_expander(s, w) {
        Some((ex, j)) => {
            let w2 = ws_end(s, j);
            if w2 < s.len() && s[w2] == '|' {
                (Some(ex), ws_end(s, w2 + 1))
            } else {
                (None, w)
            }
        },
        None => (None, w),
    };
    match sp_iri(s, p) {
        None => None,
        Some((nm, j2)) => {
            let w3 = ws_end(s, j2);
            match sp_argument_list(s, w3) {
                Some((xs, j3)) => Some(
                    (
                        SpInstance {
                            list_expander: exp,
                            template_name: nm,
                            argument_list: xs,
                        },
                        ws_end(s, j3),
                    ),
                ),
                None => None,
            }
        },
    }
}

/// Parses an instance.
pub fn instance(s: &Vec<char>, i: usize) -> (r: Option<(Instance, usize)>)
    requires
        i <= s@.len(),
    ensures
        match r {
            Some((x, j)) => i < j <= s@.len() && sp_instance(s@, i as int) == Some((
                instance_view(x),
                j as int,
            )),
            None => sp_instance(s@, i as int) is None,
        },
{
    let w = skip_ws(s, i);
    let (exp, p) = match list_expander(s, w) {
        Some((ex, j)) => {
            let w2 = skip_ws(s, j);
            if w2 < s.len() && s[w2] == '|' {
                (Some(ex), skip_ws(s, w2 + 1))
            } else {
                (None, w)
            }
        },
        None => (None, w),
    };
    match iri(s, p) {
        None => None,
        Some((nm, j2)) => {
            let w3 = skip_ws(s, j2);
            match argument_list(s, w3) {
                Some((xs, j3)) => {
                    let e = skip_ws(s, j3);
                    Some((Instance { list_expander: exp, template_name: nm, argument_list: xs }, e))
                },
                None => None,
            }
        },
    }
}

// ---------------------------------------------------------------------------
// Annotations.
// ---------------------------------------------------------------------------

/// An annotation: `@@` followed by an instance, with surrounding
/// whitespace.
pub open spec fn sp_annotation(s: Seq<char>, i: int) -> Option<(SpAnnotation, int)> {
    let w = ws_end(s, i);
    if 0 <= w && w + 1 < s.len() && s[w] == '@' && s[w + 1] == '@' {
        match sp_instance(s, w + 2) {
            Some((ins, j)) => Some((SpAnnotation { instance: ins }, ws_end(s, j))),
            None => None,
        }
    } else {
        None
    }
}

/// Parses an annotation.
pub fn annotation(s: &Vec<char>, i: usize) -> (r: Option<(Annotation, usize)>)
    requires
        i <= s@.len(),
    ensures
        match r {
            Some((a, j)) => i < j <= s@.len() && sp_annotation(s@, i as int) == Some((
                annotation_view(a),
                j as int,
            )),
            None => sp_annotation(s@, i as int) is None,
        },
{
    let w = skip_ws(s, i);
    if w < s.len() && s.len() - w > 1 && s[w] == '@' && s[w + 1] == '@' {
        match instance(s, w + 2) {
            Some((ins, j)) => {
                let e = skip_ws(s, j);
                Some((Annotation { instance: ins }, e))
            },
            None => None,
        }
    } else {
        None
    }
}

/// One or more `,`-separated annotations.
pub open spec fn sp_annotations(s: Seq<char>, i: int) -> Option<(Seq<SpAnnotation>, int)> {
    match sp_annotation(s, i) {
        None => None,
        Some((a, j)) => if i < j && j <= s.len() {
            let (rest, e) = sp_annos_rest(s, j);
            Some((seq![a] + rest, e))
        } else {
            None
        },
    }
}

/// Further `,`-separated annotations.
pub open spec fn sp_annos_rest(s: Seq<char>, i: int) -> (Seq<SpAnnotation>, int)
    decreases s.len() - i,
{
    if 0 <= i < s.len() && s[i] == ',' {
        match sp_annotation(s, i + 1) {
            Some((a, j)) => if i + 1 < j && j <= s.len() {
                let (rest, e) = sp_annos_rest(s, j);
                (seq![a] + rest, e)
            } else {
                (Seq::empty(), i)
            },
            None => (Seq::empty(), i),
        }
    } else {
        (Seq::empty(), i)
    }
}

/// Parses one or more `,`-separated annotations.
pub fn annotation_list(s: &Vec<char>, i: usize) -> (r: Option<(Vec<Annotation>, usize)>)
    requires
        i <= s@.len(),
    ensures
        match r {
            Some((xs, j)) => i < j <= s@.len() && sp_annotations(s@, i as int) == Some((
                annos_view(xs@),
                j as int,
            )),
            None => sp_annotations(s@, i as int) is None,
        },
{
    match annotation(s, i) {
        None => None,
        Some((a, j)) => {
            let (mut rest, e) = annos_rest(s, j);
            let ghost restv = rest@;
            let mut out: Vec<Annotation> = Vec::new();
            out.push(a);
            out.append(&mut rest);
            proof {
                assert(out@ =~= seq![out@[0]] + restv);
                lemma_annos_view_cons(out@[0], restv);
            }
            Some((out, e))
        },
    }
}

/// Parses further `,`-separated annotations.
pub fn annos_rest(s: &Vec<char>, i: usize) -> (r: (Vec<Annotation>, usize))
    requires
        i <= s@.len(),
    ensures
        annos_view(r.0@) == sp_annos_rest(s@, i as int).0,
        r.1 as int == sp_annos_rest(s@, i as int).1,
        i <= r.1 <= s@.len(),
    decreases s@.len() - i,
{
    if i < s.len() && s[i] == ',' {
        match annotation(s, i + 1) {
            Some((a, j)) => {
                let (mut rest, e) = annos_rest(s, j);
                let ghost restv = rest@;
                let mut out: Vec<Annotation> = Vec::new();
                out.push(a);
                out.append(&mut rest);
                proof {
                    assert(out@ =~= seq![out@[0]] + restv);
                    lemma_annos_view_cons(out@[0], restv);
                }
                (out, e)
            },
            None => (Vec::new(), i),
        }
    } else {
        (Vec::new(), i)
    }
}

// ---------------------------------------------------------------------------
// Signatures.
// ---------------------------------------------------------------------------

/// Zero or more `,`-separated parameters.
pub open spec fn sp_params(s: Seq<char>, i: int) -> (Seq<crate::ast::SpParameter>, int) {
    match sp_parameter(s, i) {
        None => (Seq::empty(), i),
        Some((p, j)) => if i < j && j <= s.len() {
            let (rest, e) = sp_params_rest(s, j);
            (seq![p] + rest, e)
        } else {
            (Seq::empty(), i)
        },
    }
}

/// Further `,`-separated parameters.
pub open spec fn sp_params_rest(s: Seq<char>, i: int) -> (Seq<crate::ast::SpParameter>, int)
    decreases s.len() - i,
{
    if 0 <= i < s.len() && s[i] == ',' {
        match sp_parameter(s, i + 1) {
            Some((p, j)) => if i + 1 < j && j <= s.len() {
                let (rest, e) = sp_params_rest(s, j);
                (seq![p] + rest, e)
            } else {
                (Seq::empty(), i)
            },
            None => (Seq::empty(), i),
        }
    } else {
        (Seq::empty(), i)
    }
}

/// Parses the `,`-separated parameters of a signature.
pub fn params(s: &Vec<char>, i: usize) -> (r: (Vec<crate::ast::Parameter>, usize))
    requires
        i <= s@.len(),
    ensures
        params_view(r.0@) == sp_params(s@, i as int).0,
        r.1 as int == sp_params(s@, i as int).1,
        i <= r.1 <= s@.len(),
{
    match parameter(s, i) {
        None => (Vec::new(), i),
        Some((p, j)) => {
            let (mut rest, e) = params_rest(s, j);
            let ghost restv = rest@;
            let mut out: Vec<crate::ast::Parameter> = Vec::new();
            out.push(p);
            out.append(&mut rest);
            proof {
                assert(out@ =~= seq![out@[0]] + restv);
                lemma_params_view_cons(out@[0], restv);
            }
            (out, e)
        },
    }
}

/// Parses further `,`-separated parameters.
pub fn params_rest(s: &Vec<char>, i: usize) -> (r: (Vec<crate::ast::Parameter>, usize))
    requires
        i <= s@.len(),
    ensures
        params_view(r.0@) == sp_params_rest(s@, i as int).0,
        r.1 as int == sp_params_rest(s@, i as int).1,
        i <= r.1 <= s@.len(),
    decreases s@.len() - i,
{
    if i < s.len() && s[i] == ',' {
        match parameter(s, i + 1) {
            Some((p, j)) => {
                let (mut rest, e) = params_rest(s, j);
                let ghost restv = rest@;
                let mut out: Vec<crate::ast::Parameter> = Vec::new();
                out.push(p);
                out.append(&mut rest);
                proof {
                    assert(out@ =~= seq![out@[0]] + restv);
                    lemma_params_view_cons(out@[0], restv);
                }
                (out, e)
            },
            None => (Vec::new(), i),
        }
    } else {
        (Vec::new(), i)
    }
}

/// A signature: a name, a bracketed parameter list with an optional
/// trailing comma, and an optional annotation list.
pub open spec fn sp_signature(s: Seq<char>, i: int) -> Option<(SpSignature, int)> {
    match sp_iri(s, i) {
        None => None,
        Some((nm, j)) => {
            let w1 = ws_end(s, j);
            if w1 < s.len() && s[w1] == '[' {
                let w2 = ws_end(s, w1 + 1);
                let (ps, j2) = sp_params(s, w2);
                let w3 = ws_end(s, j2);
                let j3: int = if w3 < s.len() && s[w3] == ',' {
                    w3 + 1
                } else {
                    w3
                };
                let w4 = ws_end(s, j3);
                if w4 < s.len() && s[w4] == ']' {
                    match sp_annotations(s, w4 + 1) {
                        Some((ans, e)) => Some(
                            (
                                SpSignature {
                                    template_name: nm,
                                    parameter_list: ps,
                                    annotation_list: Some(ans),
                                },
                                e,
                            ),
                        ),
                        None => Some(
                            (
                                SpSignature {
                                    template_name: nm,
                                    parameter_list: ps,
                                    annotation_list: None,
                                },
                                ws_end(s, w4 + 1),
                            ),
                        ),
                    }
                } else {
                    None
                }
            } else {
                None
            }
        },
    }
}

/// Parses a signature.
pub fn signature(s: &Vec<char>, i: usize) -> (r: Option<(Signature, usize)>)
    requires
        i <= s@.len(),
    ensures
        match r {
            Some((x, j)) => i < j <= s@.len() && sp_signature(s@, i as int) == Some((
                signature_view(x),
                j as int,
            )),
            None => sp_signature(s@, i as int) is None,
        },
{
    match iri(s, i) {
        None => None,
        Some((nm, j)) => {
            let w1 = skip_ws(s, j);
            if !(w1 < s.len() && s[w1] == '[') {
                return None;
            }
            let w2 = skip_ws(s, w1 + 1);
            let (ps, j2) = params(s, w2);
            let w3 = skip_ws(s, j2);
            let j3 = if w3 < s.len() && s[w3] == ',' {
                w3 + 1
            } else {
                w3
            };
            let w4 = skip_ws(s, j3);
            if !(w4 < s.len() && s[w4] == ']') {
                return None;
            }
            match annotation_list(s, w4 + 1) {
                Some((ans, e)) => Some(
                    (
                        Signature {
                            template_name: nm,
                            parameter_list: ps,
                            annotation_list: Some(ans),
                        },
                        e,
                    ),
                ),
                None => {
                    let e = skip_ws(s, w4 + 1);
                    Some(
                        (
                            Signature {
                                template_name: nm,
                                parameter_list: ps,
                                annotation_list: None,
                            },
                            e,
                        ),
                    )
                },
            }
        },
    }
}

// ---------------------------------------------------------------------------
// Templates and pattern lists.
// ---------------------------------------------------------------------------

/// The instances of a brace-delimited pattern list, each followed by an
/// optional comma.
pub open spec fn sp_pattern_items(s: Seq<char>, i: int) -> (Seq<SpInstance>, int)
    decreases s.len() - i,
{
    match sp_instance(s, i) {
        None => (Seq::empty(), i),
        Some((ins, j)) => if i < j && j <= s.len() {
            let w = ws_end(s, j);
            let j2: int = if w < s.len() && s[w] == ',' {
                w + 1
            } else {
                w
            };
            let w2 = ws_end(s, j2);
            if i < w2 && w2 <= s.len() {
                let (rest, e) = sp_pattern_items(s, w2);
                (seq![ins] + rest, e)
            } else {
                (Seq::empty(), i)
            }
        } else {
            (Seq::empty(), i)
        },
    }
}

/// A brace-delimited pattern list of instances.
pub open spec fn sp_pattern_list(s: Seq<char>, i: int) -> Option<(Seq<SpInstance>, int)> {
    if 0 <= i < s.len() && s[i] == '{' {
        let w = ws_end(s, i + 1);
        let (items, j) = sp_pattern_items(s, w);
        let w2 = ws_end(s, j);
        if w2 < s.len() && s[w2] == '}' {
            Some((items, w2 + 1))
        } else {
            None
        }
    } else {
        None
    }
}

/// Parses the instances of a pattern list.
pub fn pattern_items(s: &Vec<char>, i: usize) -> (r: (Vec<Instance>, usize))
    requires
        i <= s@.len(),
    ensures
        instances_view(r.0@) == sp_pattern_items(s@, i as int).0,
        r.1 as int == sp_pattern_items(s@, i as int).1,
        i <= r.1 <= s@.len(),
    decreases s@.len() - i,
{
    match instance(s, i) {
        None => (Vec::new(), i),
        Some((ins, j)) => {
            let w = skip_ws(s, j);
            let j2 = if w < s.len() && s[w] == ',' {
                w + 1
            } else {
                w
            };
            let w2 = skip_ws(s, j2);
            let (mut rest, e) = pattern_items(s, w2);
            let ghost restv = rest@;
            let mut out: Vec<Instance> = Vec::new();
            out.push(ins);
            out.append(&mut rest);
            proof {
                assert(out@ =~= seq![out@[0]] + restv);
                lemma_instances_view_cons(out@[0], restv);
            }
            (out, e)
        },
    }
}

/// Parses a pattern list.
pub fn pattern_list(s: &Vec<char>, i: usize) -> (r: Option<(Vec<Instance>, usize)>)
    requires
        i <= s@.len(),
    ensures
        match r {
            Some((xs, j)) => i < j <= s@.len() && sp_pattern_list(s@, i as int) == Some((
                instances_view(xs@),
                j as int,
            )),
            None => sp_pattern_list(s@, i as int) is None,
        },
{
    if !(i < s.len() && s[i] == '{') {
        return None;
    }
    let w = skip_ws(s, i + 1);
    let (items, j) = pattern_items(s, w);
    let w2 = skip_ws(s, j);
    if w2 < s.len() && s[w2] == '}' {
        Some((items, w2 + 1))
    } else {
        None
    }
}

/// A template: a signature, `::`, and a pattern list.
pub open spec fn sp_template(s: Seq<char>, i: int) -> Option<(SpTemplate, int)> {
    match sp_signature(s, i) {
        None => None,
        Some((sig, j)) => {
            let w = ws_end(s, j);
            if 0 <= w && w + 1 < s.len() && s[w] == ':' && s[w + 1] == ':' {
                let w2 = ws_end(s, w + 2);
                match sp_pattern_list(s, w2) {
                    Some((pl, e)) => Some(
                        (SpTemplate { signature: sig, pattern_list: pl }, e),
                    ),
                    None => None,
                }
            } else {
                None
            }
        },
    }
}

/// Parses a template.
pub fn template(s: &Vec<char>, i: usize) -> (r: Option<(Template, usize)>)
    requires
        i <= s@.len(),
    ensures
        match r {
            Some((x, j)) => i < j <= s@.len() && sp_template(s@, i as int) == Some((
                template_view(x),
                j as int,
            )),
            None => sp_template(s@, i as int) is None,
        },
{
    match signature(s, i) {
        None => None,
        Some((sig, j)) => {
            let w = skip_ws(s, j);
            if w < s.len() && s.len() - w > 1 && s[w] == ':' && s[w + 1] == ':' {
                let w2 = skip_ws(s, w + 2);
                match pattern_list(s, w2) {
                    Some((pl, e)) => Some((Template { signature: sig, pattern_list: pl }, e)),
                    None => None,
                }
            } else {
                None
            }
        },
    }
}

/// A base template: a signature, `::`, and the keyword `BASE`.
pub open spec fn sp_base_template(s: Seq<char>, i: int) -> Option<(SpBaseTemplate, int)> {
    match sp_signature(s, i) {
        None => None,
        Some((sig, j)) => {
            let w = ws_end(s, j);
            if 0 <= w && w + 1 < s.len() && s[w] == ':' && s[w + 1] == ':' {
                let w2 = ws_end(s, w + 2);
                if sp_tag(s, w2, "BASE"@) {
                    Some((SpBaseTemplate { signature: sig }, w2 + 4))
                } else {
                    None
                }
            } else {
                None
            }
        },
    }
}

/// Parses a base template.
pub fn base_template(s: &Vec<char>, i: usize) -> (r: Option<(BaseTemplate, usize)>)
    requires
        i <= s@.len(),
    ensures
        match r {
            Some((x, j)) => i < j <= s@.len() && sp_base_template(s@, i as int) == Some((
                SpBaseTemplate { signature: signature_view(x.signature) },
                j as int,
            )),
            None => sp_base_template(s@, i as int) is None,
        },
{
    let n = s.len();
    match signature(s, i) {
        None => None,
        Some((sig, j)) => {
            let w = skip_ws(s, j);
            if w < s.len() && s.len() - w > 1 && s[w] == ':' && s[w + 1] == ':' {
                let w2 = skip_ws(s, w + 2);
                if has_tag(s, w2, "BASE") {
                    proof {
                        reveal_strlit("BASE");
                        assert(w2 + 4 <= n);
                    }
                    Some((BaseTemplate { signature: sig }, w2 + 4))
                } else {
                    None
                }
            } else {
                None
            }
        },
    }
}

// ---------------------------------------------------------------------------
// Statements.
// ---------------------------------------------------------------------------

/// A statement: a template, an instance, a signature, or a base template —
/// the first that matches — followed by whitespace and `.`.
pub open spec fn sp_statement(s: Seq<char>, i: int) -> Option<(SpStatement, int)> {
    let st = match sp_template(s, i) {
        Some((t, j)) => Some((SpStatement::Template(t), j)),
        None => match sp_instance(s, i) {
            Some((x, j)) => Some((SpStatement::Instance(x), j)),
            None => match sp_signature(s, i) {
                Some((x, j)) => Some((SpStatement::Signature(x), j)),
                None => match sp_base_template(s, i) {
                    Some((x, j)) => Some((SpStatement::BaseTemplate(x), j)),
                    None => None,
                },
            },
        },
    };
    match st {
        None => None,
        Some((x, j)) => {
            let w = ws_end(s, j);
            if w < s.len() && s[w] == '.' {
                Some((x, w + 1))
            } else {
                None
            }
        },
    }
}

/// Parses a statement.
pub fn statement(s: &Vec<char>, i: usize) -> (r: Option<(Statement, usize)>)
    requires
        i <= s@.len(),
    ensures
        match r {
            Some((x, j)) => i < j <= s@.len() && sp_statement(s@, i as int) == Some((
                statement_view(x),
                j as int,
            )),
            None => sp_statement(s@, i as int) is None,
        },
{
    let st = match template(s, i) {
        Some((t, j)) => Some((Statement::Template(t), j)),
        None => match instance(s, i) {
            Some((x, j)) => Some((Statement::Instance(x), j)),
            None => match signature(s, i) {
                Some((x, j)) => Some((Statement::Signature(x), j)),
                None => match base_template(s, i) {
                    Some((x, j)) => Some((Statement::BaseTemplate(x), j)),
                    None => None,
                },
            },
        },
    };
    match st {
        None => None,
        Some((x, j)) => {
            let w = skip_ws(s, j);
            if w < s.len() && s[w] == '.' {
                Some((x, w + 1))
            } else {
                None
            }
        },
    }
}

// ---------------------------------------------------------------------------
// Directives.
// ---------------------------------------------------------------------------

/// A `@prefix` directive: `@prefix name: <iri> .` with whitespace between
/// the parts.
pub open spec fn sp_prefix_id(s: Seq<char>, i: int) -> Option<(SpPrefix, int)> {
    let w = ws_end(s, i);
    if sp_tag(s, w, "@prefix"@) && 0 <= w && w + 7 <= s.len() {
        let w2 = ws_end(s, w + 7);
        match sp_pname_ns(s, w2) {
            Some((p, j)) => {
                let w3 = ws_end(s, j);
                match sp_iri_ref(s, w3) {
                    Some((t, j2)) => {
                        let w4 = ws_end(s, j2);
                        if w4 < s.len() && s[w4] == '.' {
                            Some((SpPrefix { name: p, iri: t }, w4 + 1))
                        } else {
                            None
                        }
                    },
                    None => None,
                }
            },
            None => None,
        }
    } else {
        None
    }
}

/// A base directive: the keyword `BASE` immediately followed by an IRI
/// reference — no whitespace stands between them, as the grammar is
/// written, and the SPARQL-style form reads the same.
pub open spec fn sp_base(s: Seq<char>, i: int) -> Option<(Seq<char>, int)> {
    if sp_tag(s, i, "BASE"@) && 0 <= i && i + 4 <= s.len() {
        sp_iri_ref(s, i + 4)
    } else {
        None
    }
}

/// A SPARQL-style prefix directive: `PREFIX` immediately followed by a
/// namespace token and an IRI reference, with no whitespace between them,
/// as the grammar is written.
pub open spec fn sp_sparql_prefix(s: Seq<char>, i: int) -> Option<(SpPrefix, int)> {
    if sp_tag(s, i, "PREFIX"@) && 0 <= i && i + 6 <= s.len() {
        match sp_pname_ns(s, i + 6) {
            Some((p, j)) => match sp_iri_ref(s, j) {
                Some((t, j2)) => Some((SpPrefix { name: p, iri: t }, j2)),
                None => None,
            },
            None => None,
        }
    } else {
        None
    }
}

/// A directive: a `@prefix` declaration, a base declaration, or one of the
/// SPARQL-style forms; the SPARQL base form repeats the base form.
pub open spec fn sp_directive(s: Seq<char>, i: int) -> Option<(SpDirective, int)> {
    match sp_prefix_id(s, i) {
        Some((p, j)) => Some((SpDirective::Prefix(p), j)),
        None => match sp_base(s, i) {
            Some((t, j)) => Some((SpDirective::Base(t), j)),
            None => match sp_sparql_prefix(s, i) {
                Some((p, j)) => Some((SpDirective::Prefix(p), j)),
                None => None,
            },
        },
    }
}

/// Parses a `@prefix` directive.
pub fn prefix_id(s: &Vec<char>, i: usize) -> (r: Option<(Prefix, usize)>)
    requires
        i <= s@.len(),
    ensures
        match r {
            Some((p, j)) => i < j <= s@.len() && sp_prefix_id(s@, i as int) == Some((
                SpPrefix { name: p.name@, iri: p.iri.text@ },
                j as int,
            )),
            None => sp_prefix_id(s@, i as int) is None,
        },
{
    let n = s.len();
    let w = skip_ws(s, i);
    if !has_tag(s, w, "@prefix") {
        return None;
    }
    proof {
        reveal_strlit("@prefix");
        assert(w + 7 <= n);
    }
    let w2 = skip_ws(s, w + 7);
    match pname_ns(s, w2) {
        Some((p, j)) => {
            let w3 = skip_ws(s, j);
            match iri_ref(s, w3) {
                Some((t, j2)) => {
                    let w4 = skip_ws(s, j2);
                    if w4 < s.len() && s[w4] == '.' {
                        Some((Prefix { name: p, iri: t }, w4 + 1))
                    } else {
                        None
                    }
                },
                None => None,
            }
        },
        None => None,
    }
}

/// Parses a base directive.
pub fn base(s: &Vec<char>, i: usize) -> (r: Option<(Iri, usize)>)
    requires
        i <= s@.len(),
    ensures
        match r {
            Some((t, j)) => i < j <= s@.len() && sp_base(s@, i as int) == Some((
                t.text@,
                j as int,
            )),
            None => sp_base(s@, i as int) is None,
        },
{
    let n = s.len();
    if !has_tag(s, i, "BASE") {
        return None;
    }
    proof {
        reveal_strlit("BASE");
        assert(i + 4 <= n);
    }
    iri_ref(s, i + 4)
}

/// Parses a SPARQL-style prefix directive.
pub fn sparql_prefix(s: &Vec<char>, i: usize) -> (r: Option<(Prefix, usize)>)
    requires
        i <= s@.len(),
    ensures
        match r {
            Some((p, j)) => i < j <= s@.len() && sp_sparql_prefix(s@, i as int) == Some((
                SpPrefix { name: p.name@, iri: p.iri.text@ },
                j as int,
            )),
            None => sp_sparql_prefix(s@, i as int) is None,
        },
{
    let n = s.len();
    if !has_tag(s, i, "PREFIX") {
        return None;
    }
    proof {
        reveal_strlit("PREFIX");
        assert(i + 6 <= n);
    }
    match pname_ns(s, i + 6) {
        Some((p, j)) => match iri_ref(s, j) {
            Some((t, j2)) => Some((Prefix { name: p, iri: t }, j2)),
            None => None,
        },
        None => None,
    }
}

/// Parses a directive.
pub fn directive(s: &Vec<char>, i: usize) -> (r: Option<(Directive, usize)>)
    requires
        i <= s@.len(),
    ensures
        match r {
            Some((d, j)) => i < j <= s@.len() && sp_directive(s@, i as int) == Some((
                directive_view(d),
                j as int,
            )),
            None => sp_directive(s@, i as int) is None,
        },
{
    match prefix_id(s, i) {
        Some((p, j)) => Some((Directive::Prefix(p), j)),
        None => match base(s, i) {
            Some((t, j)) => Some((Directive::Base(t), j)),
            None => match sparql_prefix(s, i) {
                Some((p, j)) => Some((Directive::Prefix(p), j)),
                None => None,
            },
        },
    }
}

// ---------------------------------------------------------------------------
// Documents.
// ---------------------------------------------------------------------------

/// The items of a document: whitespace-separated directives and statements,
/// as many as match, each kept in its own list in source order.  The
/// position yielded is where the last full item ended; whitespace after it
/// is not consumed.
pub open spec fn sp_document(s: Seq<char>, i: int) -> (Seq<SpDirective>, Seq<SpStatement>, int)
    decreases s.len() - i,
{
    let w = ws_end(s, i);
    match sp_directive(s, w) {
        Some((d, j)) => {
            let e = ws_end(s, j);
            if i < e && e <= s.len() {
                let (rd, rs, fin) = sp_document(s, e);
                (seq![d] + rd, rs, fin)
            } else {
                (seq![d], Seq::empty(), j)
            }
        },
        None => match sp_statement(s, w) {
            Some((st, j)) => {
                let e = ws_end(s, j);
                if i < e && e <= s.len() {
                    let (rd, rs, fin) = sp_document(s, e);
                    (rd, seq![st] + rs, fin)
                } else {
                    (Seq::empty(), seq![st], j)
                }
            },
            None => (Seq::empty(), Seq::empty(), i),
        },
    }
}

/// Parses the items of a document, splitting them into directives and
/// statements; never fails, and stops at the first position where neither
/// form matches.
pub fn stottr_doc(s: &Vec<char>, i: usize) -> (r: (Document, usize))
    requires
        i <= s@.len(),
    ensures
        ({
            let (ds, sts, fin) = sp_document(s@, i as int);
            directives_view(r.0.directives@) == ds && statements_view(r.0.statements@) == sts
                && r.1 as int == fin && i <= r.1 <= s@.len()
        }),
    decreases s@.len() - i,
{
    let w = skip_ws(s, i);
    match directive(s, w) {
        Some((d, j)) => {
            let e = skip_ws(s, j);
            let (mut rest, fin) = stottr_doc(s, e);
            let ghost restv = rest.directives@;
            let mut ds: Vec<Directive> = Vec::new();
            ds.push(d);
            ds.append(&mut rest.directives);
            proof {
                assert(ds@ =~= seq![ds@[0]] + restv);
                lemma_directives_view_cons(ds@[0], restv);
            }
            (Document { directives: ds, statements: rest.statements }, fin)
        },
        None => match statement(s, w) {
            Some((st, j)) => {
                let e = skip_ws(s, j);
                let (mut rest, fin) = stottr_doc(s, e);
                let ghost restv = rest.statements@;
                let mut sts: Vec<Statement> = Vec::new();
                sts.push(st);
                sts.append(&mut rest.statements);
                proof {
                    assert(sts@ =~= seq![sts@[0]] + restv);
                    lemma_statements_view_cons(sts@[0], restv);
                }
                (Document { directives: rest.directives, statements: sts }, fin)
            },
            None => (Document { directives: Vec::new(), statements: Vec::new() }, i),
        },
    }
}

/// The set of alternatives attempted at a failure point.  The top-level
/// driver fails only at its dispatcher, where a directive and then a
/// statement are tried.
#[derive(Debug, Clone, Copy, PartialEq, Eq, Structural)]
pub enum Attempted {
    DirectiveOrStatement,
}

/// A parse failure: the offset of the first input character that could not
/// be consumed, and the set of alternatives attempted there.
#[derive(Debug, PartialEq, Eq)]
pub struct ParseError {
    pub offset: usize,
    pub attempted: Attempted,
}

/// Parses a whole document.  The document's items must cover the input up
/// to trailing whitespace: leftover text is an error carrying its offset.
pub fn parse_document(s: &Vec<char>, i: usize) -> (r: Result<Document, ParseError>)
    requires
        i <= s@.len(),
    ensures
        ({
            let (ds, sts, fin) = sp_document(s@, i as int);
            match r {
                Ok(doc) => ws_end(s@, fin) == s@.len() && directives_view(doc.directives@) == ds
                    && statements_view(doc.statements@) == sts,
                Err(pe) => ws_end(s@, fin) < s@.len() && pe.offset as int == ws_end(s@, fin)
                    && pe.attempted == Attempted::DirectiveOrStatement,
            }
        }),
{
    let (doc, fin) = stottr_doc(s, i);
    let w = skip_ws(s, fin);
    if w == s.len() {
        Ok(doc)
    } else {
        Err(ParseError { offset: w, attempted: Attempted::DirectiveOrStatement })
    }
}

/// Parses a whole document given as text.
pub fn parse_document_text(s: &str) -> (r: Result<Document, ParseError>)
    ensures
        ({
            let (ds, sts, fin) = sp_document(s@, 0);
            match r {
                Ok(doc) => ws_end(s@, fin) == s@.len() && directives_view(doc.directives@) == ds
                    && statements_view(doc.statements@) == sts,
                Err(pe) => ws_end(s@, fin) < s@.len() && pe.offset as int == ws_end(s@, fin)
                    && pe.attempted == Attempted::DirectiveOrStatement,
            }
        }),
{
    let v = chars_of(s);
    parse_document(&v, 0)
}

} // verus!
