//! Literals: the three numeric forms, booleans, RDF literals built from a
//! quoted string, and blank nodes.
//!
//! Numeric literals keep their consumed text as the lexical value and are
//! tagged with the corresponding XML Schema datatype; the forms are tried
//! from the most specific down: double, decimal, integer.
use vstd::prelude::*;

use crate::ast::{BlankNode, Iri, Literal, ResolvableName, SpLiteral, SpName, literal_view, name_view};
use crate::chars::{is_digit, spec_is_digit};
use crate::names::{iri, sp_blank_node_label, sp_iri, blank_node_label};
use crate::scan::{copy_range, has_tag, sp_tag};
use crate::strings::{lang_tag, sp_lang_tag, sp_string, string};
use crate::trust::{blank_id_ok, blank_id_valid, chars_to_string};
use vstd::string::StringExecFns;

verus! {

broadcast use vstd::seq::group_seq_axioms;

// ---------------------------------------------------------------------------
// Datatype names.
// ---------------------------------------------------------------------------

pub open spec fn xsd_integer_text() -> Seq<char> {
    "http://www.w3.org/2001/XMLSchema#integer"@
}

pub open spec fn xsd_decimal_text() -> Seq<char> {
    "http://www.w3.org/2001/XMLSchema#decimal"@
}

pub open spec fn xsd_double_text() -> Seq<char> {
    "http://www.w3.org/2001/XMLSchema#double"@
}

pub open spec fn xsd_boolean_text() -> Seq<char> {
    "http://www.w3.org/2001/XMLSchema#boolean"@
}

pub open spec fn xsd_string_text() -> Seq<char> {
    "http://www.w3.org/2001/XMLSchema#string"@
}

pub open spec fn rdf_lang_string_text() -> Seq<char> {
    "http://www.w3.org/1999/02/22-rdf-syntax-ns#langString"@
}

fn named(text: &str) -> (r: ResolvableName)
    ensures
        name_view(r) == SpName::Named(text@),
{
    ResolvableName::NamedNode(Iri { text: String::from_str(text) })
}

// ---------------------------------------------------------------------------
// Digit runs.
// ---------------------------------------------------------------------------

/// The end of the run of ASCII digits that starts at `i`.
pub open spec fn digit_run_end(s: Seq<char>, i: int) -> int
    decreases s.len() - i,
{
    if 0 <= i < s.len() && spec_is_digit(s[i]) {
        digit_run_end(s, i + 1)
    } else {
        i
    }
}

pub proof fn lemma_digit_run_end_bounds(s: Seq<char>, i: int)
    requires
        0 <= i <= s.len(),
    ensures
        i <= digit_run_end(s, i) <= s.len(),
    decreases s.len() - i,
{
    if i < s.len() && spec_is_digit(s[i]) {
        lemma_digit_run_end_bounds(s, i + 1);
    }
}

/// Skips the run of ASCII digits that starts at `i`.
pub fn digit_run(s: &Vec<char>, i: usize) -> (j: usize)
    requires
        i <= s@.len(),
    ensures
        i <= j <= s@.len(),
        j as int == digit_run_end(s@, i as int),
        i < s@.len() && spec_is_digit(s@[i as int]) ==> j > i,
{
    let mut j = i;
    while j < s.len() && is_digit(s[j])
        invariant
            i <= j <= s@.len(),
            digit_run_end(s@, i as int) == digit_run_end(s@, j as int),
        decreases s@.len() - j,
    {
        j = j + 1;
    }
    proof {
        if i < s@.len() && spec_is_digit(s@[i as int]) {
            lemma_digit_run_end_bounds(s@, i + 1);
        }
    }
    j
}

// ---------------------------------------------------------------------------
// Numeric forms.
// ---------------------------------------------------------------------------

/// The position after an optional `+` or `-` sign at `i`.
pub open spec fn sign_end(s: Seq<char>, i: int) -> int {
    if 0 <= i < s.len() && (s[i] == '+' || s[i] == '-') {
        i + 1
    } else {
        i
    }
}

/// An exponent: `e` or `E`, an optional sign, then at least one digit;
/// yields its end.
pub open spec fn sp_exponent(s: Seq<char>, i: int) -> Option<int> {
    if 0 <= i < s.len() && (s[i] == 'e' || s[i] == 'E') {
        let j = sign_end(s, i + 1);
        if j < s.len() && spec_is_digit(s[j]) {
            Some(digit_run_end(s, j))
        } else {
            None
        }
    } else {
        None
    }
}

/// Parses an exponent, yielding its end.
pub fn exponent(s: &Vec<char>, i: usize) -> (r: Option<usize>)
    requires
        i <= s@.len(),
    ensures
        match r {
            Some(e) => i < e <= s@.len() && sp_exponent(s@, i as int) == Some(e as int),
            None => sp_exponent(s@, i as int) is None,
        },
{
    if !(i < s.len() && (s[i] == 'e' || s[i] == 'E')) {
        return None;
    }
    let j = if i + 1 < s.len() && (s[i + 1] == '+' || s[i + 1] == '-') {
        i + 2
    } else {
        i + 1
    };
    if j < s.len() && is_digit(s[j]) {
        Some(digit_run(s, j))
    } else {
        None
    }
}

/// A double: one of `digits . digits? exponent`, `. digits exponent`, or
/// `digits exponent`, each with an optional sign; its text and end.
pub open spec fn sp_turtle_double(s: Seq<char>, i: int) -> Option<(Seq<char>, int)> {
    let j0 = sign_end(s, i);
    let d1 = if j0 < s.len() && spec_is_digit(s[j0]) {
        let a = digit_run_end(s, j0);
        if a < s.len() && s[a] == '.' {
            let b = digit_run_end(s, a + 1);
            match sp_exponent(s, b) {
                Some(e) => Some((s.subrange(i, e), e)),
                None => None,
            }
        } else {
            None
        }
    } else {
        None
    };
    match d1 {
        Some(r) => Some(r),
        None => {
            let d2 = if j0 < s.len() && s[j0] == '.' && j0 + 1 < s.len() && spec_is_digit(
                s[j0 + 1],
            ) {
                let b = digit_run_end(s, j0 + 1);
                match sp_exponent(s, b) {
                    Some(e) => Some((s.subrange(i, e), e)),
                    None => None,
                }
            } else {
                None
            };
            match d2 {
                Some(r) => Some(r),
                None => if j0 < s.len() && spec_is_digit(s[j0]) {
                    let a = digit_run_end(s, j0);
                    match sp_exponent(s, a) {
                        Some(e) => Some((s.subrange(i, e), e)),
                        None => None,
                    }
                } else {
                    None
                },
            }
        },
    }
}

/// A decimal: an optional sign, optional digits, `.`, then at least one
/// digit; its text and end.
pub open spec fn sp_turtle_decimal(s: Seq<char>, i: int) -> Option<(Seq<char>, int)> {
    let j0 = sign_end(s, i);
    let a = digit_run_end(s, j0);
    if a < s.len() && s[a] == '.' && a + 1 < s.len() && spec_is_digit(s[a + 1]) {
        let b = digit_run_end(s, a + 1);
        Some((s.subrange(i, b), b))
    } else {
        None
    }
}

/// An integer: an optional sign then at least one digit; its text and end.
pub open spec fn sp_turtle_integer(s: Seq<char>, i: int) -> Option<(Seq<char>, int)> {
    let j0 = sign_end(s, i);
    if j0 < s.len() && spec_is_digit(s[j0]) {
        let a = digit_run_end(s, j0);
        Some((s.subrange(i, a), a))
    } else {
        None
    }
}

/// A numeric literal: a double, a decimal, or an integer, in that order,
/// tagged with its XML Schema datatype.
pub open spec fn sp_numeric_literal(s: Seq<char>, i: int) -> Option<(SpLiteral, int)> {
    match sp_turtle_double(s, i) {
        Some((v, e)) => Some(
            (
                SpLiteral {
                    value: v,
                    language: None,
                    data_type_iri: Some(SpName::Named(xsd_double_text())),
                },
                e,
            ),
        ),
        None => match sp_turtle_decimal(s, i) {
            Some((v, e)) => Some(
                (
                    SpLiteral {
                        value: v,
                        language: None,
                        data_type_iri: Some(SpName::Named(xsd_decimal_text())),
                    },
                    e,
                ),
            ),
            None => match sp_turtle_integer(s, i) {
                Some((v, e)) => Some(
                    (
                        SpLiteral {
                            value: v,
                            language: None,
                            data_type_iri: Some(SpName::Named(xsd_integer_text())),
                        },
                        e,
                    ),
                ),
                None => None,
            },
        },
    }
}

/// Parses the sign-and-digits part shared by the numeric forms, yielding
/// the end of the double form if it matches.
fn turtle_double_end(s: &Vec<char>, i: usize) -> (r: Option<usize>)
    requires
        i <= s@.len(),
    ensures
        match r {
            Some(e) => i < e <= s@.len() && sp_turtle_double(s@, i as int) == Some((
                s@.subrange(i as int, e as int),
                e as int,
            )),
            None => sp_turtle_double(s@, i as int) is None,
        },
{
    let j0 = if i < s.len() && (s[i] == '+' || s[i] == '-') {
        i + 1
    } else {
        i
    };
    let d1 = if j0 < s.len() && is_digit(s[j0]) {
        let a = digit_run(s, j0);
        if a < s.len() && s[a] == '.' {
            let b = digit_run(s, a + 1);
            exponent(s, b)
        } else {
            None
        }
    } else {
        None
    };
    match d1 {
        Some(e) => Some(e),
        None => {
            let d2 = if j0 < s.len() && s[j0] == '.' && j0 + 1 < s.len() && is_digit(s[j0 + 1]) {
                let b = digit_run(s, j0 + 1);
                exponent(s, b)
            } else {
                None
            };
            match d2 {
                Some(e) => Some(e),
                None => {
                    if j0 < s.len() && is_digit(s[j0]) {
                        let a = digit_run(s, j0);
                        exponent(s, a)
                    } else {
                        None
                    }
                },
            }
        },
    }
}

/// Parses a numeric literal.
pub fn numeric_literal(s: &Vec<char>, i: usize) -> (r: Option<(Literal, usize)>)
    requires
        i <= s@.len(),
    ensures
        match r {
            Some((l, j)) => i < j <= s@.len() && sp_numeric_literal(s@, i as int) == Some((
                literal_view(l),
                j as int,
            )),
            None => sp_numeric_literal(s@, i as int) is None,
        },
{
    match turtle_double_end(s, i) {
        Some(e) => {
            let v = chars_to_string(copy_range(s, i, e));
            Some(
                (
                    Literal {
                        value: v,
                        language: None,
                        data_type_iri: Some(named("http://www.w3.org/2001/XMLSchema#double")),
                    },
                    e,
                ),
            )
        },
        None => {
            let j0 = if i < s.len() && (s[i] == '+' || s[i] == '-') {
                i + 1
            } else {
                i
            };
            let a = digit_run(s, j0);
            if a < s.len() && s[a] == '.' && a + 1 < s.len() && is_digit(s[a + 1]) {
                let b = digit_run(s, a + 1);
                let v = chars_to_string(copy_range(s, i, b));
                Some(
                    (
                        Literal {
                            value: v,
                            language: None,
                            data_type_iri: Some(named("http://www.w3.org/2001/XMLSchema#decimal")),
                        },
                        b,
                    ),
                )
            } else if j0 < s.len() && is_digit(s[j0]) {
                let v = chars_to_string(copy_range(s, i, a));
                Some(
                    (
                        Literal {
                            value: v,
                            language: None,
                            data_type_iri: Some(named("http://www.w3.org/2001/XMLSchema#integer")),
                        },
                        a,
                    ),
                )
            } else {
                None
            }
        },
    }
}

// ---------------------------------------------------------------------------
// Boolean literals.
// ---------------------------------------------------------------------------

/// A boolean literal: exactly `true` or `false`, tagged `xsd:boolean`.
pub open spec fn sp_boolean_literal(s: Seq<char>, i: int) -> Option<(SpLiteral, int)> {
    if sp_tag(s, i, "true"@) {
        Some(
            (
                SpLiteral {
                    value: "true"@,
                    language: None,
                    data_type_iri: Some(SpName::Named(xsd_boolean_text())),
                },
                i + 4,
            ),
        )
    } else if sp_tag(s, i, "false"@) {
        Some(
            (
                SpLiteral {
                    value: "false"@,
                    language: None,
                    data_type_iri: Some(SpName::Named(xsd_boolean_text())),
                },
                i + 5,
            ),
        )
    } else {
        None
    }
}

/// Parses a boolean literal.
pub fn boolean_literal(s: &Vec<char>, i: usize) -> (r: Option<(Literal, usize)>)
    requires
        i <= s@.len(),
    ensures
        match r {
            Some((l, j)) => i < j <= s@.len() && sp_boolean_literal(s@, i as int) == Some((
                literal_view(l),
                j as int,
            )),
            None => sp_boolean_literal(s@, i as int) is None,
        },
{
    let n = s.len();
    if has_tag(s, i, "true") {
        proof {
            reveal_strlit("true");
            assert(i + 4 <= n);
        }
        Some(
            (
                Literal {
                    value: String::from_str("true"),
                    language: None,
                    data_type_iri: Some(named("http://www.w3.org/2001/XMLSchema#boolean")),
                },
                i + 4,
            ),
        )
    } else if has_tag(s, i, "false") {
        proof {
            reveal_strlit("false");
            assert(i + 5 <= n);
        }
        Some(
            (
                Literal {
                    value: String::from_str("false"),
                    language: None,
                    data_type_iri: Some(named("http://www.w3.org/2001/XMLSchema#boolean")),
                },
                i + 5,
            ),
        )
    } else {
        None
    }
}

// ---------------------------------------------------------------------------
// RDF literals and the unified literal rule.
// ---------------------------------------------------------------------------

/// An RDF literal: a quoted string followed by a language tag, by `^^` and
/// a datatype name, or by nothing, in which case it is a plain
/// `xsd:string`.
pub open spec fn sp_rdf_literal(s: Seq<char>, i: int) -> Option<(SpLiteral, int)> {
    match sp_string(s, i) {
        None => None,
        Some((v, j)) => match sp_lang_tag(s, j) {
            Some((lt, k)) => Some(
                (
                    SpLiteral {
                        value: v,
                        language: Some(lt),
                        data_type_iri: Some(SpName::Named(rdf_lang_string_text())),
                    },
                    k,
                ),
            ),
            None => if j + 1 < s.len() && s[j] == '^' && s[j + 1] == '^' && sp_iri(
                s,
                j + 2,
            ) is Some {
                let (n, k) = sp_iri(s, j + 2)->Some_0;
                Some((SpLiteral { value: v, language: None, data_type_iri: Some(n) }, k))
            } else {
                Some(
                    (
                        SpLiteral {
                            value: v,
                            language: None,
                            data_type_iri: Some(SpName::Named(xsd_string_text())),
                        },
                        j,
                    ),
                )
            },
        },
    }
}

/// Parses an RDF literal.
pub fn rdf_literal(s: &Vec<char>, i: usize) -> (r: Option<(Literal, usize)>)
    requires
        i <= s@.len(),
    ensures
        match r {
            Some((l, j)) => i < j <= s@.len() && sp_rdf_literal(s@, i as int) == Some((
                literal_view(l),
                j as int,
            )),
            None => sp_rdf_literal(s@, i as int) is None,
        },
{
    match string(s, i) {
        None => None,
        Some((v, j)) => match lang_tag(s, j) {
            Some((lt, k)) => Some(
                (
                    Literal {
                        value: v,
                        language: Some(lt),
                        data_type_iri: Some(
                            named("http://www.w3.org/1999/02/22-rdf-syntax-ns#langString"),
                        ),
                    },
                    k,
                ),
            ),
            None => {
                if j < s.len() && s.len() - j > 1 && s[j] == '^' && s[j + 1] == '^' {
                    match iri(s, j + 2) {
                        Some((n, k)) => Some(
                            (
                                Literal { value: v, language: None, data_type_iri: Some(n) },
                                k,
                            ),
                        ),
                        None => Some(
                            (
                                Literal {
                                    value: v,
                                    language: None,
                                    data_type_iri: Some(
                                        named("http://www.w3.org/2001/XMLSchema#string"),
                                    ),
                                },
                                j,
                            ),
                        ),
                    }
                } else {
                    Some(
                        (
                            Literal {
                                value: v,
                                language: None,
                                data_type_iri: Some(
                                    named("http://www.w3.org/2001/XMLSchema#string"),
                                ),
                            },
                            j,
                        ),
                    )
                }
            },
        },
    }
}

/// A literal: an RDF literal, a numeric literal, or a boolean literal, in
/// that order.
pub open spec fn sp_literal(s: Seq<char>, i: int) -> Option<(SpLiteral, int)> {
    match sp_rdf_literal(s, i) {
        Some(r) => Some(r),
        None => match sp_numeric_literal(s, i) {
            Some(r) => Some(r),
            None => sp_boolean_literal(s, i),
        },
    }
}

/// Parses a literal.
pub fn literal(s: &Vec<char>, i: usize) -> (r: Option<(Literal, usize)>)
    requires
        i <= s@.len(),
    ensures
        match r {
            Some((l, j)) => i < j <= s@.len() && sp_literal(s@, i as int) == Some((
                literal_view(l),
                j as int,
            )),
            None => sp_literal(s@, i as int) is None,
        },
{
    match rdf_literal(s, i) {
        Some(r) => Some(r),
        None => match numeric_literal(s, i) {
            Some(r) => Some(r),
            None => boolean_literal(s, i),
        },
    }
}

// ---------------------------------------------------------------------------
// Blank nodes.
// ---------------------------------------------------------------------------

/// The fixed label given to every anonymous blank node `[]`.
pub open spec fn anon_label() -> Seq<char> {
    "AnonymousBlankNode"@
}

/// A blank node: a label or the anonymous form, whose identifier must also
/// pass validation; the identifier is kept as parsed.
pub open spec fn sp_blank_node(s: Seq<char>, i: int) -> Option<(Seq<char>, int)> {
    match sp_blank_node_label(s, i) {
        Some((t, j)) => if blank_id_ok(t) {
            Some((t, j))
        } else {
            None
        },
        None => if 0 <= i && i + 1 < s.len() && s[i] == '[' && s[i + 1] == ']' {
            if blank_id_ok(anon_label()) {
                Some((anon_label(), i + 2))
            } else {
                None
            }
        } else {
            None
        },
    }
}

/// Parses a blank node; an identifier that fails validation is a parse
/// error, not a panic.
pub fn blank_node(s: &Vec<char>, i: usize) -> (r: Option<(BlankNode, usize)>)
    requires
        i <= s@.len(),
    ensures
        match r {
            Some((b, j)) => i < j <= s@.len() && sp_blank_node(s@, i as int) == Some((
                b.name@,
                j as int,
            )),
            None => sp_blank_node(s@, i as int) is None,
        },
{
    match blank_node_label(s, i) {
        Some((t, j)) => {
            if blank_id_valid(t.as_str()) {
                Some((BlankNode { name: t }, j))
            } else {
                None
            }
        },
        None => {
            if i < s.len() && s.len() - i > 1 && s[i] == '[' && s[i + 1] == ']' {
                let lbl = String::from_str("AnonymousBlankNode");
                if blank_id_valid(lbl.as_str()) {
                    Some((BlankNode { name: lbl }, i + 2))
                } else {
                    None
                }
            } else {
                None
            }
        },
    }
}

} // verus!
