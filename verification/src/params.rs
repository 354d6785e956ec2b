//! Parameter types, default values, and parameters.
//!
//! A parameter's mode flags may stand before the type or, mandatorily,
//! between the type and the variable.  Each ordering admits the flag
//! spellings `?`, `!?`, `?!` and `!`; the orderings are tried in turn and
//! the first full match wins.  The spellings are split between two paths in
//! each ordering exactly as the grammar states them, so a failing first
//! path may fall through to the second.
use vstd::prelude::*;

use crate::ast::{
    DefaultValue, PType, Parameter, ResolvableName, SpDefaultValue, SpPType, SpParameter,
    default_value_view, parameter_view, ptype_view,
};
use crate::names::{prefixed_name, sp_prefixed_name, sp_variable, variable};
use crate::scan::{has_tag, skip_ws, sp_tag, ws_end};
use crate::terms::{constant_term, sp_constant_term};

verus! {

broadcast use vstd::seq::group_seq_axioms;

use crate::ast::SpName;

// ---------------------------------------------------------------------------
// Parameter types.
// ---------------------------------------------------------------------------

/// A type expression: `List<T>`, `NEList<T>`, `LUB<basic>`, or a bare basic
/// type, which is a prefixed name.
pub open spec fn sp_ptype(s: Seq<char>, i: int) -> Option<(SpPType, int)>
    decreases s.len() - i,
{
    if sp_tag(s, i, "List<"@) && 0 <= i && i + 5 <= s.len() {
        match sp_ptype(s, i + 5) {
            Some((t, j)) => if j < s.len() && s[j] == '>' {
                Some((SpPType::List(Box::new(t)), j + 1))
            } else {
                None
            },
            None => None,
        }
    } else if sp_tag(s, i, "NEList<"@) && 0 <= i && i + 7 <= s.len() {
        match sp_ptype(s, i + 7) {
            Some((t, j)) => if j < s.len() && s[j] == '>' {
                Some((SpPType::NEList(Box::new(t)), j + 1))
            } else {
                None
            },
            None => None,
        }
    } else if sp_tag(s, i, "LUB<"@) && 0 <= i && i + 4 <= s.len() {
        match sp_prefixed_name(s, i + 4) {
            Some(((p, l), j)) => if j < s.len() && s[j] == '>' {
                Some(
                    (
                        SpPType::Lub(
                            Box::new(SpPType::Basic(SpName::Prefixed { prefix: p, name: l })),
                        ),
                        j + 1,
                    ),
                )
            } else {
                None
            },
            None => None,
        }
    } else {
        match sp_prefixed_name(s, i) {
            Some(((p, l), j)) => Some(
                (SpPType::Basic(SpName::Prefixed { prefix: p, name: l }), j),
            ),
            None => None,
        }
    }
}

/// Parses a type expression.
pub fn ptype(s: &Vec<char>, i: usize) -> (r: Option<(PType, usize)>)
    requires
        i <= s@.len(),
    ensures
        match r {
            Some((t, j)) => i < j <= s@.len() && sp_ptype(s@, i as int) == Some((
                ptype_view(t),
                j as int,
            )),
            None => sp_ptype(s@, i as int) is None,
        },
    decreases s@.len() - i,
{
    let n = s.len();
    if has_tag(s, i, "List<") {
        proof {
            reveal_strlit("List<");
            assert(i + 5 <= n);
        }
        match ptype(s, i + 5) {
            Some((t, j)) => {
                if j < s.len() && s[j] == '>' {
                    Some((PType::List(Box::new(t)), j + 1))
                } else {
                    None
                }
            },
            None => None,
        }
    } else if has_tag(s, i, "NEList<") {
        proof {
            reveal_strlit("NEList<");
            assert(i + 7 <= n);
        }
        match ptype(s, i + 7) {
            Some((t, j)) => {
                if j < s.len() && s[j] == '>' {
                    Some((PType::NEList(Box::new(t)), j + 1))
                } else {
                    None
                }
            },
            None => None,
        }
    } else if has_tag(s, i, "LUB<") {
        proof {
            reveal_strlit("LUB<");
            assert(i + 4 <= n);
            reveal_with_fuel(crate::ast::ptype_view, 2);
        }
        match prefixed_name(s, i + 4) {
            Some((pn, j)) => {
                if j < s.len() && s[j] == '>' {
                    Some(
                        (
                            PType::Lub(
                                Box::new(PType::Basic(ResolvableName::PrefixedName(pn))),
                            ),
                            j + 1,
                        ),
                    )
                } else {
                    None
                }
            },
            None => None,
        }
    } else {
        proof {
            reveal_strlit("List<");
            reveal_strlit("NEList<");
            reveal_strlit("LUB<");
        }
        match prefixed_name(s, i) {
            Some((pn, j)) => Some((PType::Basic(ResolvableName::PrefixedName(pn)), j)),
            None => None,
        }
    }
}

// ---------------------------------------------------------------------------
// Default values.
// ---------------------------------------------------------------------------

/// A default value: `=` followed by a constant term.
pub open spec fn sp_default_value(s: Seq<char>, i: int) -> Option<(SpDefaultValue, int)> {
    if 0 <= i < s.len() && s[i] == '=' {
        match sp_constant_term(s, i + 1) {
            Some((c, j)) => Some((SpDefaultValue { constant_term: c }, j)),
            None => None,
        }
    } else {
        None
    }
}

/// Parses a default value.
pub fn default_value(s: &Vec<char>, i: usize) -> (r: Option<(DefaultValue, usize)>)
    requires
        i <= s@.len(),
    ensures
        match r {
            Some((d, j)) => i < j <= s@.len() && sp_default_value(s@, i as int) == Some((
                default_value_view(d),
                j as int,
            )),
            None => sp_default_value(s@, i as int) is None,
        },
{
    if i < s.len() && s[i] == '=' {
        match constant_term(s, i + 1) {
            Some((c, j)) => Some((DefaultValue { constant_term: c }, j)),
            None => None,
        }
    } else {
        None
    }
}

// ---------------------------------------------------------------------------
// Parameters.
// ---------------------------------------------------------------------------

/// The mode spellings of the first path of each ordering: `?` or `!?`.
/// Yields the flags `(optional, non_blank)` and the position after them.
pub open spec fn sp_mode_a(s: Seq<char>, w: int) -> (Option<(bool, bool)>, int) {
    if 0 <= w < s.len() && s[w] == '?' {
        (Some((true, false)), w + 1)
    } else if 0 <= w && w + 1 < s.len() && s[w] == '!' && s[w + 1] == '?' {
        (Some((true, true)), w + 2)
    } else {
        (None, w)
    }
}

/// The mode spellings of the second path of each ordering: `?!` or `!`.
pub open spec fn sp_mode_b(s: Seq<char>, w: int) -> (Option<(bool, bool)>, int) {
    if 0 <= w && w + 1 < s.len() && s[w] == '?' && s[w + 1] == '!' {
        (Some((true, true)), w + 2)
    } else if 0 <= w < s.len() && s[w] == '!' {
        (Some((false, true)), w + 1)
    } else {
        (None, w)
    }
}

/// The end of a parameter after its type: the variable, an optional
/// default value, trailing whitespace.
pub open spec fn sp_param_end(
    s: Seq<char>,
    q: int,
    optional: bool,
    non_blank: bool,
    pt: Option<SpPType>,
) -> Option<(SpParameter, int)> {
    match sp_variable(s, q) {
        None => None,
        Some((v, j2)) => {
            let (dv, j3) = match sp_default_value(s, j2) {
                Some((d, k)) => (Some(d), k),
                None => (None, j2),
            };
            Some(
                (
                    SpParameter {
                        optional,
                        non_blank,
                        ptype: pt,
                        variable: v,
                        default_value: dv,
                    },
                    ws_end(s, j3),
                ),
            )
        },
    }
}

/// The tail of the first ordering after its mode flags: an optional type,
/// then the variable and the rest.
pub open spec fn sp_param_tail(s: Seq<char>, p: int, optional: bool, non_blank: bool) -> Option<
    (SpParameter, int),
> {
    let w2 = ws_end(s, p);
    match sp_ptype(s, w2) {
        Some((t, j)) => sp_param_end(s, j, optional, non_blank, Some(t)),
        None => sp_param_end(s, w2, optional, non_blank, None),
    }
}

/// The first ordering: optional mode flags, an optional type, the variable,
/// an optional default value.
pub open spec fn sp_parameter_alt1(s: Seq<char>, i: int) -> Option<(SpParameter, int)> {
    let w = ws_end(s, i);
    let (m1, p1) = sp_mode_a(s, w);
    let r1 = match m1 {
        Some((o, nb)) => sp_param_tail(s, p1, o, nb),
        None => sp_param_tail(s, w, false, false),
    };
    match r1 {
        Some(r) => Some(r),
        None => {
            let (m2, p2) = sp_mode_b(s, w);
            match m2 {
                Some((o, nb)) => sp_param_tail(s, p2, o, nb),
                None => sp_param_tail(s, w, false, false),
            }
        },
    }
}

/// The second ordering: a mandatory type, mandatory mode flags, the
/// variable, an optional default value.
pub open spec fn sp_parameter_alt2(s: Seq<char>, i: int) -> Option<(SpParameter, int)> {
    let w = ws_end(s, i);
    match sp_ptype(s, w) {
        None => None,
        Some((t, j)) => {
            let w2 = ws_end(s, j);
            let (m1, p1) = sp_mode_a(s, w2);
            let r1 = match m1 {
                Some((o, nb)) => sp_param_end(s, p1, o, nb, Some(t)),
                None => None,
            };
            match r1 {
                Some(r) => Some(r),
                None => {
                    let (m2, p2) = sp_mode_b(s, w2);
                    match m2 {
                        Some((o, nb)) => sp_param_end(s, p2, o, nb, Some(t)),
                        None => None,
                    }
                },
            }
        },
    }
}

/// A parameter: the first ordering, else the second.
pub open spec fn sp_parameter(s: Seq<char>, i: int) -> Option<(SpParameter, int)> {
    match sp_parameter_alt1(s, i) {
        Some(r) => Some(r),
        None => sp_parameter_alt2(s, i),
    }
}

/// Parses the end of a parameter: the variable, an optional default value,
/// trailing whitespace.
fn param_end(s: &Vec<char>, q: usize, optional: bool, non_blank: bool, pt: Option<PType>) -> (r:
    Option<(Parameter, usize)>)
    requires
        q <= s@.len(),
    ensures
        match r {
            Some((p, j)) => q < j <= s@.len() && sp_param_end(
                s@,
                q as int,
                optional,
                non_blank,
                match pt {
                    Some(t) => Some(ptype_view(t)),
                    None => None::<SpPType>,
                },
            ) == Some((parameter_view(p), j as int)),
            None => sp_param_end(
                s@,
                q as int,
                optional,
                non_blank,
                match pt {
                    Some(t) => Some(ptype_view(t)),
                    None => None::<SpPType>,
                },
            ) is None,
        },
{
    match variable(s, q) {
        None => None,
        Some((v, j2)) => {
            let (dv, j3) = match default_value(s, j2) {
                Some((d, k)) => (Some(d), k),
                None => (None, j2),
            };
            let j4 = skip_ws(s, j3);
            Some(
                (
                    Parameter {
                        optional,
                        non_blank,
                        ptype: pt,
                        variable: v,
                        default_value: dv,
                    },
                    j4,
                ),
            )
        },
    }
}

/// Parses the tail of the first ordering.
fn param_tail(s: &Vec<char>, p: usize, optional: bool, non_blank: bool) -> (r: Option<
    (Parameter, usize)>)
    requires
        p <= s@.len(),
    ensures
        match r {
            Some((pm, j)) => p < j <= s@.len() && sp_param_tail(
                s@,
                p as int,
                optional,
                non_blank,
            ) == Some((parameter_view(pm), j as int)),
            None => sp_param_tail(s@, p as int, optional, non_blank) is None,
        },
{
    let w2 = skip_ws(s, p);
    match ptype(s, w2) {
        Some((t, j)) => param_end(s, j, optional, non_blank, Some(t)),
        None => param_end(s, w2, optional, non_blank, None),
    }
}

/// Parses a parameter in the first ordering.
pub fn parameter_alt1(s: &Vec<char>, i: usize) -> (r: Option<(Parameter, usize)>)
    requires
        i <= s@.len(),
    ensures
        match r {
            Some((p, j)) => i < j <= s@.len() && sp_parameter_alt1(s@, i as int) == Some((
                parameter_view(p),
                j as int,
            )),
            None => sp_parameter_alt1(s@, i as int) is None,
        },
{
    let w = skip_ws(s, i);
    let r1 = if w < s.len() && s[w] == '?' {
        param_tail(s, w + 1, true, false)
    } else if w < s.len() && s.len() - w > 1 && s[w] == '!' && s[w + 1] == '?' {
        param_tail(s, w + 2, true, true)
    } else {
        param_tail(s, w, false, false)
    };
    match r1 {
        Some(r) => Some(r),
        None => {
            if w < s.len() && s.len() - w > 1 && s[w] == '?' && s[w + 1] == '!' {
                param_tail(s, w + 2, true, true)
            } else if w < s.len() && s[w] == '!' {
                param_tail(s, w + 1, false, true)
            } else {
                param_tail(s, w, false, false)
            }
        },
    }
}

/// Parses a parameter in the second ordering.
pub fn parameter_alt2(s: &Vec<char>, i: usize) -> (r: Option<(Parameter, usize)>)
    requires
        i <= s@.len(),
    ensures
        match r {
            Some((p, j)) => i < j <= s@.len() && sp_parameter_alt2(s@, i as int) == Some((
                parameter_view(p),
                j as int,
            )),
            None => sp_parameter_alt2(s@, i as int) is None,
        },
{
    let w = skip_ws(s, i);
    match ptype(s, w) {
        None => None,
        Some((t, j)) => {
            let w2 = skip_ws(s, j);
            let r1 = if w2 < s.len() && s[w2] == '?' {
                param_end(s, w2 + 1, true, false, Some(t))
            } else if w2 < s.len() && s.len() - w2 > 1 && s[w2] == '!' && s[w2 + 1] == '?' {
                param_end(s, w2 + 2, true, true, Some(t))
            } else {
                None
            };
            match r1 {
                Some(r) => Some(r),
                None => {
                    // The type is parsed afresh, as the second path of the
                    // grammar does; the input is unchanged, so the same
                    // type is found.
                    let t2 = match ptype(s, w) {
                        Some((t2, _)) => t2,
                        None => {
                            return None;
                        },
                    };
                    if w2 < s.len() && s.len() - w2 > 1 && s[w2] == '?' && s[w2 + 1] == '!' {
                        param_end(s, w2 + 2, true, true, Some(t2))
                    } else if w2 < s.len() && s[w2] == '!' {
                        param_end(s, w2 + 1, false, true, Some(t2))
                    } else {
                        None
                    }
                },
            }
        },
    }
}

/// Parses a parameter: the first ordering, else the second.
pub fn parameter(s: &Vec<char>, i: usize) -> (r: Option<(Parameter, usize)>)
    requires
        i <= s@.len(),
    ensures
        match r {
            Some((p, j)) => i < j <= s@.len() && sp_parameter(s@, i as int) == Some((
                parameter_view(p),
                j as int,
            )),
            None => sp_parameter(s@, i as int) is None,
        },
{
    match parameter_alt1(s, i) {
        Some(r) => Some(r),
        None => parameter_alt2(s, i),
    }
}

} // verus!
