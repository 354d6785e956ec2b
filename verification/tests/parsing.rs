use stottr::ast::{
    Argument, BlankNode, ConstantLiteral, ConstantTerm, Instance, Iri, ListExpanderType,
    PrefixedName, ResolvableName, Term, Variable,
};
use stottr::names::{iri, iri_ref, pn_prefix, prefixed_name};
use stottr::params::{default_value, parameter};
use stottr::stmts::{instance, statement};
use stottr::terms::{argument, list};

fn cs(s: &str) -> Vec<char> {
    s.chars().collect()
}

#[test]
fn test_iri_ref() {
    let s = cs("<http://example.org#>");
    let (nn, r) = iri_ref(&s, 0).expect("Ok");
    assert_eq!(nn, Iri { text: "http://example.org#".to_string() });
    assert_eq!(r, s.len());
}

#[test]
fn test_pn_prefix() {
    let s = cs("o-.rd.f.");
    let (p, r) = pn_prefix(&s, 0).expect("Ok");
    assert_eq!(r, s.len() - 1);
    assert_eq!(&p, "o-.rd.f");
}

#[test]
fn test_prefixed_name() {
    let s = cs("o-rdf:Type");
    let (p, r) = prefixed_name(&s, 0).expect("Ok");
    let expected = PrefixedName { prefix: "o-rdf".to_string(), name: "Type".to_string() };
    assert_eq!(p, expected);
    assert_eq!(r, s.len());
}

#[test]
fn test_argument_bad_escape_behavior() {
    let s = cs("foaf:Person,");
    let (_, r) = argument(&s, 0).expect("Ok");
    assert_eq!(r, s.len() - 1);
}

#[test]
fn test_list_term() {
    let s = cs("(?a, ?x, ?y, ?h)");
    let (_, r) = list(&s, 0).expect("Ok");
    assert_eq!(r, s.len());
}

#[test]
fn test_instance() {
    let s = cs("ottr:Triple (_:person, foaf:Person, ?var)");
    let (i, r) = instance(&s, 0).expect("Ok");
    let expected = Instance {
        list_expander: None,
        template_name: ResolvableName::PrefixedName(PrefixedName {
            prefix: "ottr".to_string(),
            name: "Triple".to_string(),
        }),
        argument_list: vec![
            Argument {
                list_expand: false,
                term: Term::ConstantTerm(ConstantTerm::Constant(ConstantLiteral::BlankNode(
                    BlankNode { name: "person".to_string() },
                ))),
            },
            Argument {
                list_expand: false,
                term: Term::ConstantTerm(ConstantTerm::Constant(ConstantLiteral::Iri(
                    ResolvableName::PrefixedName(PrefixedName {
                        prefix: "foaf".to_string(),
                        name: "Person".to_string(),
                    }),
                ))),
            },
            Argument {
                list_expand: false,
                term: Term::Variable(Variable { name: "var".to_string() }),
            },
        ],
    };
    assert_eq!(i, expected);
    assert_eq!(r, s.len());
}

#[test]
fn test_statement_signature() {
    let s = cs("ex:NamedPizza [ ??pizza  ] .");
    let (_, r) = statement(&s, 0).expect("Ok");
    assert_eq!(r, s.len());
}

#[test]
fn test_parameter() {
    let s = cs("? ottr:IRI ?uom");
    let (_, r) = parameter(&s, 0).expect("Ok");
    assert_eq!(r, s.len());
}

#[test]
fn test_parameter_nonstandard() {
    let s = cs("ottr:IRI ??uom");
    let (_, r) = parameter(&s, 0).expect("Ok");
    assert_eq!(r, s.len());
}

#[test]
fn test_default_value_list() {
    let s = cs("= (\"asdf\", \"asdf\")");
    let (_, r) = default_value(&s, 0).expect("Ok");
    assert_eq!(r, s.len());
}

#[test]
fn list_term_has_four_variables() {
    let s = cs("(?a, ?x, ?y, ?h)");
    let (ts, r) = list(&s, 0).expect("Ok");
    assert_eq!(r, s.len());
    let names: Vec<String> = ts
        .into_iter()
        .map(|t| match t {
            Term::Variable(v) => v.name,
            _ => panic!("expected a variable"),
        })
        .collect();
    assert_eq!(names, vec!["a", "x", "y", "h"]);
}

#[test]
fn signature_parameter_flags_from_double_question_mark() {
    let s = cs("ex:NamedPizza [ ??pizza  ] .");
    let (st, r) = statement(&s, 0).expect("Ok");
    assert_eq!(r, s.len());
    match st {
        stottr::ast::Statement::Signature(sig) => {
            assert_eq!(
                sig.template_name,
                ResolvableName::PrefixedName(PrefixedName {
                    prefix: "ex".to_string(),
                    name: "NamedPizza".to_string(),
                })
            );
            assert_eq!(sig.parameter_list.len(), 1);
            let p = &sig.parameter_list[0];
            assert!(p.optional);
            assert!(!p.non_blank);
            assert!(p.ptype.is_none());
            assert_eq!(p.variable, Variable { name: "pizza".to_string() });
            assert!(p.default_value.is_none());
            assert!(sig.annotation_list.is_none());
        },
        other => panic!("expected a signature, got {:?}", other),
    }
}

#[test]
fn default_value_is_pair_of_plain_strings() {
    let s = cs("= (\"asdf\", \"asdf\")");
    let (d, r) = default_value(&s, 0).expect("Ok");
    assert_eq!(r, s.len());
    match d.constant_term {
        ConstantTerm::ConstantList(items) => {
            assert_eq!(items.len(), 2);
            for item in items {
                match item {
                    ConstantTerm::Constant(ConstantLiteral::Literal(l)) => {
                        assert_eq!(l.value, "asdf");
                        assert_eq!(l.language, None);
                        assert_eq!(
                            l.data_type_iri,
                            Some(ResolvableName::NamedNode(Iri {
                                text: "http://www.w3.org/2001/XMLSchema#string".to_string(),
                            }))
                        );
                    },
                    other => panic!("expected a string literal, got {:?}", other),
                }
            }
        },
        other => panic!("expected a constant list, got {:?}", other),
    }
}

#[test]
fn relative_iri_is_a_parse_error_not_a_panic() {
    let s = cs("<abc>");
    assert!(iri_ref(&s, 0).is_none());
}

#[test]
fn iri_body_round_trips() {
    let s = cs("<http://example.org/a?x=1#frag>");
    let (nn, r) = iri_ref(&s, 0).expect("Ok");
    assert_eq!(r, s.len());
    let printed: Vec<char> = format!("<{}>", nn.text).chars().collect();
    assert_eq!(printed, s);
    let (nn2, r2) = iri_ref(&printed, 0).expect("Ok");
    assert_eq!(nn2, nn);
    assert_eq!(r2, printed.len());
}

#[test]
fn keyword_a_is_the_rdf_type_predicate() {
    let s = cs("a");
    let (n, r) = iri(&s, 0).expect("Ok");
    assert_eq!(r, 1);
    assert_eq!(
        n,
        ResolvableName::NamedNode(Iri {
            text: "http://www.w3.org/1999/02/22-rdf-syntax-ns#type".to_string(),
        })
    );
}

#[test]
fn percent_and_backslash_escapes_in_local_names() {
    let s = cs("ex:a%2Fb");
    let (p, r) = prefixed_name(&s, 0).expect("Ok");
    assert_eq!(r, s.len());
    assert_eq!(p.name, "a2Fb");
    let s2 = cs("ex:a\\,b");
    let (p2, r2) = prefixed_name(&s2, 0).expect("Ok");
    assert_eq!(r2, s2.len());
    assert_eq!(p2.name, "a,b");
}

#[test]
fn escaped_backslash_is_not_a_local_escape() {
    // the allow-list holds only _~.-!$&()*+,;=/?#@%: a backslash cannot
    // escape itself, so the local name stops before it
    let s = cs("ex:a\\\\b");
    let (p, r) = prefixed_name(&s, 0).expect("Ok");
    assert_eq!(p.name, "a");
    assert_eq!(r, 4);
}

#[test]
fn names_may_use_the_turtle_letter_ranges() {
    let s = cs("\u{e9}x:\u{f8}");
    let (p, r) = prefixed_name(&s, 0).expect("Ok");
    assert_eq!(r, s.len());
    assert_eq!(p.prefix, "\u{e9}x");
    assert_eq!(p.name, "\u{f8}");
}

#[test]
fn list_expanders_are_recorded() {
    for (text, exp) in [
        ("cross | ex:T (?a)", ListExpanderType::Cross),
        ("zipMin | ex:T (?a)", ListExpanderType::ZipMin),
        ("zipMax | ex:T (?a)", ListExpanderType::ZipMax),
    ] {
        let s = cs(text);
        let (i, r) = instance(&s, 0).expect("Ok");
        assert_eq!(r, s.len());
        assert_eq!(i.list_expander, Some(exp));
    }
}

#[test]
fn anonymous_blank_nodes_share_one_label() {
    let s = cs("ex:T ([], [])");
    let (i, r) = instance(&s, 0).expect("Ok");
    assert_eq!(r, s.len());
    assert_eq!(i.argument_list.len(), 2);
    for a in &i.argument_list {
        match &a.term {
            Term::ConstantTerm(ConstantTerm::Constant(ConstantLiteral::BlankNode(b))) => {
                assert_eq!(b.name, "AnonymousBlankNode");
            },
            other => panic!("expected a blank node, got {:?}", other),
        }
    }
}

#[test]
fn blank_node_label_with_trailing_dot_is_an_error() {
    // the label grammar keeps the period after the start character, and
    // such an identifier then fails validation: a parse error, not a panic
    let s = cs("_:p.");
    assert!(argument(&s, 0).is_none());
    let ok = cs("_:p");
    let (a, r) = argument(&ok, 0).expect("Ok");
    assert_eq!(r, ok.len());
    match a.term {
        Term::ConstantTerm(ConstantTerm::Constant(ConstantLiteral::BlankNode(b))) => {
            assert_eq!(b.name, "p");
        },
        other => panic!("expected a blank node, got {:?}", other),
    }
}

#[test]
fn list_expand_marker_sets_the_flag() {
    let s = cs("++?xs");
    let (a, r) = argument(&s, 0).expect("Ok");
    assert_eq!(r, s.len());
    assert!(a.list_expand);
    assert_eq!(a.term, Term::Variable(Variable { name: "xs".to_string() }));
}

#[test]
fn signature_tolerates_a_trailing_comma() {
    let s = cs("ex:T [ ?a, ] .");
    let (st, r) = statement(&s, 0).expect("Ok");
    assert_eq!(r, s.len());
    match st {
        stottr::ast::Statement::Signature(sig) => {
            assert_eq!(sig.parameter_list.len(), 1);
        },
        other => panic!("expected a signature, got {:?}", other),
    }
}

#[test]
fn signature_annotations_are_collected() {
    let s = cs("ex:T [ ?a ] @@ ex:A(?a), @@ ex:B(?a) .");
    let (st, r) = statement(&s, 0).expect("Ok");
    assert_eq!(r, s.len());
    match st {
        stottr::ast::Statement::Signature(sig) => {
            let ans = sig.annotation_list.expect("annotations");
            assert_eq!(ans.len(), 2);
            assert_eq!(
                ans[0].instance.template_name,
                ResolvableName::PrefixedName(PrefixedName {
                    prefix: "ex".to_string(),
                    name: "A".to_string(),
                })
            );
        },
        other => panic!("expected a signature, got {:?}", other),
    }
}

#[test]
fn question_mark_before_variable_binds_as_its_marker() {
    // the leading `?` is taken as the optional flag only when a variable
    // still follows; here it is consumed as the variable's own marker, so
    // the parameter is not optional
    let s = cs("?x = 5");
    let (p, r) = parameter(&s, 0).expect("Ok");
    assert_eq!(r, s.len());
    assert!(!p.optional);
    assert!(!p.non_blank);
    assert_eq!(p.variable, Variable { name: "x".to_string() });
    let d = p.default_value.expect("default");
    match d.constant_term {
        ConstantTerm::Constant(ConstantLiteral::Literal(l)) => {
            assert_eq!(l.value, "5");
        },
        other => panic!("expected a literal default, got {:?}", other),
    }
}

#[test]
fn bang_question_before_bare_variable_reads_as_non_blank() {
    // `!?` binds as a pair only when a variable follows it; before `?x`
    // the second path takes `!` alone and the variable is `x`
    let s = cs("!?x");
    let (p, r) = parameter(&s, 0).expect("Ok");
    assert_eq!(r, s.len());
    assert!(!p.optional);
    assert!(p.non_blank);
    assert_eq!(p.variable, Variable { name: "x".to_string() });
}

#[test]
fn nested_list_types() {
    let s = cs("List<NEList<xsd:int>> ??x");
    let (p, r) = parameter(&s, 0).expect("Ok");
    assert_eq!(r, s.len());
    assert!(p.optional);
    let basic = stottr::ast::PType::Basic(ResolvableName::PrefixedName(PrefixedName {
        prefix: "xsd".to_string(),
        name: "int".to_string(),
    }));
    let expected = stottr::ast::PType::List(Box::new(stottr::ast::PType::NEList(Box::new(basic))));
    assert_eq!(p.ptype, Some(expected));
}

#[test]
fn lub_type_wraps_a_basic_type() {
    let s = cs("LUB<ex:B> ??x");
    let (p, r) = parameter(&s, 0).expect("Ok");
    assert_eq!(r, s.len());
    let basic = stottr::ast::PType::Basic(ResolvableName::PrefixedName(PrefixedName {
        prefix: "ex".to_string(),
        name: "B".to_string(),
    }));
    assert_eq!(p.ptype, Some(stottr::ast::PType::Lub(Box::new(basic))));
}
