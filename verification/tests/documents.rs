use stottr::ast::{Directive, Iri, PrefixedName, ResolvableName, Statement};
use stottr::stmts::{parse_document, stottr_doc};

fn cs(s: &str) -> Vec<char> {
    s.chars().collect()
}

#[test]
fn document_with_directive_template_and_instance() {
    let s = cs(
        "@prefix ex: <http://example.org/> .\nex:T [ ?a ] :: { ottr:Triple(?a, a, ?a) } .\nex:T2(true) .\n",
    );
    let doc = parse_document(&s, 0).expect("Ok");
    assert_eq!(doc.directives.len(), 1);
    match &doc.directives[0] {
        Directive::Prefix(p) => {
            assert_eq!(p.name, "ex");
            assert_eq!(p.iri, Iri { text: "http://example.org/".to_string() });
        },
        other => panic!("expected a prefix directive, got {:?}", other),
    }
    assert_eq!(doc.statements.len(), 2);
    match &doc.statements[0] {
        Statement::Template(t) => {
            assert_eq!(
                t.signature.template_name,
                ResolvableName::PrefixedName(PrefixedName {
                    prefix: "ex".to_string(),
                    name: "T".to_string(),
                })
            );
            assert_eq!(t.signature.parameter_list.len(), 1);
            assert_eq!(t.pattern_list.len(), 1);
            assert_eq!(t.pattern_list[0].argument_list.len(), 3);
        },
        other => panic!("expected a template, got {:?}", other),
    }
    match &doc.statements[1] {
        Statement::Instance(i) => {
            assert_eq!(i.argument_list.len(), 1);
        },
        other => panic!("expected an instance, got {:?}", other),
    }
}

#[test]
fn leftover_text_is_an_error_with_its_offset() {
    let s = cs("ex:T2(true) . garbage");
    let err = parse_document(&s, 0).expect_err("leftover");
    assert_eq!(err.offset, 14);
}

#[test]
fn empty_and_whitespace_only_documents_are_empty() {
    let doc = parse_document(&cs(""), 0).expect("Ok");
    assert!(doc.directives.is_empty() && doc.statements.is_empty());
    let doc2 = parse_document(&cs("  \n\t "), 0).expect("Ok");
    assert!(doc2.directives.is_empty() && doc2.statements.is_empty());
}

#[test]
fn base_directive_takes_no_space_before_the_iri() {
    let ok = cs("BASE<http://example.org/>");
    let doc = parse_document(&ok, 0).expect("Ok");
    assert_eq!(doc.directives.len(), 1);
    match &doc.directives[0] {
        Directive::Base(i) => assert_eq!(i, &Iri { text: "http://example.org/".to_string() }),
        other => panic!("expected a base directive, got {:?}", other),
    }
    // with a space the base form fails, as the grammar is written
    let bad = cs("BASE <http://example.org/>");
    assert!(parse_document(&bad, 0).is_err());
}

#[test]
fn sparql_prefix_takes_no_space_after_the_keyword() {
    let ok = cs("PREFIXex:<http://example.org/>");
    let doc = parse_document(&ok, 0).expect("Ok");
    assert_eq!(doc.directives.len(), 1);
    let bad = cs("PREFIX ex: <http://example.org/>");
    assert!(parse_document(&bad, 0).is_err());
}

#[test]
fn base_template_statement_is_unreachable() {
    // the signature alternative matches first and commits, so the closing
    // `::` `BASE` can never follow: the statement fails as a whole
    let s = cs("ex:T [] :: BASE .");
    assert!(parse_document(&s, 0).is_err());
}

#[test]
fn parse_is_deterministic_on_reparse() {
    let text = "@prefix ex: <http://example.org/> .\nex:T [ ?a ] :: { ottr:Triple(?a, a, ?a) } .\n";
    let s = cs(text);
    let d1 = parse_document(&s, 0).expect("Ok");
    let d2 = parse_document(&s, 0).expect("Ok");
    assert_eq!(d1, d2);
}

#[test]
fn stottr_doc_stops_before_unparsable_text() {
    let s = cs("  ex:T2(true) .  junk");
    let (doc, rest) = stottr_doc(&s, 0);
    assert_eq!(doc.statements.len(), 1);
    assert_eq!(rest, 17);
}

#[test]
fn parse_document_text_takes_a_string() {
    let doc = stottr::stmts::parse_document_text("ex:T2(true) .").expect("Ok");
    assert_eq!(doc.statements.len(), 1);
    let err = stottr::stmts::parse_document_text("not a document").expect_err("leftover");
    assert_eq!(err.offset, 0);
}
