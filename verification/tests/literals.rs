use stottr::ast::{Iri, PrefixedName, ResolvableName};
use stottr::literals::{boolean_literal, literal, numeric_literal};
use stottr::strings::{lang_tag, string, string_long};

fn cs(s: &str) -> Vec<char> {
    s.chars().collect()
}

fn named(t: &str) -> ResolvableName {
    ResolvableName::NamedNode(Iri { text: t.to_string() })
}

#[test]
fn integer_literal_keeps_sign_and_digits() {
    let s = cs("-42");
    let (l, r) = numeric_literal(&s, 0).expect("Ok");
    assert_eq!(r, 3);
    assert_eq!(l.value, "-42");
    assert_eq!(l.language, None);
    assert_eq!(l.data_type_iri, Some(named("http://www.w3.org/2001/XMLSchema#integer")));
}

#[test]
fn decimal_literal_requires_digits_after_the_point() {
    let s = cs("-3.5");
    let (l, r) = numeric_literal(&s, 0).expect("Ok");
    assert_eq!(r, 4);
    assert_eq!(l.value, "-3.5");
    assert_eq!(l.data_type_iri, Some(named("http://www.w3.org/2001/XMLSchema#decimal")));
    let bad = cs("3.");
    let (l2, r2) = numeric_literal(&bad, 0).expect("Ok");
    assert_eq!(l2.value, "3");
    assert_eq!(r2, 1);
}

#[test]
fn double_literals_in_all_three_shapes() {
    for (text, value) in [("+4.2E-1", "+4.2E-1"), (".5e0", ".5e0"), ("3e8", "3e8")] {
        let s = cs(text);
        let (l, r) = numeric_literal(&s, 0).expect("Ok");
        assert_eq!(r, s.len());
        assert_eq!(l.value, value);
        assert_eq!(l.data_type_iri, Some(named("http://www.w3.org/2001/XMLSchema#double")));
    }
}

#[test]
fn boolean_literals() {
    let s = cs("true");
    let (l, r) = boolean_literal(&s, 0).expect("Ok");
    assert_eq!(r, 4);
    assert_eq!(l.value, "true");
    assert_eq!(l.data_type_iri, Some(named("http://www.w3.org/2001/XMLSchema#boolean")));
    let s2 = cs("false");
    let (l2, r2) = boolean_literal(&s2, 0).expect("Ok");
    assert_eq!(r2, 5);
    assert_eq!(l2.value, "false");
    assert!(boolean_literal(&cs("maybe"), 0).is_none());
}

#[test]
fn plain_string_literal_is_typed_xsd_string() {
    let s = cs("\"hello\"");
    let (l, r) = literal(&s, 0).expect("Ok");
    assert_eq!(r, s.len());
    assert_eq!(l.value, "hello");
    assert_eq!(l.language, None);
    assert_eq!(l.data_type_iri, Some(named("http://www.w3.org/2001/XMLSchema#string")));
}

#[test]
fn string_escapes_are_kept_raw() {
    let s = cs("\"a\\nb\"");
    let (l, r) = literal(&s, 0).expect("Ok");
    assert_eq!(r, s.len());
    assert_eq!(l.value, "a\\nb");
}

#[test]
fn language_tagged_literal() {
    let s = cs("\"hi\"@en-US");
    let (l, r) = literal(&s, 0).expect("Ok");
    assert_eq!(r, s.len());
    assert_eq!(l.value, "hi");
    assert_eq!(l.language, Some("en-US".to_string()));
    assert_eq!(
        l.data_type_iri,
        Some(named("http://www.w3.org/1999/02/22-rdf-syntax-ns#langString"))
    );
}

#[test]
fn datatyped_literal_keeps_the_prefixed_datatype() {
    let s = cs("\"5\"^^xsd:integer");
    let (l, r) = literal(&s, 0).expect("Ok");
    assert_eq!(r, s.len());
    assert_eq!(l.value, "5");
    assert_eq!(
        l.data_type_iri,
        Some(ResolvableName::PrefixedName(PrefixedName {
            prefix: "xsd".to_string(),
            name: "integer".to_string(),
        }))
    );
}

#[test]
fn single_quoted_strings_parse() {
    let s = cs("'abc'");
    let (t, r) = string(&s, 0).expect("Ok");
    assert_eq!(r, s.len());
    assert_eq!(t, "abc");
    let (l, r2) = literal(&s, 0).expect("Ok");
    assert_eq!(r2, s.len());
    assert_eq!(l.value, "abc");
    assert_eq!(l.data_type_iri, Some(named("http://www.w3.org/2001/XMLSchema#string")));
    // a double quote is an ordinary body character of this form
    let s2 = cs("'a\"b'");
    let (t2, r3) = string(&s2, 0).expect("Ok");
    assert_eq!(r3, s2.len());
    assert_eq!(t2, "a\"b");
}

#[test]
fn long_single_quoted_form_tolerates_embedded_quotes() {
    let (t, r) = string_long(&cs("'''a'b'''"), 0, '\'').expect("Ok");
    assert_eq!(t, "a'b");
    assert_eq!(r, 9);
    let (t2, r2) = string_long(&cs("'''a''b'''"), 0, '\'').expect("Ok");
    assert_eq!(t2, "a''b");
    assert_eq!(r2, 10);
}

#[test]
fn long_double_quoted_form_closes_with_double_quotes() {
    let (t, r) = string_long(&cs("\"\"\"a\"b\"\"\""), 0, '"').expect("Ok");
    assert_eq!(t, "a\"b");
    assert_eq!(r, 9);
}

#[test]
fn three_like_quotes_read_as_an_empty_short_string() {
    // the short forms are tried first and admit empty bodies, so the
    // first two quotes close at once and the long forms are not reached
    let s = cs("\"\"\"abc\"\"\"");
    let (t, r) = string(&s, 0).expect("Ok");
    assert_eq!(t, "");
    assert_eq!(r, 2);
    let s2 = cs("'''abc'''");
    let (t2, r2) = string(&s2, 0).expect("Ok");
    assert_eq!(t2, "");
    assert_eq!(r2, 2);
}

#[test]
fn lang_tag_stops_before_a_dangling_dash() {
    let s = cs("@en-");
    let (t, r) = lang_tag(&s, 0).expect("Ok");
    assert_eq!(t, "en");
    assert_eq!(r, 3);
}

