//! The unresolved abstract syntax tree.
//!
//! Every node keeps names in surface form: a prefixed name is a pair of
//! strings, an IRI is its bracketed text, and nothing is resolved against the
//! collected directives.  Each executable node has a ghost counterpart (the
//! `Sp` types) over `Seq<char>`, and a view function mapping one to the other;
//! the parser's contracts are stated over the ghost side.
use vstd::prelude::*;

verus! {

broadcast use vstd::seq::group_seq_axioms;

/// A bracketed absolute IRI, kept as the text between the angle brackets.
#[derive(Debug, PartialEq, Eq)]
pub struct Iri {
    pub text: String,
}

/// A variable reference, without its leading `?`.
#[derive(Debug, PartialEq, Eq)]
pub struct Variable {
    pub name: String,
}

/// A labeled blank node; the anonymous form `[]` carries a fixed label.
#[derive(Debug, PartialEq, Eq)]
pub struct BlankNode {
    pub name: String,
}

/// A namespace-abbreviated name `prefix:local`.
#[derive(Debug, PartialEq, Eq)]
pub struct PrefixedName {
    pub prefix: String,
    pub name: String,
}

/// A surface-form name that a downstream resolver turns into an absolute IRI.
#[derive(Debug, PartialEq, Eq)]
pub enum ResolvableName {
    NamedNode(Iri),
    PrefixedName(PrefixedName),
}

/// An RDF literal: its lexical value, an optional language tag, and an
/// optional datatype name.
#[derive(Debug, PartialEq, Eq)]
pub struct Literal {
    pub value: String,
    pub language: Option<String>,
    pub data_type_iri: Option<ResolvableName>,
}

/// An atomic constant: an IRI, a blank node, a literal, or the keyword
/// `none`.
#[derive(Debug, PartialEq, Eq)]
pub enum ConstantLiteral {
    Iri(ResolvableName),
    BlankNode(BlankNode),
    Literal(Literal),
    Absent,
}

/// A non-variable value: a single constant or a nested constant list.
#[derive(Debug, PartialEq, Eq)]
pub enum ConstantTerm {
    Constant(ConstantLiteral),
    ConstantList(Vec<ConstantTerm>),
}

/// A value position inside an argument: a variable, a constant term, or a
/// parenthesized list of terms.
#[derive(Debug, PartialEq, Eq)]
pub enum Term {
    Variable(Variable),
    ConstantTerm(ConstantTerm),
    List(Vec<Term>),
}

/// One actual parameter: an optional `++` list-expansion marker and a term.
#[derive(Debug, PartialEq, Eq)]
pub struct Argument {
    pub list_expand: bool,
    pub term: Term,
}

/// How list-valued arguments of an instance are to be expanded downstream.
#[derive(Debug, Clone, Copy, PartialEq, Eq, Structural)]
pub enum ListExpanderType {
    Cross,
    ZipMin,
    ZipMax,
}

/// A template invocation: an optional list expander, a name, and arguments.
#[derive(Debug, PartialEq, Eq)]
pub struct Instance {
    pub list_expander: Option<ListExpanderType>,
    pub template_name: ResolvableName,
    pub argument_list: Vec<Argument>,
}

/// An `@@`-prefixed instance attached to a signature.
#[derive(Debug, PartialEq, Eq)]
pub struct Annotation {
    pub instance: Instance,
}

/// A parameter type expression: `List<T>`, `NEList<T>`, `LUB<T>`, or a bare
/// basic type.
#[derive(Debug, PartialEq, Eq)]
pub enum PType {
    Basic(ResolvableName),
    Lub(Box<PType>),
    List(Box<PType>),
    NEList(Box<PType>),
}

/// A parameter's default value: `=` followed by a constant term.
#[derive(Debug, PartialEq, Eq)]
pub struct DefaultValue {
    pub constant_term: ConstantTerm,
}

/// One template parameter: mode flags, an optional type, the variable, and
/// an optional default value.
#[derive(Debug, PartialEq, Eq)]
pub struct Parameter {
    pub optional: bool,
    pub non_blank: bool,
    pub ptype: Option<PType>,
    pub variable: Variable,
    pub default_value: Option<DefaultValue>,
}

/// A template header: its name, parameter list, and optional annotations.
#[derive(Debug, PartialEq, Eq)]
pub struct Signature {
    pub template_name: ResolvableName,
    pub parameter_list: Vec<Parameter>,
    pub annotation_list: Option<Vec<Annotation>>,
}

/// A signature together with its pattern list.
#[derive(Debug, PartialEq, Eq)]
pub struct Template {
    pub signature: Signature,
    pub pattern_list: Vec<Instance>,
}

/// A signature declared as a base template.
#[derive(Debug, PartialEq, Eq)]
pub struct BaseTemplate {
    pub signature: Signature,
}

/// One top-level declaration, always terminated by `.` in the source.
#[derive(Debug, PartialEq, Eq)]
pub enum Statement {
    Signature(Signature),
    Template(Template),
    Instance(Instance),
    BaseTemplate(BaseTemplate),
}

/// A namespace declaration: a prefix name bound to an IRI.
#[derive(Debug, PartialEq, Eq)]
pub struct Prefix {
    pub name: String,
    pub iri: Iri,
}

/// A document-level declaration: a namespace prefix or a base IRI.
#[derive(Debug, PartialEq, Eq)]
pub enum Directive {
    Prefix(Prefix),
    Base(Iri),
}

/// A whole parsed file: its directives and statements, each in source order.
#[derive(Debug, PartialEq, Eq)]
pub struct Document {
    pub directives: Vec<Directive>,
    pub statements: Vec<Statement>,
}

// ---------------------------------------------------------------------------
// Ghost counterparts.
// ---------------------------------------------------------------------------

pub ghost enum SpName {
    Named(Seq<char>),
    Prefixed { prefix: Seq<char>, name: Seq<char> },
}

pub ghost struct SpLiteral {
    pub value: Seq<char>,
    pub language: Option<Seq<char>>,
    pub data_type_iri: Option<SpName>,
}

pub ghost enum SpConstantLiteral {
    Iri(SpName),
    BlankNode(Seq<char>),
    Literal(SpLiteral),
    Absent,
}

pub ghost enum SpConstantTerm {
    Constant(SpConstantLiteral),
    ConstantList(Seq<SpConstantTerm>),
}

pub ghost enum SpTerm {
    Variable(Seq<char>),
    ConstantTerm(SpConstantTerm),
    List(Seq<SpTerm>),
}

pub ghost struct SpArgument {
    pub list_expand: bool,
    pub term: SpTerm,
}

pub ghost struct SpInstance {
    pub list_expander: Option<ListExpanderType>,
    pub template_name: SpName,
    pub argument_list: Seq<SpArgument>,
}

pub ghost struct SpAnnotation {
    pub instance: SpInstance,
}

pub ghost enum SpPType {
    Basic(SpName),
    Lub(Box<SpPType>),
    List(Box<SpPType>),
    NEList(Box<SpPType>),
}

pub ghost struct SpDefaultValue {
    pub constant_term: SpConstantTerm,
}

pub ghost struct SpParameter {
    pub optional: bool,
    pub non_blank: bool,
    pub ptype: Option<SpPType>,
    pub variable: Seq<char>,
    pub default_value: Option<SpDefaultValue>,
}

pub ghost struct SpSignature {
    pub template_name: SpName,
    pub parameter_list: Seq<SpParameter>,
    pub annotation_list: Option<Seq<SpAnnotation>>,
}

pub ghost struct SpTemplate {
    pub signature: SpSignature,
    pub pattern_list: Seq<SpInstance>,
}

pub ghost struct SpBaseTemplate {
    pub signature: SpSignature,
}

pub ghost enum SpStatement {
    Signature(SpSignature),
    Template(SpTemplate),
    Instance(SpInstance),
    BaseTemplate(SpBaseTemplate),
}

pub ghost struct SpPrefix {
    pub name: Seq<char>,
    pub iri: Seq<char>,
}

pub ghost enum SpDirective {
    Prefix(SpPrefix),
    Base(Seq<char>),
}

pub ghost struct SpDocument {
    pub directives: Seq<SpDirective>,
    pub statements: Seq<SpStatement>,
}

// ---------------------------------------------------------------------------
// View functions.
// ---------------------------------------------------------------------------

pub open spec fn name_view(n: ResolvableName) -> SpName {
    match n {
        ResolvableName::NamedNode(i) => SpName::Named(i.text@),
        ResolvableName::PrefixedName(p) => SpName::Prefixed { prefix: p.prefix@, name: p.name@ },
    }
}

pub open spec fn literal_view(l: Literal) -> SpLiteral {
    SpLiteral {
        value: l.value@,
        language: match l.language {
            Some(s) => Some(s@),
            None => None,
        },
        data_type_iri: match l.data_type_iri {
            Some(n) => Some(name_view(n)),
            None => None,
        },
    }
}

pub open spec fn constant_literal_view(c: ConstantLiteral) -> SpConstantLiteral {
    match c {
        ConstantLiteral::Iri(n) => SpConstantLiteral::Iri(name_view(n)),
        ConstantLiteral::BlankNode(b) => SpConstantLiteral::BlankNode(b.name@),
        ConstantLiteral::Literal(l) => SpConstantLiteral::Literal(literal_view(l)),
        ConstantLiteral::Absent => SpConstantLiteral::Absent,
    }
}

pub open spec fn constant_term_view(c: ConstantTerm) -> SpConstantTerm
    decreases c, 1int,
{
    match c {
        ConstantTerm::Constant(l) => SpConstantTerm::Constant(constant_literal_view(l)),
        ConstantTerm::ConstantList(cs) => SpConstantTerm::ConstantList(cterms_view(cs@)),
    }
}

pub open spec fn cterms_view(cs: Seq<ConstantTerm>) -> Seq<SpConstantTerm>
    decreases cs, 0int,
{
    if cs.len() == 0 {
        Seq::empty()
    } else {
        seq![constant_term_view(cs.first())] + cterms_view(cs.drop_first())
    }
}

pub open spec fn term_view(t: Term) -> SpTerm
    decreases t, 1int,
{
    match t {
        Term::Variable(v) => SpTerm::Variable(v.name@),
        Term::ConstantTerm(c) => SpTerm::ConstantTerm(constant_term_view(c)),
        Term::List(ts) => SpTerm::List(terms_view(ts@)),
    }
}

pub open spec fn terms_view(ts: Seq<Term>) -> Seq<SpTerm>
    decreases ts, 0int,
{
    if ts.len() == 0 {
        Seq::empty()
    } else {
        seq![term_view(ts.first())] + terms_view(ts.drop_first())
    }
}

pub open spec fn argument_view(a: Argument) -> SpArgument {
    SpArgument { list_expand: a.list_expand, term: term_view(a.term) }
}

pub open spec fn args_view(xs: Seq<Argument>) -> Seq<SpArgument>
    decreases xs,
{
    if xs.len() == 0 {
        Seq::empty()
    } else {
        seq![argument_view(xs.first())] + args_view(xs.drop_first())
    }
}

pub open spec fn instance_view(i: Instance) -> SpInstance {
    SpInstance {
        list_expander: i.list_expander,
        template_name: name_view(i.template_name),
        argument_list: args_view(i.argument_list@),
    }
}

pub open spec fn instances_view(xs: Seq<Instance>) -> Seq<SpInstance>
    decreases xs,
{
    if xs.len() == 0 {
        Seq::empty()
    } else {
        seq![instance_view(xs.first())] + instances_view(xs.drop_first())
    }
}

pub open spec fn annotation_view(a: Annotation) -> SpAnnotation {
    SpAnnotation { instance: instance_view(a.instance) }
}

pub open spec fn annos_view(xs: Seq<Annotation>) -> Seq<SpAnnotation>
    decreases xs,
{
    if xs.len() == 0 {
        Seq::empty()
    } else {
        seq![annotation_view(xs.first())] + annos_view(xs.drop_first())
    }
}

pub open spec fn ptype_view(t: PType) -> SpPType
    decreases t,
{
    match t {
        PType::Basic(n) => SpPType::Basic(name_view(n)),
        PType::Lub(b) => SpPType::Lub(Box::new(ptype_view(*b))),
        PType::List(b) => SpPType::List(Box::new(ptype_view(*b))),
        PType::NEList(b) => SpPType::NEList(Box::new(ptype_view(*b))),
    }
}

pub open spec fn default_value_view(d: DefaultValue) -> SpDefaultValue {
    SpDefaultValue { constant_term: constant_term_view(d.constant_term) }
}

pub open spec fn parameter_view(p: Parameter) -> SpParameter {
    SpParameter {
        optional: p.optional,
        non_blank: p.non_blank,
        ptype: match p.ptype {
            Some(t) => Some(ptype_view(t)),
            None => None,
        },
        variable: p.variable.name@,
        default_value: match p.default_value {
            Some(d) => Some(default_value_view(d)),
            None => None,
        },
    }
}

pub open spec fn params_view(xs: Seq<Parameter>) -> Seq<SpParameter>
    decreases xs,
{
    if xs.len() == 0 {
        Seq::empty()
    } else {
        seq![parameter_view(xs.first())] + params_view(xs.drop_first())
    }
}

pub open spec fn signature_view(s: Signature) -> SpSignature {
    SpSignature {
        template_name: name_view(s.template_name),
        parameter_list: params_view(s.parameter_list@),
        annotation_list: match s.annotation_list {
            Some(xs) => Some(annos_view(xs@)),
            None => None,
        },
    }
}

pub open spec fn template_view(t: Template) -> SpTemplate {
    SpTemplate {
        signature: signature_view(t.signature),
        pattern_list: instances_view(t.pattern_list@),
    }
}

pub open spec fn statement_view(s: Statement) -> SpStatement {
    match s {
        Statement::Signature(x) => SpStatement::Signature(signature_view(x)),
        Statement::Template(x) => SpStatement::Template(template_view(x)),
        Statement::Instance(x) => SpStatement::Instance(instance_view(x)),
        Statement::BaseTemplate(x) => SpStatement::BaseTemplate(
            SpBaseTemplate { signature: signature_view(x.signature) },
        ),
    }
}

pub open spec fn statements_view(xs: Seq<Statement>) -> Seq<SpStatement>
    decreases xs,
{
    if xs.len() == 0 {
        Seq::empty()
    } else {
        seq![statement_view(xs.first())] + statements_view(xs.drop_first())
    }
}

pub open spec fn directive_view(d: Directive) -> SpDirective {
    match d {
        Directive::Prefix(p) => SpDirective::Prefix(SpPrefix { name: p.name@, iri: p.iri.text@ }),
        Directive::Base(i) => SpDirective::Base(i.text@),
    }
}

pub open spec fn directives_view(xs: Seq<Directive>) -> Seq<SpDirective>
    decreases xs,
{
    if xs.len() == 0 {
        Seq::empty()
    } else {
        seq![directive_view(xs.first())] + directives_view(xs.drop_first())
    }
}

pub open spec fn document_view(d: Document) -> SpDocument {
    SpDocument {
        directives: directives_view(d.directives@),
        statements: statements_view(d.statements@),
    }
}

// ---------------------------------------------------------------------------
// Consing one element commutes with the sequence views.
// ---------------------------------------------------------------------------

pub proof fn lemma_cterms_view_cons(x: ConstantTerm, s: Seq<ConstantTerm>)
    ensures
        cterms_view(seq![x] + s) == seq![constant_term_view(x)] + cterms_view(s),
{
    assert((seq![x] + s).drop_first() =~= s);
    assert((seq![x] + s).first() == x);
}

pub proof fn lemma_terms_view_cons(x: Term, s: Seq<Term>)
    ensures
        terms_view(seq![x] + s) == seq![term_view(x)] + terms_view(s),
{
    assert((seq![x] + s).drop_first() =~= s);
    assert((seq![x] + s).first() == x);
}

pub proof fn lemma_args_view_cons(x: Argument, s: Seq<Argument>)
    ensures
        args_view(seq![x] + s) == seq![argument_view(x)] + args_view(s),
{
    assert((seq![x] + s).drop_first() =~= s);
    assert((seq![x] + s).first() == x);
}

pub proof fn lemma_instances_view_cons(x: Instance, s: Seq<Instance>)
    ensures
        instances_view(seq![x] + s) == seq![instance_view(x)] + instances_view(s),
{
    assert((seq![x] + s).drop_first() =~= s);
    assert((seq![x] + s).first() == x);
}

pub proof fn lemma_annos_view_cons(x: Annotation, s: Seq<Annotation>)
    ensures
        annos_view(seq![x] + s) == seq![annotation_view(x)] + annos_view(s),
{
    assert((seq![x] + s).drop_first() =~= s);
    assert((seq![x] + s).first() == x);
}

pub proof fn lemma_params_view_cons(x: Parameter, s: Seq<Parameter>)
    ensures
        params_view(seq![x] + s) == seq![parameter_view(x)] + params_view(s),
{
    assert((seq![x] + s).drop_first() =~= s);
    assert((seq![x] + s).first() == x);
}

pub proof fn lemma_statements_view_cons(x: Statement, s: Seq<Statement>)
    ensures
        statements_view(seq![x] + s) == seq![statement_view(x)] + statements_view(s),
{
    assert((seq![x] + s).drop_first() =~= s);
    assert((seq![x] + s).first() == x);
}

pub proof fn lemma_directives_view_cons(x: Directive, s: Seq<Directive>)
    ensures
        directives_view(seq![x] + s) == seq![directive_view(x)] + directives_view(s),
{
    assert((seq![x] + s).drop_first() =~= s);
    assert((seq![x] + s).first() == x);
}

} // verus!
