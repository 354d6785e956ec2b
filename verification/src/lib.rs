//! A textual front-end for a template-based graph-construction language:
//! an OTTR-style, Turtle-derived syntax for defining reusable templates that
//! expand into triples.  The parser consumes raw source text and produces an
//! unresolved abstract syntax tree: directives (namespace prefixes, base IRI)
//! and statements (template, instance, signature, base-template declarations),
//! with all names still in surface form.
//!
//! Each parsing rule is written twice: a specification function over the
//! input character sequence, stating exactly what is consumed and produced,
//! and an executable function proved to agree with it.  Alternatives are
//! tried strictly in order, and a failed alternative consumes nothing.
//!
//! A few self-contained helpers live beside the parser: splitting a prompt
//! file into its parts, word-count similarity, and two small data shapes
//! for estimators and program configuration.
use vstd::prelude::*;

pub mod ast;
pub mod chars;
pub mod config;
pub mod content;
pub mod estimators;
pub mod laws;
pub mod literals;
pub mod names;
pub mod params;
pub mod scan;
pub mod similarity;
pub mod stmts;
pub mod strings;
pub mod terms;
pub mod trust;
