//! The few points where the library relies on outside code: IRI and
//! blank-node validation, and collecting characters into a `String`.
use vstd::prelude::*;

verus! {

/// Whether a piece of text is a valid absolute IRI.  The answer is a
/// function of the text alone; it is decided by the validator below.
pub uninterp spec fn iri_text_ok(s: Seq<char>) -> bool;

/// Whether a piece of text is a valid blank-node identifier.  The answer
/// is a function of the identifier alone; it is decided by the validator
/// below.
pub uninterp spec fn blank_id_ok(s: Seq<char>) -> bool;

/// Relies on oxrdf::NamedNode::new, which validates an IRI and keeps its
/// text unchanged: the result says whether the text is a valid IRI.
#[verifier::external_body]
pub fn iri_text_valid(s: &str) -> (r: bool)
    ensures
        r == iri_text_ok(s@),
{
    oxrdf::NamedNode::new(s).is_ok()
}

/// Relies on oxrdf::BlankNode::new, which validates a blank-node
/// identifier and keeps the text of every identifier it accepts: an
/// all-lowercase-hexadecimal identifier without a leading zero is carried
/// through a numeric form whose rendering is the identical text, and every
/// other accepted identifier is stored as given.  The result says whether
/// the identifier is valid.
#[verifier::external_body]
pub fn blank_id_valid(s: &str) -> (r: bool)
    ensures
        r == blank_id_ok(s@),
{
    oxrdf::BlankNode::new(s).is_ok()
}

/// Relies on String::from_iter, which collects the characters in order.
#[verifier::external_body]
pub fn chars_to_string(v: Vec<char>) -> (s: String)
    ensures
        s@ == v@,
{
    String::from_iter(v)
}

} // verus!
