//! Character classes of the grammar.
//!
//! The name grammar mirrors Turtle's: a base class of letters, an
//! underscore-extended class, and a continuation class that adds `-`, digits
//! and a fixed set of combining marks.  The base class carries the ASCII
//! letters and the Turtle letter ranges.
use vstd::prelude::*;

verus! {

/// Letters admitted at the start of a prefix: the ASCII letters and the
/// Turtle letter ranges.
pub open spec fn spec_is_pn_chars_base(c: char) -> bool {
    ('A' as u32 <= c as u32 && c as u32 <= 'Z' as u32) || ('a' as u32 <= c as u32 && c as u32
        <= 'z' as u32) || (0xC0 <= c as u32 && c as u32 <= 0xD6) || (0xD8 <= c as u32 && c as u32
        <= 0xF6) || (0xF8 <= c as u32 && c as u32 <= 0x2FF) || (0x370 <= c as u32 && c as u32
        <= 0x37D) || (0x37F <= c as u32 && c as u32 <= 0x1FFF) || (0x200C <= c as u32 && c as u32
        <= 0x200D) || (0x2070 <= c as u32 && c as u32 <= 0x218F) || (0x2C00 <= c as u32 && c
        as u32 <= 0x2FEF) || (0x3001 <= c as u32 && c as u32 <= 0xD7FF) || (0xF900 <= c as u32
        && c as u32 <= 0xFDCF) || (0xFDF0 <= c as u32 && c as u32 <= 0xFFFD)
}

pub fn is_pn_chars_base(c: char) -> (r: bool)
    ensures
        r == spec_is_pn_chars_base(c),
{
    ('A' as u32 <= c as u32 && c as u32 <= 'Z' as u32) || ('a' as u32 <= c as u32 && c as u32
        <= 'z' as u32) || (0xC0 <= c as u32 && c as u32 <= 0xD6) || (0xD8 <= c as u32 && c as u32
        <= 0xF6) || (0xF8 <= c as u32 && c as u32 <= 0x2FF) || (0x370 <= c as u32 && c as u32
        <= 0x37D) || (0x37F <= c as u32 && c as u32 <= 0x1FFF) || (0x200C <= c as u32 && c as u32
        <= 0x200D) || (0x2070 <= c as u32 && c as u32 <= 0x218F) || (0x2C00 <= c as u32 && c
        as u32 <= 0x2FEF) || (0x3001 <= c as u32 && c as u32 <= 0xD7FF) || (0xF900 <= c as u32
        && c as u32 <= 0xFDCF) || (0xFDF0 <= c as u32 && c as u32 <= 0xFFFD)
}

/// The base class extended with the underscore.
pub open spec fn spec_is_pn_chars_u(c: char) -> bool {
    spec_is_pn_chars_base(c) || c == '_'
}

pub fn is_pn_chars_u(c: char) -> (r: bool)
    ensures
        r == spec_is_pn_chars_u(c),
{
    is_pn_chars_base(c) || c == '_'
}

pub open spec fn spec_is_digit(c: char) -> bool {
    '0' as u32 <= c as u32 && c as u32 <= '9' as u32
}

pub fn is_digit(c: char) -> (r: bool)
    ensures
        r == spec_is_digit(c),
{
    '0' as u32 <= c as u32 && c as u32 <= '9' as u32
}

pub open spec fn spec_is_hex(c: char) -> bool {
    spec_is_digit(c) || ('a' as u32 <= c as u32 && c as u32 <= 'f' as u32) || ('A' as u32 <= c
        as u32 && c as u32 <= 'F' as u32)
}

pub fn is_hex(c: char) -> (r: bool)
    ensures
        r == spec_is_hex(c),
{
    is_digit(c) || ('a' as u32 <= c as u32 && c as u32 <= 'f' as u32) || ('A' as u32 <= c as u32
        && c as u32 <= 'F' as u32)
}

/// ASCII letters, as matched by a language-tag head.
pub open spec fn spec_is_alpha(c: char) -> bool {
    ('A' as u32 <= c as u32 && c as u32 <= 'Z' as u32) || ('a' as u32 <= c as u32 && c as u32
        <= 'z' as u32)
}

pub fn is_alpha(c: char) -> (r: bool)
    ensures
        r == spec_is_alpha(c),
{
    ('A' as u32 <= c as u32 && c as u32 <= 'Z' as u32) || ('a' as u32 <= c as u32 && c as u32
        <= 'z' as u32)
}

/// ASCII letters and digits, as matched by a language-tag subtag.
pub open spec fn spec_is_alnum(c: char) -> bool {
    spec_is_alpha(c) || spec_is_digit(c)
}

pub fn is_alnum(c: char) -> (r: bool)
    ensures
        r == spec_is_alnum(c),
{
    is_alpha(c) || is_digit(c)
}

/// The combining marks admitted in name continuations: U+00B7,
/// U+0300 through U+036F, and U+203F through U+2040.
pub open spec fn spec_is_pn_chars_extra(c: char) -> bool {
    c == '\u{00B7}' || (0x300 <= c as u32 && c as u32 <= 0x36F) || (0x203F <= c as u32 && c as u32
        <= 0x2040)
}

pub fn is_pn_chars_extra(c: char) -> (r: bool)
    ensures
        r == spec_is_pn_chars_extra(c),
{
    c == '\u{00B7}' || (0x300 <= c as u32 && c as u32 <= 0x36F) || (0x203F <= c as u32 && c as u32
        <= 0x2040)
}

/// Name-continuation characters: the underscore-extended class, the hyphen,
/// the digits, and the combining marks.
pub open spec fn spec_is_pn_chars(c: char) -> bool {
    spec_is_pn_chars_u(c) || c == '-' || spec_is_digit(c) || spec_is_pn_chars_extra(c)
}

pub fn is_pn_chars(c: char) -> (r: bool)
    ensures
        r == spec_is_pn_chars(c),
{
    is_pn_chars_u(c) || c == '-' || is_digit(c) || is_pn_chars_extra(c)
}

/// Whitespace skipped between tokens: space, tab, carriage return, newline.
pub open spec fn spec_is_ws(c: char) -> bool {
    c == ' ' || c == '\t' || c == '\r' || c == '\n'
}

pub fn is_ws(c: char) -> (r: bool)
    ensures
        r == spec_is_ws(c),
{
    c == ' ' || c == '\t' || c == '\r' || c == '\n'
}

/// Characters that may follow a backslash inside a quoted string.
pub open spec fn spec_is_echar(c: char) -> bool {
    c == 't' || c == 'b' || c == 'n' || c == 'r' || c == 'f' || c == '"' || c == '\'' || c == '\\'
}

pub fn is_echar(c: char) -> (r: bool)
    ensures
        r == spec_is_echar(c),
{
    c == 't' || c == 'b' || c == 'n' || c == 'r' || c == 'f' || c == '"' || c == '\'' || c == '\\'
}

/// Characters that may follow a backslash inside a local name: exactly
/// the allow-list `_~.-!$&()*+,;=/?#@%`.
pub open spec fn spec_is_local_esc(c: char) -> bool {
    c == '_' || c == '~' || c == '.' || c == '-' || c == '!' || c == '$' || c == '&' || c == '('
        || c == ')' || c == '*' || c == '+' || c == ',' || c == ';' || c == '=' || c == '/' || c
        == '?' || c == '#' || c == '@' || c == '%'
}

pub fn is_local_esc(c: char) -> (r: bool)
    ensures
        r == spec_is_local_esc(c),
{
    c == '_' || c == '~' || c == '.' || c == '-' || c == '!' || c == '$' || c == '&' || c == '('
        || c == ')' || c == '*' || c == '+' || c == ',' || c == ';' || c == '=' || c == '/' || c
        == '?' || c == '#' || c == '@' || c == '%'
}

/// Unicode whitespace, as used for trimming text and splitting words: the
/// characters with the White_Space property.
pub open spec fn spec_is_white(c: char) -> bool {
    (0x09 <= c as u32 && c as u32 <= 0x0D) || c == ' ' || c == '\u{85}' || c == '\u{A0}' || c
        == '\u{1680}' || (0x2000 <= c as u32 && c as u32 <= 0x200A) || c == '\u{2028}' || c
        == '\u{2029}' || c == '\u{202F}' || c == '\u{205F}' || c == '\u{3000}'
}

pub fn is_white(c: char) -> (r: bool)
    ensures
        r == spec_is_white(c),
{
    (0x09 <= c as u32 && c as u32 <= 0x0D) || c == ' ' || c == '\u{85}' || c == '\u{A0}' || c
        == '\u{1680}' || (0x2000 <= c as u32 && c as u32 <= 0x200A) || c == '\u{2028}' || c
        == '\u{2029}' || c == '\u{202F}' || c == '\u{205F}' || c == '\u{3000}'
}

/// Characters forbidden between the angle brackets of an IRI reference.
/// The set covers most control characters, the space, and the usual
/// Turtle exclusions; the tab and carriage-return characters are not in it,
/// as the grammar stands.
pub open spec fn spec_is_iri_forbidden(c: char) -> bool {
    c == ' ' || (0x01 <= c as u32 && c as u32 <= 0x06) || c == '\n' || (0x0E <= c as u32 && c
        as u32 <= 0x1F) || c == '<' || c == '>' || c == '"' || c == '{' || c == '}' || c == '|'
        || c == '^' || c == '`' || c == '\\'
}

pub fn is_iri_forbidden(c: char) -> (r: bool)
    ensures
        r == spec_is_iri_forbidden(c),
{
    c == ' ' || (0x01 <= c as u32 && c as u32 <= 0x06) || c == '\n' || (0x0E <= c as u32 && c
        as u32 <= 0x1F) || c == '<' || c == '>' || c == '"' || c == '{' || c == '}' || c == '|'
        || c == '^' || c == '`' || c == '\\'
}

} // verus!
