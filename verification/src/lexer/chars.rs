use vstd::prelude::*;

verus! {

/// Blank, tab, line feed and carriage return.
pub open spec fn is_space(c: char) -> bool {
    c == ' ' || c == '\t' || c == '\n' || c == '\r'
}

/// The ten ASCII digits.
pub open spec fn is_digit(c: char) -> bool {
    '0' <= c <= '9'
}

/// What an identifier can start with: an ASCII letter or an underscore.
pub open spec fn is_ident_start(c: char) -> bool {
    ('a' <= c <= 'z') || ('A' <= c <= 'Z') || c == '_'
}

/// What an identifier is made of: ASCII letters, digits and underscores.
pub open spec fn is_ident_part(c: char) -> bool {
    is_ident_start(c) || is_digit(c)
}

/// What an integer literal is made of: digits and dots.
pub open spec fn is_int_part(c: char) -> bool {
    is_digit(c) || c == '.'
}

/// The two characters that open and close a quoted literal.
pub open spec fn is_quote(c: char) -> bool {
    c == '"' || c == '\''
}

pub(crate) fn is_digit_char(c: char) -> (b: bool)
    ensures
        b == is_digit(c),
{
    '0' <= c && c <= '9'
}

pub(crate) fn is_ident_start_char(c: char) -> (b: bool)
    ensures
        b == is_ident_start(c),
{
    ('a' <= c && c <= 'z') || ('A' <= c && c <= 'Z') || c == '_'
}

pub(crate) fn is_ident_char(c: char) -> (b: bool)
    ensures
        b == is_ident_part(c),
{
    is_ident_start_char(c) || is_digit_char(c)
}

} // verus!
