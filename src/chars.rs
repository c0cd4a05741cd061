//! Character-level primitives: classification and ASCII case mapping.
use vstd::prelude::*;

verus! {

/// Whether `c`, a character beyond ASCII, has the Unicode `White_Space`
/// property.
pub uninterp spec fn white_space_beyond_ascii(c: char) -> bool;

/// Whether `c`, a character beyond ASCII, has the Unicode `Uppercase`
/// property.
pub uninterp spec fn uppercase_beyond_ascii(c: char) -> bool;

/// Whether `c` is whitespace: on ASCII the space and `'\t'..='\r'`.
pub open spec fn is_space(c: char) -> bool {
    c == ' ' || ('\t' <= c && c <= '\r') || (!is_ascii_char(c) && white_space_beyond_ascii(c))
}

/// Whether `c` is uppercase: on ASCII `'A'..='Z'`.
pub open spec fn is_upper(c: char) -> bool {
    ('A' <= c && c <= 'Z') || (!is_ascii_char(c) && uppercase_beyond_ascii(c))
}

/// Whether `c` is one of the 128 ASCII characters.
pub open spec fn is_ascii_char(c: char) -> bool {
    (c as u32) < 128
}

/// Whether the character after `prefix` starts the text or follows
/// whitespace.
pub open spec fn at_boundary(prefix: Seq<char>) -> bool {
    prefix.len() == 0 || is_space(prefix.last())
}

/// `c` with `A..=Z` mapped to `a..=z`, every other character unchanged.
pub open spec fn ascii_lower(c: char) -> char {
    if 'A' <= c && c <= 'Z' {
        ((c as u32) + 32) as char
    } else {
        c
    }
}

/// `c` with `a..=z` mapped to `A..=Z`, every other character unchanged.
pub open spec fn ascii_upper(c: char) -> char {
    if 'a' <= c && c <= 'z' {
        ((c as u32) - 32) as char
    } else {
        c
    }
}

/// Relies on `char::is_whitespace`: the `White_Space` property, which on
/// ASCII holds of the space and of `'\t'..='\r'` only.
#[verifier::external_body]
pub(crate) fn char_is_whitespace(c: char) -> (r: bool)
    ensures
        r == (c == ' ' || ('\t' <= c && c <= '\r') || (!is_ascii_char(c)
            && white_space_beyond_ascii(c))),
{
    c.is_whitespace()
}

/// Relies on `char::is_uppercase`: the `Uppercase` property, which on ASCII
/// holds of `'A'..='Z'` only.
#[verifier::external_body]
pub(crate) fn char_is_uppercase(c: char) -> (r: bool)
    ensures
        r == (('A' <= c && c <= 'Z') || (!is_ascii_char(c) && uppercase_beyond_ascii(c))),
{
    c.is_uppercase()
}

/// `c` with `A..=Z` mapped to `a..=z`, as `char::to_ascii_lowercase` does.
pub fn char_to_ascii_lowercase(c: char) -> (r: char)
    ensures
        r == ascii_lower(c),
{
    if 'A' <= c && c <= 'Z' {
        ((c as u8) + 32) as char
    } else {
        c
    }
}

/// `c` with `a..=z` mapped to `A..=Z`, as `char::to_ascii_uppercase` does.
pub fn char_to_ascii_uppercase(c: char) -> (r: char)
    ensures
        r == ascii_upper(c),
{
    if 'a' <= c && c <= 'z' {
        ((c as u8) - 32) as char
    } else {
        c
    }
}

/// Relies on `String::push`: appends one character at the end.
#[verifier::external_body]
pub(crate) fn push_char(s: &mut String, c: char)
    ensures
        final(s)@ == old(s)@.push(c),
{
    s.push(c);
}

} // verus!
