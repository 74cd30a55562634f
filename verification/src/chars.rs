//! Character classes of the markup grammar.

use vstd::prelude::*;

verus! {

/// Whether `c` separates words: a space, a tab or a line break.
pub open spec fn is_blank(c: char) -> bool {
    c == ' ' || c == '\t' || c == '\n'
}

/// Whether `c` may stand in a command name: an ASCII letter.
pub open spec fn is_letter(c: char) -> bool {
    ('a' <= c && c <= 'z') || ('A' <= c && c <= 'Z')
}

/// Whether `c` may stand in an argument: anything but the closing brace and
/// the line break.
pub open spec fn is_argument_char(c: char) -> bool {
    c != '}' && c != '\n'
}

/// Executable form of [`is_blank`].
pub fn blank(c: char) -> (b: bool)
    ensures
        b == is_blank(c),
{
    c == ' ' || c == '\t' || c == '\n'
}

/// Executable form of [`is_letter`].
pub fn letter(c: char) -> (b: bool)
    ensures
        b == is_letter(c),
{
    ('a' <= c && c <= 'z') || ('A' <= c && c <= 'Z')
}

} // verus!
