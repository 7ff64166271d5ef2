//! The Unicode word-character class `\w` of the `regex` crate, as its
//! syntax crate `regex_syntax` defines it.
use vstd::prelude::*;

verus! {

/// Whether `c` belongs to the `regex` crate's Unicode class `\w`
/// (`\p{Alphabetic}`, `\p{M}`, `\d`, `\p{Pc}`, `\p{Join_Control}`).
pub uninterp spec fn is_word_char(c: char) -> bool;

/// The ASCII members of `\w`: letters, digits and `_` (the documented
/// class, whose Unicode properties hold no other ASCII character).
pub open spec fn is_ascii_word_char(c: char) -> bool {
    ('a' <= c && c <= 'z') || ('A' <= c && c <= 'Z') || ('0' <= c && c <= '9') || c == '_'
}

/// `regex_syntax::try_is_word_character`, the definition of `\w` that the
/// `regex` crate compiles its patterns with.
/// Claimed: the answer is `is_word_char(c)`, a fixed property of the
/// character, and for an ASCII character it is `is_ascii_word_char(c)`.
/// Which non-ASCII characters the Unicode tables put in the class is not
/// stated here.
#[verifier::external_body]
pub(crate) fn word_char(c: char) -> (b: bool)
    ensures
        b == is_word_char(c),
        c <= '\x7f' ==> b == is_ascii_word_char(c),
{
    regex_syntax::try_is_word_character(c).unwrap_or(false)
}

} // verus!
