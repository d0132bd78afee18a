//! What the standard library knows about characters: classes and case.
//! Each function here hands one question to the standard library and names
//! the answer; nothing is proved of the answers themselves.

use vstd::prelude::*;

verus! {

/// `c` is an uppercase letter.
pub uninterp spec fn is_uppercase_char(c: char) -> bool;

/// `c` is a lowercase letter.
pub uninterp spec fn is_lowercase_char(c: char) -> bool;

/// `c` is a letter or a digit.
pub uninterp spec fn is_alphanumeric_char(c: char) -> bool;

/// `c` is white space.
pub uninterp spec fn is_whitespace_char(c: char) -> bool;

/// `text` in lower case.
pub uninterp spec fn lowercase_text(text: Seq<char>) -> Seq<char>;

/// Calls `char::is_uppercase`: whether the character has the Unicode
/// property `Uppercase`. The answer depends on the character alone.
#[verifier::external_body]
pub(crate) fn is_uppercase(c: char) -> (b: bool)
    ensures
        b == is_uppercase_char(c),
{
    c.is_uppercase()
}

/// Calls `char::is_lowercase`: whether the character has the Unicode
/// property `Lowercase`. The answer depends on the character alone.
#[verifier::external_body]
pub(crate) fn is_lowercase(c: char) -> (b: bool)
    ensures
        b == is_lowercase_char(c),
{
    c.is_lowercase()
}

/// Calls `char::is_alphanumeric`: whether the character is alphabetic or
/// numeric in Unicode. The answer depends on the character alone.
#[verifier::external_body]
pub(crate) fn is_alphanumeric(c: char) -> (b: bool)
    ensures
        b == is_alphanumeric_char(c),
{
    c.is_alphanumeric()
}

/// Calls `char::is_whitespace`: whether the character has the Unicode
/// property `White_Space`. The answer depends on the character alone.
#[verifier::external_body]
pub(crate) fn is_whitespace(c: char) -> (b: bool)
    ensures
        b == is_whitespace_char(c),
{
    c.is_whitespace()
}

/// Calls `str::to_lowercase`: the lowercase equivalent of the text as a new
/// string. The result depends on the text alone.
#[verifier::external_body]
pub(crate) fn to_lowercase(text: &str) -> (lower: String)
    ensures
        lower@ == lowercase_text(text@),
{
    text.to_lowercase()
}

} // verus!
