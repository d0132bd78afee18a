//! Small helpers on the output of the version-control tool.

use vstd::prelude::*;
use crate::text::{chars_of, contains_chars, contains_text};

verus! {

/// The diff carries one of the marks that stand for a binary file.
pub open spec fn marks_binary(diff: Seq<char>) -> bool {
    contains_text(diff, "Binary files"@) || contains_text(diff, "GIT binary patch"@)
        || contains_text(diff, "[Binary file changed]"@)
}

/// Determines if the given diff represents a binary file.
pub fn is_binary_diff(diff: &str) -> (binary: bool)
    ensures
        binary == marks_binary(diff@),
{
    let text = chars_of(diff);
    let files = chars_of("Binary files");
    let patch = chars_of("GIT binary patch");
    let changed = chars_of("[Binary file changed]");
    contains_chars(&text, &files) || contains_chars(&text, &patch) || contains_chars(
        &text,
        &changed,
    )
}

} // verus!
