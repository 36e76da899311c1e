//! What is taken on trust of the standard library's strings.

use vstd::prelude::*;

verus! {

/// `String::push`, which appends the character to the end of the string.
pub assume_specification[ String::push ](s: &mut String, c: char)
    ensures
        final(s)@ == old(s)@.push(c),
;

/// The `==` of `str`, which compares two strings byte by byte. Two strings
/// have the same bytes exactly when they have the same characters, which
/// is what this claims of it.
#[verifier::external_body]
pub(crate) fn same_text(a: &str, b: &str) -> (same: bool)
    ensures
        same == (a@ == b@),
{
    a == b
}

} // verus!
