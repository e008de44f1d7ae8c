//! Small string helpers shared by the other modules.

use vstd::prelude::*;

verus! {

/// Appends one character to a string.
///
/// Trusted: wraps `String::push`, which std documents as appending the given
/// `char` to the end of the string and nothing else.
#[verifier::external_body]
pub(crate) fn push_char(text: &mut String, c: char)
    ensures
        final(text)@ == old(text)@.push(c),
{
    text.push(c);
}

/// Whether two strings hold the same text.
pub(crate) fn same_text(a: &String, b: &String) -> (same: bool)
    ensures
        same == (a@ == b@),
{
    *a == *b
}

/// A string's text without its first character.
pub(crate) fn after_first(text: &String) -> (rest: String)
    requires
        text@.len() > 0,
    ensures
        rest@ == text@.subrange(1, text@.len() as int),
{
    let len: usize = text.as_str().unicode_len();
    text.as_str().substring_char(1, len).to_owned()
}

} // verus!
