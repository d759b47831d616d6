//! What the library needs of std's strings beyond what vstd states.

use vstd::prelude::*;

verus! {

/// `String::push`. Claimed: the character is appended to the string.
pub assume_specification[ String::push ](s: &mut String, c: char)
    ensures
        final(s)@ == old(s)@.push(c),
;

/// `==` on string slices. Claimed: it is true exactly when both hold the
/// same characters.
pub assume_specification[ <str as PartialEq>::eq ](a: &str, b: &str) -> (same: bool)
    ensures
        same == (a@ == b@),
;

/// The characters of a text that may be absent.
pub open spec fn text_of(text: Option<String>) -> Option<Seq<char>> {
    match text {
        Some(t) => Some(t@),
        None => None,
    }
}

} // verus!
