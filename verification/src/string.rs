//! String-level operations.

use vstd::prelude::*;
use crate::error::ToText;
use crate::text::chars_of;

verus! {

/// The letters of the latin alphabet and the digits: a-z, A-Z, 0-9.
pub open spec fn alphanumeric(c: char) -> bool {
    ||| 'a' <= c <= 'z'
    ||| 'A' <= c <= 'Z'
    ||| '0' <= c <= '9'
}

/// Every character of the text is alphanumeric.
pub open spec fn all_alphanumeric(s: Seq<char>) -> bool {
    forall|i: int| 0 <= i < s.len() ==> alphanumeric(#[trigger] s[i])
}

/// Check if char is alphanumeric (latin).
///
/// Returns true for latin alphabet and numbers: a-z, A-Z, 0-9, and false for
/// other characters.
pub fn is_alphanumeric_char(c: char) -> (r: bool)
    ensures
        r == alphanumeric(c),
{
    ('a' <= c && c <= 'z') || ('A' <= c && c <= 'Z') || ('0' <= c && c <= '9')
}

/// Check if string is alphanumeric (latin): whether each of its characters
/// is. The empty string is.
pub fn is_alphanumeric<S: ToText>(s: S) -> (r: bool)
    ensures
        r == all_alphanumeric(s.text()),
{
    let owned = s.to_text();
    let chars = chars_of(owned.as_str());
    let mut i: usize = 0;
    while i < chars.len()
        invariant
            i <= chars.len(),
            chars@ == s.text(),
            forall|j: int| 0 <= j < i ==> alphanumeric(#[trigger] chars@[j]),
        decreases chars.len() - i,
    {
        if !is_alphanumeric_char(chars[i]) {
            return false;
        }
        i += 1;
    }
    true
}

} // verus!
