//! The classes of characters that the grammar speaks of, and runs of them.

use crate::decimal::is_digit;
use vstd::prelude::*;

verus! {

/// Whether `c` is a letter: what `char::is_alphabetic` of the standard
/// library returns for `c`.
pub uninterp spec fn alphabetic(c: char) -> bool;

/// Whether `c` is white space: what `char::is_whitespace` of the standard
/// library returns for `c`.
pub uninterp spec fn whitespace(c: char) -> bool;

/// The upper-case form of a text: what `str::to_uppercase` of the standard
/// library returns for it.
pub uninterp spec fn uppercased(s: Seq<char>) -> Seq<char>;

/// Calls `char::is_alphabetic`. Nothing is claimed of the result but that it
/// is the one that the standard library gives for this character.
#[verifier::external_body]
pub(crate) fn is_alphabetic(c: char) -> (r: bool)
    ensures
        r == alphabetic(c),
{
    c.is_alphabetic()
}

/// Calls `char::is_whitespace`. Nothing is claimed of the result but that it
/// is the one that the standard library gives for this character.
#[verifier::external_body]
pub(crate) fn is_whitespace(c: char) -> (r: bool)
    ensures
        r == whitespace(c),
{
    c.is_whitespace()
}

/// Calls `str::to_uppercase`. Nothing is claimed of the result but that it is
/// the one that the standard library gives for this text.
#[verifier::external_body]
pub(crate) fn to_uppercase(s: &str) -> (r: String)
    ensures
        r@ == uppercased(s@),
{
    s.to_uppercase()
}

/// A class of characters.
#[derive(Debug, Clone, Copy, PartialEq, Eq, Structural)]
pub enum CharClass {
    /// The ten decimal digits.
    Digit,
    /// What a name is made of: letters and digits.
    Name,
    /// White space.
    Space,
    /// What a text may hold between its quotes: every character but `"`.
    Quoted,
}

/// Whether `c` belongs to `class`.
pub open spec fn in_class(class: CharClass, c: char) -> bool {
    match class {
        CharClass::Digit => is_digit(c),
        CharClass::Name => alphabetic(c) || is_digit(c),
        CharClass::Space => whitespace(c),
        CharClass::Quoted => c != '"',
    }
}

/// The end of the longest run of characters of `class` that begins at `p`:
/// the first place from `p` on that holds no character of the class.
pub open spec fn run_end(s: Seq<char>, p: int, class: CharClass) -> int
    decreases s.len() - p,
{
    if 0 <= p < s.len() && in_class(class, s[p]) {
        run_end(s, p + 1, class)
    } else {
        p
    }
}

/// A run ends at or after its beginning and within the text, holds only
/// characters of its class, and is followed by none.
pub proof fn lemma_run_end(s: Seq<char>, p: int, class: CharClass)
    requires
        0 <= p <= s.len(),
    ensures
        p <= run_end(s, p, class) <= s.len(),
        forall|i: int| p <= i < run_end(s, p, class) ==> in_class(class, #[trigger] s[i]),
        run_end(s, p, class) < s.len() ==> !in_class(class, s[run_end(s, p, class)]),
    decreases s.len() - p,
{
    if p < s.len() && in_class(class, s[p]) {
        lemma_run_end(s, p + 1, class);
    }
}

/// Whether `c` is one of the ten decimal digits.
pub fn digit(c: char) -> (r: bool)
    ensures
        r == is_digit(c),
{
    '0' <= c && c <= '9'
}

/// Whether `c` belongs to `class`.
pub fn belongs(class: CharClass, c: char) -> (r: bool)
    ensures
        r == in_class(class, c),
{
    match class {
        CharClass::Digit => digit(c),
        CharClass::Name => is_alphabetic(c) || digit(c),
        CharClass::Space => is_whitespace(c),
        CharClass::Quoted => c != '"',
    }
}

/// The end of the longest run of characters of `class` that begins at `p`.
pub fn run(chars: &Vec<char>, p: usize, class: CharClass) -> (e: usize)
    requires
        p <= chars.len(),
    ensures
        e == run_end(chars@, p as int, class),
        p <= e <= chars.len(),
{
    let mut i: usize = p;
    while i < chars.len() && belongs(class, chars[i])
        invariant
            p <= i <= chars.len(),
            run_end(chars@, p as int, class) == run_end(chars@, i as int, class),
        decreases chars.len() - i,
    {
        i += 1;
    }
    i
}

} // verus!
