//! Texts: their comparison, and the writing of numbers and of lists.

use crate::db::order::{compare_keys, KeyOrder};
use vstd::prelude::*;
use vstd::string::StringExecFns;

verus! {

/// Whether two texts are the same.
pub fn same_text(a: &str, b: &str) -> (r: bool)
    ensures
        r == (a@ == b@),
{
    match compare_keys(a, b) {
        KeyOrder::Same => true,
        _ => false,
    }
}

/// The character of the digit `d`.
pub open spec fn digit_char(d: int) -> char {
    if d == 0 {
        '0'
    } else if d == 1 {
        '1'
    } else if d == 2 {
        '2'
    } else if d == 3 {
        '3'
    } else if d == 4 {
        '4'
    } else if d == 5 {
        '5'
    } else if d == 6 {
        '6'
    } else if d == 7 {
        '7'
    } else if d == 8 {
        '8'
    } else {
        '9'
    }
}

/// A natural number in decimal digits, without leading zeros.
pub open spec fn natural_text(n: nat) -> Seq<char>
    decreases n,
{
    if n < 10 {
        seq![digit_char(n as int)]
    } else {
        natural_text(n / 10).push(digit_char((n % 10) as int))
    }
}

/// A whole number in decimal digits, with `-` before it where it is
/// negative.
pub open spec fn integer_text(n: int) -> Seq<char> {
    if n < 0 {
        seq!['-'] + natural_text((-n) as nat)
    } else {
        natural_text(n as nat)
    }
}

/// A truth value in words.
pub open spec fn boolean_text(b: bool) -> Seq<char> {
    if b {
        "true"@
    } else {
        "false"@
    }
}

/// The text of one digit.
fn digit_to_text(d: usize) -> (r: &'static str)
    requires
        d < 10,
    ensures
        r@ == seq![digit_char(d as int)],
{
    proof {
        reveal_strlit("0");
        reveal_strlit("1");
        reveal_strlit("2");
        reveal_strlit("3");
        reveal_strlit("4");
        reveal_strlit("5");
        reveal_strlit("6");
        reveal_strlit("7");
        reveal_strlit("8");
        reveal_strlit("9");
    }
    let r = if d == 0 {
        "0"
    } else if d == 1 {
        "1"
    } else if d == 2 {
        "2"
    } else if d == 3 {
        "3"
    } else if d == 4 {
        "4"
    } else if d == 5 {
        "5"
    } else if d == 6 {
        "6"
    } else if d == 7 {
        "7"
    } else if d == 8 {
        "8"
    } else {
        "9"
    };
    assert(r@ =~= seq![digit_char(d as int)]);
    r
}

/// A natural number in decimal digits.
pub fn natural_to_text(n: usize) -> (r: String)
    ensures
        r@ == natural_text(n as nat),
    decreases n,
{
    if n < 10 {
        digit_to_text(n).to_owned()
    } else {
        let mut text = natural_to_text(n / 10);
        text.append(digit_to_text(n % 10));
        assert(text@ =~= natural_text((n / 10) as nat).push(digit_char((n % 10) as int)));
        text
    }
}

/// A whole number in decimal digits.
pub fn integer_to_text(n: isize) -> (r: String)
    ensures
        r@ == integer_text(n as int),
{
    if n < 0 {
        let magnitude: usize = (-(n + 1)) as usize + 1;
        let mut text = "-".to_owned();
        proof {
            reveal_strlit("-");
        }
        let digits = natural_to_text(magnitude);
        text.append(digits.as_str());
        assert(text@ =~= seq!['-'] + natural_text((-n) as nat));
        text
    } else {
        natural_to_text(n as usize)
    }
}

/// A truth value in words.
pub fn boolean_to_text(b: bool) -> (r: String)
    ensures
        r@ == boolean_text(b),
{
    if b {
        "true".to_owned()
    } else {
        "false".to_owned()
    }
}

/// The texts of a list of strings, one for one.
pub open spec fn strings_view(items: Seq<String>) -> Seq<Seq<char>> {
    Seq::new(items.len(), |i: int| items[i]@)
}

/// A list of texts as the standard library writes it for inspection: what
/// `format!("{:?}", ..)` returns for a `Vec<String>` that holds these texts.
pub uninterp spec fn listed(items: Seq<Seq<char>>) -> Seq<char>;

/// Formats a `Vec<String>` with `{:?}`. Nothing is claimed of the result but
/// that it is the one that the standard library gives for these texts.
#[verifier::external_body]
pub(crate) fn list_to_text(items: &Vec<String>) -> (r: String)
    ensures
        r@ == listed(strings_view(items@)),
{
    format!("{:?}", items)
}

} // verus!
