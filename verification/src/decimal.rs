//! Decimal literals, kept digit for digit.

use vstd::prelude::*;
use vstd::string::StringExecFns;

verus! {

/// The mathematical value of a [`Decimal`].
pub struct DecimalModel {
    pub negative: bool,
    pub whole: Seq<char>,
    pub fraction: Seq<char>,
}

/// A decimal number as it is written: a sign, the digits before the point and
/// the digits after it.
#[derive(Debug, PartialEq, Eq)]
pub struct Decimal {
    pub negative: bool,
    pub whole: String,
    pub fraction: String,
}

/// Whether `c` is one of the ten decimal digits.
pub open spec fn is_digit(c: char) -> bool {
    '0' <= c <= '9'
}

/// Whether every character of `s` is a decimal digit.
pub open spec fn all_digits(s: Seq<char>) -> bool {
    forall|i: int| 0 <= i < s.len() ==> is_digit(#[trigger] s[i])
}

impl DecimalModel {
    /// Both parts hold at least one digit, and nothing but digits.
    pub open spec fn well_formed(self) -> bool {
        &&& self.whole.len() > 0
        &&& self.fraction.len() > 0
        &&& all_digits(self.whole)
        &&& all_digits(self.fraction)
    }

    /// The number as text: `-` where it is negative, the whole part, a point
    /// and the fraction.
    pub open spec fn text(self) -> Seq<char> {
        (if self.negative {
            seq!['-']
        } else {
            Seq::<char>::empty()
        }) + self.whole + seq!['.'] + self.fraction
    }
}

impl View for Decimal {
    type V = DecimalModel;

    open spec fn view(&self) -> DecimalModel {
        DecimalModel { negative: self.negative, whole: self.whole@, fraction: self.fraction@ }
    }
}

impl Decimal {
    /// The number as text.
    pub fn to_text(&self) -> (r: String)
        ensures
            r@ == self@.text(),
    {
        proof {
            reveal_strlit("-");
            reveal_strlit(".");
            reveal_strlit("");
        }
        let mut text = if self.negative {
            "-".to_owned()
        } else {
            "".to_owned()
        };
        text.append(self.whole.as_str());
        text.append(".");
        text.append(self.fraction.as_str());
        assert(text@ =~= self@.text());
        text
    }
}

impl Clone for Decimal {
    fn clone(&self) -> (r: Self)
        ensures
            r@ == self@,
    {
        Decimal {
            negative: self.negative,
            whole: self.whole.clone(),
            fraction: self.fraction.clone(),
        }
    }
}

} // verus!
