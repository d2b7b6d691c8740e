//! The grammar, as functions from a text and a place to what is read there.
//!
//! ```text
//! expr     := bool | float | int | text | list | call | atom | ident | unit
//! bool     := "true" | "false"
//! int      := ["-"] digit+
//! float    := ["-"] digit+ "." digit+
//! text     := '"' (any character but '"')* '"'
//! list     := "[" expr+ "]"
//! call     := "(" name expr+ ")"
//! atom     := "'" name
//! ident    := "(" name ")"
//! unit     := "(" ")"
//! name     := (letter | digit)+
//! ```
//!
//! The alternatives of `expr` are tried in this order, and the first that
//! reads something is taken. White space may follow a bracket, a
//! parenthesis, an apostrophe and the name of a call, and may stand between
//! the expressions of a list or of a call; it may not stand before the
//! closing bracket or parenthesis. An `int` must be small enough for an
//! `isize`, with either sign.

use super::ast::AstModel;
use super::chars::{run_end, uppercased, CharClass};
use super::errors::{error_at, Far, ParseErrorModel, Token};
use crate::decimal::DecimalModel;
use vstd::prelude::*;

verus! {

/// What reading at a place gives: the value read and the place after it, or
/// nothing; and the furthest failure so far.
pub struct Step<T> {
    pub value: Option<(T, int)>,
    pub far: Far,
}

/// Nothing was read, because `token` was asked for in vain at `at`.
pub open spec fn failed<T>(far: Far, at: int, token: Token) -> Step<T> {
    Step { value: None, far: far.note(at, token) }
}

/// The number that a run of digits stands for.
pub open spec fn number_value(digits: Seq<char>) -> int
    decreases digits.len(),
{
    if digits.len() == 0 {
        0
    } else {
        number_value(digits.drop_last()) * 10 + (digits.last() as int - '0' as int)
    }
}

/// Whether the text holds `word` at `p`.
pub open spec fn holds_word(s: Seq<char>, p: int, word: Seq<char>) -> bool {
    0 <= p && p + word.len() <= s.len() && s.subrange(p, p + word.len()) == word
}

/// The place after the white space that begins at `p`.
pub open spec fn after_space(s: Seq<char>, p: int) -> int {
    run_end(s, p, CharClass::Space)
}

/// Reads the character `c`, and the white space after it.
pub open spec fn symbol(s: Seq<char>, p: int, far: Far, c: char, token: Token) -> Step<()> {
    if 0 <= p < s.len() && s[p] == c {
        Step { value: Some(((), after_space(s, p + 1))), far }
    } else {
        failed(far, p, token)
    }
}

/// Reads the character `c`, with nothing after it.
pub open spec fn mark(s: Seq<char>, p: int, far: Far, c: char, token: Token) -> Step<()> {
    if 0 <= p < s.len() && s[p] == c {
        Step { value: Some(((), p + 1)), far }
    } else {
        failed(far, p, token)
    }
}

/// Reads `true` or `false`.
pub open spec fn boolean(s: Seq<char>, p: int, far: Far) -> Step<AstModel> {
    if holds_word(s, p, "true"@) {
        Step { value: Some((AstModel::Boolean(true), p + 4)), far }
    } else if holds_word(s, p, "false"@) {
        Step { value: Some((AstModel::Boolean(false), p + 5)), far }
    } else {
        failed(far, p, Token::Boolean)
    }
}

/// Reads a run of at least one digit: the value is the run.
pub open spec fn digits(s: Seq<char>, p: int, far: Far) -> Step<Seq<char>> {
    let e = run_end(s, p, CharClass::Digit);
    if 0 <= p < e <= s.len() {
        Step { value: Some((s.subrange(p, e), e)), far: far.note(e, Token::Digit) }
    } else {
        failed(far, p, Token::Digit)
    }
}

/// Reads a sign that may be there: the value says whether it is.
pub open spec fn sign(s: Seq<char>, p: int, far: Far) -> Step<bool> {
    if 0 <= p < s.len() && s[p] == '-' {
        Step { value: Some((true, p + 1)), far }
    } else {
        Step { value: Some((false, p)), far: far.note(p, Token::Minus) }
    }
}

/// Reads a number with a point.
pub open spec fn float(s: Seq<char>, p: int, far: Far) -> Step<AstModel> {
    let signed = sign(s, p, far);
    let (negative, e1) = signed.value->0;
    let whole = digits(s, e1, signed.far);
    match whole.value {
        None => Step { value: None, far: whole.far },
        Some((whole_digits, e2)) => {
            let point = mark(s, e2, whole.far, '.', Token::Point);
            match point.value {
                None => Step { value: None, far: point.far },
                Some((_, e3)) => {
                    let fraction = digits(s, e3, point.far);
                    match fraction.value {
                        None => Step { value: None, far: fraction.far },
                        Some((fraction_digits, e4)) => Step {
                            value: Some(
                                (
                                    AstModel::Float(
                                        DecimalModel {
                                            negative,
                                            whole: whole_digits,
                                            fraction: fraction_digits,
                                        },
                                    ),
                                    e4,
                                ),
                            ),
                            far: fraction.far,
                        },
                    }
                },
            }
        },
    }
}

/// Reads a whole number. One that is too large for an `isize`, with either
/// sign, is not read.
pub open spec fn integer(s: Seq<char>, p: int, far: Far) -> Step<AstModel> {
    let signed = sign(s, p, far);
    let (negative, e1) = signed.value->0;
    let run = digits(s, e1, signed.far);
    match run.value {
        None => Step { value: None, far: run.far },
        Some((run_digits, e2)) => {
            let value = number_value(run_digits);
            if value > isize::MAX {
                failed(run.far, e2, Token::SmallerNumber)
            } else {
                Step {
                    value: Some(
                        (
                            AstModel::Number(
                                if negative {
                                    -value
                                } else {
                                    value
                                },
                            ),
                            e2,
                        ),
                    ),
                    far: run.far,
                }
            }
        },
    }
}

/// Reads a text between quotes.
pub open spec fn text(s: Seq<char>, p: int, far: Far) -> Step<AstModel> {
    let open = mark(s, p, far, '"', Token::Quote);
    match open.value {
        None => Step { value: None, far: open.far },
        Some((_, e1)) => {
            let e = run_end(s, e1, CharClass::Quoted);
            let close = mark(s, e, open.far, '"', Token::Quote);
            match close.value {
                None => Step { value: None, far: close.far },
                Some((_, e2)) => Step {
                    value: Some((AstModel::Text(s.subrange(e1, e)), e2)),
                    far: close.far,
                },
            }
        },
    }
}

/// Reads a name: a run of at least one letter or digit.
pub open spec fn name(s: Seq<char>, p: int, far: Far) -> Step<Seq<char>> {
    let e = run_end(s, p, CharClass::Name);
    if 0 <= p < e <= s.len() {
        Step { value: Some((s.subrange(p, e), e)), far: far.note(e, Token::NameChar) }
    } else {
        failed(far, p, Token::NameChar)
    }
}

/// Reads an apostrophe and a name: the text of the name in upper case.
pub open spec fn atom(s: Seq<char>, p: int, far: Far) -> Step<AstModel> {
    let open = symbol(s, p, far, '\'', Token::Apostrophe);
    match open.value {
        None => Step { value: None, far: open.far },
        Some((_, e1)) => {
            let named = name(s, e1, open.far);
            match named.value {
                None => Step { value: None, far: named.far },
                Some((n, e2)) => Step {
                    value: Some((AstModel::Text(uppercased(n)), e2)),
                    far: named.far,
                },
            }
        },
    }
}

/// Reads a name in parentheses: an identifier.
pub open spec fn identifier(s: Seq<char>, p: int, far: Far) -> Step<AstModel> {
    let open = symbol(s, p, far, '(', Token::OpenParen);
    match open.value {
        None => Step { value: None, far: open.far },
        Some((_, e1)) => {
            let named = name(s, e1, open.far);
            match named.value {
                None => Step { value: None, far: named.far },
                Some((n, e2)) => {
                    let close = symbol(s, e2, named.far, ')', Token::CloseParen);
                    match close.value {
                        None => Step { value: None, far: close.far },
                        Some((_, e3)) => Step {
                            value: Some((AstModel::Identifier(n), e3)),
                            far: close.far,
                        },
                    }
                },
            }
        },
    }
}

/// Reads a pair of parentheses: the unit.
pub open spec fn unit(s: Seq<char>, p: int, far: Far) -> Step<AstModel> {
    let open = symbol(s, p, far, '(', Token::OpenParen);
    match open.value {
        None => Step { value: None, far: open.far },
        Some((_, e1)) => {
            let close = symbol(s, e1, open.far, ')', Token::CloseParen);
            match close.value {
                None => Step { value: None, far: close.far },
                Some((_, e2)) => Step { value: Some((AstModel::Unit, e2)), far: close.far },
            }
        },
    }
}

/// Reads an expression that holds no other: the first of a boolean, a number
/// with a point, a whole number and a text that can be read.
pub open spec fn literal(s: Seq<char>, p: int, far: Far) -> Step<AstModel> {
    let first = boolean(s, p, far);
    if first.value is Some {
        first
    } else {
        let second = float(s, p, first.far);
        if second.value is Some {
            second
        } else {
            let third = integer(s, p, second.far);
            if third.value is Some {
                third
            } else {
                text(s, p, third.far)
            }
        }
    }
}

/// Reads what may follow a list and a call: the first of an atom, an
/// identifier and the unit that can be read.
pub open spec fn short_form(s: Seq<char>, p: int, far: Far) -> Step<AstModel> {
    let first = atom(s, p, far);
    if first.value is Some {
        first
    } else {
        let second = identifier(s, p, first.far);
        if second.value is Some {
            second
        } else {
            unit(s, p, second.far)
        }
    }
}

/// Reads an expression: the first of a literal, a list, a call and a short
/// form that can be read.
pub open spec fn expr(s: Seq<char>, p: int, far: Far) -> Step<AstModel>
    decreases s.len() - p, 2nat,
{
    if 0 <= p <= s.len() {
        let first = literal(s, p, far);
        if first.value is Some {
            first
        } else {
            let second = list(s, p, first.far);
            if second.value is Some {
                second
            } else {
                let third = call(s, p, second.far);
                if third.value is Some {
                    third
                } else {
                    short_form(s, p, third.far)
                }
            }
        }
    } else {
        Step { value: None, far }
    }
}

/// Reads a list: expressions between brackets.
pub open spec fn list(s: Seq<char>, p: int, far: Far) -> Step<AstModel>
    decreases s.len() - p, 1nat,
{
    let open = symbol(s, p, far, '[', Token::OpenBracket);
    match open.value {
        None => Step { value: None, far: open.far },
        Some((_, e1)) => {
            if p < e1 <= s.len() {
                let items = exprs(s, e1, open.far);
                match items.value {
                    None => Step { value: None, far: items.far },
                    Some((values, e2)) => {
                        let close = symbol(s, e2, items.far, ']', Token::CloseBracket);
                        match close.value {
                            None => Step { value: None, far: close.far },
                            Some((_, e3)) => Step {
                                value: Some((AstModel::List(values), e3)),
                                far: close.far,
                            },
                        }
                    },
                }
            } else {
                Step { value: None, far: open.far }
            }
        },
    }
}

/// Reads a call: a name and its arguments between parentheses.
pub open spec fn call(s: Seq<char>, p: int, far: Far) -> Step<AstModel>
    decreases s.len() - p, 1nat,
{
    let open = symbol(s, p, far, '(', Token::OpenParen);
    match open.value {
        None => Step { value: None, far: open.far },
        Some((_, e1)) => {
            let named = name(s, e1, open.far);
            match named.value {
                None => Step { value: None, far: named.far },
                Some((n, e2)) => {
                    if p < e2 <= s.len() {
                        let rest = arguments(s, e2, named.far);
                        match rest.value {
                            None => Step { value: None, far: rest.far },
                            Some((values, e3)) => Step {
                                value: Some(
                                    (
                                        AstModel::Call(Box::new(AstModel::Identifier(n)), values),
                                        e3,
                                    ),
                                ),
                                far: rest.far,
                            },
                        }
                    } else {
                        Step { value: None, far: named.far }
                    }
                },
            }
        },
    }
}

/// Reads what follows the name of a call: white space, one expression or
/// more, and the closing parenthesis.
pub open spec fn arguments(s: Seq<char>, p: int, far: Far) -> Step<Seq<AstModel>>
    decreases s.len() - p, 5nat,
{
    let e1 = after_space(s, p);
    if 0 <= p <= e1 <= s.len() {
        let args = exprs(s, e1, far);
        match args.value {
            None => Step { value: None, far: args.far },
            Some((values, e2)) => {
                let close = symbol(s, e2, args.far, ')', Token::CloseParen);
                match close.value {
                    None => Step { value: None, far: close.far },
                    Some((_, e3)) => Step { value: Some((values, e3)), far: close.far },
                }
            },
        }
    } else {
        Step { value: None, far }
    }
}

/// Reads one expression or more, with white space between them or none.
pub open spec fn exprs(s: Seq<char>, p: int, far: Far) -> Step<Seq<AstModel>>
    decreases s.len() - p, 4nat,
{
    let first = expr(s, p, far);
    match first.value {
        None => Step { value: None, far: first.far },
        Some((value, e1)) => {
            if p < e1 <= s.len() {
                more(s, e1, first.far, seq![value])
            } else {
                Step { value: None, far: first.far }
            }
        },
    }
}

/// Reads the expressions that follow those read so far. Where white space
/// is followed by no expression, nothing is read.
pub open spec fn more(s: Seq<char>, p: int, far: Far, read: Seq<AstModel>) -> Step<Seq<AstModel>>
    decreases s.len() - p, 3nat,
{
    let e1 = after_space(s, p);
    if 0 <= p <= e1 <= s.len() {
        let next = expr(s, e1, far);
        match next.value {
            None => {
                if e1 > p {
                    Step { value: None, far: next.far }
                } else {
                    Step { value: Some((read, p)), far: next.far }
                }
            },
            Some((value, e2)) => {
                if e1 < e2 <= s.len() {
                    more(s, e2, next.far, read.push(value))
                } else {
                    Step { value: None, far: next.far }
                }
            },
        }
    } else {
        Step { value: None, far }
    }
}

/// What a text is read as: the expression that takes all of it, or the error
/// that reports the furthest failure.
#[verifier::opaque]
pub open spec fn parsed(s: Seq<char>) -> Result<AstModel, ParseErrorModel> {
    let read = expr(s, 0, Far::start());
    match read.value {
        Some((value, end)) => {
            if end == s.len() {
                Ok(value)
            } else {
                Err(error_at(s, read.far.note(end, Token::EndOfInput)))
            }
        },
        None => Err(error_at(s, read.far)),
    }
}

} // verus!
