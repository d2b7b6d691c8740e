//! What the parser reports when it fails: a place and the tokens that would
//! have let it go on there.

use vstd::prelude::*;

verus! {

/// A token that the parser may ask for.
#[derive(Debug, Clone, Copy, PartialEq, Eq, Structural)]
pub enum Token {
    /// `true` or `false`.
    Boolean,
    /// `-`.
    Minus,
    /// One of `0` to `9`.
    Digit,
    /// `.`.
    Point,
    /// `"`.
    Quote,
    /// `[`.
    OpenBracket,
    /// `]`.
    CloseBracket,
    /// `(`.
    OpenParen,
    /// `)`.
    CloseParen,
    /// `'`.
    Apostrophe,
    /// A letter or a digit of a name.
    NameChar,
    /// The end of the input.
    EndOfInput,
    /// A number small enough to be held.
    SmallerNumber,
}

/// A set of tokens.
#[derive(Debug, Clone, Copy, PartialEq, Eq, Structural)]
pub struct Expected {
    pub boolean: bool,
    pub minus: bool,
    pub digit: bool,
    pub point: bool,
    pub quote: bool,
    pub open_bracket: bool,
    pub close_bracket: bool,
    pub open_paren: bool,
    pub close_paren: bool,
    pub apostrophe: bool,
    pub name_char: bool,
    pub end_of_input: bool,
    pub smaller_number: bool,
}

impl Expected {
    /// The empty set.
    pub open spec fn none() -> Expected {
        Expected {
            boolean: false,
            minus: false,
            digit: false,
            point: false,
            quote: false,
            open_bracket: false,
            close_bracket: false,
            open_paren: false,
            close_paren: false,
            apostrophe: false,
            name_char: false,
            end_of_input: false,
            smaller_number: false,
        }
    }

    /// Whether `token` is in the set.
    pub open spec fn has(self, token: Token) -> bool {
        match token {
            Token::Boolean => self.boolean,
            Token::Minus => self.minus,
            Token::Digit => self.digit,
            Token::Point => self.point,
            Token::Quote => self.quote,
            Token::OpenBracket => self.open_bracket,
            Token::CloseBracket => self.close_bracket,
            Token::OpenParen => self.open_paren,
            Token::CloseParen => self.close_paren,
            Token::Apostrophe => self.apostrophe,
            Token::NameChar => self.name_char,
            Token::EndOfInput => self.end_of_input,
            Token::SmallerNumber => self.smaller_number,
        }
    }

    /// The set with `token` added.
    pub open spec fn with(self, token: Token) -> Expected {
        match token {
            Token::Boolean => Expected { boolean: true, ..self },
            Token::Minus => Expected { minus: true, ..self },
            Token::Digit => Expected { digit: true, ..self },
            Token::Point => Expected { point: true, ..self },
            Token::Quote => Expected { quote: true, ..self },
            Token::OpenBracket => Expected { open_bracket: true, ..self },
            Token::CloseBracket => Expected { close_bracket: true, ..self },
            Token::OpenParen => Expected { open_paren: true, ..self },
            Token::CloseParen => Expected { close_paren: true, ..self },
            Token::Apostrophe => Expected { apostrophe: true, ..self },
            Token::NameChar => Expected { name_char: true, ..self },
            Token::EndOfInput => Expected { end_of_input: true, ..self },
            Token::SmallerNumber => Expected { smaller_number: true, ..self },
        }
    }

    /// The empty set.
    pub fn empty() -> (r: Expected)
        ensures
            r == Expected::none(),
    {
        Expected {
            boolean: false,
            minus: false,
            digit: false,
            point: false,
            quote: false,
            open_bracket: false,
            close_bracket: false,
            open_paren: false,
            close_paren: false,
            apostrophe: false,
            name_char: false,
            end_of_input: false,
            smaller_number: false,
        }
    }

    /// Whether `token` is in the set.
    pub fn contains(&self, token: Token) -> (r: bool)
        ensures
            r == self.has(token),
    {
        match token {
            Token::Boolean => self.boolean,
            Token::Minus => self.minus,
            Token::Digit => self.digit,
            Token::Point => self.point,
            Token::Quote => self.quote,
            Token::OpenBracket => self.open_bracket,
            Token::CloseBracket => self.close_bracket,
            Token::OpenParen => self.open_paren,
            Token::CloseParen => self.close_paren,
            Token::Apostrophe => self.apostrophe,
            Token::NameChar => self.name_char,
            Token::EndOfInput => self.end_of_input,
            Token::SmallerNumber => self.smaller_number,
        }
    }

    /// The set with `token` added.
    pub fn add(self, token: Token) -> (r: Expected)
        ensures
            r == self.with(token),
    {
        let mut r = self;
        match token {
            Token::Boolean => {
                r.boolean = true;
            },
            Token::Minus => {
                r.minus = true;
            },
            Token::Digit => {
                r.digit = true;
            },
            Token::Point => {
                r.point = true;
            },
            Token::Quote => {
                r.quote = true;
            },
            Token::OpenBracket => {
                r.open_bracket = true;
            },
            Token::CloseBracket => {
                r.close_bracket = true;
            },
            Token::OpenParen => {
                r.open_paren = true;
            },
            Token::CloseParen => {
                r.close_paren = true;
            },
            Token::Apostrophe => {
                r.apostrophe = true;
            },
            Token::NameChar => {
                r.name_char = true;
            },
            Token::EndOfInput => {
                r.end_of_input = true;
            },
            Token::SmallerNumber => {
                r.smaller_number = true;
            },
        }
        r
    }
}

impl Token {
    /// The words for the token.
    pub open spec fn described(self) -> Seq<char> {
        match self {
            Token::Boolean => "boolean"@,
            Token::Minus => "-"@,
            Token::Digit => "digit"@,
            Token::Point => "."@,
            Token::Quote => "\""@,
            Token::OpenBracket => "["@,
            Token::CloseBracket => "]"@,
            Token::OpenParen => "("@,
            Token::CloseParen => ")"@,
            Token::Apostrophe => "'"@,
            Token::NameChar => "letter or digit"@,
            Token::EndOfInput => "end of input"@,
            Token::SmallerNumber => "smaller number"@,
        }
    }

    /// The words for the token.
    pub fn description(&self) -> (r: String)
        ensures
            r@ == self.described(),
    {
        match self {
            Token::Boolean => "boolean".to_owned(),
            Token::Minus => "-".to_owned(),
            Token::Digit => "digit".to_owned(),
            Token::Point => ".".to_owned(),
            Token::Quote => "\"".to_owned(),
            Token::OpenBracket => "[".to_owned(),
            Token::CloseBracket => "]".to_owned(),
            Token::OpenParen => "(".to_owned(),
            Token::CloseParen => ")".to_owned(),
            Token::Apostrophe => "'".to_owned(),
            Token::NameChar => "letter or digit".to_owned(),
            Token::EndOfInput => "end of input".to_owned(),
            Token::SmallerNumber => "smaller number".to_owned(),
        }
    }
}

/// The tokens in the order in which a set lists them.
pub open spec fn token_order() -> Seq<Token> {
    seq![
        Token::Boolean,
        Token::Minus,
        Token::Digit,
        Token::Point,
        Token::Quote,
        Token::OpenBracket,
        Token::CloseBracket,
        Token::OpenParen,
        Token::CloseParen,
        Token::Apostrophe,
        Token::NameChar,
        Token::EndOfInput,
        Token::SmallerNumber,
    ]
}

impl Expected {
    /// The tokens of the set, each once, in the order of [`token_order`].
    pub open spec fn listed(self) -> Seq<Token> {
        token_order().filter(|t: Token| self.has(t))
    }

    /// The tokens of the set, each once.
    pub fn tokens(&self) -> (r: Vec<Token>)
        ensures
            r@ == self.listed(),
    {
        let all = [
            Token::Boolean,
            Token::Minus,
            Token::Digit,
            Token::Point,
            Token::Quote,
            Token::OpenBracket,
            Token::CloseBracket,
            Token::OpenParen,
            Token::CloseParen,
            Token::Apostrophe,
            Token::NameChar,
            Token::EndOfInput,
            Token::SmallerNumber,
        ];
        assert(all@ =~= token_order());
        let ghost keep = |t: Token| self.has(t);
        let mut out: Vec<Token> = Vec::new();
        let mut i: usize = 0;
        assert(all@.take(0).filter(keep) =~= Seq::<Token>::empty()) by {
            broadcast use vstd::seq_lib::group_filter_ensures;

            assert(all@.take(0) =~= Seq::<Token>::empty());
        }
        while i < 13
            invariant
                i <= 13,
                all@ == token_order(),
                keep == (|t: Token| self.has(t)),
                out@ == all@.take(i as int).filter(keep),
            decreases 13 - i,
        {
            let token = all[i];
            proof {
                assert(all@.take(i + 1) =~= all@.take(i as int).push(token));
                lemma_filter_push(all@.take(i as int), token, keep);
            }
            if self.contains(token) {
                out.push(token);
            }
            i += 1;
        }
        assert(all@.take(13) =~= all@);
        out
    }
}

/// Filtering a sequence with one more item keeps the item where it passes.
proof fn lemma_filter_push(s: Seq<Token>, t: Token, keep: spec_fn(Token) -> bool)
    ensures
        s.push(t).filter(keep) == if keep(t) {
            s.filter(keep).push(t)
        } else {
            s.filter(keep)
        },
{
    reveal(Seq::filter);
    assert(s.push(t).drop_last() =~= s);
}

/// Adding a token puts it into the set and leaves the others as they were.
pub proof fn with_adds_one(set: Expected, token: Token, other: Token)
    ensures
        set.with(token).has(token),
        other != token ==> set.with(token).has(other) == set.has(other),
        !Expected::none().has(token),
{
}

/// The furthest place at which the parser has asked for a token in vain, and
/// all the tokens it has asked for there.
pub struct Far {
    pub at: int,
    pub expected: Expected,
}

impl Far {
    /// Nothing asked for yet.
    pub open spec fn start() -> Far {
        Far { at: 0, expected: Expected::none() }
    }

    /// The record after `token` was asked for in vain at `at`: a place
    /// further on replaces the record, the same place adds the token, and a
    /// place before it changes nothing.
    pub open spec fn note(self, at: int, token: Token) -> Far {
        if at > self.at {
            Far { at, expected: Expected::none().with(token) }
        } else if at == self.at {
            Far { at, expected: self.expected.with(token) }
        } else {
            self
        }
    }
}

/// The furthest failure, as the parser holds it.
#[derive(Debug, Clone, Copy)]
pub struct Failure {
    pub at: usize,
    pub expected: Expected,
}

impl View for Failure {
    type V = Far;

    open spec fn view(&self) -> Far {
        Far { at: self.at as int, expected: self.expected }
    }
}

impl Failure {
    /// Nothing asked for yet.
    pub fn start() -> (r: Failure)
        ensures
            r@ == Far::start(),
    {
        Failure { at: 0, expected: Expected::empty() }
    }

    /// Notes that `token` was asked for in vain at `at`.
    pub fn note(&mut self, at: usize, token: Token)
        ensures
            final(self)@ == old(self)@.note(at as int, token),
    {
        if at > self.at {
            self.at = at;
            self.expected = Expected::empty().add(token);
        } else if at == self.at {
            self.expected = self.expected.add(token);
        }
    }
}

/// The line and the column of the place `at` in `s`, both counted from 1: a
/// line feed ends a line, and every other character takes one column.
pub open spec fn line_and_column(s: Seq<char>, at: int) -> (int, int)
    decreases at,
{
    if at <= 0 || at > s.len() {
        (1, 1)
    } else {
        let (line, column) = line_and_column(s, at - 1);
        if s[at - 1] == '\n' {
            (line + 1, 1)
        } else {
            (line, column + 1)
        }
    }
}

/// `n` as a `usize`, or the largest `usize` where `n` is larger.
pub open spec fn clipped(n: int) -> usize {
    if n > usize::MAX {
        usize::MAX
    } else {
        n as usize
    }
}

/// The mathematical value of a [`ParseError`].
pub struct ParseErrorModel {
    pub line: int,
    pub column: int,
    pub expected: Expected,
}

/// Why a text is no expression: the line and the column of the furthest
/// place that the parser reached, counted from 1, and the tokens that it
/// asked for there.
#[derive(Debug, Clone, Copy, PartialEq, Eq)]
pub struct ParseError {
    pub line: usize,
    pub column: usize,
    pub expected: Expected,
}

impl View for ParseError {
    type V = ParseErrorModel;

    open spec fn view(&self) -> ParseErrorModel {
        ParseErrorModel {
            line: self.line as int,
            column: self.column as int,
            expected: self.expected,
        }
    }
}

/// The error that reports the failure `far` in the text `s`. A line or a
/// column beyond the largest `usize` is given as that number.
pub open spec fn error_at(s: Seq<char>, far: Far) -> ParseErrorModel {
    ParseErrorModel {
        line: clipped(line_and_column(s, far.at).0) as int,
        column: clipped(line_and_column(s, far.at).1) as int,
        expected: far.expected,
    }
}

/// The error that reports the failure `far` in the text `chars`.
pub fn report(chars: &Vec<char>, far: Failure) -> (r: ParseError)
    requires
        far.at <= chars.len(),
    ensures
        r@ == error_at(chars@, far@),
{
    let mut lines: usize = 0;
    let mut columns: usize = 0;
    let mut i: usize = 0;
    while i < far.at
        invariant
            i <= far.at <= chars.len(),
            lines <= i,
            columns <= i,
            line_and_column(chars@, i as int) == (lines + 1, columns + 1),
        decreases far.at - i,
    {
        if chars[i] == '\n' {
            lines += 1;
            columns = 0;
        } else {
            columns += 1;
        }
        i += 1;
    }
    ParseError {
        line: if lines < usize::MAX {
            lines + 1
        } else {
            usize::MAX
        },
        column: if columns < usize::MAX {
            columns + 1
        } else {
            usize::MAX
        },
        expected: far.expected,
    }
}

} // verus!
