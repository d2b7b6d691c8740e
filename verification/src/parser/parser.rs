//! The parser.

use super::ast::{asts_view, lemma_call_view, lemma_list_view, Ast, AstModel};
use super::chars::{lemma_run_end, run, run_end, to_uppercase, CharClass};
use super::errors::{error_at, report, Failure, ParseError, ParseErrorModel, Token};
use super::grammar;
use super::grammar::Step;
use crate::decimal::Decimal;
use vstd::prelude::*;
use vstd::string::StrSliceExecFns;

verus! {

/// A text to be read, with its characters laid out one by one.
pub struct Source<'a> {
    code: &'a str,
    chars: Vec<char>,
}

impl<'a> View for Source<'a> {
    type V = Seq<char>;

    closed spec fn view(&self) -> Seq<char> {
        self.code@
    }
}

impl<'a> Source<'a> {
    #[verifier::type_invariant]
    spec fn laid_out(self) -> bool {
        self.chars@ == self.code@
    }

    /// The source that holds `code`.
    pub fn new(code: &'a str) -> (r: Source<'a>)
        ensures
            r@ == code@,
    {
        let mut chars: Vec<char> = Vec::new();
        for c in it: code.chars()
            invariant
                it.seq() == code@,
                chars@ == code@.take(it.index() as int),
        {
            chars.push(c);
            assert(code@.take(it.index() as int).push(c) =~= code@.take(it.index() + 1));
        }
        assert(code@.take(code@.len() as int) =~= code@);
        Source { code, chars }
    }
}


/// What an outcome of the parser stands for in the grammar.
pub open spec fn ast_step(r: Option<(Ast, usize)>, far: Failure) -> Step<AstModel> {
    Step {
        value: match r {
            Some((ast, end)) => Some((ast@, end as int)),
            None => None,
        },
        far: far@,
    }
}

/// What the reading of a token stands for in the grammar.
pub open spec fn unit_step(r: Option<usize>, far: Failure) -> Step<()> {
    Step {
        value: match r {
            Some(end) => Some(((), end as int)),
            None => None,
        },
        far: far@,
    }
}

/// What the reading of a run stands for in the grammar.
pub open spec fn run_step(s: Seq<char>, p: int, r: Option<usize>, far: Failure) -> Step<Seq<char>> {
    Step {
        value: match r {
            Some(end) => Some((s.subrange(p, end as int), end as int)),
            None => None,
        },
        far: far@,
    }
}

/// Whether an outcome of the parser ends within the text, after the place
/// at which it began, and holds a well-formed expression.
pub open spec fn sound(r: Option<(Ast, usize)>, p: usize, len: nat) -> bool {
    r matches Some((ast, end)) ==> p < end <= len && ast@.well_formed()
}

impl<'a> Source<'a> {
    /// The number of characters.
    fn len(&self) -> (r: usize)
        ensures
            r == self@.len(),
    {
        proof {
            use_type_invariant(self);
        }
        self.chars.len()
    }

    /// The character at `p`.
    fn at(&self, p: usize) -> (r: char)
        requires
            p < self@.len(),
        ensures
            r == self@[p as int],
    {
        proof {
            use_type_invariant(self);
        }
        self.chars[p]
    }

    /// The text from `from` to `to`.
    fn slice(&self, from: usize, to: usize) -> (r: String)
        requires
            from <= to <= self@.len(),
        ensures
            r@ == self@.subrange(from as int, to as int),
    {
        self.code.substring_char(from, to).to_owned()
    }

    /// The end of the run of `class` that begins at `p`.
    fn run(&self, p: usize, class: CharClass) -> (e: usize)
        requires
            p <= self@.len(),
        ensures
            e == run_end(self@, p as int, class),
            p <= e <= self@.len(),
    {
        proof {
            use_type_invariant(self);
        }
        run(&self.chars, p, class)
    }

    /// Whether the text holds `word` at `p`.
    fn holds_word(&self, p: usize, word: &str) -> (r: bool)
        requires
            p <= self@.len(),
        ensures
            r == grammar::holds_word(self@, p as int, word@),
    {
        let n = word.unicode_len();
        if self.len() - p < n {
            return false;
        }
        let mut i: usize = 0;
        while i < n
            invariant
                i <= n,
                n == word@.len(),
                p + n <= self@.len() <= usize::MAX,
                forall|j: int| 0 <= j < i ==> self@[p + j] == word@[j],
            decreases n - i,
        {
            if self.at(p + i) != word.get_char(i) {
                assert(self@.subrange(p as int, p + n)[i as int] == self@[p + i]);
                return false;
            }
            i += 1;
        }
        assert(self@.subrange(p as int, p + n) =~= word@);
        true
    }

    /// Reads the character `c`, and the white space after it.
    fn symbol(&self, p: usize, far: &mut Failure, c: char, token: Token) -> (r: Option<usize>)
        requires
            p <= self@.len(),
            old(far).at <= self@.len(),
        ensures
            unit_step(r, *final(far)) == grammar::symbol(self@, p as int, old(far)@, c, token),
            final(far).at <= self@.len(),
            r matches Some(end) ==> p < end <= self@.len(),
    {
        if p < self.len() && self.at(p) == c {
            Some(self.run(p + 1, CharClass::Space))
        } else {
            far.note(p, token);
            None
        }
    }

    /// Reads the character `c`, with nothing after it.
    fn mark(&self, p: usize, far: &mut Failure, c: char, token: Token) -> (r: Option<usize>)
        requires
            p <= self@.len(),
            old(far).at <= self@.len(),
        ensures
            unit_step(r, *final(far)) == grammar::mark(self@, p as int, old(far)@, c, token),
            final(far).at <= self@.len(),
            r matches Some(end) ==> end == p + 1 && end <= self@.len(),
    {
        if p < self.len() && self.at(p) == c {
            Some(p + 1)
        } else {
            far.note(p, token);
            None
        }
    }

    /// Reads `true` or `false`.
    fn boolean(&self, p: usize, far: &mut Failure) -> (r: Option<(Ast, usize)>)
        requires
            p <= self@.len(),
            old(far).at <= self@.len(),
        ensures
            ast_step(r, *final(far)) == grammar::boolean(self@, p as int, old(far)@),
            final(far).at <= self@.len(),
            sound(r, p, self@.len()),
    {
        proof {
            reveal_strlit("true");
            reveal_strlit("false");
        }
        let len = self.len();
        if self.holds_word(p, "true") {
            Some((Ast::Boolean(true), p + 4))
        } else if self.holds_word(p, "false") {
            Some((Ast::Boolean(false), p + 5))
        } else {
            far.note(p, Token::Boolean);
            None
        }
    }

    /// Reads a run of at least one digit, and gives its end.
    fn digits(&self, p: usize, far: &mut Failure) -> (r: Option<usize>)
        requires
            p <= self@.len(),
            old(far).at <= self@.len(),
        ensures
            run_step(self@, p as int, r, *final(far)) == grammar::digits(
                self@,
                p as int,
                old(far)@,
            ),
            final(far).at <= self@.len(),
            r matches Some(end) ==> p < end <= self@.len() && end == run_end(
                self@,
                p as int,
                CharClass::Digit,
            ),
    {
        let e = self.run(p, CharClass::Digit);
        if p < e {
            far.note(e, Token::Digit);
            Some(e)
        } else {
            far.note(p, Token::Digit);
            None
        }
    }

    /// Reads a sign that may be there.
    fn sign(&self, p: usize, far: &mut Failure) -> (r: (bool, usize))
        requires
            p <= self@.len(),
            old(far).at <= self@.len(),
        ensures
            grammar::sign(self@, p as int, old(far)@) == (Step {
                value: Some((r.0, r.1 as int)),
                far: final(far)@,
            }),
            final(far).at <= self@.len(),
            p <= r.1 <= self@.len(),
    {
        if p < self.len() && self.at(p) == '-' {
            (true, p + 1)
        } else {
            far.note(p, Token::Minus);
            (false, p)
        }
    }

    /// Reads a number with a point.
    fn float(&self, p: usize, far: &mut Failure) -> (r: Option<(Ast, usize)>)
        requires
            p <= self@.len(),
            old(far).at <= self@.len(),
        ensures
            ast_step(r, *final(far)) == grammar::float(self@, p as int, old(far)@),
            final(far).at <= self@.len(),
            sound(r, p, self@.len()),
    {
        let (negative, e1) = self.sign(p, far);
        let e2 = match self.digits(e1, far) {
            Some(end) => end,
            None => {
                return None;
            },
        };
        let e3 = match self.mark(e2, far, '.', Token::Point) {
            Some(end) => end,
            None => {
                return None;
            },
        };
        let e4 = match self.digits(e3, far) {
            Some(end) => end,
            None => {
                return None;
            },
        };
        let whole = self.slice(e1, e2);
        let fraction = self.slice(e3, e4);
        Some((Ast::Float(Decimal { negative, whole, fraction }), e4))
    }

    /// The number that the digits from `from` to `to` stand for, where an
    /// `isize` can hold it.
    fn number(&self, from: usize, to: usize) -> (r: Option<isize>)
        requires
            from <= to <= self@.len(),
            to == run_end(self@, from as int, CharClass::Digit),
        ensures
            match r {
                Some(v) => 0 <= v == grammar::number_value(
                    self@.subrange(from as int, to as int),
                ),
                None => grammar::number_value(self@.subrange(from as int, to as int)) > isize::MAX,
            },
    {
        proof {
            lemma_run_end(self@, from as int, CharClass::Digit);
        }
        let mut value: isize = 0;
        let mut i: usize = from;
        while i < to
            invariant
                from <= i <= to <= self@.len(),
                forall|j: int| from <= j < to ==> crate::decimal::is_digit(#[trigger] self@[j]),
                0 <= value,
                value == grammar::number_value(self@.subrange(from as int, i as int)),
            decreases to - i,
        {
            let c = self.at(i);
            let d: isize = (c as u32 - '0' as u32) as isize;
            proof {
                assert(self@.subrange(from as int, i + 1).drop_last() =~= self@.subrange(
                    from as int,
                    i as int,
                ));
                assert(self@.subrange(from as int, i + 1).last() == c);
                assert(0 <= d <= 9);
            }
            if value > (isize::MAX - d) / 10 {
                proof {
                    lemma_number_grows(self@, from as int, i + 1, to as int);
                }
                return None;
            }
            value = value * 10 + d;
            i += 1;
        }
        Some(value)
    }
}

impl<'a> Source<'a> {
    /// Reads a whole number.
    fn integer(&self, p: usize, far: &mut Failure) -> (r: Option<(Ast, usize)>)
        requires
            p <= self@.len(),
            old(far).at <= self@.len(),
        ensures
            ast_step(r, *final(far)) == grammar::integer(self@, p as int, old(far)@),
            final(far).at <= self@.len(),
            sound(r, p, self@.len()),
    {
        let (negative, e1) = self.sign(p, far);
        let e2 = match self.digits(e1, far) {
            Some(end) => end,
            None => {
                return None;
            },
        };
        match self.number(e1, e2) {
            Some(value) => {
                let signed: isize = if negative {
                    -value
                } else {
                    value
                };
                Some((Ast::Number(signed), e2))
            },
            None => {
                far.note(e2, Token::SmallerNumber);
                None
            },
        }
    }

    /// Reads a text between quotes.
    fn text(&self, p: usize, far: &mut Failure) -> (r: Option<(Ast, usize)>)
        requires
            p <= self@.len(),
            old(far).at <= self@.len(),
        ensures
            ast_step(r, *final(far)) == grammar::text(self@, p as int, old(far)@),
            final(far).at <= self@.len(),
            sound(r, p, self@.len()),
    {
        let e1 = match self.mark(p, far, '"', Token::Quote) {
            Some(end) => end,
            None => {
                return None;
            },
        };
        let e = self.run(e1, CharClass::Quoted);
        let e2 = match self.mark(e, far, '"', Token::Quote) {
            Some(end) => end,
            None => {
                return None;
            },
        };
        Some((Ast::Text(self.slice(e1, e)), e2))
    }

    /// Reads a name, and gives its end.
    fn name(&self, p: usize, far: &mut Failure) -> (r: Option<usize>)
        requires
            p <= self@.len(),
            old(far).at <= self@.len(),
        ensures
            run_step(self@, p as int, r, *final(far)) == grammar::name(self@, p as int, old(far)@),
            final(far).at <= self@.len(),
            r matches Some(end) ==> p < end <= self@.len(),
    {
        let e = self.run(p, CharClass::Name);
        if p < e {
            far.note(e, Token::NameChar);
            Some(e)
        } else {
            far.note(p, Token::NameChar);
            None
        }
    }

    /// Reads an apostrophe and a name.
    fn atom(&self, p: usize, far: &mut Failure) -> (r: Option<(Ast, usize)>)
        requires
            p <= self@.len(),
            old(far).at <= self@.len(),
        ensures
            ast_step(r, *final(far)) == grammar::atom(self@, p as int, old(far)@),
            final(far).at <= self@.len(),
            sound(r, p, self@.len()),
    {
        let e1 = match self.symbol(p, far, '\'', Token::Apostrophe) {
            Some(end) => end,
            None => {
                return None;
            },
        };
        let e2 = match self.name(e1, far) {
            Some(end) => end,
            None => {
                return None;
            },
        };
        let name = self.slice(e1, e2);
        Some((Ast::Text(to_uppercase(name.as_str())), e2))
    }

    /// Reads a name in parentheses.
    fn identifier(&self, p: usize, far: &mut Failure) -> (r: Option<(Ast, usize)>)
        requires
            p <= self@.len(),
            old(far).at <= self@.len(),
        ensures
            ast_step(r, *final(far)) == grammar::identifier(self@, p as int, old(far)@),
            final(far).at <= self@.len(),
            sound(r, p, self@.len()),
    {
        let e1 = match self.symbol(p, far, '(', Token::OpenParen) {
            Some(end) => end,
            None => {
                return None;
            },
        };
        let e2 = match self.name(e1, far) {
            Some(end) => end,
            None => {
                return None;
            },
        };
        let e3 = match self.symbol(e2, far, ')', Token::CloseParen) {
            Some(end) => end,
            None => {
                return None;
            },
        };
        Some((Ast::Identifier(self.slice(e1, e2)), e3))
    }

    /// Reads a pair of parentheses.
    fn unit(&self, p: usize, far: &mut Failure) -> (r: Option<(Ast, usize)>)
        requires
            p <= self@.len(),
            old(far).at <= self@.len(),
        ensures
            ast_step(r, *final(far)) == grammar::unit(self@, p as int, old(far)@),
            final(far).at <= self@.len(),
            sound(r, p, self@.len()),
    {
        let e1 = match self.symbol(p, far, '(', Token::OpenParen) {
            Some(end) => end,
            None => {
                return None;
            },
        };
        let e2 = match self.symbol(e1, far, ')', Token::CloseParen) {
            Some(end) => end,
            None => {
                return None;
            },
        };
        Some((Ast::Unit(()), e2))
    }

    /// Reads an expression that holds no other.
    fn literal(&self, p: usize, far: &mut Failure) -> (r: Option<(Ast, usize)>)
        requires
            p <= self@.len(),
            old(far).at <= self@.len(),
        ensures
            ast_step(r, *final(far)) == grammar::literal(self@, p as int, old(far)@),
            final(far).at <= self@.len(),
            sound(r, p, self@.len()),
    {
        let first = self.boolean(p, far);
        if first.is_some() {
            return first;
        }
        let second = self.float(p, far);
        if second.is_some() {
            return second;
        }
        let third = self.integer(p, far);
        if third.is_some() {
            return third;
        }
        self.text(p, far)
    }

    /// Reads an atom, an identifier or the unit.
    fn short_form(&self, p: usize, far: &mut Failure) -> (r: Option<(Ast, usize)>)
        requires
            p <= self@.len(),
            old(far).at <= self@.len(),
        ensures
            ast_step(r, *final(far)) == grammar::short_form(self@, p as int, old(far)@),
            final(far).at <= self@.len(),
            sound(r, p, self@.len()),
    {
        let first = self.atom(p, far);
        if first.is_some() {
            return first;
        }
        let second = self.identifier(p, far);
        if second.is_some() {
            return second;
        }
        self.unit(p, far)
    }
}

/// What the reading of several expressions stands for in the grammar.
pub open spec fn list_step(r: Option<(Vec<Ast>, usize)>, far: Failure) -> Step<Seq<AstModel>> {
    Step {
        value: match r {
            Some((items, end)) => Some((asts_view(items@), end as int)),
            None => None,
        },
        far: far@,
    }
}

impl<'a> Source<'a> {
    /// Reads an expression.
    fn expr(&self, p: usize, far: &mut Failure) -> (r: Option<(Ast, usize)>)
        requires
            p <= self@.len(),
            old(far).at <= self@.len(),
        ensures
            ast_step(r, *final(far)) == grammar::expr(self@, p as int, old(far)@),
            final(far).at <= self@.len(),
            sound(r, p, self@.len()),
        decreases self@.len() - p, 2nat,
    {
        let first = self.literal(p, far);
        if first.is_some() {
            return first;
        }
        let second = self.list(p, far);
        if second.is_some() {
            return second;
        }
        let third = self.call(p, far);
        if third.is_some() {
            return third;
        }
        self.short_form(p, far)
    }

    /// Reads a list.
    fn list(&self, p: usize, far: &mut Failure) -> (r: Option<(Ast, usize)>)
        requires
            p <= self@.len(),
            old(far).at <= self@.len(),
        ensures
            ast_step(r, *final(far)) == grammar::list(self@, p as int, old(far)@),
            final(far).at <= self@.len(),
            sound(r, p, self@.len()),
        decreases self@.len() - p, 1nat,
    {
        let e1 = match self.symbol(p, far, '[', Token::OpenBracket) {
            Some(end) => end,
            None => {
                return None;
            },
        };
        let (items, e2) = match self.exprs(e1, far) {
            Some(read) => read,
            None => {
                return None;
            },
        };
        let e3 = match self.symbol(e2, far, ']', Token::CloseBracket) {
            Some(end) => end,
            None => {
                return None;
            },
        };
        proof {
            lemma_list_view(items);
        }
        Some((Ast::List(items), e3))
    }

    /// Reads a call.
    fn call(&self, p: usize, far: &mut Failure) -> (r: Option<(Ast, usize)>)
        requires
            p <= self@.len(),
            old(far).at <= self@.len(),
        ensures
            ast_step(r, *final(far)) == grammar::call(self@, p as int, old(far)@),
            final(far).at <= self@.len(),
            sound(r, p, self@.len()),
        decreases self@.len() - p, 1nat,
    {
        let e1 = match self.symbol(p, far, '(', Token::OpenParen) {
            Some(end) => end,
            None => {
                return None;
            },
        };
        let e2 = match self.name(e1, far) {
            Some(end) => end,
            None => {
                return None;
            },
        };
        let (args, e3) = match self.arguments(e2, far) {
            Some(read) => read,
            None => {
                return None;
            },
        };
        let callee = Box::new(Ast::Identifier(self.slice(e1, e2)));
        proof {
            lemma_call_view(callee, args);
        }
        Some((Ast::Call(callee, args), e3))
    }

    /// Reads what follows the name of a call.
    fn arguments(&self, p: usize, far: &mut Failure) -> (r: Option<(Vec<Ast>, usize)>)
        requires
            p <= self@.len(),
            old(far).at <= self@.len(),
        ensures
            list_step(r, *final(far)) == grammar::arguments(self@, p as int, old(far)@),
            final(far).at <= self@.len(),
            r matches Some((items, end)) ==> p < end <= self@.len() && forall|i: int|
                0 <= i < items.len() ==> (#[trigger] items[i])@.well_formed(),
        decreases self@.len() - p, 5nat,
    {
        let e1 = self.run(p, CharClass::Space);
        let (args, e2) = match self.exprs(e1, far) {
            Some(read) => read,
            None => {
                return None;
            },
        };
        let e3 = match self.symbol(e2, far, ')', Token::CloseParen) {
            Some(end) => end,
            None => {
                return None;
            },
        };
        Some((args, e3))
    }

    /// Reads one expression or more.
    #[verifier::loop_isolation(false)]
    fn exprs(&self, p: usize, far: &mut Failure) -> (r: Option<(Vec<Ast>, usize)>)
        requires
            p <= self@.len(),
            old(far).at <= self@.len(),
        ensures
            list_step(r, *final(far)) == grammar::exprs(self@, p as int, old(far)@),
            final(far).at <= self@.len(),
            r matches Some((items, end)) ==> p < end <= self@.len() && forall|i: int|
                0 <= i < items.len() ==> (#[trigger] items[i])@.well_formed(),
        decreases self@.len() - p, 4nat,
    {
        let (first, e1) = match self.expr(p, far) {
            Some(read) => read,
            None => {
                return None;
            },
        };
        let ghost target = grammar::more(self@, e1 as int, far@, seq![first@]);
        let mut items: Vec<Ast> = Vec::new();
        items.push(first);
        assert(asts_view(items@) =~= seq![first@]);
        let mut q: usize = e1;
        loop
            invariant
                p < q <= self@.len(),
                far.at <= self@.len(),
                grammar::more(self@, q as int, far@, asts_view(items@)) == target,
                forall|i: int| 0 <= i < items.len() ==> (#[trigger] items[i])@.well_formed(),
            decreases self@.len() - q,
        {
            let q1 = self.run(q, CharClass::Space);
            match self.expr(q1, far) {
                None => {
                    if q1 > q {
                        return None;
                    } else {
                        return Some((items, q));
                    }
                },
                Some((value, q2)) => {
                    let ghost before = items@;
                    items.push(value);
                    assert(asts_view(items@) =~= asts_view(before).push(value@));
                    q = q2;
                },
            }
        }
    }
}

/// The value of the outcome of a parse.
pub open spec fn parse_view(r: Result<Ast, ParseError>) -> Result<AstModel, ParseErrorModel> {
    match r {
        Ok(ast) => Ok(ast@),
        Err(e) => Err(e@),
    }
}

/// Reads `code` as one expression. The whole text must be the expression;
/// where it is not, the error tells the furthest place that was reached and
/// the tokens that were asked for there.
pub fn parse(code: &str) -> (r: Result<Ast, ParseError>)
    ensures
        parse_view(r) == grammar::parsed(code@),
        r matches Ok(ast) ==> ast@.well_formed(),
{
    proof {
        reveal(grammar::parsed);
    }
    let source = Source::new(code);
    let mut far = Failure::start();
    match source.expr(0, &mut far) {
        Some((ast, end)) => {
            if end == source.len() {
                Ok(ast)
            } else {
                far.note(end, Token::EndOfInput);
                Err(source.report(far))
            }
        },
        None => Err(source.report(far)),
    }
}

impl<'a> Source<'a> {
    /// The error that reports the failure `far`.
    fn report(&self, far: Failure) -> (r: ParseError)
        requires
            far.at <= self@.len(),
        ensures
            r@ == error_at(self@, far@),
    {
        proof {
            use_type_invariant(self);
        }
        report(&self.chars, far)
    }
}

/// A run of digits stands for a number that is no smaller than the number
/// of any of its beginnings.
proof fn lemma_number_grows(s: Seq<char>, from: int, mid: int, to: int)
    requires
        0 <= from <= mid <= to <= s.len(),
        forall|j: int| from <= j < to ==> crate::decimal::is_digit(#[trigger] s[j]),
    ensures
        0 <= grammar::number_value(s.subrange(from, mid)) <= grammar::number_value(
            s.subrange(from, to),
        ),
    decreases to - from,
{
    if to > from {
        assert(s.subrange(from, to).drop_last() =~= s.subrange(from, to - 1));
        assert(s.subrange(from, to).last() == s[to - 1]);
        if mid < to {
            lemma_number_grows(s, from, mid, to - 1);
        } else {
            lemma_number_grows(s, from, to - 1, to - 1);
        }
    }
}

} // verus!
