use hoya::decimal::Decimal;
use hoya::parser::ast::Ast;
use hoya::parser::errors::{Expected, ParseError, Token};
use hoya::parser::parser::parse;

fn text(s: &str) -> Ast {
    Ast::Text(s.to_string())
}

fn call(name: &str, args: Vec<Ast>) -> Ast {
    Ast::Call(Box::new(Ast::Identifier(name.to_string())), args)
}

fn error(code: &str) -> ParseError {
    match parse(code) {
        Ok(ast) => panic!("{:?} was read as {:?}", code, ast),
        Err(e) => e,
    }
}

fn expected(tokens: &[Token]) -> Vec<Token> {
    tokens.to_vec()
}

#[test]
fn parses_a_put_call() {
    assert_eq!(
        parse("(put 5 \"a\")"),
        Ok(call("put", vec![Ast::Number(5), text("a")]))
    );
}

#[test]
fn parses_a_list_of_numbers() {
    assert_eq!(
        parse("[1 2 3]"),
        Ok(Ast::List(vec![Ast::Number(1), Ast::Number(2), Ast::Number(3)]))
    );
}

#[test]
fn parses_an_exists_call() {
    assert_eq!(parse("(exists \"k\")"), Ok(call("exists", vec![text("k")])));
}

#[test]
fn parses_booleans() {
    assert_eq!(parse("true"), Ok(Ast::Boolean(true)));
    assert_eq!(parse("false"), Ok(Ast::Boolean(false)));
}

#[test]
fn parses_whole_numbers_with_either_sign() {
    assert_eq!(parse("0"), Ok(Ast::Number(0)));
    assert_eq!(parse("42"), Ok(Ast::Number(42)));
    assert_eq!(parse("-17"), Ok(Ast::Number(-17)));
    assert_eq!(parse("007"), Ok(Ast::Number(7)));
}

#[test]
fn parses_the_largest_number_and_refuses_the_next() {
    let largest = isize::MAX.to_string();
    assert_eq!(parse(&largest), Ok(Ast::Number(isize::MAX)));
    assert_eq!(parse(&format!("-{}", largest)), Ok(Ast::Number(-isize::MAX)));
    let too_large = format!("{}0", largest);
    let e = error(&too_large);
    assert_eq!(e.line, 1);
    assert_eq!(e.column, too_large.len() + 1);
    assert!(e.expected.contains(Token::SmallerNumber));
    assert!(e.expected.contains(Token::Digit));
    assert!(e.expected.contains(Token::Point));
    let smallest = isize::MIN.to_string();
    assert!(parse(&smallest).is_err());
}

#[test]
fn parses_numbers_with_a_point_digit_for_digit() {
    assert_eq!(
        parse("1.50"),
        Ok(Ast::Float(Decimal {
            negative: false,
            whole: "1".to_string(),
            fraction: "50".to_string(),
        }))
    );
    assert_eq!(
        parse("-0.25"),
        Ok(Ast::Float(Decimal {
            negative: true,
            whole: "0".to_string(),
            fraction: "25".to_string(),
        }))
    );
}

#[test]
fn a_point_needs_digits_on_both_sides() {
    let e = error("1.");
    assert_eq!((e.line, e.column), (1, 3));
    assert_eq!(e.expected.tokens(), expected(&[Token::Digit]));
    assert!(parse(".5").is_err());
}

#[test]
fn parses_texts() {
    assert_eq!(parse("\"hello world\""), Ok(text("hello world")));
    assert_eq!(parse("\"\""), Ok(text("")));
    assert_eq!(parse("\"it's\""), Ok(text("it's")));
    assert_eq!(parse("\"(get [1])\""), Ok(text("(get [1])")));
    assert_eq!(parse("\"żółw 越\""), Ok(text("żółw 越")));
}

#[test]
fn a_text_needs_its_closing_quote() {
    let e = error("\"abc");
    assert_eq!((e.line, e.column), (1, 5));
    assert_eq!(e.expected.tokens(), expected(&[Token::Quote]));
}

#[test]
fn an_atom_is_a_text_in_upper_case() {
    assert_eq!(parse("'abc"), Ok(text("ABC")));
    assert_eq!(parse("' key1"), Ok(text("KEY1")));
    assert_eq!(parse("'straße"), Ok(text("STRASSE")));
}

#[test]
fn a_name_in_parentheses_is_an_identifier() {
    assert_eq!(parse("(get)"), Ok(Ast::Identifier("get".to_string())));
    assert_eq!(parse("( put5)"), Ok(Ast::Identifier("put5".to_string())));
    assert_eq!(parse("(über)"), Ok(Ast::Identifier("über".to_string())));
}

#[test]
fn a_name_holds_letters_and_digits_only() {
    let e = error("(a_b)");
    assert_eq!((e.line, e.column), (1, 3));
    assert!(e.expected.contains(Token::NameChar));
    assert!(e.expected.contains(Token::CloseParen));
}

#[test]
fn empty_parentheses_are_the_unit() {
    assert_eq!(parse("()"), Ok(Ast::Unit(())));
    assert_eq!(parse("( )"), Ok(Ast::Unit(())));
}

#[test]
fn lists_and_calls_nest() {
    assert_eq!(
        parse("[[1 2] (get \"a\") \"x\" true ()]"),
        Ok(Ast::List(vec![
            Ast::List(vec![Ast::Number(1), Ast::Number(2)]),
            call("get", vec![text("a")]),
            text("x"),
            Ast::Boolean(true),
            Ast::Unit(()),
        ]))
    );
    assert_eq!(
        parse("(put (get \"a\") \"b\")"),
        Ok(call("put", vec![call("get", vec![text("a")]), text("b")]))
    );
}

#[test]
fn white_space_between_expressions_may_be_missing() {
    assert_eq!(
        parse("[1\"a\"[2]]"),
        Ok(Ast::List(vec![
            Ast::Number(1),
            text("a"),
            Ast::List(vec![Ast::Number(2)]),
        ]))
    );
    assert_eq!(parse("(put\"a\")"), Ok(call("put", vec![text("a")])));
}

#[test]
fn white_space_is_any_white_space() {
    assert_eq!(
        parse("[\t1\n2\u{a0}3 ]  ").is_err(),
        true
    );
    assert_eq!(
        parse("[\t1\n2\u{a0}3]\r\n"),
        Ok(Ast::List(vec![Ast::Number(1), Ast::Number(2), Ast::Number(3)]))
    );
    assert_eq!(
        parse("(put\u{2003}5 \"a\")"),
        Ok(call("put", vec![Ast::Number(5), text("a")]))
    );
}

#[test]
fn white_space_before_a_closing_bracket_is_refused() {
    let e = error("[1 2 ]");
    assert_eq!((e.line, e.column), (1, 6));
    assert!(e.expected.contains(Token::Digit));
    assert!(e.expected.contains(Token::OpenBracket));
    assert!(!e.expected.contains(Token::CloseBracket));
    assert!(parse("(get \"a\" )").is_err());
}

#[test]
fn a_list_holds_at_least_one_expression() {
    let e = error("[]");
    assert_eq!((e.line, e.column), (1, 2));
    assert_eq!(
        e.expected.tokens(),
        expected(&[
            Token::Boolean,
            Token::Minus,
            Token::Digit,
            Token::Quote,
            Token::OpenBracket,
            Token::OpenParen,
            Token::Apostrophe,
        ])
    );
}

#[test]
fn the_whole_text_must_be_the_expression() {
    let e = error("5 ");
    assert_eq!((e.line, e.column), (1, 2));
    assert_eq!(
        e.expected.tokens(),
        expected(&[Token::Digit, Token::Point, Token::EndOfInput])
    );
    assert!(parse("truex").is_err());
    assert!(parse(" 5").is_err());
    assert!(parse("(get \"a\") (get \"b\")").is_err());
}

#[test]
fn the_empty_text_is_no_expression() {
    let e = error("");
    assert_eq!((e.line, e.column), (1, 1));
    assert_eq!(
        e.expected.tokens(),
        expected(&[
            Token::Boolean,
            Token::Minus,
            Token::Digit,
            Token::Quote,
            Token::OpenBracket,
            Token::OpenParen,
            Token::Apostrophe,
        ])
    );
}

#[test]
fn a_missing_parenthesis_is_reported_at_the_end() {
    let e = error("(put 5 \"a\"");
    assert_eq!((e.line, e.column), (1, 11));
    assert!(e.expected.contains(Token::CloseParen));
    assert!(e.expected.contains(Token::Quote));
    assert!(!e.expected.contains(Token::EndOfInput));
}

#[test]
fn lines_and_columns_are_counted_from_one() {
    let e = error("[1\n2\n  x]");
    assert_eq!((e.line, e.column), (3, 3));
    let e = error("[1\n");
    assert_eq!((e.line, e.column), (2, 1));
}

#[test]
fn expected_tokens_are_a_set() {
    let none = Expected::empty();
    assert_eq!(none.tokens(), Vec::<Token>::new());
    let some = none.add(Token::Quote).add(Token::Digit).add(Token::Quote);
    assert_eq!(some.tokens(), vec![Token::Digit, Token::Quote]);
    assert!(some.contains(Token::Digit));
    assert!(!some.contains(Token::Minus));
}

#[test]
fn tokens_have_words() {
    assert_eq!(Token::Digit.description(), "digit");
    assert_eq!(Token::Quote.description(), "\"");
    assert_eq!(Token::EndOfInput.description(), "end of input");
    assert_eq!(Token::NameChar.description(), "letter or digit");
}

#[test]
fn what_the_parser_reads_is_well_formed() {
    for code in ["5", "[1 (get \"a\") [(x)]]", "(put (get \"a\") \"b\")", "()"] {
        assert!(parse(code).unwrap().is_well_formed());
    }
}

#[test]
fn a_call_is_made_of_an_identifier_only() {
    let callee = Ast::Identifier("get".to_string());
    assert_eq!(
        Ast::call(callee, vec![text("a")]),
        Some(call("get", vec![text("a")]))
    );
    assert_eq!(Ast::call(Ast::Number(1), vec![text("a")]), None);
    assert_eq!(Ast::call(text("get"), vec![]), None);
    let bad = Ast::Call(Box::new(text("get")), vec![]);
    assert!(!bad.is_well_formed());
    assert!(!Ast::List(vec![Ast::Number(1), bad.clone()]).is_well_formed());
    assert!(!call("put", vec![bad]).is_well_formed());
    assert!(call("put", vec![]).is_well_formed());
}
