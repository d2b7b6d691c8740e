use hoya::interpreter::env::EnvironmentError;
use hoya::parser::ast::Ast;
use hoya::parser::parser::parse;
use hoya::typechecker::bidirectional_typechecker::Typechecker;
use hoya::typechecker::env::{builtins, Environment};
use hoya::typechecker::errors::{ShortTypeCheckerError, TypeCheckerError};
use hoya::typechecker::types::{clone_types, types_absorb, InternalType};

fn shown<T: std::fmt::Debug>(value: &T) -> String {
    format!("{:?}", value)
}

fn application(name: &str, args: Vec<InternalType>, ret: InternalType) -> InternalType {
    InternalType::Application(name.to_string(), args, Box::new(ret))
}

fn expr(code: &str) -> Ast {
    parse(code).unwrap()
}

fn plain_types() -> Vec<InternalType> {
    vec![
        InternalType::Number,
        InternalType::Float,
        InternalType::Boolean,
        InternalType::Text,
        InternalType::List,
        InternalType::Unit,
    ]
}

#[test]
fn any_equals_every_type_on_either_side() {
    let mut all = plain_types();
    all.push(InternalType::Any);
    all.push(application("put", vec![InternalType::Number], InternalType::Any));
    for t in &all {
        assert!(InternalType::Any == *t);
        assert!(*t == InternalType::Any);
        assert!(t.absorbs(&InternalType::Any));
    }
}

#[test]
fn plain_types_equal_only_themselves() {
    let all = plain_types();
    for (i, a) in all.iter().enumerate() {
        for (j, b) in all.iter().enumerate() {
            assert_eq!(a == b, i == j);
        }
    }
}

#[test]
fn the_equality_of_types_is_not_transitive() {
    assert!(InternalType::Number == InternalType::Any);
    assert!(InternalType::Any == InternalType::Text);
    assert!(InternalType::Number != InternalType::Text);
}

#[test]
fn applications_are_compared_part_by_part() {
    let a = application("put", vec![InternalType::Number, InternalType::Text], InternalType::Any);
    let b = application("put", vec![InternalType::Any, InternalType::Text], InternalType::Unit);
    let c = application("get", vec![InternalType::Any, InternalType::Text], InternalType::Unit);
    let d = application("put", vec![InternalType::Text, InternalType::Text], InternalType::Any);
    let e = application("put", vec![InternalType::Number], InternalType::Any);
    assert!(a == b);
    assert!(b == a);
    assert!(a != c);
    assert!(a != d);
    assert!(a != e);
    assert!(a != InternalType::Text);
}

#[test]
fn lists_of_types_are_compared_one_by_one() {
    let params = vec![InternalType::Any, InternalType::Text];
    assert!(types_absorb(&params, &vec![InternalType::Number, InternalType::Text]));
    assert!(!types_absorb(&params, &vec![InternalType::Number, InternalType::Number]));
    assert!(!types_absorb(&params, &vec![InternalType::Number]));
    assert!(types_absorb(&vec![], &vec![]));
}

#[test]
fn types_are_shown_by_the_name_of_their_kind() {
    assert_eq!(InternalType::Number.name(), "Number");
    assert_eq!(InternalType::Float.name(), "Float");
    assert_eq!(InternalType::Boolean.name(), "Boolean");
    assert_eq!(InternalType::Text.name(), "Text");
    assert_eq!(InternalType::List.name(), "List");
    assert_eq!(InternalType::Any.name(), "Any");
    assert_eq!(InternalType::Unit.name(), "Unit");
    assert_eq!(application("f", vec![], InternalType::Unit).name(), "Application");
}

#[test]
fn the_default_type_is_any() {
    assert_eq!(shown(&InternalType::default()), "Any");
}

#[test]
fn a_copy_of_a_type_is_the_same_type() {
    let t = application(
        "put",
        vec![InternalType::Number, application("get", vec![InternalType::Text], InternalType::Any)],
        InternalType::Any,
    );
    assert_eq!(shown(&t.clone()), shown(&t));
    let list = vec![InternalType::Text, t];
    assert_eq!(shown(&clone_types(&list)), shown(&list));
}

#[test]
fn the_builtin_table_holds_seven_signatures() {
    let table = builtins();
    assert_eq!(
        shown(&table),
        "[(\"put\", [Any, Text, Any]), (\"get\", [Text, Any]), (\"exists\", [Text, Boolean]), \
         (\"remove\", [Text, Any]), (\"store\", [Text, Unit]), (\"write\", [Text, Unit]), \
         (\"writeln\", [Text, Unit])]"
    );
}

#[test]
fn the_builtin_environment_answers_for_each_builtin() {
    let env = Environment::builtin();
    let expected = [
        ("write", "[Text]", "Unit"),
        ("writeln", "[Text]", "Unit"),
        ("put", "[Any, Text]", "Any"),
        ("get", "[Text]", "Any"),
        ("exists", "[Text]", "Boolean"),
        ("remove", "[Text]", "Any"),
        ("store", "[Text]", "Unit"),
    ];
    for (name, params, ret) in expected {
        assert!(env.is_defined(name));
        assert!(env.is_builtin(name));
        assert_eq!(shown(&env.param_types_of(name)), params);
        assert_eq!(shown(&env.return_type_of(name).unwrap()), ret);
    }
    assert_eq!(
        shown(&env.function_type_of("put").unwrap()),
        "Application(\"put\", [Any, Text], Any)"
    );
    assert_eq!(shown(&Environment::default().return_type_of("get").unwrap()), "Any");
}

#[test]
fn an_unknown_name_has_no_types() {
    let env = Environment::builtin();
    assert!(!env.is_defined("load"));
    assert!(!env.is_builtin("load"));
    assert!(env.return_type_of("load").is_none());
    assert!(env.param_types_of("load").is_empty());
    assert!(env.function_type_of("load").is_none());
}

#[test]
fn a_signature_of_one_type_has_no_parameters() {
    let env = Environment::new(vec![("now".to_string(), vec![InternalType::Number])]);
    assert!(env.param_types_of("now").is_empty());
    assert_eq!(shown(&env.return_type_of("now").unwrap()), "Number");
    assert!(!env.is_builtin("now"));
    assert!(env.is_builtin("put"));
}

#[test]
fn of_two_signatures_of_one_name_the_later_holds() {
    let env = Environment::new(vec![
        ("f".to_string(), vec![InternalType::Number, InternalType::Text]),
        ("g".to_string(), vec![InternalType::Unit]),
        ("f".to_string(), vec![InternalType::Boolean, InternalType::List, InternalType::Float]),
    ]);
    assert_eq!(shown(&env.param_types_of("f")), "[Boolean, List]");
    assert_eq!(shown(&env.return_type_of("f").unwrap()), "Float");
    assert_eq!(shown(&env.return_type_of("g").unwrap()), "Unit");
}

#[test]
fn a_name_is_defined_once() {
    let mut env = Environment::builtin();
    assert_eq!(
        shown(&env.define("double".to_string(), vec![InternalType::Number, InternalType::Number])),
        "Ok(())"
    );
    assert!(env.is_defined("double"));
    assert_eq!(shown(&env.param_types_of("double")), "[Number]");
    let again = env.define("double".to_string(), vec![InternalType::Text]);
    assert!(matches!(again, Err(EnvironmentError::FunctionAlreadyDefined(ref n)) if n == "double"));
    assert_eq!(shown(&env.return_type_of("double").unwrap()), "Number");
    let builtin = env.define("put".to_string(), vec![InternalType::Text]);
    assert!(matches!(builtin, Err(EnvironmentError::FunctionAlreadyDefined(ref n)) if n == "put"));
    assert_eq!(shown(&env.param_types_of("put")), "[Any, Text]");
}

#[test]
fn literals_have_the_type_of_their_kind() {
    let checker = Typechecker::default();
    let cases = [
        ("5", "Number"),
        ("-1.5", "Float"),
        ("true", "Boolean"),
        ("\"a\"", "Text"),
        ("[1 (nothing)]", "List"),
        ("()", "Unit"),
        ("'atom", "Text"),
    ];
    for (code, expected) in cases {
        assert_eq!(shown(&checker.synthesize(&expr(code)).unwrap()), expected);
    }
}

#[test]
fn an_identifier_is_a_call_without_arguments() {
    let checker = Typechecker::new(Environment::builtin());
    assert_eq!(
        shown(&checker.synthesize(&expr("(get)")).unwrap()),
        "Application(\"get\", [], Any)"
    );
    let errors = checker.synthesize(&expr("(nothing)")).unwrap_err();
    assert_eq!(shown(&errors), "[FunctionNotFound(\"nothing\")]");
}

#[test]
fn checking_a_put_call_against_any_succeeds() {
    let checker = Typechecker::default();
    let ast = expr("(put 5 \"a\")");
    assert_eq!(
        shown(&checker.synthesize(&ast).unwrap()),
        "Application(\"put\", [Number, Text], Any)"
    );
    assert_eq!(shown(&checker.env.param_types_of("put")), "[Any, Text]");
    assert!(checker.check(&InternalType::Any, &ast).is_ok());
}

#[test]
fn checking_a_number_against_text_fails() {
    let checker = Typechecker::default();
    let errors = checker.check(&InternalType::Text, &Ast::Number(1)).unwrap_err();
    assert_eq!(errors.len(), 1);
    assert_eq!(shown(&errors), "[InvalidTypeFound { expected: Text, found: Number }]");
    assert!(matches!(
        &errors[0],
        TypeCheckerError::InvalidTypeFound { expected: InternalType::Text, found: InternalType::Number }
    ));
}

#[test]
fn checking_against_any_accepts_every_literal() {
    let checker = Typechecker::default();
    for code in ["5", "-1.5", "true", "\"a\"", "[1 2]", "()", "'atom"] {
        assert!(checker.check(&InternalType::Any, &expr(code)).is_ok());
    }
    assert!(checker.check(&InternalType::Number, &expr("5")).is_ok());
    assert!(checker.check(&InternalType::List, &expr("[1]")).is_ok());
}

#[test]
fn a_call_is_held_against_its_parameters_whatever_is_expected() {
    let checker = Typechecker::default();
    for expected in [InternalType::Any, InternalType::Text, InternalType::Number] {
        assert!(checker.check(&expected, &expr("(get \"a\")")).is_ok());
        let errors = checker.check(&expected, &expr("(write 5)")).unwrap_err();
        assert_eq!(shown(&errors), "[InvalidTypesFound { expected: [Text], found: [Number] }]");
    }
    let errors = checker.check(&InternalType::Any, &expr("(get)")).unwrap_err();
    assert_eq!(shown(&errors), "[InvalidTypesFound { expected: [Text], found: [] }]");
    let errors = checker.check(&InternalType::Any, &expr("(get \"a\" \"b\")")).unwrap_err();
    assert_eq!(shown(&errors), "[InvalidTypesFound { expected: [Text], found: [Text, Text] }]");
}

#[test]
fn a_call_in_an_any_slot_passes_and_in_a_text_slot_fails() {
    let checker = Typechecker::default();
    assert!(checker.check(&InternalType::Any, &expr("(put (get \"a\") \"b\")")).is_ok());
    let errors = checker.check(&InternalType::Any, &expr("(write (get \"a\"))")).unwrap_err();
    assert_eq!(
        shown(&errors),
        "[InvalidTypesFound { expected: [Text], found: [Application(\"get\", [Text], Any)] }]"
    );
}

#[test]
fn an_unknown_function_is_reported_alone() {
    let checker = Typechecker::default();
    let errors = checker.synthesize(&expr("(launch (missing) 1)")).unwrap_err();
    assert_eq!(shown(&errors), "[FunctionNotFound(\"launch\")]");
    let errors = checker.check(&InternalType::Any, &expr("(load \"x\")")).unwrap_err();
    assert_eq!(shown(&errors), "[FunctionNotFound(\"load\")]");
}

#[test]
fn every_failing_argument_is_reported() {
    let checker = Typechecker::default();
    let errors = checker.synthesize(&expr("(put (a) \"k\" (b 1) (get (c)))")).unwrap_err();
    assert_eq!(
        shown(&errors),
        "[FunctionNotFound(\"a\"), FunctionNotFound(\"b\"), FunctionNotFound(\"c\")]"
    );
    let errors = checker.synthesize(&expr("(put 1 (a))")).unwrap_err();
    assert_eq!(shown(&errors), "[FunctionNotFound(\"a\")]");
}

#[test]
fn errors_keep_their_content_in_both_forms() {
    let long = vec![
        TypeCheckerError::FunctionNotFound("f".to_string()),
        TypeCheckerError::InvalidTypeFound {
            expected: InternalType::Text,
            found: InternalType::Number,
        },
        TypeCheckerError::InvalidTypesFound {
            expected: vec![InternalType::Any, InternalType::Text],
            found: vec![InternalType::Number],
        },
    ];
    let expected_short = [
        "FunctionNotFound(\"f\")",
        "InvalidTypeFound { expected: Text, found: Number }",
        "InvalidTypesFound { expected: [Any, Text], found: [Number] }",
    ];
    for (error, expected) in long.iter().zip(expected_short) {
        let short: ShortTypeCheckerError = error.to_short_error();
        assert_eq!(shown(&short), expected);
        assert_eq!(shown(&short.to_long_error()), shown(error));
        assert_eq!(shown(&error.clone()), shown(error));
    }
}
