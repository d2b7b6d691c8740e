use hoya::db::db::{DBTypes, Database};
use hoya::decimal::Decimal;
use hoya::interpreter::env::{Environment, EnvironmentError};
use hoya::interpreter::interpret::{
    snapshot_file_name, Diagnostic, EvaluationError, HostReply, HostRequest, Interpreter,
    StoreIOError,
};
use hoya::interpreter::types::InterpreterValue;
use hoya::parser::ast::Ast;
use hoya::parser::parser::parse;
use hoya::text::{boolean_to_text, integer_to_text, natural_to_text, same_text};
use hoya::typechecker::types::InternalType;

fn expr(code: &str) -> Ast {
    parse(code).unwrap()
}

fn eval(interpreter: &mut Interpreter, code: &str) -> Result<InterpreterValue, EvaluationError> {
    interpreter.eval_ast(&expr(code), &HostReply::Nothing)
}

fn run(interpreter: &mut Interpreter, code: &str) -> Result<String, Diagnostic> {
    interpreter.interpret(code, &HostReply::Nothing)
}

fn number(n: isize) -> InterpreterValue {
    InterpreterValue::Number(n)
}

fn text(s: &str) -> InterpreterValue {
    InterpreterValue::Text(s.to_string())
}

fn unit() -> InterpreterValue {
    InterpreterValue::Unit(())
}

#[test]
fn put_gives_what_the_key_held_and_get_gives_the_value() {
    let mut interpreter = Interpreter::default();
    assert_eq!(eval(&mut interpreter, "(put 5 \"a\")"), Ok(unit()));
    assert_eq!(eval(&mut interpreter, "(get \"a\")"), Ok(number(5)));
    assert_eq!(eval(&mut interpreter, "(put \"six\" \"a\")"), Ok(number(5)));
    assert_eq!(eval(&mut interpreter, "(get \"a\")"), Ok(text("six")));
}

#[test]
fn interpreting_put_then_get_shows_the_unit_and_then_the_value() {
    let mut interpreter = Interpreter::default();
    assert_eq!(run(&mut interpreter, "(put 5 \"a\")").unwrap(), "()");
    assert_eq!(run(&mut interpreter, "(get \"a\")").unwrap(), "5");
    assert_eq!(run(&mut interpreter, "(put 6 \"a\")").unwrap(), "5");
    assert_eq!(run(&mut interpreter, "(get \"a\")").unwrap(), "6");
}

#[test]
fn every_kind_of_literal_comes_back_from_the_store() {
    let literals = ["5", "-12", "2.50", "true", "\"text\"", "[1 \"a\" [true ()]]", "()", "'atom"];
    for literal in literals {
        let mut interpreter = Interpreter::default();
        let expected = InterpreterValue::from_ast(&expr(literal));
        assert_eq!(eval(&mut interpreter, &format!("(put {} \"k\")", literal)), Ok(unit()));
        assert_eq!(eval(&mut interpreter, "(get \"k\")"), Ok(expected));
    }
}

#[test]
fn exists_follows_put_and_remove() {
    let mut interpreter = Interpreter::default();
    assert_eq!(eval(&mut interpreter, "(exists \"k\")"), Ok(InterpreterValue::Boolean(false)));
    assert_eq!(eval(&mut interpreter, "(put 1 \"k\")"), Ok(unit()));
    assert_eq!(eval(&mut interpreter, "(exists \"k\")"), Ok(InterpreterValue::Boolean(true)));
    assert_eq!(eval(&mut interpreter, "(remove \"k\")"), Ok(number(1)));
    assert_eq!(eval(&mut interpreter, "(exists \"k\")"), Ok(InterpreterValue::Boolean(false)));
    assert_eq!(eval(&mut interpreter, "(remove \"k\")"), Ok(unit()));
    assert_eq!(eval(&mut interpreter, "(get \"k\")"), Ok(unit()));
}

#[test]
fn what_is_no_call_is_its_own_value() {
    let mut interpreter = Interpreter::default();
    assert_eq!(eval(&mut interpreter, "5"), Ok(number(5)));
    assert_eq!(eval(&mut interpreter, "\"a\""), Ok(text("a")));
    assert_eq!(eval(&mut interpreter, "()"), Ok(unit()));
    assert_eq!(
        eval(&mut interpreter, "(get)"),
        Ok(InterpreterValue::Identifier("get".to_string()))
    );
    assert_eq!(
        eval(&mut interpreter, "[1 (put 2 \"k\")]"),
        Ok(InterpreterValue::List(vec![
            number(1),
            InterpreterValue::Call(
                Box::new(InterpreterValue::Identifier("put".to_string())),
                vec![number(2), text("k")],
            ),
        ]))
    );
    assert!(!interpreter.database().key_exists("k"));
}

#[test]
fn write_and_writeln_emit_what_their_argument_is_shown_as() {
    let mut interpreter = Interpreter::default();
    assert_eq!(eval(&mut interpreter, "(write \"a b\")"), Ok(unit()));
    assert_eq!(eval(&mut interpreter, "(writeln 42)"), Ok(unit()));
    assert_eq!(eval(&mut interpreter, "(write [1 \"x\"])"), Ok(unit()));
    assert_eq!(interpreter.take_output(), "a b42\n[\"1\", \"x\"]");
    assert_eq!(interpreter.take_output(), "");
    assert_eq!(eval(&mut interpreter, "(writeln (put 1 \"k\"))"), Ok(unit()));
    assert_eq!(interpreter.take_output(), "()\n");
    assert_eq!(eval(&mut interpreter, "(put (writeln \"in\") \"u\")"), Ok(unit()));
    assert_eq!(interpreter.take_output(), "in\n");
    assert_eq!(interpreter.database().get("u"), Some(DBTypes::Unit(())));
}

#[test]
fn values_are_shown_in_their_own_way() {
    let interpreter = Interpreter::default();
    let shown = |code: &str| interpreter.stringify(&InterpreterValue::from_ast(&expr(code)));
    assert_eq!(shown("\"a \\ b\""), "a \\ b");
    assert_eq!(shown("true"), "true");
    assert_eq!(shown("false"), "false");
    assert_eq!(shown("-17"), "-17");
    assert_eq!(shown("0"), "0");
    assert_eq!(shown("-0.50"), "-0.50");
    assert_eq!(shown("12.0"), "12.0");
    assert_eq!(shown("()"), "()");
    assert_eq!(shown("(name)"), "name");
    assert_eq!(shown("[1 2 3]"), "[\"1\", \"2\", \"3\"]");
    assert_eq!(shown("[\"a\\b\" [true]]"), "[\"a\\\\b\", \"[\\\"true\\\"]\"]");
    assert_eq!(shown("(put 5 \"a\")"), "(put [\"5\", \"a\"])");
    assert_eq!(
        interpreter.stringify(&InterpreterValue::List(vec![])),
        "[]"
    );
    assert_eq!(InterpreterValue::Number(isize::MIN).stringify(), isize::MIN.to_string());
    assert_eq!(InterpreterValue::Number(isize::MAX).stringify(), isize::MAX.to_string());
}

#[test]
fn numbers_and_truth_values_are_written_as_the_standard_library_writes_them() {
    for n in [0usize, 1, 9, 10, 11, 99, 100, 101, 12345, usize::MAX] {
        assert_eq!(natural_to_text(n), n.to_string());
    }
    for n in [0isize, 1, -1, 10, -10, 909, -1000, isize::MAX, isize::MIN, isize::MIN + 1] {
        assert_eq!(integer_to_text(n), n.to_string());
    }
    assert_eq!(boolean_to_text(true), true.to_string());
    assert_eq!(boolean_to_text(false), false.to_string());
}

#[test]
fn texts_are_the_same_when_their_characters_are() {
    assert!(same_text("", ""));
    assert!(same_text("writeln", "writeln"));
    assert!(!same_text("write", "writeln"));
    assert!(!same_text("writeln", "write"));
    assert!(!same_text("é", "e"));
}

#[test]
fn a_call_of_no_builtin_fails() {
    let mut interpreter = Interpreter::default();
    assert_eq!(
        eval(&mut interpreter, "(launch 1)"),
        Err(EvaluationError::UnsupportedOperation("launch".to_string()))
    );
    assert_eq!(
        eval(&mut interpreter, "(put (launch 1) \"k\")"),
        Err(EvaluationError::UnsupportedOperation("launch".to_string()))
    );
    assert!(!interpreter.database().key_exists("k"));
    assert_eq!(eval(&mut interpreter, "(put 1 \"k\")"), Ok(unit()));
}

#[test]
fn a_callee_that_is_no_identifier_fails() {
    let mut interpreter = Interpreter::default();
    let ast = Ast::Call(Box::new(Ast::Number(1)), vec![Ast::Number(2)]);
    assert_eq!(
        interpreter.eval_ast(&ast, &HostReply::Nothing),
        Err(EvaluationError::NotCallable)
    );
}

#[test]
fn a_builtin_needs_its_arguments() {
    let mut interpreter = Interpreter::default();
    let invalid = |name: &str| Err(EvaluationError::InvalidArguments(name.to_string()));
    assert_eq!(eval(&mut interpreter, "(get 5)"), invalid("get"));
    assert_eq!(eval(&mut interpreter, "(exists [1])"), invalid("exists"));
    assert_eq!(eval(&mut interpreter, "(remove (get \"a\"))"), invalid("remove"));
    assert_eq!(eval(&mut interpreter, "(put 5)"), invalid("put"));
    assert_eq!(eval(&mut interpreter, "(put (writeln \"x\") 5)"), invalid("put"));
    assert_eq!(eval(&mut interpreter, "(store 5)"), invalid("store"));
    assert_eq!(eval(&mut interpreter, "(load true)"), invalid("load"));
    assert_eq!(interpreter.take_output(), "");
    for name in ["write", "writeln", "put", "get", "exists", "remove", "store", "load"] {
        let ast = Ast::Call(Box::new(Ast::Identifier(name.to_string())), vec![]);
        assert_eq!(interpreter.eval_ast(&ast, &HostReply::Saved), invalid(name));
    }
    assert_eq!(eval(&mut interpreter, "(get \"a\" 5 6)"), Ok(unit()));
}

#[test]
fn an_identifier_or_a_call_cannot_be_stored() {
    let mut interpreter = Interpreter::default();
    assert_eq!(eval(&mut interpreter, "(put (get) \"k\")"), Err(EvaluationError::NotStorable));
    assert_eq!(
        eval(&mut interpreter, "(put [1 (get \"a\")] \"k\")"),
        Err(EvaluationError::NotStorable)
    );
    assert!(!interpreter.database().key_exists("k"));
    assert_eq!(InterpreterValue::Identifier("x".to_string()).to_stored(), None);
    assert_eq!(
        InterpreterValue::List(vec![number(1), InterpreterValue::List(vec![text("a")])]).to_stored(),
        Some(DBTypes::List(vec![
            DBTypes::Number(1),
            DBTypes::List(vec![DBTypes::Text("a".to_string())]),
        ]))
    );
}

#[test]
fn what_was_done_before_a_failure_stays_done() {
    let mut interpreter = Interpreter::default();
    assert_eq!(
        eval(&mut interpreter, "(put (write (put 1 \"inner\")) 5)"),
        Err(EvaluationError::InvalidArguments("put".to_string()))
    );
    assert!(!interpreter.database().key_exists("inner"));
    assert_eq!(
        eval(&mut interpreter, "(remove (put 1 \"inner\"))"),
        Err(EvaluationError::InvalidArguments("remove".to_string()))
    );
    assert_eq!(
        eval(&mut interpreter, "(put (put (write (put 1 \"inner\")) \"outer\") \"k\")"),
        Ok(unit())
    );
    assert_eq!(interpreter.take_output(), "()");
    assert_eq!(
        eval(&mut interpreter, "(put (get (put 2 \"inner\")) \"outer\")"),
        Err(EvaluationError::InvalidArguments("get".to_string()))
    );
    assert_eq!(interpreter.database().get("inner"), Some(DBTypes::Number(1)));
}

#[test]
fn stored_values_and_runtime_values_stand_for_each_other() {
    let stored = DBTypes::List(vec![
        DBTypes::Number(1),
        DBTypes::Float(Decimal {
            negative: false,
            whole: "0".to_string(),
            fraction: "5".to_string(),
        }),
        DBTypes::Boolean(false),
        DBTypes::Text("t".to_string()),
        DBTypes::Unit(()),
    ]);
    let value = InterpreterValue::from_stored(&stored);
    assert_eq!(value, InterpreterValue::from_ast(&expr("[1 0.5 false \"t\" ()]")));
    assert_eq!(value.to_stored(), Some(stored.clone()));
    assert_eq!(value.clone(), value);
    assert_eq!(InterpreterValue::from_lookup(&Some(stored)), value);
    assert_eq!(InterpreterValue::from_lookup(&None), unit());
}

#[test]
fn store_asks_the_host_to_write_the_snapshot() {
    let mut interpreter = Interpreter::default();
    eval(&mut interpreter, "(put 2 \"b\")").unwrap();
    eval(&mut interpreter, "(put 1 \"a\")").unwrap();
    let ast = expr("(store \"backup\")");
    match interpreter.request(&ast) {
        HostRequest::Save(snapshot) => {
            assert_eq!(snapshot.file, "backup.hoya");
            assert_eq!(
                snapshot.records,
                vec![
                    ("a".to_string(), DBTypes::Number(1)),
                    ("b".to_string(), DBTypes::Number(2)),
                ]
            );
        }
        other => panic!("{:?}", other),
    }
    assert_eq!(interpreter.eval_ast(&ast, &HostReply::Saved), Ok(unit()));
    assert_eq!(
        interpreter.eval_ast(&ast, &HostReply::Failed(StoreIOError::Write("backup.hoya".to_string()))),
        Err(EvaluationError::Snapshot(StoreIOError::Write("backup.hoya".to_string())))
    );
    assert_eq!(
        interpreter.eval_ast(&ast, &HostReply::Nothing),
        Err(EvaluationError::Snapshot(StoreIOError::Unanswered("backup.hoya".to_string())))
    );
    assert_eq!(
        interpreter.eval_ast(&ast, &HostReply::Loaded(vec![])),
        Err(EvaluationError::Snapshot(StoreIOError::Unanswered("backup.hoya".to_string())))
    );
    assert_eq!(interpreter.database().get("a"), Some(DBTypes::Number(1)));
}

#[test]
fn load_replaces_the_store_by_what_the_host_has_read() {
    let mut interpreter = Interpreter::default();
    eval(&mut interpreter, "(put 1 \"old\")").unwrap();
    let ast = expr("(put (load \"backup\") \"marker\")");
    assert!(matches!(interpreter.request(&ast), HostRequest::Load(ref file) if file == "backup.hoya"));
    let reply = HostReply::Loaded(vec![("x".to_string(), DBTypes::Number(9))]);
    assert_eq!(interpreter.eval_ast(&ast, &reply), Ok(unit()));
    assert_eq!(interpreter.database().get("old"), None);
    assert_eq!(interpreter.database().get("x"), Some(DBTypes::Number(9)));
    assert_eq!(interpreter.database().get("marker"), Some(DBTypes::Unit(())));
    let failed = HostReply::Failed(StoreIOError::NotFound("backup.hoya".to_string()));
    assert_eq!(
        interpreter.eval_ast(&ast, &failed),
        Err(EvaluationError::Snapshot(StoreIOError::NotFound("backup.hoya".to_string())))
    );
    assert_eq!(
        interpreter.eval_ast(&ast, &HostReply::Saved),
        Err(EvaluationError::Snapshot(StoreIOError::Unanswered("backup.hoya".to_string())))
    );
    assert_eq!(interpreter.database().get("x"), Some(DBTypes::Number(9)));
    let decode = HostReply::Failed(StoreIOError::Decode("backup.hoya".to_string()));
    assert_eq!(
        interpreter.eval_ast(&expr("(load \"backup\")"), &decode),
        Err(EvaluationError::Snapshot(StoreIOError::Decode("backup.hoya".to_string())))
    );
}

#[test]
fn most_expressions_want_nothing_of_the_host() {
    let interpreter = Interpreter::default();
    for code in [
        "5",
        "(get \"a\")",
        "(put 1 \"a\")",
        "(write (get \"a\"))",
        "[(store \"x\")]",
        "(store 5)",
        "(put (store \"x\") 5)",
        "(get (store \"x\"))",
        "(launch (store \"x\"))",
    ] {
        assert!(matches!(interpreter.request(&expr(code)), HostRequest::Nothing));
    }
    assert!(matches!(
        interpreter.request(&expr("(writeln (put (store \"x\") \"k\"))")),
        HostRequest::Save(_)
    ));
    assert_eq!(snapshot_file_name("x"), "x.hoya");
}

#[test]
fn a_text_asks_only_where_it_passes_the_checker() {
    let interpreter = Interpreter::default();
    assert!(matches!(interpreter.ask("(store \"x\")"), HostRequest::Save(_)));
    assert!(matches!(interpreter.ask("(store \"x\""), HostRequest::Nothing));
    assert!(matches!(interpreter.ask("(store 5)"), HostRequest::Nothing));
    assert!(matches!(interpreter.ask("(load \"x\")"), HostRequest::Nothing));
    assert!(matches!(interpreter.ask("(get \"x\")"), HostRequest::Nothing));
}

#[test]
fn a_text_that_is_no_expression_gives_a_parse_diagnostic() {
    let mut interpreter = Interpreter::default();
    match run(&mut interpreter, "(put 5 \"a\"") {
        Err(Diagnostic::Parse(e)) => assert_eq!((e.line, e.column), (1, 11)),
        other => panic!("{:?}", other),
    }
    assert!(!interpreter.database().key_exists("a"));
}

#[test]
fn a_text_that_fails_the_checker_is_not_evaluated() {
    let mut interpreter = Interpreter::default();
    match run(&mut interpreter, "(put (writeln \"seen\") 5)") {
        Err(Diagnostic::Type(errors)) => assert_eq!(
            format!("{:?}", errors),
            "[InvalidTypesFound { expected: [Any, Text], found: [Application(\"writeln\", [Text], Unit), Number] }]"
        ),
        other => panic!("{:?}", other),
    }
    match run(&mut interpreter, "(launch 1)") {
        Err(Diagnostic::Type(errors)) => {
            assert_eq!(format!("{:?}", errors), "[FunctionNotFound(\"launch\")]")
        }
        other => panic!("{:?}", other),
    }
    assert_eq!(interpreter.take_output(), "");
}

#[test]
fn a_failure_of_the_evaluation_gives_an_evaluation_diagnostic() {
    let mut interpreter = Interpreter::default();
    match run(&mut interpreter, "(put (get 5) \"k\")") {
        Err(Diagnostic::Evaluation(e)) => {
            assert_eq!(e, EvaluationError::InvalidArguments("get".to_string()))
        }
        other => panic!("{:?}", other),
    }
    match run(&mut interpreter, "(store \"x\")") {
        Err(Diagnostic::Evaluation(e)) => assert_eq!(
            e,
            EvaluationError::Snapshot(StoreIOError::Unanswered("x.hoya".to_string()))
        ),
        other => panic!("{:?}", other),
    }
    assert_eq!(interpreter.interpret("(store \"x\")", &HostReply::Saved).unwrap(), "()");
    assert_eq!(run(&mut interpreter, "(put 1 \"k\")").unwrap(), "()");
    assert_eq!(run(&mut interpreter, "(exists \"k\")").unwrap(), "true");
}

#[test]
fn an_interpreter_works_on_the_store_it_is_given() {
    let mut db = Database::new();
    db.put("seed".to_string(), DBTypes::Text("value".to_string()));
    let mut interpreter = Interpreter::new(db, Environment::builtin());
    assert_eq!(run(&mut interpreter, "(get \"seed\")").unwrap(), "value");
    assert_eq!(interpreter.take_output(), "");
}

#[test]
fn the_environment_knows_builtins_and_definitions() {
    let mut env = Environment::default();
    assert!(env.is_builtin("put"));
    assert!(!env.is_builtin("double"));
    assert!(!env.is_defined("put"));
    assert!(!env.is_defined("double"));
    let body = expr("(put 1 \"k\")");
    let defined = env.define_function(
        "double".to_string(),
        body.clone(),
        vec![InternalType::Number, InternalType::Number],
    );
    assert!(defined.is_ok());
    assert!(env.is_defined("double"));
    assert!(!env.is_builtin("double"));
    assert_eq!(env.defined_functions, vec![("double".to_string(), body.clone())]);
    assert_eq!(format!("{:?}", env.typechecker.env.param_types_of("double")), "[Number]");
    let again = env.define_function("double".to_string(), body.clone(), vec![InternalType::Text]);
    assert!(matches!(again, Err(EnvironmentError::FunctionAlreadyDefined(ref n)) if n == "double"));
    let builtin = env.define_function("get".to_string(), body, vec![InternalType::Text]);
    assert!(matches!(builtin, Err(EnvironmentError::FunctionAlreadyDefined(ref n)) if n == "get"));
    assert_eq!(env.defined_functions.len(), 1);
    assert!(!env.is_defined("get"));
}
