//! The evaluator: builtin calls, made against the store.
//!
//! Evaluation itself touches no file. An expression that calls `store` or
//! `load` does so before anything else that it does, so the host asks first
//! what the expression wants of it ([`Interpreter::request`]), does that, and
//! hands the outcome to the evaluation as its reply. What `write` and
//! `writeln` emit is gathered for the host to print
//! ([`Interpreter::take_output`]).

use super::env::Environment;
use super::types::{
    rendered, storable, stored_of_value, value_of_ast, value_of_lookup, InterpreterValue,
    RuntimeModel,
};
use crate::db::db::{
    records_map, snapshot_file, stored_at, DBTypes, Database, Records,
    Snapshot,
};
use crate::db::order::ascending;
use crate::parser::ast::{asts_view, lemma_call_view, Ast, AstModel};
use crate::parser::errors::{ParseError, ParseErrorModel};
use crate::parser::grammar::parsed;
use crate::parser::parser::parse;
use crate::typechecker::bidirectional_typechecker::checked;
use crate::typechecker::errors::{errors_view, TypeCheckerError, TypeErrorModel};
use crate::typechecker::types::{InternalType, TypeModel};
use crate::text::same_text;
use crate::typechecker::env::Signatures;
use vstd::prelude::*;
use vstd::string::StringExecFns;

verus! {

/// The mathematical value of a [`StoreIOError`].
pub enum StoreErrorModel {
    NotFound(Seq<char>),
    Decode(Seq<char>),
    Write(Seq<char>),
    Unanswered(Seq<char>),
}

/// Why a snapshot could not be written or read. Each error names the file.
#[derive(Debug, PartialEq, Eq)]
pub enum StoreIOError {
    /// The file does not exist.
    NotFound(String),
    /// The file does not hold a snapshot.
    Decode(String),
    /// The file could not be written.
    Write(String),
    /// The host gave no answer about the file.
    Unanswered(String),
}

impl View for StoreIOError {
    type V = StoreErrorModel;

    open spec fn view(&self) -> StoreErrorModel {
        match self {
            StoreIOError::NotFound(file) => StoreErrorModel::NotFound(file@),
            StoreIOError::Decode(file) => StoreErrorModel::Decode(file@),
            StoreIOError::Write(file) => StoreErrorModel::Write(file@),
            StoreIOError::Unanswered(file) => StoreErrorModel::Unanswered(file@),
        }
    }
}

impl Clone for StoreIOError {
    fn clone(&self) -> (r: Self)
        ensures
            r@ == self@,
    {
        match self {
            StoreIOError::NotFound(file) => StoreIOError::NotFound(file.clone()),
            StoreIOError::Decode(file) => StoreIOError::Decode(file.clone()),
            StoreIOError::Write(file) => StoreIOError::Write(file.clone()),
            StoreIOError::Unanswered(file) => StoreIOError::Unanswered(file.clone()),
        }
    }
}

/// The mathematical value of an [`EvaluationError`].
pub enum EvalErrorModel {
    UnsupportedOperation(Seq<char>),
    NotCallable,
    InvalidArguments(Seq<char>),
    NotStorable,
    Snapshot(StoreErrorModel),
}

/// Why an expression has no value.
#[derive(Debug, PartialEq, Eq)]
pub enum EvaluationError {
    /// A call of a function that is no builtin.
    UnsupportedOperation(String),
    /// A call whose callee is no identifier.
    NotCallable,
    /// A call of this builtin with too few arguments, or with a key or a name
    /// that is no text.
    InvalidArguments(String),
    /// A value that holds an identifier or a call was to be stored.
    NotStorable,
    /// A snapshot could not be written or read.
    Snapshot(StoreIOError),
}

impl View for EvaluationError {
    type V = EvalErrorModel;

    open spec fn view(&self) -> EvalErrorModel {
        match self {
            EvaluationError::UnsupportedOperation(name) => EvalErrorModel::UnsupportedOperation(
                name@,
            ),
            EvaluationError::NotCallable => EvalErrorModel::NotCallable,
            EvaluationError::InvalidArguments(name) => EvalErrorModel::InvalidArguments(name@),
            EvaluationError::NotStorable => EvalErrorModel::NotStorable,
            EvaluationError::Snapshot(e) => EvalErrorModel::Snapshot(e@),
        }
    }
}

/// The mathematical value of a [`HostRequest`].
pub enum RequestModel {
    Nothing,
    Save { file: Seq<char>, records: Records },
    Load { file: Seq<char> },
}

/// What an expression wants of the host before it is evaluated.
#[derive(Debug)]
pub enum HostRequest {
    /// Nothing.
    Nothing,
    /// To write this snapshot to its file.
    Save(Snapshot),
    /// To read the snapshot that this file holds.
    Load(String),
}

impl View for HostRequest {
    type V = RequestModel;

    open spec fn view(&self) -> RequestModel {
        match self {
            HostRequest::Nothing => RequestModel::Nothing,
            HostRequest::Save(snapshot) => RequestModel::Save {
                file: snapshot.file@,
                records: records_map(snapshot.records@),
            },
            HostRequest::Load(file) => RequestModel::Load { file: file@ },
        }
    }
}

/// The mathematical value of a [`HostReply`].
pub enum ReplyModel {
    Nothing,
    Saved,
    Loaded(Records),
    Failed(StoreErrorModel),
}

/// What the host did about a request.
#[derive(Debug)]
pub enum HostReply {
    /// Nothing: nothing was asked, or the host does not serve requests.
    Nothing,
    /// The snapshot was written.
    Saved,
    /// The snapshot was read: its entries, in the order of the file.
    Loaded(Vec<(String, DBTypes)>),
    /// The snapshot could not be written or read.
    Failed(StoreIOError),
}

impl View for HostReply {
    type V = ReplyModel;

    open spec fn view(&self) -> ReplyModel {
        match self {
            HostReply::Nothing => ReplyModel::Nothing,
            HostReply::Saved => ReplyModel::Saved,
            HostReply::Loaded(records) => ReplyModel::Loaded(records_map(records@)),
            HostReply::Failed(e) => ReplyModel::Failed(e@),
        }
    }
}

/// What evaluation works on: the store, and the text emitted so far.
pub struct Session {
    pub records: Records,
    pub output: Seq<char>,
}

/// What an evaluation gives: a value or an error, and the session after it.
pub struct Evaluated {
    pub result: Result<RuntimeModel, EvalErrorModel>,
    pub session: Session,
}

/// The evaluation that fails with `error` in `session`.
pub open spec fn failure(error: EvalErrorModel, session: Session) -> Evaluated {
    Evaluated { result: Err(error), session }
}

/// The evaluation that gives `value` in `session`.
pub open spec fn success(value: RuntimeModel, session: Session) -> Evaluated {
    Evaluated { result: Ok(value), session }
}

/// The text that the argument `i` of a call is, where it is a text.
pub open spec fn text_argument(args: Seq<AstModel>, i: int) -> Option<Seq<char>> {
    if 0 <= i < args.len() && args[i] is Text {
        Some(args[i]->Text_0)
    } else {
        None
    }
}

/// What ends a line that `name` emits: a line feed for `writeln`.
pub open spec fn line_end(name: Seq<char>) -> Seq<char> {
    if name == "writeln"@ {
        "\n"@
    } else {
        Seq::empty()
    }
}

/// The evaluation of an expression in a session, with the reply of the host
/// to what the expression wanted of it.
///
/// An expression that is no call is its own value. A call of a builtin does
/// what the builtin does:
/// - `write` and `writeln` evaluate their argument and emit what it is shown
///   as, `writeln` with a line feed after it; their value is the unit.
/// - `put` evaluates its first argument and writes it at the key that its
///   second argument is; its value is what the key held, or the unit.
/// - `get` gives what the key holds, or the unit; `exists` whether it holds
///   anything; `remove` takes the key out and gives what it held, or the
///   unit.
/// - `store` succeeds where the host has written the snapshot, and `load`
///   replaces what the store holds by the snapshot that the host has read;
///   their value is the unit.
///
/// A call of anything else fails. A failure inside an argument is the
/// failure of the call, and what was done before it stays done.
pub open spec fn evaluated(ast: AstModel, reply: ReplyModel, session: Session) -> Evaluated
    decreases ast,
{
    match ast {
        AstModel::Call(callee, args) => match *callee {
            AstModel::Identifier(name) => {
                if name == "write"@ || name == "writeln"@ {
                    if args.len() < 1 {
                        failure(EvalErrorModel::InvalidArguments(name), session)
                    } else {
                        let inner = evaluated(args[0], reply, session);
                        match inner.result {
                            Err(_) => inner,
                            Ok(value) => success(
                                RuntimeModel::Unit,
                                Session {
                                    records: inner.session.records,
                                    output: inner.session.output + rendered(value) + line_end(
                                        name,
                                    ),
                                },
                            ),
                        }
                    }
                } else if name == "put"@ {
                    match text_argument(args, 1) {
                        None => failure(EvalErrorModel::InvalidArguments(name), session),
                        Some(key) => {
                            let inner = evaluated(args[0], reply, session);
                            match inner.result {
                                Err(_) => inner,
                                Ok(value) => {
                                    if storable(value) {
                                        success(
                                            value_of_lookup(
                                                stored_at(inner.session.records, key),
                                            ),
                                            Session {
                                                records: inner.session.records.insert(
                                                    key,
                                                    stored_of_value(value),
                                                ),
                                                output: inner.session.output,
                                            },
                                        )
                                    } else {
                                        failure(EvalErrorModel::NotStorable, inner.session)
                                    }
                                },
                            }
                        },
                    }
                } else if name == "get"@ {
                    match text_argument(args, 0) {
                        None => failure(EvalErrorModel::InvalidArguments(name), session),
                        Some(key) => success(
                            value_of_lookup(stored_at(session.records, key)),
                            session,
                        ),
                    }
                } else if name == "exists"@ {
                    match text_argument(args, 0) {
                        None => failure(EvalErrorModel::InvalidArguments(name), session),
                        Some(key) => success(
                            RuntimeModel::Boolean(session.records.contains_key(key)),
                            session,
                        ),
                    }
                } else if name == "remove"@ {
                    match text_argument(args, 0) {
                        None => failure(EvalErrorModel::InvalidArguments(name), session),
                        Some(key) => success(
                            value_of_lookup(stored_at(session.records, key)),
                            Session {
                                records: session.records.remove(key),
                                output: session.output,
                            },
                        ),
                    }
                } else if name == "store"@ {
                    match text_argument(args, 0) {
                        None => failure(EvalErrorModel::InvalidArguments(name), session),
                        Some(snapshot) => match reply {
                            ReplyModel::Saved => success(RuntimeModel::Unit, session),
                            ReplyModel::Failed(e) => failure(EvalErrorModel::Snapshot(e), session),
                            _ => failure(
                                EvalErrorModel::Snapshot(
                                    StoreErrorModel::Unanswered(snapshot_file(snapshot)),
                                ),
                                session,
                            ),
                        },
                    }
                } else if name == "load"@ {
                    match text_argument(args, 0) {
                        None => failure(EvalErrorModel::InvalidArguments(name), session),
                        Some(snapshot) => match reply {
                            ReplyModel::Loaded(records) => success(
                                RuntimeModel::Unit,
                                Session { records, output: session.output },
                            ),
                            ReplyModel::Failed(e) => failure(EvalErrorModel::Snapshot(e), session),
                            _ => failure(
                                EvalErrorModel::Snapshot(
                                    StoreErrorModel::Unanswered(snapshot_file(snapshot)),
                                ),
                                session,
                            ),
                        },
                    }
                } else {
                    failure(EvalErrorModel::UnsupportedOperation(name), session)
                }
            },
            _ => failure(EvalErrorModel::NotCallable, session),
        },
        _ => success(value_of_ast(ast), session),
    }
}

/// What an expression wants of the host: the snapshot that its `store` is to
/// write, or the file that its `load` is to read. Only the innermost call of
/// an expression can be one of the two, so the store is then still as it was
/// when the evaluation began.
pub open spec fn requested(ast: AstModel, records: Records) -> RequestModel
    decreases ast,
{
    match ast {
        AstModel::Call(callee, args) => match *callee {
            AstModel::Identifier(name) => {
                if name == "write"@ || name == "writeln"@ {
                    if args.len() < 1 {
                        RequestModel::Nothing
                    } else {
                        requested(args[0], records)
                    }
                } else if name == "put"@ {
                    match text_argument(args, 1) {
                        None => RequestModel::Nothing,
                        Some(_) => requested(args[0], records),
                    }
                } else if name == "store"@ {
                    match text_argument(args, 0) {
                        None => RequestModel::Nothing,
                        Some(snapshot) => RequestModel::Save {
                            file: snapshot_file(snapshot),
                            records,
                        },
                    }
                } else if name == "load"@ {
                    match text_argument(args, 0) {
                        None => RequestModel::Nothing,
                        Some(snapshot) => RequestModel::Load { file: snapshot_file(snapshot) },
                    }
                } else {
                    RequestModel::Nothing
                }
            },
            _ => RequestModel::Nothing,
        },
        _ => RequestModel::Nothing,
    }
}

/// The names of the builtins are eight different texts.
pub proof fn names_differ()
    ensures
        "write"@.len() == 5 && "write"@[0] == 'w',
        "writeln"@.len() == 7,
        "put"@.len() == 3 && "put"@[0] == 'p',
        "get"@.len() == 3 && "get"@[0] == 'g',
        "exists"@.len() == 6 && "exists"@[0] == 'e',
        "remove"@.len() == 6 && "remove"@[0] == 'r',
        "store"@.len() == 5 && "store"@[0] == 's',
        "load"@.len() == 4,
{
    reveal_strlit("write");
    reveal_strlit("writeln");
    reveal_strlit("put");
    reveal_strlit("get");
    reveal_strlit("exists");
    reveal_strlit("remove");
    reveal_strlit("store");
    reveal_strlit("load");
}

/// The evaluation of an expression that wants nothing of the host does not
/// depend on the reply.
pub proof fn reply_unused(ast: AstModel, first: ReplyModel, second: ReplyModel, session: Session)
    requires
        requested(ast, session.records) is Nothing,
    ensures
        evaluated(ast, first, session) == evaluated(ast, second, session),
    decreases ast,
{
    match ast {
        AstModel::Call(callee, args) => match *callee {
            AstModel::Identifier(name) => {
                if name == "write"@ || name == "writeln"@ {
                    if args.len() >= 1 {
                        reply_unused(args[0], first, second, session);
                    }
                } else if name == "put"@ {
                    if text_argument(args, 1) is Some {
                        reply_unused(args[0], first, second, session);
                    }
                }
            },
            _ => {},
        },
        _ => {},
    }
}

/// Where the host could not do what an expression wanted of it, the
/// evaluation fails with the error of the host, and the session stays as it
/// was.
pub proof fn failed_reply_fails(ast: AstModel, error: StoreErrorModel, session: Session)
    requires
        !(requested(ast, session.records) is Nothing),
    ensures
        evaluated(ast, ReplyModel::Failed(error), session) == failure(
            EvalErrorModel::Snapshot(error),
            session,
        ),
    decreases ast,
{
    names_differ();
    match ast {
        AstModel::Call(callee, args) => match *callee {
            AstModel::Identifier(name) => {
                if name == "write"@ || name == "writeln"@ {
                    if args.len() >= 1 {
                        failed_reply_fails(args[0], error, session);
                    }
                } else if name == "put"@ {
                    if text_argument(args, 1) is Some {
                        failed_reply_fails(args[0], error, session);
                    }
                }
            },
            _ => {},
        },
        _ => {},
    }
}

/// The value of the outcome of an evaluation.
pub open spec fn result_view(r: Result<InterpreterValue, EvaluationError>) -> Result<
    RuntimeModel,
    EvalErrorModel,
> {
    match r {
        Ok(value) => Ok(value@),
        Err(e) => Err(e@),
    }
}

/// The text that the argument `i` of a call is, where it is a text.
fn text_of_argument(args: &Vec<Ast>, i: usize) -> (r: Option<&String>)
    ensures
        match r {
            Some(text) => text_argument(asts_view(args@), i as int) == Some(text@),
            None => text_argument(asts_view(args@), i as int) is None,
        },
{
    if i < args.len() {
        match &args[i] {
            Ast::Text(text) => Some(text),
            _ => None,
        }
    } else {
        None
    }
}

/// The name of the file that holds the snapshot called `name`.
pub fn snapshot_file_name(name: &str) -> (r: String)
    ensures
        r@ == snapshot_file(name@),
{
    let mut file = name.to_owned();
    file.append(".hoya");
    file
}

/// An evaluator with its store, the functions it knows, and the text that it
/// has emitted and the host has not taken yet.
pub struct Interpreter {
    env: Environment,
    db: Database,
    output: String,
}

impl Interpreter {
    /// The store and the emitted text.
    pub closed spec fn session(&self) -> Session {
        Session { records: self.db@, output: self.output@ }
    }

    /// The signatures that the checker holds.
    pub closed spec fn signatures(&self) -> Signatures {
        self.env.signatures()
    }

    /// An evaluator over a store and an environment, with nothing emitted.
    pub fn new(db: Database, env: Environment) -> (r: Interpreter)
        ensures
            r.session() == (Session { records: db@, output: Seq::empty() }),
            r.signatures() == env.signatures(),
    {
        Interpreter { env, db, output: String::new() }
    }

    /// The store.
    pub fn database(&self) -> (r: &Database)
        ensures
            r@ == self.session().records,
    {
        &self.db
    }

    /// Hands over the text emitted since it was last taken.
    pub fn take_output(&mut self) -> (r: String)
        ensures
            r@ == old(self).session().output,
            final(self).session() == (Session {
                records: old(self).session().records,
                output: Seq::empty(),
            }),
            final(self).signatures() == old(self).signatures(),
    {
        let mut taken = String::new();
        core::mem::swap(&mut self.output, &mut taken);
        taken
    }

    /// How a value is shown.
    pub fn stringify(&self, value: &InterpreterValue) -> (r: String)
        ensures
            r@ == rendered(value@),
    {
        value.stringify()
    }

    /// What `ast` wants of the host before it is evaluated. A snapshot that
    /// is to be written holds every entry of the store, in ascending order
    /// of the keys.
    pub fn request(&self, ast: &Ast) -> (r: HostRequest)
        ensures
            r@ == requested(ast@, self.session().records),
            r matches HostRequest::Save(snapshot) ==> ascending(
                crate::db::db::keys_of(snapshot.records@),
            ),
        decreases ast,
    {
        match ast {
            Ast::Call(callee, args) => {
                proof {
                    lemma_call_view(*callee, *args);
                }
                match &**callee {
                    Ast::Identifier(name) => {
                        let name = name.as_str();
                        if same_text(name, "write") || same_text(name, "writeln") {
                            if args.len() < 1 {
                                HostRequest::Nothing
                            } else {
                                self.request(&args[0])
                            }
                        } else if same_text(name, "put") {
                            match text_of_argument(args, 1) {
                                None => HostRequest::Nothing,
                                Some(_) => self.request(&args[0]),
                            }
                        } else if same_text(name, "store") {
                            match text_of_argument(args, 0) {
                                None => HostRequest::Nothing,
                                Some(snapshot) => HostRequest::Save(
                                    self.db.store(snapshot.as_str()),
                                ),
                            }
                        } else if same_text(name, "load") {
                            match text_of_argument(args, 0) {
                                None => HostRequest::Nothing,
                                Some(snapshot) => HostRequest::Load(
                                    snapshot_file_name(snapshot.as_str()),
                                ),
                            }
                        } else {
                            HostRequest::Nothing
                        }
                    },
                    _ => HostRequest::Nothing,
                }
            },
            _ => HostRequest::Nothing,
        }
    }

    /// The outcome of a call of `store` or `load` on the snapshot `name`,
    /// given the reply of the host.
    fn snapshot_outcome(&mut self, name: &str, reply: &HostReply, loading: bool) -> (r: Result<
        InterpreterValue,
        EvaluationError,
    >)
        ensures
            final(self).signatures() == old(self).signatures(),
            (Evaluated { result: result_view(r), session: final(self).session() }) == (match (
                reply@,
                loading,
            ) {
                (ReplyModel::Saved, false) => success(RuntimeModel::Unit, old(self).session()),
                (ReplyModel::Loaded(records), true) => success(
                    RuntimeModel::Unit,
                    Session { records, output: old(self).session().output },
                ),
                (ReplyModel::Failed(e), _) => failure(
                    EvalErrorModel::Snapshot(e),
                    old(self).session(),
                ),
                _ => failure(
                    EvalErrorModel::Snapshot(StoreErrorModel::Unanswered(snapshot_file(name@))),
                    old(self).session(),
                ),
            }),
    {
        match reply {
            HostReply::Failed(e) => Err(EvaluationError::Snapshot(e.clone())),
            HostReply::Saved => {
                if loading {
                    Err(
                        EvaluationError::Snapshot(
                            StoreIOError::Unanswered(snapshot_file_name(name)),
                        ),
                    )
                } else {
                    Ok(InterpreterValue::Unit(()))
                }
            },
            HostReply::Loaded(records) => {
                if loading {
                    self.db.load(records);
                    Ok(InterpreterValue::Unit(()))
                } else {
                    Err(
                        EvaluationError::Snapshot(
                            StoreIOError::Unanswered(snapshot_file_name(name)),
                        ),
                    )
                }
            },
            HostReply::Nothing => Err(
                EvaluationError::Snapshot(StoreIOError::Unanswered(snapshot_file_name(name))),
            ),
        }
    }

    /// Evaluates a call of the builtin `name`.
    fn eval_builtin(&mut self, name: &String, args: &Vec<Ast>, reply: &HostReply) -> (r: Result<
        InterpreterValue,
        EvaluationError,
    >)
        ensures
            final(self).signatures() == old(self).signatures(),
            (Evaluated { result: result_view(r), session: final(self).session() }) == evaluated(
                AstModel::Call(Box::new(AstModel::Identifier(name@)), asts_view(args@)),
                reply@,
                old(self).session(),
            ),
        decreases args, 0nat,
    {
        let called = name.as_str();
        if same_text(called, "write") || same_text(called, "writeln") {
            if args.len() < 1 {
                return Err(EvaluationError::InvalidArguments(name.clone()));
            }
            match self.eval_ast(&args[0], reply) {
                Err(e) => Err(e),
                Ok(value) => {
                    let shown = value.stringify();
                    self.output.append(shown.as_str());
                    if same_text(called, "writeln") {
                        self.output.append("\n");
                    }
                    proof {
                        reveal_strlit("\n");
                        let before = evaluated(
                            asts_view(args@)[0],
                            reply@,
                            old(self).session(),
                        ).session.output;
                        assert(self.output@ =~= before + rendered(value@) + line_end(name@));
                    }
                    Ok(InterpreterValue::Unit(()))
                },
            }
        } else if same_text(called, "put") {
            let key = match text_of_argument(args, 1) {
                None => {
                    return Err(EvaluationError::InvalidArguments(name.clone()));
                },
                Some(key) => key,
            };
            match self.eval_ast(&args[0], reply) {
                Err(e) => Err(e),
                Ok(value) => match value.to_stored() {
                    None => Err(EvaluationError::NotStorable),
                    Some(stored) => {
                        let held = self.db.put(key.clone(), stored);
                        Ok(InterpreterValue::from_lookup(&held))
                    },
                },
            }
        } else if same_text(called, "get") {
            match text_of_argument(args, 0) {
                None => Err(EvaluationError::InvalidArguments(name.clone())),
                Some(key) => {
                    let held = self.db.get(key.as_str());
                    Ok(InterpreterValue::from_lookup(&held))
                },
            }
        } else if same_text(called, "exists") {
            match text_of_argument(args, 0) {
                None => Err(EvaluationError::InvalidArguments(name.clone())),
                Some(key) => Ok(InterpreterValue::Boolean(self.db.key_exists(key.as_str()))),
            }
        } else if same_text(called, "remove") {
            match text_of_argument(args, 0) {
                None => Err(EvaluationError::InvalidArguments(name.clone())),
                Some(key) => {
                    let held = self.db.remove(key.as_str());
                    Ok(InterpreterValue::from_lookup(&held))
                },
            }
        } else if same_text(called, "store") {
            match text_of_argument(args, 0) {
                None => Err(EvaluationError::InvalidArguments(name.clone())),
                Some(snapshot) => self.snapshot_outcome(snapshot.as_str(), reply, false),
            }
        } else if same_text(called, "load") {
            match text_of_argument(args, 0) {
                None => Err(EvaluationError::InvalidArguments(name.clone())),
                Some(snapshot) => self.snapshot_outcome(snapshot.as_str(), reply, true),
            }
        } else {
            Err(EvaluationError::UnsupportedOperation(name.clone()))
        }
    }

    /// Evaluates an expression, with the reply of the host to what the
    /// expression wanted of it.
    pub fn eval_ast(&mut self, ast: &Ast, reply: &HostReply) -> (r: Result<
        InterpreterValue,
        EvaluationError,
    >)
        ensures
            final(self).signatures() == old(self).signatures(),
            (Evaluated { result: result_view(r), session: final(self).session() }) == evaluated(
                ast@,
                reply@,
                old(self).session(),
            ),
        decreases ast, 1nat,
    {
        match ast {
            Ast::Call(callee, args) => {
                proof {
                    lemma_call_view(*callee, *args);
                }
                match &**callee {
                    Ast::Identifier(name) => self.eval_builtin(name, args, reply),
                    _ => Err(EvaluationError::NotCallable),
                }
            },
            other => Ok(InterpreterValue::from_ast(other)),
        }
    }
}

impl Default for Interpreter {
    fn default() -> (r: Self)
        ensures
            r.session() == (Session {
                records: Map::<Seq<char>, crate::db::db::ValueModel>::empty(),
                output: Seq::empty(),
            }),
            r.signatures() == crate::typechecker::env::builtin_signatures(),
    {
        Interpreter::new(Database::default(), Environment::builtin())
    }
}

/// The mathematical value of a [`Diagnostic`].
pub enum DiagnosticModel {
    Parse(ParseErrorModel),
    Type(Seq<TypeErrorModel>),
    Evaluation(EvalErrorModel),
}

/// Why a text was not evaluated to the end.
#[derive(Debug)]
pub enum Diagnostic {
    /// The text is no expression.
    Parse(ParseError),
    /// The expression does not pass the checker.
    Type(Vec<TypeCheckerError>),
    /// The evaluation failed.
    Evaluation(EvaluationError),
}

impl View for Diagnostic {
    type V = DiagnosticModel;

    open spec fn view(&self) -> DiagnosticModel {
        match self {
            Diagnostic::Parse(e) => DiagnosticModel::Parse(e@),
            Diagnostic::Type(errors) => DiagnosticModel::Type(errors_view(errors@)),
            Diagnostic::Evaluation(e) => DiagnosticModel::Evaluation(e@),
        }
    }
}

/// What the interpretation of a text gives: what its value is shown as, or
/// a diagnostic; and the session after it.
pub struct Interpreted {
    pub result: Result<Seq<char>, DiagnosticModel>,
    pub session: Session,
}

/// The value of the outcome of an interpretation.
pub open spec fn interpretation_view(r: Result<String, Diagnostic>) -> Result<
    Seq<char>,
    DiagnosticModel,
> {
    match r {
        Ok(text) => Ok(text@),
        Err(d) => Err(d@),
    }
}

/// The interpretation of a text: it is parsed, checked against `Any` and
/// evaluated. A text that is no expression, or that does not pass the
/// checker, is not evaluated, and the session stays as it was.
pub open spec fn interpreted(
    table: Signatures,
    code: Seq<char>,
    reply: ReplyModel,
    session: Session,
) -> Interpreted {
    match parsed(code) {
        Err(e) => Interpreted { result: Err(DiagnosticModel::Parse(e)), session },
        Ok(ast) => match checked(table, TypeModel::Any, ast) {
            Err(errors) => Interpreted { result: Err(DiagnosticModel::Type(errors)), session },
            Ok(_) => {
                let done = evaluated(ast, reply, session);
                Interpreted {
                    result: match done.result {
                        Ok(value) => Ok(rendered(value)),
                        Err(e) => Err(DiagnosticModel::Evaluation(e)),
                    },
                    session: done.session,
                }
            },
        },
    }
}

/// What a text wants of the host before it is interpreted: what its
/// expression wants, where it is one that passes the checker.
pub open spec fn asked(table: Signatures, code: Seq<char>, records: Records) -> RequestModel {
    match parsed(code) {
        Err(_) => RequestModel::Nothing,
        Ok(ast) => match checked(table, TypeModel::Any, ast) {
            Err(_) => RequestModel::Nothing,
            Ok(_) => requested(ast, records),
        },
    }
}

/// A text that is refused by the parser or by the checker touches neither
/// the store nor the output.
pub proof fn refused_text_touches_nothing(
    table: Signatures,
    code: Seq<char>,
    reply: ReplyModel,
    session: Session,
)
    requires
        interpreted(table, code, reply, session).result matches Err(d) && !(d is Evaluation),
    ensures
        interpreted(table, code, reply, session).session == session,
{
}

/// The call of the builtin `name` with the given arguments.
pub open spec fn call_of(name: Seq<char>, args: Seq<AstModel>) -> AstModel {
    AstModel::Call(Box::new(AstModel::Identifier(name)), args)
}

/// A value that `put` writes at a key is the value that `get` then gives
/// for the key: for every expression that is no call and whose value can be
/// stored, `(put value key)` gives what the key held, or the unit, and
/// `(get key)` after it gives the value.
pub proof fn put_then_get_evaluated(
    value: AstModel,
    key: Seq<char>,
    reply: ReplyModel,
    session: Session,
)
    requires
        !(value is Call),
        storable(value_of_ast(value)),
    ensures
        ({
            let put = evaluated(
                call_of("put"@, seq![value, AstModel::Text(key)]),
                reply,
                session,
            );
            let get = evaluated(call_of("get"@, seq![AstModel::Text(key)]), reply, put.session);
            &&& put.result == Ok::<RuntimeModel, EvalErrorModel>(
                value_of_lookup(stored_at(session.records, key)),
            )
            &&& put.session.output == session.output
            &&& get.result == Ok::<RuntimeModel, EvalErrorModel>(value_of_ast(value))
            &&& get.session == put.session
        }),
{
    names_differ();
    super::types::stored_value_comes_back(value_of_ast(value));
    let put_args = seq![value, AstModel::Text(key)];
    let get_args = seq![AstModel::Text(key)];
    assert(text_argument(put_args, 1) == Some(key));
    assert(text_argument(get_args, 0) == Some(key));
    assert(evaluated(put_args[0], reply, session) == success(value_of_ast(value), session));
    let put = evaluated(call_of("put"@, put_args), reply, session);
    assert(put.session.records == session.records.insert(
        key,
        stored_of_value(value_of_ast(value)),
    ));
}

/// `exists` gives `false` for a key of an empty store, `true` right after a
/// `put` at the key, and `false` right after a `remove` of the key.
pub proof fn existence_evaluated(
    value: AstModel,
    key: Seq<char>,
    reply: ReplyModel,
    session: Session,
)
    requires
        !(value is Call),
        storable(value_of_ast(value)),
    ensures
        ({
            let exists = call_of("exists"@, seq![AstModel::Text(key)]);
            let empty = Session { records: Map::empty(), output: session.output };
            let put = evaluated(
                call_of("put"@, seq![value, AstModel::Text(key)]),
                reply,
                session,
            );
            let remove = evaluated(
                call_of("remove"@, seq![AstModel::Text(key)]),
                reply,
                session,
            );
            &&& evaluated(exists, reply, empty).result == Ok::<RuntimeModel, EvalErrorModel>(
                RuntimeModel::Boolean(false),
            )
            &&& evaluated(exists, reply, put.session).result == Ok::<
                RuntimeModel,
                EvalErrorModel,
            >(RuntimeModel::Boolean(true))
            &&& evaluated(exists, reply, remove.session).result == Ok::<
                RuntimeModel,
                EvalErrorModel,
            >(RuntimeModel::Boolean(false))
        }),
{
    names_differ();
    let put_args = seq![value, AstModel::Text(key)];
    let key_args = seq![AstModel::Text(key)];
    assert(text_argument(put_args, 1) == Some(key));
    assert(text_argument(key_args, 0) == Some(key));
    assert(evaluated(put_args[0], reply, session) == success(value_of_ast(value), session));
    let put = evaluated(call_of("put"@, put_args), reply, session);
    assert(put.session.records == session.records.insert(
        key,
        stored_of_value(value_of_ast(value)),
    ));
    let remove = evaluated(call_of("remove"@, key_args), reply, session);
    assert(remove.session.records == session.records.remove(key));
}

impl Interpreter {
    /// What `code` wants of the host before it is interpreted.
    pub fn ask(&self, code: &str) -> (r: HostRequest)
        ensures
            r@ == asked(self.signatures(), code@, self.session().records),
            r matches HostRequest::Save(snapshot) ==> ascending(
                crate::db::db::keys_of(snapshot.records@),
            ),
    {
        match parse(code) {
            Err(_) => HostRequest::Nothing,
            Ok(ast) => match self.env.typechecker.check(&InternalType::Any, &ast) {
                Err(_) => HostRequest::Nothing,
                Ok(_) => self.request(&ast),
            },
        }
    }

    /// Interprets `code`: parses it, checks it against `Any`, evaluates it
    /// with the reply of the host, and gives what its value is shown as.
    pub fn interpret(&mut self, code: &str, reply: &HostReply) -> (r: Result<String, Diagnostic>)
        ensures
            final(self).signatures() == old(self).signatures(),
            (Interpreted { result: interpretation_view(r), session: final(self).session() })
                == interpreted(old(self).signatures(), code@, reply@, old(self).session()),
    {
        let ast = match parse(code) {
            Err(e) => {
                return Err(Diagnostic::Parse(e));
            },
            Ok(ast) => ast,
        };
        match self.env.typechecker.check(&InternalType::Any, &ast) {
            Err(errors) => {
                return Err(Diagnostic::Type(errors));
            },
            Ok(_) => {},
        }
        match self.eval_ast(&ast, reply) {
            Ok(value) => Ok(value.stringify()),
            Err(e) => Err(Diagnostic::Evaluation(e)),
        }
    }
}

} // verus!
