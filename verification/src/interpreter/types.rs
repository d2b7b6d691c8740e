//! The values that evaluation gives.

use crate::db::db::{lemma_stored_list_view, values_view, DBTypes, ValueModel};
use crate::decimal::{Decimal, DecimalModel};
use crate::parser::ast::{asts_view, lemma_call_view, lemma_list_view, Ast, AstModel};
use crate::text::{
    boolean_text, boolean_to_text, integer_text, integer_to_text, list_to_text, listed,
    strings_view,
};
use vstd::prelude::*;
use vstd::string::StringExecFns;

verus! {

/// The mathematical value of an [`InterpreterValue`].
pub enum RuntimeModel {
    Number(int),
    Float(DecimalModel),
    Boolean(bool),
    Text(Seq<char>),
    List(Seq<RuntimeModel>),
    Identifier(Seq<char>),
    Call(Box<RuntimeModel>, Seq<RuntimeModel>),
    Unit,
}

/// A value of the language. `Identifier` and `Call` stand for expressions
/// that were not evaluated: they are shown, and cannot be stored.
#[derive(Debug, PartialEq, Eq)]
pub enum InterpreterValue {
    Number(isize),
    Float(Decimal),
    Boolean(bool),
    Text(String),
    List(Vec<InterpreterValue>),
    Identifier(String),
    Call(Box<InterpreterValue>, Vec<InterpreterValue>),
    Unit(()),
}

impl View for InterpreterValue {
    type V = RuntimeModel;

    open spec fn view(&self) -> RuntimeModel
        decreases self,
    {
        match self {
            InterpreterValue::Number(n) => RuntimeModel::Number(*n as int),
            InterpreterValue::Float(d) => RuntimeModel::Float(d@),
            InterpreterValue::Boolean(b) => RuntimeModel::Boolean(*b),
            InterpreterValue::Text(t) => RuntimeModel::Text(t@),
            InterpreterValue::List(items) => RuntimeModel::List(
                Seq::new(
                    items.len() as nat,
                    |i: int|
                        if 0 <= i < items.len() {
                            items[i]@
                        } else {
                            RuntimeModel::Unit
                        },
                ),
            ),
            InterpreterValue::Identifier(name) => RuntimeModel::Identifier(name@),
            InterpreterValue::Call(callee, args) => RuntimeModel::Call(
                Box::new((**callee)@),
                Seq::new(
                    args.len() as nat,
                    |i: int|
                        if 0 <= i < args.len() {
                            args[i]@
                        } else {
                            RuntimeModel::Unit
                        },
                ),
            ),
            InterpreterValue::Unit(_) => RuntimeModel::Unit,
        }
    }
}

/// The values of a sequence of values, one for one.
pub open spec fn runtime_view(items: Seq<InterpreterValue>) -> Seq<RuntimeModel> {
    Seq::new(items.len(), |i: int| items[i]@)
}

/// The value of a list, with its items taken by [`runtime_view`].
pub proof fn lemma_runtime_list_view(items: Vec<InterpreterValue>)
    ensures
        InterpreterValue::List(items)@ == RuntimeModel::List(runtime_view(items@)),
{
    assert(InterpreterValue::List(items)@->List_0 =~= runtime_view(items@));
}

/// The value of a call, with its arguments taken by [`runtime_view`].
pub proof fn lemma_runtime_call_view(callee: Box<InterpreterValue>, args: Vec<InterpreterValue>)
    ensures
        InterpreterValue::Call(callee, args)@ == RuntimeModel::Call(
            Box::new((*callee)@),
            runtime_view(args@),
        ),
{
    assert(InterpreterValue::Call(callee, args)@->Call_1 =~= runtime_view(args@));
}

/// The value that an expression stands for where it is not evaluated: the
/// same tree.
pub open spec fn value_of_ast(ast: AstModel) -> RuntimeModel
    decreases ast,
{
    match ast {
        AstModel::Number(n) => RuntimeModel::Number(n),
        AstModel::Float(d) => RuntimeModel::Float(d),
        AstModel::Boolean(b) => RuntimeModel::Boolean(b),
        AstModel::Text(t) => RuntimeModel::Text(t),
        AstModel::List(items) => RuntimeModel::List(values_of_asts(items)),
        AstModel::Identifier(name) => RuntimeModel::Identifier(name),
        AstModel::Call(callee, args) => RuntimeModel::Call(
            Box::new(value_of_ast(*callee)),
            values_of_asts(args),
        ),
        AstModel::Unit => RuntimeModel::Unit,
    }
}

/// The values of a sequence of expressions, one for one.
pub open spec fn values_of_asts(items: Seq<AstModel>) -> Seq<RuntimeModel>
    decreases items,
{
    Seq::new(
        items.len(),
        |i: int|
            if 0 <= i < items.len() {
                value_of_ast(items[i])
            } else {
                RuntimeModel::Unit
            },
    )
}

/// The value that a stored value stands for: the same tree.
pub open spec fn value_of_stored(value: ValueModel) -> RuntimeModel
    decreases value,
{
    match value {
        ValueModel::Number(n) => RuntimeModel::Number(n),
        ValueModel::Float(d) => RuntimeModel::Float(d),
        ValueModel::Boolean(b) => RuntimeModel::Boolean(b),
        ValueModel::Text(t) => RuntimeModel::Text(t),
        ValueModel::List(items) => RuntimeModel::List(values_of_stored(items)),
        ValueModel::Unit => RuntimeModel::Unit,
    }
}

/// The values of a sequence of stored values, one for one.
pub open spec fn values_of_stored(items: Seq<ValueModel>) -> Seq<RuntimeModel>
    decreases items,
{
    Seq::new(
        items.len(),
        |i: int|
            if 0 <= i < items.len() {
                value_of_stored(items[i])
            } else {
                RuntimeModel::Unit
            },
    )
}

/// The value of what a key held: the unit where it held nothing.
pub open spec fn value_of_lookup(held: Option<ValueModel>) -> RuntimeModel {
    match held {
        Some(value) => value_of_stored(value),
        None => RuntimeModel::Unit,
    }
}

/// Whether a value can be stored: it holds no identifier and no call.
pub open spec fn storable(value: RuntimeModel) -> bool
    decreases value,
{
    match value {
        RuntimeModel::Identifier(_) => false,
        RuntimeModel::Call(_, _) => false,
        RuntimeModel::List(items) => forall|i: int|
            0 <= i < items.len() ==> storable(#[trigger] items[i]),
        _ => true,
    }
}

/// The stored value that a storable value stands for: the same tree.
pub open spec fn stored_of_value(value: RuntimeModel) -> ValueModel
    decreases value,
{
    match value {
        RuntimeModel::Number(n) => ValueModel::Number(n),
        RuntimeModel::Float(d) => ValueModel::Float(d),
        RuntimeModel::Boolean(b) => ValueModel::Boolean(b),
        RuntimeModel::Text(t) => ValueModel::Text(t),
        RuntimeModel::List(items) => ValueModel::List(
            Seq::new(
                items.len(),
                |i: int|
                    if 0 <= i < items.len() {
                        stored_of_value(items[i])
                    } else {
                        ValueModel::Unit
                    },
            ),
        ),
        _ => ValueModel::Unit,
    }
}

/// How a value is shown. A text and an identifier are shown as they are, a
/// number in decimal digits, a truth value in words and the unit as `()`. A
/// list is shown as the list of what its items are shown as, and a call as
/// its callee and the list of its arguments between parentheses.
pub open spec fn rendered(value: RuntimeModel) -> Seq<char>
    decreases value,
{
    match value {
        RuntimeModel::Text(t) => t,
        RuntimeModel::Boolean(b) => boolean_text(b),
        RuntimeModel::List(items) => listed(rendered_all(items)),
        RuntimeModel::Number(n) => integer_text(n),
        RuntimeModel::Float(d) => d.text(),
        RuntimeModel::Unit => "()"@,
        RuntimeModel::Identifier(name) => name,
        RuntimeModel::Call(callee, args) => "("@ + rendered(*callee) + " "@ + listed(
            rendered_all(args),
        ) + ")"@,
    }
}

/// What the values of a sequence are shown as, one for one.
pub open spec fn rendered_all(items: Seq<RuntimeModel>) -> Seq<Seq<char>>
    decreases items,
{
    Seq::new(
        items.len(),
        |i: int|
            if 0 <= i < items.len() {
                rendered(items[i])
            } else {
                Seq::empty()
            },
    )
}

/// A value that is stored and read again is the value that it was.
pub proof fn stored_value_comes_back(value: RuntimeModel)
    requires
        storable(value),
    ensures
        value_of_stored(stored_of_value(value)) == value,
    decreases value,
{
    match value {
        RuntimeModel::List(items) => {
            let stored = stored_of_value(value)->List_0;
            assert forall|i: int| 0 <= i < items.len() implies values_of_stored(stored)[i]
                == items[i] by {
                stored_value_comes_back(items[i]);
            }
            assert(values_of_stored(stored) =~= items);
        },
        _ => {},
    }
}

/// A stored value can be stored again, and is stored as itself.
pub proof fn stored_value_storable(value: ValueModel)
    ensures
        storable(value_of_stored(value)),
        stored_of_value(value_of_stored(value)) == value,
    decreases value,
{
    match value {
        ValueModel::List(items) => {
            let shown = values_of_stored(items);
            assert forall|i: int| 0 <= i < shown.len() implies storable(#[trigger] shown[i]) by {
                stored_value_storable(items[i]);
            }
            assert forall|i: int| 0 <= i < items.len() implies stored_of_value(
                value_of_stored(value),
            )->List_0[i] == items[i] by {
                stored_value_storable(items[i]);
            }
            assert(stored_of_value(value_of_stored(value))->List_0 =~= items);
        },
        _ => {},
    }
}

/// The values that a list of expressions stands for.
fn values_from_asts(items: &Vec<Ast>) -> (r: Vec<InterpreterValue>)
    ensures
        runtime_view(r@) == values_of_asts(asts_view(items@)),
    decreases items, 0nat,
{
    let mut out: Vec<InterpreterValue> = Vec::new();
    let mut i: usize = 0;
    while i < items.len()
        invariant
            i <= items.len(),
            out.len() == i,
            forall|j: int| 0 <= j < i ==> out[j]@ == value_of_ast(items[j]@),
        decreases items.len() - i,
    {
        out.push(InterpreterValue::from_ast(&items[i]));
        i += 1;
    }
    assert(runtime_view(out@) =~= values_of_asts(asts_view(items@)));
    out
}

/// The values that a list of stored values stands for.
fn values_from_stored(items: &Vec<DBTypes>) -> (r: Vec<InterpreterValue>)
    ensures
        runtime_view(r@) == values_of_stored(values_view(items@)),
    decreases items, 0nat,
{
    let mut out: Vec<InterpreterValue> = Vec::new();
    let mut i: usize = 0;
    while i < items.len()
        invariant
            i <= items.len(),
            out.len() == i,
            forall|j: int| 0 <= j < i ==> out[j]@ == value_of_stored(items[j]@),
        decreases items.len() - i,
    {
        out.push(InterpreterValue::from_stored(&items[i]));
        i += 1;
    }
    assert(runtime_view(out@) =~= values_of_stored(values_view(items@)));
    out
}

/// The stored values that a list of values stands for, where all of them can
/// be stored.
fn values_to_stored(items: &Vec<InterpreterValue>) -> (r: Option<Vec<DBTypes>>)
    ensures
        match r {
            Some(stored) => stored.len() == items.len() && forall|j: int|
                0 <= j < items.len() ==> storable(#[trigger] items[j]@) && stored[j]@
                    == stored_of_value(items[j]@),
            None => exists|j: int| 0 <= j < items.len() && !storable(#[trigger] items[j]@),
        },
    decreases items, 0nat,
{
    let mut out: Vec<DBTypes> = Vec::new();
    let mut i: usize = 0;
    while i < items.len()
        invariant
            i <= items.len(),
            out.len() == i,
            forall|j: int|
                0 <= j < i ==> storable(#[trigger] items[j]@) && out[j]@ == stored_of_value(
                    items[j]@,
                ),
        decreases items.len() - i,
    {
        match items[i].to_stored() {
            Some(value) => {
                out.push(value);
            },
            None => {
                assert(!storable(items[i as int]@));
                return None;
            },
        }
        i += 1;
    }
    Some(out)
}

/// What the values of a list are shown as.
fn render_all(items: &Vec<InterpreterValue>) -> (r: Vec<String>)
    ensures
        strings_view(r@) == rendered_all(runtime_view(items@)),
    decreases items, 0nat,
{
    let mut out: Vec<String> = Vec::new();
    let mut i: usize = 0;
    while i < items.len()
        invariant
            i <= items.len(),
            out.len() == i,
            forall|j: int| 0 <= j < i ==> out[j]@ == rendered(items[j]@),
        decreases items.len() - i,
    {
        out.push(items[i].stringify());
        i += 1;
    }
    assert(strings_view(out@) =~= rendered_all(runtime_view(items@)));
    out
}

impl InterpreterValue {
    /// The value that an expression stands for where it is not evaluated.
    pub fn from_ast(ast: &Ast) -> (r: InterpreterValue)
        ensures
            r@ == value_of_ast(ast@),
        decreases ast, 1nat,
    {
        match ast {
            Ast::Text(t) => InterpreterValue::Text(t.clone()),
            Ast::List(items) => {
                let values = values_from_asts(items);
                proof {
                    lemma_list_view(*items);
                    lemma_runtime_list_view(values);
                }
                InterpreterValue::List(values)
            },
            Ast::Call(callee, args) => {
                let callee_value = Box::new(InterpreterValue::from_ast(&**callee));
                let values = values_from_asts(args);
                proof {
                    lemma_call_view(*callee, *args);
                    lemma_runtime_call_view(callee_value, values);
                }
                InterpreterValue::Call(callee_value, values)
            },
            Ast::Float(d) => InterpreterValue::Float(d.clone()),
            Ast::Number(n) => InterpreterValue::Number(*n),
            Ast::Identifier(name) => InterpreterValue::Identifier(name.clone()),
            Ast::Boolean(b) => InterpreterValue::Boolean(*b),
            Ast::Unit(_) => InterpreterValue::Unit(()),
        }
    }

    /// The value that a stored value stands for.
    pub fn from_stored(value: &DBTypes) -> (r: InterpreterValue)
        ensures
            r@ == value_of_stored(value@),
        decreases value, 1nat,
    {
        match value {
            DBTypes::Text(t) => InterpreterValue::Text(t.clone()),
            DBTypes::Number(n) => InterpreterValue::Number(*n),
            DBTypes::Float(d) => InterpreterValue::Float(d.clone()),
            DBTypes::Boolean(b) => InterpreterValue::Boolean(*b),
            DBTypes::Unit(_) => InterpreterValue::Unit(()),
            DBTypes::List(items) => {
                let values = values_from_stored(items);
                proof {
                    lemma_stored_list_view(*items);
                    lemma_runtime_list_view(values);
                }
                InterpreterValue::List(values)
            },
        }
    }

    /// The value of what a key held: the unit where it held nothing.
    pub fn from_lookup(held: &Option<DBTypes>) -> (r: InterpreterValue)
        ensures
            r@ == value_of_lookup(crate::db::db::option_value_view(*held)),
    {
        match held {
            Some(value) => InterpreterValue::from_stored(value),
            None => InterpreterValue::Unit(()),
        }
    }

    /// The stored value that this value stands for, where it can be stored.
    pub fn to_stored(&self) -> (r: Option<DBTypes>)
        ensures
            match r {
                Some(stored) => storable(self@) && stored@ == stored_of_value(self@),
                None => !storable(self@),
            },
        decreases self, 1nat,
    {
        match self {
            InterpreterValue::Text(t) => Some(DBTypes::Text(t.clone())),
            InterpreterValue::Number(n) => Some(DBTypes::Number(*n)),
            InterpreterValue::Float(d) => Some(DBTypes::Float(d.clone())),
            InterpreterValue::Boolean(b) => Some(DBTypes::Boolean(*b)),
            InterpreterValue::Unit(_) => Some(DBTypes::Unit(())),
            InterpreterValue::List(items) => {
                proof {
                    lemma_runtime_list_view(*items);
                }
                match values_to_stored(items) {
                    Some(stored) => {
                        proof {
                            lemma_stored_list_view(stored);
                            assert(values_view(stored@) =~= stored_of_value(self@)->List_0);
                        }
                        Some(DBTypes::List(stored))
                    },
                    None => {
                        proof {
                            let j = choose|j: int|
                                0 <= j < items.len() && !storable(#[trigger] items[j]@);
                            assert(runtime_view(items@)[j] == items[j]@);
                        }
                        None
                    },
                }
            },
            InterpreterValue::Identifier(_) => None,
            InterpreterValue::Call(_, _) => None,
        }
    }

    /// How the value is shown.
    pub fn stringify(&self) -> (r: String)
        ensures
            r@ == rendered(self@),
        decreases self, 1nat,
    {
        match self {
            InterpreterValue::Text(t) => t.clone(),
            InterpreterValue::Boolean(b) => boolean_to_text(*b),
            InterpreterValue::List(items) => {
                proof {
                    lemma_runtime_list_view(*items);
                }
                let shown = render_all(items);
                list_to_text(&shown)
            },
            InterpreterValue::Number(n) => integer_to_text(*n),
            InterpreterValue::Float(d) => d.to_text(),
            InterpreterValue::Unit(_) => "()".to_owned(),
            InterpreterValue::Identifier(name) => name.clone(),
            InterpreterValue::Call(callee, args) => {
                proof {
                    lemma_runtime_call_view(*callee, *args);
                }
                let mut text = "(".to_owned();
                let head = callee.stringify();
                text.append(head.as_str());
                text.append(" ");
                let shown = render_all(args);
                let tail = list_to_text(&shown);
                text.append(tail.as_str());
                text.append(")");
                text
            },
        }
    }
}

impl Clone for InterpreterValue {
    fn clone(&self) -> (r: Self)
        ensures
            r@ == self@,
        decreases self, 1nat,
    {
        match self {
            InterpreterValue::Number(n) => InterpreterValue::Number(*n),
            InterpreterValue::Float(d) => InterpreterValue::Float(d.clone()),
            InterpreterValue::Boolean(b) => InterpreterValue::Boolean(*b),
            InterpreterValue::Text(t) => InterpreterValue::Text(t.clone()),
            InterpreterValue::List(items) => {
                let copied = clone_runtime(items);
                proof {
                    lemma_runtime_list_view(*items);
                    lemma_runtime_list_view(copied);
                }
                InterpreterValue::List(copied)
            },
            InterpreterValue::Identifier(name) => InterpreterValue::Identifier(name.clone()),
            InterpreterValue::Call(callee, args) => {
                let callee2 = Box::new((**callee).clone());
                let args2 = clone_runtime(args);
                proof {
                    lemma_runtime_call_view(*callee, *args);
                    lemma_runtime_call_view(callee2, args2);
                }
                InterpreterValue::Call(callee2, args2)
            },
            InterpreterValue::Unit(_) => InterpreterValue::Unit(()),
        }
    }
}

/// A copy of a list of values.
fn clone_runtime(items: &Vec<InterpreterValue>) -> (r: Vec<InterpreterValue>)
    ensures
        runtime_view(r@) == runtime_view(items@),
    decreases items, 0nat,
{
    let mut out: Vec<InterpreterValue> = Vec::new();
    let mut i: usize = 0;
    while i < items.len()
        invariant
            i <= items.len(),
            out.len() == i,
            forall|j: int| 0 <= j < i ==> out[j]@ == items[j]@,
        decreases items.len() - i,
    {
        out.push(items[i].clone());
        i += 1;
    }
    assert(runtime_view(out@) =~= runtime_view(items@));
    out
}

} // verus!
