//! The syntax tree.

use crate::decimal::{Decimal, DecimalModel};
use vstd::prelude::*;

verus! {

/// The mathematical value of an [`Ast`].
pub enum AstModel {
    Number(int),
    Float(DecimalModel),
    Boolean(bool),
    Text(Seq<char>),
    List(Seq<AstModel>),
    Identifier(Seq<char>),
    Call(Box<AstModel>, Seq<AstModel>),
    Unit,
}

/// An expression of the language.
#[derive(Debug, PartialEq, Eq)]
pub enum Ast {
    Number(isize),
    Float(Decimal),
    Boolean(bool),
    Text(String),
    List(Vec<Ast>),
    Identifier(String),
    /// A call: the callee, which is an identifier, and the arguments.
    Call(Box<Ast>, Vec<Ast>),
    Unit(()),
}

impl View for Ast {
    type V = AstModel;

    open spec fn view(&self) -> AstModel
        decreases self,
    {
        match self {
            Ast::Number(n) => AstModel::Number(*n as int),
            Ast::Float(d) => AstModel::Float(d@),
            Ast::Boolean(b) => AstModel::Boolean(*b),
            Ast::Text(t) => AstModel::Text(t@),
            Ast::List(items) => AstModel::List(
                Seq::new(
                    items.len() as nat,
                    |i: int|
                        if 0 <= i < items.len() {
                            items[i]@
                        } else {
                            AstModel::Unit
                        },
                ),
            ),
            Ast::Identifier(name) => AstModel::Identifier(name@),
            Ast::Call(callee, args) => AstModel::Call(
                Box::new((**callee)@),
                Seq::new(
                    args.len() as nat,
                    |i: int|
                        if 0 <= i < args.len() {
                            args[i]@
                        } else {
                            AstModel::Unit
                        },
                ),
            ),
            Ast::Unit(_) => AstModel::Unit,
        }
    }
}

/// The values of a sequence of expressions, one for one.
pub open spec fn asts_view(items: Seq<Ast>) -> Seq<AstModel> {
    Seq::new(items.len(), |i: int| items[i]@)
}

impl AstModel {
    /// The callee of every call in the tree is an identifier.
    pub open spec fn well_formed(self) -> bool
        decreases self,
    {
        match self {
            AstModel::List(items) => forall|i: int|
                0 <= i < items.len() ==> (#[trigger] items[i]).well_formed(),
            AstModel::Call(callee, args) => {
                &&& *callee is Identifier
                &&& forall|i: int| 0 <= i < args.len() ==> (#[trigger] args[i]).well_formed()
            },
            _ => true,
        }
    }
}

/// The value of a list, with its items taken by [`asts_view`].
pub proof fn lemma_list_view(items: Vec<Ast>)
    ensures
        Ast::List(items)@ == AstModel::List(asts_view(items@)),
{
    assert(Ast::List(items)@->List_0 =~= asts_view(items@));
}

/// The value of a call, with its arguments taken by [`asts_view`].
pub proof fn lemma_call_view(callee: Box<Ast>, args: Vec<Ast>)
    ensures
        Ast::Call(callee, args)@ == AstModel::Call(Box::new((*callee)@), asts_view(args@)),
{
    assert(Ast::Call(callee, args)@->Call_1 =~= asts_view(args@));
}

/// A copy of a list of expressions.
pub fn clone_asts(items: &Vec<Ast>) -> (r: Vec<Ast>)
    ensures
        asts_view(r@) == asts_view(items@),
    decreases items, 0nat,
{
    let mut out: Vec<Ast> = Vec::new();
    let mut i: usize = 0;
    while i < items.len()
        invariant
            i <= items.len(),
            out.len() == i,
            forall|j: int| 0 <= j < i ==> out[j]@ == items[j]@,
        decreases items.len() - i,
    {
        out.push(items[i].clone());
        i += 1;
    }
    assert(asts_view(out@) =~= asts_view(items@));
    out
}

impl Clone for Ast {
    fn clone(&self) -> (r: Self)
        ensures
            r@ == self@,
        decreases self, 1nat,
    {
        match self {
            Ast::Number(n) => Ast::Number(*n),
            Ast::Float(d) => Ast::Float(d.clone()),
            Ast::Boolean(b) => Ast::Boolean(*b),
            Ast::Text(t) => Ast::Text(t.clone()),
            Ast::List(items) => {
                let copied = clone_asts(items);
                proof {
                    lemma_list_view(*items);
                    lemma_list_view(copied);
                }
                Ast::List(copied)
            },
            Ast::Identifier(name) => Ast::Identifier(name.clone()),
            Ast::Call(callee, args) => {
                let callee2 = Box::new((**callee).clone());
                let args2 = clone_asts(args);
                proof {
                    lemma_call_view(*callee, *args);
                    lemma_call_view(callee2, args2);
                }
                Ast::Call(callee2, args2)
            },
            Ast::Unit(_) => Ast::Unit(()),
        }
    }
}

/// A list is well formed exactly when its items are.
pub proof fn lemma_list_well_formed(items: Seq<AstModel>)
    ensures
        AstModel::List(items).well_formed() == (forall|i: int|
            0 <= i < items.len() ==> (#[trigger] items[i]).well_formed()),
{
    let whole = AstModel::List(items);
    if whole.well_formed() {
        assert forall|i: int| 0 <= i < items.len() implies (#[trigger] items[i]).well_formed() by {
            assert(whole->List_0[i] == items[i]);
        }
    }
}

/// A call is well formed exactly when its callee is an identifier and its
/// arguments are well formed.
pub proof fn lemma_call_well_formed(callee: AstModel, args: Seq<AstModel>)
    ensures
        AstModel::Call(Box::new(callee), args).well_formed() == (callee is Identifier && forall|
            i: int,
        |
            0 <= i < args.len() ==> (#[trigger] args[i]).well_formed()),
{
    let whole = AstModel::Call(Box::new(callee), args);
    if whole.well_formed() {
        assert forall|i: int| 0 <= i < args.len() implies (#[trigger] args[i]).well_formed() by {
            assert(whole->Call_1[i] == args[i]);
        }
    }
}

/// Whether every expression of a list is well formed.
fn all_well_formed(items: &Vec<Ast>) -> (r: bool)
    ensures
        r == forall|i: int|
            0 <= i < items.len() ==> (#[trigger] asts_view(items@)[i]).well_formed(),
    decreases items, 0nat,
{
    let mut i: usize = 0;
    while i < items.len()
        invariant
            i <= items.len(),
            forall|j: int| 0 <= j < i ==> (#[trigger] asts_view(items@)[j]).well_formed(),
        decreases items.len() - i,
    {
        if !items[i].is_well_formed() {
            assert(!asts_view(items@)[i as int].well_formed());
            return false;
        }
        i += 1;
    }
    true
}

impl Ast {
    /// Whether the callee of every call in the tree is an identifier.
    pub fn is_well_formed(&self) -> (r: bool)
        ensures
            r == self@.well_formed(),
        decreases self, 1nat,
    {
        match self {
            Ast::List(items) => {
                proof {
                    lemma_list_view(*items);
                    lemma_list_well_formed(asts_view(items@));
                }
                all_well_formed(items)
            },
            Ast::Call(callee, args) => {
                proof {
                    lemma_call_view(*callee, *args);
                    lemma_call_well_formed((**callee)@, asts_view(args@));
                }
                match &**callee {
                    Ast::Identifier(_) => all_well_formed(args),
                    _ => false,
                }
            },
            _ => true,
        }
    }

    /// The call of `callee` with `args`; none where the callee is no
    /// identifier.
    pub fn call(callee: Ast, args: Vec<Ast>) -> (r: Option<Ast>)
        ensures
            match r {
                Some(ast) => callee@ is Identifier && ast@ == AstModel::Call(
                    Box::new(callee@),
                    asts_view(args@),
                ),
                None => !(callee@ is Identifier),
            },
    {
        match callee {
            Ast::Identifier(_) => {
                let boxed = Box::new(callee);
                proof {
                    lemma_call_view(boxed, args);
                }
                Some(Ast::Call(boxed, args))
            },
            _ => None,
        }
    }
}

} // verus!
