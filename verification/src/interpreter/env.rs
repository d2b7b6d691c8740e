//! The functions that an interpreter knows.

use crate::parser::ast::Ast;
use crate::typechecker::bidirectional_typechecker::Typechecker;
use crate::typechecker::env::{builtin_signatures, Signatures};
use crate::typechecker::types::{types_view, InternalType};
use vstd::prelude::*;

verus! {

/// The mathematical value of an [`EnvironmentError`].
pub enum EnvironmentErrorModel {
    FunctionAlreadyDefined(Seq<char>),
}

/// Why a definition was refused.
#[derive(Debug)]
pub enum EnvironmentError {
    /// A function of this name is defined already.
    FunctionAlreadyDefined(String),
}

impl View for EnvironmentError {
    type V = EnvironmentErrorModel;

    open spec fn view(&self) -> EnvironmentErrorModel {
        match self {
            EnvironmentError::FunctionAlreadyDefined(name) => {
                EnvironmentErrorModel::FunctionAlreadyDefined(name@)
            },
        }
    }
}

/// The names of a list of definitions.
pub open spec fn defined_names(definitions: Seq<(String, Ast)>) -> Set<Seq<char>> {
    Set::new(
        |name: Seq<char>|
            exists|i: int| 0 <= i < definitions.len() && (#[trigger] definitions[i]).0@ == name,
    )
}

/// The functions that an interpreter knows: the signatures that its checker
/// holds, and the bodies of the functions that were defined.
pub struct Environment {
    pub typechecker: Typechecker,
    pub defined_functions: Vec<(String, Ast)>,
}

impl Environment {
    /// The signatures that the checker holds.
    pub open spec fn signatures(&self) -> Signatures {
        self.typechecker.env@
    }

    /// The environment of the builtin functions, with no function defined.
    pub fn builtin() -> (r: Environment)
        ensures
            r.signatures() == builtin_signatures(),
            r.defined_functions@.len() == 0,
    {
        Environment { typechecker: Typechecker::default(), defined_functions: Vec::new() }
    }

    /// Whether `name` is one of the builtin functions.
    pub fn is_builtin(&self, name: &str) -> (r: bool)
        ensures
            r == builtin_signatures().contains_key(name@),
    {
        self.typechecker.env.is_builtin(name)
    }

    /// Whether a body is held for `name`.
    fn has_body(&self, name: &str) -> (r: bool)
        ensures
            r == defined_names(self.defined_functions@).contains(name@),
    {
        let wanted = name.to_owned();
        let mut i: usize = 0;
        while i < self.defined_functions.len()
            invariant
                i <= self.defined_functions.len(),
                wanted@ == name@,
                forall|j: int| 0 <= j < i ==> (#[trigger] self.defined_functions[j]).0@ != name@,
            decreases self.defined_functions.len() - i,
        {
            if self.defined_functions[i].0 == wanted {
                return true;
            }
            i += 1;
        }
        false
    }

    /// Whether `name` was defined: a body is held for it, and the checker
    /// holds its signature.
    pub fn is_defined(&self, name: &str) -> (r: bool)
        ensures
            r == (defined_names(self.defined_functions@).contains(name@)
                && self.signatures().contains_key(name@)),
    {
        self.has_body(name) && self.typechecker.env.is_defined(name)
    }

    /// Defines a function by its body and its signature. A name of which the
    /// checker holds a signature already, a builtin among them, is refused,
    /// and the environment stays as it was.
    pub fn define_function(&mut self, name: String, expr: Ast, types: Vec<InternalType>) -> (r:
        Result<(), EnvironmentError>)
        requires
            types.len() > 0,
        ensures
            old(self).signatures().contains_key(name@) ==> {
                &&& r is Err
                &&& r->Err_0@ == EnvironmentErrorModel::FunctionAlreadyDefined(name@)
                &&& final(self).signatures() == old(self).signatures()
                &&& final(self).defined_functions@ == old(self).defined_functions@
            },
            !old(self).signatures().contains_key(name@) ==> {
                &&& r is Ok
                &&& final(self).signatures() == old(self).signatures().insert(
                    name@,
                    types_view(types@),
                )
                &&& final(self).defined_functions@ == old(self).defined_functions@.push(
                    (name, expr),
                )
            },
    {
        match self.typechecker.env.define(name.clone(), types) {
            Ok(_) => {
                self.defined_functions.push((name, expr));
                Ok(())
            },
            Err(e) => Err(e),
        }
    }
}

impl Default for Environment {
    fn default() -> (r: Self)
        ensures
            r.signatures() == builtin_signatures(),
            r.defined_functions@.len() == 0,
    {
        Environment::builtin()
    }
}

} // verus!
