//! Synthesis of types from the leaves up, and the check against what is
//! expected.

use super::env::{param_types_in, return_type_in, Environment, Signatures};
use super::errors::{errors_view, TypeCheckerError, TypeErrorModel};
use super::types::{
    all_compatible, any_absorbs, compatible, lemma_application_view, types_absorb, types_view,
    InternalType, TypeModel,
};
use crate::parser::ast::{asts_view, lemma_call_view, Ast, AstModel};
use vstd::prelude::*;

verus! {

/// The type of an expression. A literal has the type of its kind. An
/// identifier is a call without arguments, and fails where no function of
/// its name is defined. A call of an undefined function fails with that one
/// error. A call of a defined function has the type of an application of its
/// name to the types of its arguments, and fails with the errors of all its
/// failing arguments, in their order, where any of them fails. Of a tree that
/// is not well formed nothing is said but that it has no type.
pub open spec fn synthesized(table: Signatures, ast: AstModel) -> Result<
    TypeModel,
    Seq<TypeErrorModel>,
>
    decreases ast, 0nat,
{
    match ast {
        AstModel::Call(callee, args) => match *callee {
            AstModel::Identifier(name) => match return_type_in(table, name) {
                Some(ret) => {
                    let errors = argument_errors(table, args, args.len());
                    if errors.len() == 0 {
                        Ok(
                            TypeModel::Application(
                                name,
                                argument_types(table, args, args.len()),
                                Box::new(ret),
                            ),
                        )
                    } else {
                        Err(errors)
                    }
                },
                None => Err(seq![TypeErrorModel::FunctionNotFound(name)]),
            },
            _ => Err(Seq::empty()),
        },
        AstModel::Text(_) => Ok(TypeModel::Text),
        AstModel::List(_) => Ok(TypeModel::List),
        AstModel::Float(_) => Ok(TypeModel::Float),
        AstModel::Number(_) => Ok(TypeModel::Number),
        AstModel::Boolean(_) => Ok(TypeModel::Boolean),
        AstModel::Unit => Ok(TypeModel::Unit),
        AstModel::Identifier(name) => match return_type_in(table, name) {
            Some(ret) => Ok(TypeModel::Application(name, Seq::empty(), Box::new(ret))),
            None => Err(seq![TypeErrorModel::FunctionNotFound(name)]),
        },
    }
}

/// The types of those of the first `n` arguments whose synthesis succeeds, in
/// their order.
pub open spec fn argument_types(table: Signatures, args: Seq<AstModel>, n: nat) -> Seq<TypeModel>
    decreases args, n,
{
    if n == 0 || n > args.len() {
        Seq::empty()
    } else {
        match synthesized(table, args[n - 1]) {
            Ok(t) => argument_types(table, args, (n - 1) as nat).push(t),
            Err(_) => argument_types(table, args, (n - 1) as nat),
        }
    }
}

/// The errors of those of the first `n` arguments whose synthesis fails, in
/// their order.
pub open spec fn argument_errors(table: Signatures, args: Seq<AstModel>, n: nat) -> Seq<
    TypeErrorModel,
>
    decreases args, n,
{
    if n == 0 || n > args.len() {
        Seq::empty()
    } else {
        match synthesized(table, args[n - 1]) {
            Ok(_) => argument_errors(table, args, (n - 1) as nat),
            Err(errors) => argument_errors(table, args, (n - 1) as nat) + errors,
        }
    }
}

/// The outcome of checking an expression against an expected type. The
/// errors of synthesis are handed on. An application is held against the
/// parameter types of its function, whatever is expected; any other type is
/// held against the expected type. Both comparisons use the absorbing
/// equality.
pub open spec fn checked(table: Signatures, expected: TypeModel, ast: AstModel) -> Result<
    (),
    Seq<TypeErrorModel>,
> {
    match synthesized(table, ast) {
        Ok(TypeModel::Application(name, arg_types, _)) => {
            let params = param_types_in(table, name);
            if all_compatible(params, arg_types) {
                Ok(())
            } else {
                Err(seq![TypeErrorModel::InvalidTypesFound { expected: params, found: arg_types }])
            }
        },
        Ok(found) => {
            if compatible(found, expected) {
                Ok(())
            } else {
                Err(seq![TypeErrorModel::InvalidTypeFound { expected, found }])
            }
        },
        Err(errors) => Err(errors),
    }
}

/// The value of the outcome of a synthesis.
pub open spec fn synthesis_view(r: Result<InternalType, Vec<TypeCheckerError>>) -> Result<
    TypeModel,
    Seq<TypeErrorModel>,
> {
    match r {
        Ok(t) => Ok(t@),
        Err(errors) => Err(errors_view(errors@)),
    }
}

/// The value of the outcome of a check.
pub open spec fn check_view(r: Result<(), Vec<TypeCheckerError>>) -> Result<
    (),
    Seq<TypeErrorModel>,
> {
    match r {
        Ok(_) => Ok(()),
        Err(errors) => Err(errors_view(errors@)),
    }
}

/// Checking against `Any` accepts every expression whose synthesis
/// succeeds, but for a call or an identifier whose argument types do not fit
/// the parameter types of its function.
pub proof fn check_any_accepts(table: Signatures, ast: AstModel)
    requires
        synthesized(table, ast) is Ok,
        synthesized(table, ast)->Ok_0 matches TypeModel::Application(name, arg_types, _)
            ==> all_compatible(param_types_in(table, name), arg_types),
    ensures
        checked(table, TypeModel::Any, ast) is Ok,
{
    any_absorbs(synthesized(table, ast)->Ok_0);
}

/// Checking a call or an identifier does not depend on the expected type: it
/// succeeds exactly when the argument types fit the parameter types.
pub proof fn check_of_application(table: Signatures, expected: TypeModel, ast: AstModel)
    requires
        synthesized(table, ast) is Ok,
        synthesized(table, ast)->Ok_0 is Application,
    ensures
        checked(table, expected, ast) == checked(table, TypeModel::Any, ast),
        checked(table, expected, ast) is Ok <==> all_compatible(
            param_types_in(table, synthesized(table, ast)->Ok_0->Application_0),
            synthesized(table, ast)->Ok_0->Application_1,
        ),
{
}

/// A checker over an environment of functions.
pub struct Typechecker {
    pub env: Environment,
}

impl Typechecker {
    /// A checker over `env`.
    pub fn new(env: Environment) -> (r: Typechecker)
        ensures
            r.env == env,
    {
        Typechecker { env }
    }

    /// The type of an expression that is no call.
    fn single_result_synthesize(&self, ast: &Ast) -> (r: Result<InternalType, TypeCheckerError>)
        requires
            !(ast@ is Call),
        ensures
            match r {
                Ok(t) => synthesized(self.env@, ast@) == Ok::<TypeModel, Seq<TypeErrorModel>>(t@),
                Err(e) => synthesized(self.env@, ast@) == Err::<TypeModel, Seq<TypeErrorModel>>(
                    seq![e@],
                ),
            },
    {
        match ast {
            Ast::Text(_) => Ok(InternalType::Text),
            Ast::List(_) => Ok(InternalType::List),
            Ast::Float(_) => Ok(InternalType::Float),
            Ast::Number(_) => Ok(InternalType::Number),
            Ast::Boolean(_) => Ok(InternalType::Boolean),
            Ast::Unit(_) => Ok(InternalType::Unit),
            Ast::Identifier(name) => match self.env.return_type_of(name.as_str()) {
                Some(ret) => {
                    let owned = name.clone();
                    let args: Vec<InternalType> = Vec::new();
                    let boxed = Box::new(ret.clone());
                    proof {
                        lemma_application_view(owned, args, boxed);
                        assert(types_view(args@) =~= Seq::<TypeModel>::empty());
                    }
                    Ok(InternalType::Application(owned, args, boxed))
                },
                None => Err(TypeCheckerError::FunctionNotFound(name.clone())),
            },
            // No call comes here.
            Ast::Call(_, _) => Err(TypeCheckerError::FunctionNotFound(String::new())),
        }
    }

    /// The type of an expression, synthesized from its leaves up.
    #[verifier::loop_isolation(false)]
    pub fn synthesize(&self, ast: &Ast) -> (r: Result<InternalType, Vec<TypeCheckerError>>)
        requires
            ast@.well_formed(),
        ensures
            synthesis_view(r) == synthesized(self.env@, ast@),
        decreases ast,
    {
        match ast {
            Ast::Call(callee, args) => {
                proof {
                    lemma_call_view(*callee, *args);
                }
                match &**callee {
                    Ast::Identifier(name) => match self.env.return_type_of(name.as_str()) {
                        Some(ret) => {
                            let ghost models = asts_view(args@);
                            let mut types: Vec<InternalType> = Vec::new();
                            let mut errors: Vec<TypeCheckerError> = Vec::new();
                            let mut i: usize = 0;
                            while i < args.len()
                                invariant
                                    i <= args.len(),
                                    models == asts_view(args@),
                                    types_view(types@) == argument_types(
                                        self.env@,
                                        models,
                                        i as nat,
                                    ),
                                    errors_view(errors@) == argument_errors(
                                        self.env@,
                                        models,
                                        i as nat,
                                    ),
                                decreases args.len() - i,
                            {
                                let ghost old_types = types@;
                                let ghost old_errors = errors@;
                                assert(models[i as int] == args[i as int]@);
                                match self.synthesize(&args[i]) {
                                    Ok(t) => {
                                        types.push(t);
                                        assert(types_view(types@) =~= types_view(old_types).push(
                                            t@,
                                        ));
                                    },
                                    Err(mut more) => {
                                        let ghost added = more@;
                                        errors.append(&mut more);
                                        assert(errors_view(errors@) =~= errors_view(old_errors)
                                            + errors_view(added));
                                    },
                                }
                                i += 1;
                            }
                            if errors.len() == 0 {
                                let owned = name.clone();
                                let boxed = Box::new(ret.clone());
                                proof {
                                    lemma_application_view(owned, types, boxed);
                                }
                                Ok(InternalType::Application(owned, types, boxed))
                            } else {
                                Err(errors)
                            }
                        },
                        None => {
                            let errors = vec![TypeCheckerError::FunctionNotFound(name.clone())];
                            assert(errors_view(errors@) =~= seq![
                                TypeErrorModel::FunctionNotFound(name@),
                            ]);
                            Err(errors)
                        },
                    },
                    _ => Err(Vec::new()),
                }
            },
            single => match self.single_result_synthesize(single) {
                Ok(t) => Ok(t),
                Err(e) => {
                    let errors = vec![e];
                    assert(errors_view(errors@) =~= seq![e@]);
                    Err(errors)
                },
            },
        }
    }

    /// Checks an expression against the type that is expected of it.
    pub fn check(&self, expected: &InternalType, ast: &Ast) -> (r: Result<
        (),
        Vec<TypeCheckerError>,
    >)
        requires
            ast@.well_formed(),
        ensures
            check_view(r) == checked(self.env@, expected@, ast@),
    {
        match self.synthesize(ast) {
            Ok(InternalType::Application(name, arg_types, ret)) => {
                proof {
                    lemma_application_view(name, arg_types, ret);
                }
                let params = self.env.param_types_of(name.as_str());
                if types_absorb(&params, &arg_types) {
                    Ok(())
                } else {
                    let error = TypeCheckerError::InvalidTypesFound {
                        expected: params,
                        found: arg_types,
                    };
                    let errors = vec![error];
                    assert(errors_view(errors@) =~= seq![error@]);
                    Err(errors)
                }
            },
            Ok(found) => {
                if found.absorbs(expected) {
                    Ok(())
                } else {
                    let error = TypeCheckerError::InvalidTypeFound {
                        expected: expected.clone(),
                        found,
                    };
                    let errors = vec![error];
                    assert(errors_view(errors@) =~= seq![error@]);
                    Err(errors)
                }
            },
            Err(errors) => Err(errors),
        }
    }
}

impl Default for Typechecker {
    fn default() -> (r: Self)
        ensures
            r.env@ == super::env::builtin_signatures(),
    {
        Typechecker { env: Environment::builtin() }
    }
}

} // verus!
