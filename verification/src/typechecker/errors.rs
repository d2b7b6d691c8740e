//! What the checker reports.

use super::types::{clone_types, types_view, InternalType, TypeModel};
use vstd::prelude::*;

verus! {

/// The mathematical value of a checker error, in its long or its short form.
#[allow(inconsistent_fields)]
pub enum TypeErrorModel {
    FunctionNotFound(Seq<char>),
    InvalidTypeFound { expected: TypeModel, found: TypeModel },
    InvalidTypesFound { expected: Seq<TypeModel>, found: Seq<TypeModel> },
}

/// An error of the checker, worded in full when shown.
#[derive(Debug)]
#[allow(inconsistent_fields)]
pub enum TypeCheckerError {
    /// No function of this name is defined.
    FunctionNotFound(String),
    /// An expression has another type than the one asked for.
    InvalidTypeFound { expected: InternalType, found: InternalType },
    /// The arguments of a call have other types than its parameters.
    InvalidTypesFound { expected: Vec<InternalType>, found: Vec<InternalType> },
}

/// An error of the checker, worded briefly when shown.
#[derive(Debug)]
#[allow(inconsistent_fields)]
pub enum ShortTypeCheckerError {
    /// No function of this name is defined.
    FunctionNotFound(String),
    /// An expression has another type than the one asked for.
    InvalidTypeFound { expected: InternalType, found: InternalType },
    /// The arguments of a call have other types than its parameters.
    InvalidTypesFound { expected: Vec<InternalType>, found: Vec<InternalType> },
}

impl View for TypeCheckerError {
    type V = TypeErrorModel;

    open spec fn view(&self) -> TypeErrorModel {
        match self {
            TypeCheckerError::FunctionNotFound(name) => TypeErrorModel::FunctionNotFound(name@),
            TypeCheckerError::InvalidTypeFound { expected, found } => {
                TypeErrorModel::InvalidTypeFound { expected: expected@, found: found@ }
            },
            TypeCheckerError::InvalidTypesFound { expected, found } => {
                TypeErrorModel::InvalidTypesFound {
                    expected: types_view(expected@),
                    found: types_view(found@),
                }
            },
        }
    }
}

impl View for ShortTypeCheckerError {
    type V = TypeErrorModel;

    open spec fn view(&self) -> TypeErrorModel {
        match self {
            ShortTypeCheckerError::FunctionNotFound(name) => TypeErrorModel::FunctionNotFound(
                name@,
            ),
            ShortTypeCheckerError::InvalidTypeFound { expected, found } => {
                TypeErrorModel::InvalidTypeFound { expected: expected@, found: found@ }
            },
            ShortTypeCheckerError::InvalidTypesFound { expected, found } => {
                TypeErrorModel::InvalidTypesFound {
                    expected: types_view(expected@),
                    found: types_view(found@),
                }
            },
        }
    }
}

/// The values of a sequence of errors, one for one.
pub open spec fn errors_view(errors: Seq<TypeCheckerError>) -> Seq<TypeErrorModel> {
    Seq::new(errors.len(), |i: int| errors[i]@)
}

impl ShortTypeCheckerError {
    /// The same error in its long form.
    pub fn to_long_error(&self) -> (r: TypeCheckerError)
        ensures
            r@ == self@,
    {
        match self {
            ShortTypeCheckerError::FunctionNotFound(f) => TypeCheckerError::FunctionNotFound(
                f.clone(),
            ),
            ShortTypeCheckerError::InvalidTypeFound { expected, found } => {
                TypeCheckerError::InvalidTypeFound {
                    expected: expected.clone(),
                    found: found.clone(),
                }
            },
            ShortTypeCheckerError::InvalidTypesFound { expected, found } => {
                TypeCheckerError::InvalidTypesFound {
                    expected: clone_types(expected),
                    found: clone_types(found),
                }
            },
        }
    }
}

impl TypeCheckerError {
    /// The same error in its short form.
    pub fn to_short_error(&self) -> (r: ShortTypeCheckerError)
        ensures
            r@ == self@,
    {
        match self {
            TypeCheckerError::FunctionNotFound(f) => ShortTypeCheckerError::FunctionNotFound(
                f.clone(),
            ),
            TypeCheckerError::InvalidTypeFound { expected, found } => {
                ShortTypeCheckerError::InvalidTypeFound {
                    expected: expected.clone(),
                    found: found.clone(),
                }
            },
            TypeCheckerError::InvalidTypesFound { expected, found } => {
                ShortTypeCheckerError::InvalidTypesFound {
                    expected: clone_types(expected),
                    found: clone_types(found),
                }
            },
        }
    }
}

impl Clone for TypeCheckerError {
    fn clone(&self) -> (r: Self)
        ensures
            r@ == self@,
    {
        self.to_short_error().to_long_error()
    }
}

} // verus!
