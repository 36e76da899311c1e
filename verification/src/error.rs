//! The ways in which an evaluation can fail.

use crate::expression::{Expression, Sexp};
use vstd::prelude::*;

verus! {

/// The construct that a failure is about.
#[derive(Clone, Copy, Debug, PartialEq, Eq)]
pub enum Form {
    Quote,
    Atom,
    Eq,
    Car,
    Cdr,
    Cons,
    Cond,
    Lambda,
    Macro,
    Label,
}

/// The shape that a construct wanted and did not get.
#[derive(Clone, Copy, Debug, PartialEq, Eq)]
pub enum Shape {
    /// A single atom.
    Atom,
    /// A list, empty or not.
    List,
    /// A list with at least one element.
    NonEmptyList,
    /// An atom followed by a list.
    AtomAndList,
    /// A list whose elements are all atoms.
    Atoms,
}

/// Why an evaluation failed.
#[derive(Debug, PartialEq)]
pub enum ErrorKind {
    /// No frame of the environment binds the name.
    UnboundSymbol(String),
    /// The empty list was evaluated.
    EmptyListEvaluated,
    /// The construct takes the first number of arguments and got the second.
    ArityMismatch(Form, usize, usize),
    /// The construct wanted a value of the shape and got another.
    TypeMismatch(Form, Shape),
    /// The value stood in call position and is no function.
    NotCallable(Expression),
    /// The third element of a `label` is no `lambda`.
    InvalidLabelTarget,
    /// No clause of a `cond` had a condition that held.
    NoCondMatched,
    /// A clause of a `cond` is not a list of two elements.
    MalformedCondClause,
}

/// The mathematical value of an [`ErrorKind`].
pub enum Failure {
    UnboundSymbol(Seq<char>),
    EmptyListEvaluated,
    ArityMismatch(Form, nat, nat),
    TypeMismatch(Form, Shape),
    NotCallable(Sexp),
    InvalidLabelTarget,
    NoCondMatched,
    MalformedCondClause,
}

impl View for ErrorKind {
    type V = Failure;

    open spec fn view(&self) -> Failure {
        match self {
            ErrorKind::UnboundSymbol(name) => Failure::UnboundSymbol(name@),
            ErrorKind::EmptyListEvaluated => Failure::EmptyListEvaluated,
            ErrorKind::ArityMismatch(form, expected, got) => Failure::ArityMismatch(
                *form,
                *expected as nat,
                *got as nat,
            ),
            ErrorKind::TypeMismatch(form, expected) => Failure::TypeMismatch(*form, *expected),
            ErrorKind::NotCallable(value) => Failure::NotCallable(value@),
            ErrorKind::InvalidLabelTarget => Failure::InvalidLabelTarget,
            ErrorKind::NoCondMatched => Failure::NoCondMatched,
            ErrorKind::MalformedCondClause => Failure::MalformedCondClause,
        }
    }
}

/// The mathematical value of what an evaluation returns.
pub open spec fn outcome_of(r: Result<Expression, ErrorKind>) -> Result<Sexp, Failure> {
    match r {
        Ok(value) => Ok(value@),
        Err(error) => Err(error@),
    }
}

} // verus!
