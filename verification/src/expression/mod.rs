//! The expression model: a tree of atoms and lists.

use vstd::prelude::*;

pub mod atom;
pub mod list;

pub use self::atom::Atom;
pub use self::list::List;
pub use crate::parse::ParseError;

verus! {

/// An atom or an ordered list of expressions.
#[derive(Debug, PartialEq)]
pub enum Expression {
    Atom(Atom),
    List(List),
}

/// The mathematical value of an [`Expression`]: a finite tree whose leaves
/// are names.
pub enum Sexp {
    Atom(Seq<char>),
    List(Seq<Sexp>),
}

impl Expression {
    /// The tree that this expression stands for.
    pub open spec fn value(&self) -> Sexp
        decreases self,
    {
        match self {
            Expression::Atom(atom) => Sexp::Atom(atom@),
            Expression::List(list) => Sexp::List(list.elements()),
        }
    }
}

impl View for Expression {
    type V = Sexp;

    open spec fn view(&self) -> Sexp {
        self.value()
    }
}

impl Clone for Expression {
    fn clone(&self) -> (copy: Expression)
        ensures
            copy@ == self@,
        decreases self,
    {
        match self {
            Expression::Atom(atom) => Expression::Atom(atom.clone()),
            Expression::List(list) => Expression::List(list.clone()),
        }
    }
}

} // verus!
