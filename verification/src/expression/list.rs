//! Lists: ordered sequences of expressions.

use super::{Expression, Sexp};
use vstd::prelude::*;

verus! {

/// An ordered sequence of expressions; it may be empty.
#[derive(Debug, PartialEq)]
pub struct List(Vec<Expression>);

/// The values of a run of expressions, element by element.
pub open spec fn values_of(items: Seq<Expression>) -> Seq<Sexp> {
    Seq::new(items.len(), |i: int| items[i]@)
}

impl List {
    /// The values of the list's elements, in order.
    pub closed spec fn elements(&self) -> Seq<Sexp>
        decreases self,
    {
        Seq::new(
            self.0@.len(),
            |i: int|
                if 0 <= i < self.0@.len() {
                    self.0@[i].value()
                } else {
                    arbitrary()
                },
        )
    }

    /// The list that holds `v`'s expressions, in order.
    pub fn new(v: Vec<Expression>) -> (list: List)
        ensures
            list@ == values_of(v@),
    {
        List(v)
    }

    /// The list's elements, in order.
    pub fn as_slice<'a>(&'a self) -> (items: &'a [Expression])
        ensures
            values_of(items@) == self@,
    {
        self.0.as_slice()
    }

    /// The number of elements.
    pub fn len(&self) -> (n: usize)
        ensures
            n == self@.len(),
    {
        self.0.len()
    }
}

impl View for List {
    type V = Seq<Sexp>;

    open spec fn view(&self) -> Seq<Sexp> {
        self.elements()
    }
}

impl Clone for List {
    fn clone(&self) -> (copy: List)
        ensures
            copy@ == self@,
        decreases self,
    {
        let mut items: Vec<Expression> = Vec::new();
        let mut i: usize = 0;
        while i < self.0.len()
            invariant
                i <= self.0.len(),
                items@.len() == i,
                forall|k: int| 0 <= k < i ==> items@[k]@ == self.0@[k]@,
            decreases self.0.len() - i,
        {
            items.push(self.0[i].clone());
            i += 1;
        }
        let copy = List(items);
        copy
    }
}

} // verus!
