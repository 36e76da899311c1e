//! The environment in which names are resolved: a stack of frames.

use crate::expression::{Expression, Sexp};
use crate::semantics::{lookup, Bindings, Env};
use crate::strings::same_text;
use vstd::prelude::*;

verus! {

/// One name with the value it is bound to.
pub struct Binding {
    pub name: String,
    pub value: Expression,
}

/// The bindings that a single call introduces.
pub struct Frame {
    pub bindings: Vec<Binding>,
}

/// The map that the first `n` of `bindings` make; a later binding of a name
/// replaces an earlier one.
pub open spec fn bindings_upto(bindings: Seq<Binding>, n: nat) -> Bindings
    decreases n,
{
    if n == 0 {
        Map::empty()
    } else {
        let k = (n - 1) as nat;
        bindings_upto(bindings, k).insert(bindings[k as int].name@, bindings[k as int].value@)
    }
}

/// The map of the first `n` bindings looks at no binding behind them.
pub proof fn lemma_bindings_prefix(a: Seq<Binding>, b: Seq<Binding>, n: nat)
    requires
        n <= a.len(),
        n <= b.len(),
        forall|i: int| 0 <= i < n ==> a[i] == b[i],
    ensures
        bindings_upto(a, n) == bindings_upto(b, n),
    decreases n,
{
    if n > 0 {
        lemma_bindings_prefix(a, b, (n - 1) as nat);
    }
}

impl View for Frame {
    type V = Bindings;

    open spec fn view(&self) -> Bindings {
        bindings_upto(self.bindings@, self.bindings@.len())
    }
}

impl Frame {
    /// A frame without bindings.
    pub fn new() -> (frame: Frame)
        ensures
            frame@ == Map::<Seq<char>, Sexp>::empty(),
    {
        Frame { bindings: Vec::new() }
    }

    /// Binds `name` to `value`, in place of what `name` was bound to.
    pub fn bind(&mut self, name: String, value: Expression)
        ensures
            final(self)@ == old(self)@.insert(name@, value@),
    {
        proof {
            let before = self.bindings@;
            lemma_bindings_prefix(
                before,
                before.push(Binding { name, value }),
                before.len(),
            );
        }
        self.bindings.push(Binding { name, value });
    }

    /// The value that `name` is bound to, if it is bound.
    pub fn get<'a>(&'a self, name: &str) -> (found: Option<&'a Expression>)
        ensures
            found is Some == self@.contains_key(name@),
            found matches Some(value) ==> value@ == self@[name@],
    {
        let mut found: Option<&'a Expression> = None;
        let mut i: usize = 0;
        while i < self.bindings.len()
            invariant
                i <= self.bindings.len(),
                found is Some == bindings_upto(self.bindings@, i as nat).contains_key(name@),
                found matches Some(value) ==> value@ == bindings_upto(self.bindings@, i as nat)[name@],
            decreases self.bindings.len() - i,
        {
            if same_text(self.bindings[i].name.as_str(), name) {
                found = Some(&self.bindings[i].value);
            }
            i += 1;
        }
        found
    }
}

/// The stack of frames that is in force at one point of an evaluation. A
/// call extends it by one frame for as long as the call lasts.
pub enum Scope<'a> {
    /// No frame: the environment of a top-level evaluation.
    Top,
    /// The frames of `outer`, then `frame`.
    Inner { frame: &'a Frame, outer: &'a Scope<'a> },
}

impl<'a> Scope<'a> {
    /// The frames from the outermost to the innermost.
    pub open spec fn frames(&self) -> Env
        decreases self,
    {
        match self {
            Scope::Top => Seq::empty(),
            Scope::Inner { frame, outer } => outer.frames().push(frame@),
        }
    }

    /// The value that the innermost frame binding `name` gives it.
    pub fn lookup(&self, name: &str) -> (found: Option<&'a Expression>)
        ensures
            found is Some == lookup(self@, name@) is Some,
            found matches Some(value) ==> lookup(self@, name@) == Some(value@),
        decreases self,
    {
        match self {
            Scope::Top => None,
            Scope::Inner { frame, outer } => {
                assert(self@.drop_last() =~= outer@);
                match frame.get(name) {
                    Some(value) => Some(value),
                    None => outer.lookup(name),
                }
            },
        }
    }
}

impl<'a> View for Scope<'a> {
    type V = Env;

    open spec fn view(&self) -> Env {
        self.frames()
    }
}

} // verus!
