//! Atoms: indivisible named symbols.

use vstd::prelude::*;

verus! {

/// An indivisible named symbol, the only scalar value there is.
#[derive(Debug, PartialEq)]
pub struct Atom(String);

impl View for Atom {
    type V = Seq<char>;

    /// The atom's name.
    closed spec fn view(&self) -> Seq<char> {
        self.0@
    }
}

impl Atom {
    /// The atom named `s`.
    pub fn new(s: &str) -> (atom: Atom)
        ensures
            atom@ == s@,
    {
        Atom(s.to_owned())
    }

    /// The atom's name.
    pub fn as_str<'a>(&'a self) -> (s: &'a str)
        ensures
            s@ == self@,
    {
        self.0.as_str()
    }
}

impl Clone for Atom {
    fn clone(&self) -> (copy: Atom)
        ensures
            copy@ == self@,
    {
        Atom(self.0.clone())
    }
}

} // verus!
