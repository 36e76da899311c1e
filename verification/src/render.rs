//! The text of an expression.

use crate::expression::list::values_of;
use crate::expression::{Expression, Sexp};
use vstd::prelude::*;
use vstd::string::StringExecFns;

verus! {

/// The text of `e`: an atom is its name; a list is the texts of its
/// elements with one space between neighbours, in parentheses.
pub open spec fn render_spec(e: Sexp) -> Seq<char>
    decreases e, 0nat,
{
    match e {
        Sexp::Atom(name) => name,
        Sexp::List(items) => seq!['('] + render_items(items, items.len()) + seq![')'],
    }
}

/// The texts of the first `n` of `items` with one space between neighbours.
pub open spec fn render_items(items: Seq<Sexp>, n: nat) -> Seq<char>
    decreases items, n,
{
    if n == 0 || n > items.len() {
        Seq::empty()
    } else if n == 1 {
        render_spec(items[0])
    } else {
        render_items(items, (n - 1) as nat) + seq![' '] + render_spec(items[n - 1])
    }
}

impl Expression {
    /// The text of the expression.
    pub fn render(&self) -> (text: String)
        ensures
            text@ == render_spec(self@),
    {
        let mut text = String::new();
        self.render_into(&mut text);
        text
    }

    /// Appends the text of the expression to `out`.
    pub fn render_into(&self, out: &mut String)
        ensures
            final(out)@ == old(out)@ + render_spec(self@),
        decreases self@,
    {
        match self {
            Expression::Atom(atom) => {
                out.append(atom.as_str());
            },
            Expression::List(list) => {
                let items = list.as_slice();
                let ghost values = values_of(items@);
                let ghost before = out@;
                out.append("(");
                proof {
                    reveal_strlit("(");
                    reveal_strlit(" ");
                    reveal_strlit(")");
                    assert(out@ =~= before + seq!['('] + render_items(values, 0));
                }
                let mut i: usize = 0;
                while i < items.len()
                    invariant
                        i <= items@.len(),
                        values == values_of(items@),
                        self@ == Sexp::List(values),
                        " "@ == seq![' '],
                        out@ == before + seq!['('] + render_items(values, i as nat),
                    decreases items@.len() - i,
                {
                    if i > 0 {
                        out.append(" ");
                    }
                    assert(decreases_to!(self@ => self@->List_0));
                    assert(decreases_to!(values => values[i as int]));
                    items[i].render_into(out);
                    proof {
                        let one = render_spec(values[i as int]);
                        if i > 0 {
                            assert(out@ =~= before + seq!['('] + (render_items(values, i as nat)
                                + seq![' '] + one));
                        } else {
                            assert(out@ =~= before + seq!['('] + one);
                        }
                    }
                    i += 1;
                }
                out.append(")");
            },
        }
    }
}

} // verus!
