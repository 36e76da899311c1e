//! Failures in words.

use crate::error::{ErrorKind, Failure, Form, Shape};
use crate::expression::list::values_of;
use crate::expression::{Expression, Sexp};
use crate::parse::ParseError;
use crate::text::{decimal, push_decimal};
use vstd::prelude::*;
use vstd::string::StringExecFns;

verus! {

/// The word that a construct is written with.
pub open spec fn form_name(form: Form) -> Seq<char> {
    match form {
        Form::Quote => "quote"@,
        Form::Atom => "atom"@,
        Form::Eq => "eq"@,
        Form::Car => "car"@,
        Form::Cdr => "cdr"@,
        Form::Cons => "cons"@,
        Form::Cond => "cond"@,
        Form::Lambda => "lambda"@,
        Form::Macro => "macro"@,
        Form::Label => "label"@,
    }
}

/// A number of arguments in words.
pub open spec fn count_text(n: nat) -> Seq<char> {
    if n == 1 {
        "one argument"@
    } else if n == 2 {
        "two arguments"@
    } else {
        decimal(n) + " arguments"@
    }
}

/// What a primitive form wanted, in words.
pub open spec fn shape_text(shape: Shape) -> Seq<char> {
    match shape {
        Shape::Atom => "an atom as an argument"@,
        Shape::List => "a list as an argument"@,
        Shape::NonEmptyList => "a non-empty list as an argument"@,
        Shape::AtomAndList => "an atom and a list as arguments"@,
        Shape::Atoms => "atoms as arguments"@,
    }
}

/// Why `value` is no function, in words.
pub open spec fn not_callable_text(value: Sexp) -> Seq<char> {
    match value {
        Sexp::Atom(name) => "Cannot call atom '"@ + name + "' as if it were a function"@,
        Sexp::List(items) => if items.len() == 0 {
            "Cannot call the empty list as a function"@
        } else if items.len() != 3 {
            "A list with "@ + decimal(items.len()) + " elements cannot be a function"@
        } else {
            match items[0] {
                Sexp::List(_) => "A list cannot be the first element of a function"@,
                Sexp::Atom(word) => "the atom '"@ + word + "' is not a way to create a function"@,
            }
        },
    }
}

/// The failure `failure` in words.
pub open spec fn message_spec(failure: Failure) -> Seq<char> {
    match failure {
        Failure::UnboundSymbol(name) => "Could not find substitution for atom '"@ + name + "'"@,
        Failure::EmptyListEvaluated => "The empty list has no meaning"@,
        Failure::ArityMismatch(form, expected, got) => match form {
            Form::Lambda | Form::Label => "Tried to call a function that accepts "@ + decimal(
                expected,
            ) + " arguments with "@ + decimal(got) + " arguments"@,
            Form::Macro => "Tried to call a macro that accepts "@ + decimal(expected)
                + " arguments with "@ + decimal(got) + " arguments"@,
            Form::Cond => "cond expects at least "@ + count_text(expected),
            _ => form_name(form) + " expects "@ + count_text(expected) + ", not "@ + decimal(got),
        },
        Failure::TypeMismatch(form, expected) => match form {
            Form::Lambda => match expected {
                Shape::Atoms => "All elements in a function's argument list must be atoms"@,
                _ => "The argument list of a function must be a list"@,
            },
            Form::Macro => match expected {
                Shape::Atoms => "All elements in a macros's argument list must be atoms"@,
                _ => "The argument list of a macro must be a list"@,
            },
            Form::Label => "A list is not a valid label"@,
            _ => form_name(form) + " expects "@ + shape_text(expected),
        },
        Failure::NotCallable(value) => not_callable_text(value),
        Failure::InvalidLabelTarget => "The function in a label must be a lambda"@,
        Failure::NoCondMatched => "no first element in any pair in cond was evaluated as true"@,
        Failure::MalformedCondClause => "each pair in a cond argument list should have two elements"@,
    }
}

/// The failure `error` in words.
pub open spec fn parse_message_spec(error: ParseError) -> Seq<char> {
    match error {
        ParseError::TooManyOpenParens => "Too many open parenthesis"@,
        ParseError::TooManyCloseParens => "Too many close parenthesis"@,
    }
}

/// The word that a construct is written with.
fn form_word(form: Form) -> (word: &'static str)
    ensures
        word@ == form_name(form),
{
    match form {
        Form::Quote => "quote",
        Form::Atom => "atom",
        Form::Eq => "eq",
        Form::Car => "car",
        Form::Cdr => "cdr",
        Form::Cons => "cons",
        Form::Cond => "cond",
        Form::Lambda => "lambda",
        Form::Macro => "macro",
        Form::Label => "label",
    }
}

/// Appends a number of arguments in words to `out`.
fn push_count(out: &mut String, n: usize)
    ensures
        final(out)@ == old(out)@ + count_text(n as nat),
{
    if n == 1 {
        out.append("one argument");
    } else if n == 2 {
        out.append("two arguments");
    } else {
        push_decimal(out, n);
        out.append(" arguments");
    }
}

/// What a primitive form wanted, in words.
fn shape_words(shape: Shape) -> (words: &'static str)
    ensures
        words@ == shape_text(shape),
{
    match shape {
        Shape::Atom => "an atom as an argument",
        Shape::List => "a list as an argument",
        Shape::NonEmptyList => "a non-empty list as an argument",
        Shape::AtomAndList => "an atom and a list as arguments",
        Shape::Atoms => "atoms as arguments",
    }
}

/// Why `value` is no function, in words.
fn not_callable_words(value: &Expression) -> (words: String)
    ensures
        words@ == not_callable_text(value@),
{
    let mut out = String::new();
    match value {
        Expression::Atom(name) => {
            out.append("Cannot call atom '");
            out.append(name.as_str());
            out.append("' as if it were a function");
        },
        Expression::List(list) => {
            let items = list.as_slice();
            if items.len() == 0 {
                out.append("Cannot call the empty list as a function");
            } else if items.len() != 3 {
                out.append("A list with ");
                push_decimal(&mut out, items.len());
                out.append(" elements cannot be a function");
            } else {
                match &items[0] {
                    Expression::List(_) => {
                        out.append("A list cannot be the first element of a function");
                    },
                    Expression::Atom(word) => {
                        out.append("the atom '");
                        out.append(word.as_str());
                        out.append("' is not a way to create a function");
                    },
                }
            }
        },
    }
    out
}

impl ErrorKind {
    /// The failure in words.
    pub fn message(&self) -> (words: String)
        ensures
            words@ == message_spec(self@),
    {
        let mut out = String::new();
        match self {
            ErrorKind::UnboundSymbol(name) => {
                out.append("Could not find substitution for atom '");
                out.append(name.as_str());
                out.append("'");
            },
            ErrorKind::EmptyListEvaluated => {
                out.append("The empty list has no meaning");
            },
            ErrorKind::ArityMismatch(form, expected, got) => match form {
                Form::Lambda | Form::Label => {
                    out.append("Tried to call a function that accepts ");
                    push_decimal(&mut out, *expected);
                    out.append(" arguments with ");
                    push_decimal(&mut out, *got);
                    out.append(" arguments");
                },
                Form::Macro => {
                    out.append("Tried to call a macro that accepts ");
                    push_decimal(&mut out, *expected);
                    out.append(" arguments with ");
                    push_decimal(&mut out, *got);
                    out.append(" arguments");
                },
                Form::Cond => {
                    out.append("cond expects at least ");
                    push_count(&mut out, *expected);
                },
                _ => {
                    out.append(form_word(*form));
                    out.append(" expects ");
                    push_count(&mut out, *expected);
                    out.append(", not ");
                    push_decimal(&mut out, *got);
                },
            },
            ErrorKind::TypeMismatch(form, expected) => match form {
                Form::Lambda => match expected {
                    Shape::Atoms => {
                        out.append("All elements in a function's argument list must be atoms");
                    },
                    _ => {
                        out.append("The argument list of a function must be a list");
                    },
                },
                Form::Macro => match expected {
                    Shape::Atoms => {
                        out.append("All elements in a macros's argument list must be atoms");
                    },
                    _ => {
                        out.append("The argument list of a macro must be a list");
                    },
                },
                Form::Label => {
                    out.append("A list is not a valid label");
                },
                _ => {
                    out.append(form_word(*form));
                    out.append(" expects ");
                    out.append(shape_words(*expected));
                },
            },
            ErrorKind::NotCallable(value) => {
                out = not_callable_words(value);
            },
            ErrorKind::InvalidLabelTarget => {
                out.append("The function in a label must be a lambda");
            },
            ErrorKind::NoCondMatched => {
                out.append("no first element in any pair in cond was evaluated as true");
            },
            ErrorKind::MalformedCondClause => {
                out.append("each pair in a cond argument list should have two elements");
            },
        }
        out
    }
}

impl ParseError {
    /// The failure in words.
    pub fn message(&self) -> (words: String)
        ensures
            words@ == parse_message_spec(*self),
    {
        let mut out = String::new();
        match self {
            ParseError::TooManyOpenParens => {
                out.append("Too many open parenthesis");
            },
            ParseError::TooManyCloseParens => {
                out.append("Too many close parenthesis");
            },
        }
        out
    }
}

} // verus!
