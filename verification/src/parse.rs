//! The parser: from tokens to an expression tree.

use crate::expression::list::values_of;
use crate::expression::{Atom, Expression, List, Sexp};
use crate::token::{lexemes_of, Lexeme, Token};
use vstd::prelude::*;

verus! {

/// Why no expression could be read.
#[derive(Clone, Copy, Debug, PartialEq, Eq)]
pub enum ParseError {
    /// The tokens end inside a list.
    TooManyOpenParens,
    /// A `)` stands where an expression must start.
    TooManyCloseParens,
}

/// Why the reading of an expression stopped.
#[derive(Clone, Copy, Debug, PartialEq, Eq)]
pub enum Halt {
    /// The tokens end inside a list.
    TooManyOpenParens,
    /// A `)` stands where an expression must start.
    TooManyCloseParens,
    /// The tokens end where an expression must start, outside any list:
    /// there are none, or the last one read is a `'`.
    OutOfTokens,
}

/// The expression that starts with the token at place `start`, and the
/// place behind its last token. `'x` stands for `(quote x)`.
pub open spec fn parse_at(tokens: Seq<Lexeme>, start: nat) -> Result<(Sexp, nat), Halt>
    decreases tokens.len() - start, 0nat,
{
    if start >= tokens.len() {
        Err(Halt::OutOfTokens)
    } else {
        match tokens[start as int] {
            Lexeme::Ident(name) => Ok((Sexp::Atom(name), start + 1)),
            Lexeme::CloseParen => Err(Halt::TooManyCloseParens),
            Lexeme::Quote => match parse_at(tokens, start + 1) {
                Ok((quoted, next)) => Ok((Sexp::List(seq![Sexp::Atom("quote"@), quoted]), next)),
                Err(halt) => Err(halt),
            },
            Lexeme::OpenParen => match items_at(tokens, start + 1) {
                Ok((items, next)) => Ok((Sexp::List(items), next)),
                Err(halt) => Err(halt),
            },
        }
    }
}

/// The expressions from place `index` up to the `)` that closes the list
/// they stand in, and the place behind that `)`.
pub open spec fn items_at(tokens: Seq<Lexeme>, index: nat) -> Result<(Seq<Sexp>, nat), Halt>
    decreases tokens.len() - index, 1nat,
{
    if index >= tokens.len() {
        Err(Halt::TooManyOpenParens)
    } else if tokens[index as int] is CloseParen {
        Ok((Seq::empty(), index + 1))
    } else {
        match parse_at(tokens, index) {
            Ok((item, next)) => if index < next <= tokens.len() {
                in_front(seq![item], items_at(tokens, next))
            } else {
                // Not taken: an expression ends behind its first token,
                // within the tokens.
                Err(Halt::OutOfTokens)
            },
            Err(halt) => Err(halt),
        }
    }
}

/// The items of `rest` with `items` in front of them.
pub open spec fn in_front(items: Seq<Sexp>, rest: Result<(Seq<Sexp>, nat), Halt>) -> Result<
    (Seq<Sexp>, nat),
    Halt,
> {
    match rest {
        Ok((more, next)) => Ok((items + more, next)),
        Err(halt) => Err(halt),
    }
}

/// What reading one expression from the first token on gives: `None` where
/// the tokens end where an expression must start.
pub open spec fn parse_spec(tokens: Seq<Lexeme>) -> Option<Result<Sexp, ParseError>> {
    match parse_at(tokens, 0) {
        Ok((e, _)) => Some(Ok(e)),
        Err(Halt::TooManyOpenParens) => Some(Err(ParseError::TooManyOpenParens)),
        Err(Halt::TooManyCloseParens) => Some(Err(ParseError::TooManyCloseParens)),
        Err(Halt::OutOfTokens) => None,
    }
}

/// The mathematical value of what the parser returns.
pub open spec fn parsed(r: Result<Expression, ParseError>) -> Result<Sexp, ParseError> {
    match r {
        Ok(e) => Ok(e@),
        Err(error) => Err(error),
    }
}

/// An expression that was read ends behind the place where it starts, at
/// the end of the tokens at the latest.
pub proof fn lemma_parse_advances(tokens: Seq<Lexeme>, start: nat)
    ensures
        parse_at(tokens, start) matches Ok((_, next)) ==> start < next <= tokens.len(),
    decreases tokens.len() - start, 0nat,
{
    if start < tokens.len() {
        match tokens[start as int] {
            Lexeme::Quote => lemma_parse_advances(tokens, start + 1),
            Lexeme::OpenParen => lemma_items_advance(tokens, start + 1),
            _ => {},
        }
    }
}

/// A list that was read ends behind the place where its items start, at
/// the end of the tokens at the latest.
pub proof fn lemma_items_advance(tokens: Seq<Lexeme>, index: nat)
    ensures
        items_at(tokens, index) matches Ok((_, next)) ==> index < next <= tokens.len(),
    decreases tokens.len() - index, 1nat,
{
    if index < tokens.len() && !(tokens[index as int] is CloseParen) {
        lemma_parse_advances(tokens, index);
        match parse_at(tokens, index) {
            Ok((_, next)) => {
                lemma_items_advance(tokens, next);
            },
            Err(_) => {},
        }
    }
}

/// Putting items in front one run after the other is putting both runs in
/// front.
proof fn lemma_in_front_twice(a: Seq<Sexp>, b: Seq<Sexp>, rest: Result<(Seq<Sexp>, nat), Halt>)
    ensures
        in_front(a, in_front(b, rest)) == in_front(a + b, rest),
{
    match rest {
        Ok((more, _)) => {
            assert(a + (b + more) =~= (a + b) + more);
        },
        Err(_) => {},
    }
}

/// Reads the expression that starts at place `start`.
fn parse_inner(tokens: &[Token], start: usize) -> (r: Result<(Expression, usize), Halt>)
    ensures
        match r {
            Ok((e, next)) => {
                &&& parse_at(lexemes_of(tokens@), start as nat) == Ok::<(Sexp, nat), Halt>(
                    (e@, next as nat),
                )
                &&& start < next <= tokens@.len()
            },
            Err(halt) => parse_at(lexemes_of(tokens@), start as nat) == Err::<(Sexp, nat), Halt>(
                halt,
            ),
        },
    decreases tokens@.len() - start, 0nat,
{
    let ghost lexemes = lexemes_of(tokens@);
    if start >= tokens.len() {
        return Err(Halt::OutOfTokens);
    }
    match &tokens[start] {
        Token::Ident(name) => Ok((Expression::Atom(Atom::new(name.as_str())), start + 1)),
        Token::CloseParen => Err(Halt::TooManyCloseParens),
        Token::Quote => match parse_inner(tokens, start + 1) {
            Ok((quoted, next)) => {
                let ghost quoted_value = quoted@;
                let mut items: Vec<Expression> = Vec::new();
                items.push(Expression::Atom(Atom::new("quote")));
                items.push(quoted);
                let list = List::new(items);
                assert(list@ =~= seq![Sexp::Atom("quote"@), quoted_value]);
                Ok((Expression::List(list), next))
            },
            Err(halt) => Err(halt),
        },
        Token::OpenParen => {
            let mut index: usize = start + 1;
            let mut items: Vec<Expression> = Vec::new();
            loop
                invariant
                    lexemes == lexemes_of(tokens@),
                    start < index <= tokens@.len(),
                    lexemes[start as int] is OpenParen,
                    items_at(lexemes, (start + 1) as nat) == in_front(
                        values_of(items@),
                        items_at(lexemes, index as nat),
                    ),
                ensures
                    index < tokens@.len(),
                    lexemes[index as int] is CloseParen,
                decreases tokens@.len() - index,
            {
                if index >= tokens.len() {
                    return Err(Halt::TooManyOpenParens);
                }
                match &tokens[index] {
                    Token::CloseParen => {
                        break ;
                    },
                    _ => {
                        match parse_inner(tokens, index) {
                            Ok((item, next)) => {
                                proof {
                                    lemma_in_front_twice(
                                        values_of(items@),
                                        seq![item@],
                                        items_at(lexemes, next as nat),
                                    );
                                    assert(values_of(items@.push(item)) =~= values_of(items@)
                                        + seq![item@]);
                                }
                                index = next;
                                items.push(item);
                            },
                            Err(halt) => {
                                return Err(halt);
                            },
                        }
                    },
                }
            }
            Ok((Expression::List(List::new(items)), index + 1))
        },
    }
}

impl Expression {
    /// Reads one expression from the first token on; tokens behind it are
    /// not looked at.
    ///
    /// The tokens must not end where an expression must start: there is at
    /// least one, and no `'` that is read is the last.
    pub fn parse(tokens: Vec<Token>) -> (r: Result<Expression, ParseError>)
        requires
            parse_spec(lexemes_of(tokens@)) is Some,
        ensures
            Some(parsed(r)) == parse_spec(lexemes_of(tokens@)),
    {
        match Expression::try_parse(tokens.as_slice()) {
            Some(r) => r,
            None => unreached(),
        }
    }

    /// Reads one expression from the first token on; tokens behind it are
    /// not looked at. `None` where the tokens end where an expression must
    /// start.
    pub fn try_parse(tokens: &[Token]) -> (r: Option<Result<Expression, ParseError>>)
        ensures
            match r {
                Some(r) => Some(parsed(r)) == parse_spec(lexemes_of(tokens@)),
                None => parse_spec(lexemes_of(tokens@)) is None,
            },
    {
        match parse_inner(tokens, 0) {
            Ok((e, _)) => Some(Ok(e)),
            Err(Halt::TooManyOpenParens) => Some(Err(ParseError::TooManyOpenParens)),
            Err(Halt::TooManyCloseParens) => Some(Err(ParseError::TooManyCloseParens)),
            Err(Halt::OutOfTokens) => None,
        }
    }
}

} // verus!
