use lisp_interpreter::error::{ErrorKind, Form, Shape};
use lisp_interpreter::expression::{Atom, Expression, List};
use lisp_interpreter::session::{Session, Step};
use lisp_interpreter::text::{digit_char, push_decimal};
use lisp_interpreter::token::Token;

fn atom_of(name: &str) -> Expression {
    Expression::Atom(Atom::new(name))
}

fn list_of(items: Vec<Expression>) -> Expression {
    Expression::List(List::new(items))
}

fn decimal(n: usize) -> String {
    let mut out = String::new();
    push_decimal(&mut out, n);
    out
}

#[test]
fn numbers_in_decimal() {
    assert_eq!(digit_char(0), '0');
    assert_eq!(digit_char(7), '7');
    assert_eq!(digit_char(9), '9');
    assert_eq!(decimal(0), "0");
    assert_eq!(decimal(9), "9");
    assert_eq!(decimal(10), "10");
    assert_eq!(decimal(405), "405");
    assert_eq!(decimal(1234567890), "1234567890");
    assert_eq!(decimal(usize::MAX), usize::MAX.to_string());
    let mut out = String::from("n = ");
    push_decimal(&mut out, 42);
    assert_eq!(out, "n = 42");
}

#[test]
fn failures_in_words() {
    assert_eq!(
        ErrorKind::UnboundSymbol("x".to_owned()).message(),
        "Could not find substitution for atom 'x'"
    );
    assert_eq!(
        ErrorKind::EmptyListEvaluated.message(),
        "The empty list has no meaning"
    );
    assert_eq!(
        ErrorKind::InvalidLabelTarget.message(),
        "The function in a label must be a lambda"
    );
    assert_eq!(
        ErrorKind::NoCondMatched.message(),
        "no first element in any pair in cond was evaluated as true"
    );
    assert_eq!(
        ErrorKind::MalformedCondClause.message(),
        "each pair in a cond argument list should have two elements"
    );
}

#[test]
fn arity_failures_in_words() {
    assert_eq!(
        ErrorKind::ArityMismatch(Form::Quote, 1, 2).message(),
        "quote expects one argument, not 2"
    );
    assert_eq!(
        ErrorKind::ArityMismatch(Form::Atom, 1, 0).message(),
        "atom expects one argument, not 0"
    );
    assert_eq!(
        ErrorKind::ArityMismatch(Form::Eq, 2, 3).message(),
        "eq expects two arguments, not 3"
    );
    assert_eq!(
        ErrorKind::ArityMismatch(Form::Car, 1, 12).message(),
        "car expects one argument, not 12"
    );
    assert_eq!(
        ErrorKind::ArityMismatch(Form::Cdr, 1, 2).message(),
        "cdr expects one argument, not 2"
    );
    assert_eq!(
        ErrorKind::ArityMismatch(Form::Cons, 2, 1).message(),
        "cons expects two arguments, not 1"
    );
    assert_eq!(
        ErrorKind::ArityMismatch(Form::Cons, 3, 1).message(),
        "cons expects 3 arguments, not 1"
    );
    assert_eq!(
        ErrorKind::ArityMismatch(Form::Cond, 1, 0).message(),
        "cond expects at least one argument"
    );
    assert_eq!(
        ErrorKind::ArityMismatch(Form::Lambda, 2, 1).message(),
        "Tried to call a function that accepts 2 arguments with 1 arguments"
    );
    assert_eq!(
        ErrorKind::ArityMismatch(Form::Label, 1, 0).message(),
        "Tried to call a function that accepts 1 arguments with 0 arguments"
    );
    assert_eq!(
        ErrorKind::ArityMismatch(Form::Macro, 0, 10).message(),
        "Tried to call a macro that accepts 0 arguments with 10 arguments"
    );
}

#[test]
fn type_failures_in_words() {
    assert_eq!(
        ErrorKind::TypeMismatch(Form::Car, Shape::NonEmptyList).message(),
        "car expects a non-empty list as an argument"
    );
    assert_eq!(
        ErrorKind::TypeMismatch(Form::Car, Shape::List).message(),
        "car expects a list as an argument"
    );
    assert_eq!(
        ErrorKind::TypeMismatch(Form::Cdr, Shape::NonEmptyList).message(),
        "cdr expects a non-empty list as an argument"
    );
    assert_eq!(
        ErrorKind::TypeMismatch(Form::Cdr, Shape::List).message(),
        "cdr expects a list as an argument"
    );
    assert_eq!(
        ErrorKind::TypeMismatch(Form::Cons, Shape::AtomAndList).message(),
        "cons expects an atom and a list as arguments"
    );
    assert_eq!(
        ErrorKind::TypeMismatch(Form::Eq, Shape::Atom).message(),
        "eq expects an atom as an argument"
    );
    assert_eq!(
        ErrorKind::TypeMismatch(Form::Cond, Shape::Atoms).message(),
        "cond expects atoms as arguments"
    );
    assert_eq!(
        ErrorKind::TypeMismatch(Form::Lambda, Shape::List).message(),
        "The argument list of a function must be a list"
    );
    assert_eq!(
        ErrorKind::TypeMismatch(Form::Lambda, Shape::Atoms).message(),
        "All elements in a function's argument list must be atoms"
    );
    assert_eq!(
        ErrorKind::TypeMismatch(Form::Macro, Shape::List).message(),
        "The argument list of a macro must be a list"
    );
    assert_eq!(
        ErrorKind::TypeMismatch(Form::Macro, Shape::Atoms).message(),
        "All elements in a macros's argument list must be atoms"
    );
    assert_eq!(
        ErrorKind::TypeMismatch(Form::Label, Shape::Atom).message(),
        "A list is not a valid label"
    );
}

#[test]
fn what_cannot_be_called_in_words() {
    assert_eq!(
        ErrorKind::NotCallable(atom_of("a")).message(),
        "Cannot call atom 'a' as if it were a function"
    );
    assert_eq!(
        ErrorKind::NotCallable(list_of(vec![])).message(),
        "Cannot call the empty list as a function"
    );
    assert_eq!(
        ErrorKind::NotCallable(list_of(vec![atom_of("a"), atom_of("b")])).message(),
        "A list with 2 elements cannot be a function"
    );
    assert_eq!(
        ErrorKind::NotCallable(list_of(vec![list_of(vec![]), atom_of("b"), atom_of("c")]))
            .message(),
        "A list cannot be the first element of a function"
    );
    assert_eq!(
        ErrorKind::NotCallable(list_of(vec![atom_of("a"), atom_of("b"), atom_of("c")]))
            .message(),
        "the atom 'a' is not a way to create a function"
    );
}

#[test]
fn the_prompt_shows_the_open_parentheses() {
    let mut session = Session::new();
    assert_eq!(session.open(), 0);
    assert_eq!(session.prompt(), ">>> : ");
    assert_eq!(session.feed("(a"), Step::Continue);
    assert_eq!(session.open(), 1);
    assert_eq!(session.prompt(), "001 : ");
    assert_eq!(session.feed(&"(".repeat(41)), Step::Continue);
    assert_eq!(session.prompt(), "042 : ");
    assert_eq!(session.feed(&"(".repeat(957)), Step::Continue);
    assert_eq!(session.open(), 999);
    assert_eq!(session.prompt(), "999 : ");
    assert_eq!(session.feed("("), Step::Continue);
    assert_eq!(session.open(), 1000);
    assert_eq!(session.prompt(), "99+ : ");
}

#[test]
fn a_session_hands_out_complete_input() {
    let mut session = Session::new();
    assert_eq!(session.feed(""), Step::Continue);
    assert_eq!(session.feed("; a comment"), Step::Continue);
    assert_eq!(session.feed("(car"), Step::Continue);
    assert_eq!(session.feed("  '(a b) ; the list"), Step::Continue);
    assert_eq!(session.open(), 1);
    assert_eq!(session.feed(")"), Step::Ready(Token::lex("(car '(a b))")));
    assert_eq!(session.open(), 0);
    assert_eq!(session.feed("x"), Step::Ready(Token::lex("x")));
    assert_eq!(session.feed("'"), Step::Ready(Token::lex("'")));
    assert_eq!(session.feed(""), Step::Continue);
}

#[test]
fn a_line_is_lexed_on_its_own() {
    let mut session = Session::new();
    assert_eq!(session.feed("(ab ; (("), Step::Continue);
    assert_eq!(session.open(), 1);
    assert_eq!(session.feed("cd)"), Step::Ready(Token::lex("(ab cd)")));
}

#[test]
fn a_session_drops_unbalanced_input() {
    let mut session = Session::new();
    assert_eq!(session.feed("(a"), Step::Continue);
    assert_eq!(session.feed("))"), Step::Unbalanced);
    assert_eq!(session.open(), 0);
    assert_eq!(session.prompt(), ">>> : ");
    assert_eq!(session.feed("b"), Step::Ready(Token::lex("b")));
    assert_eq!(session.feed(")("), Step::Unbalanced);
}

#[test]
fn a_session_ends_on_the_exit_line() {
    let mut session = Session::new();
    assert_eq!(session.feed("(a"), Step::Continue);
    assert_eq!(session.feed("; exit"), Step::Exit);
    assert_eq!(session.open(), 1);
    assert_eq!(session.feed(";exit"), Step::Continue);
    assert_eq!(session.feed("; exit "), Step::Continue);
    assert_eq!(session.feed(")"), Step::Ready(Token::lex("(a)")));
}

#[test]
fn an_answer_is_a_value_or_a_failure() {
    let read = |input: &str| Expression::parse(Token::lex(input));
    assert_eq!(
        lisp_interpreter::session::answer(read("(cdr '(a b c))"), "<<< : ", "err : "),
        "<<< : (b c)"
    );
    assert_eq!(
        lisp_interpreter::session::answer(read("'t"), "", "err: "),
        "t"
    );
    assert_eq!(
        lisp_interpreter::session::answer(read("(car '())"), "<<< : ", "err : "),
        "err : car expects a non-empty list as an argument"
    );
    assert_eq!(
        lisp_interpreter::session::answer(read("(quote a b c)"), "", "err: "),
        "err: quote expects one argument, not 3"
    );
    assert_eq!(
        lisp_interpreter::session::answer(read("(a (b)"), "<<< : ", "err : "),
        "err : Too many open parenthesis"
    );
    assert_eq!(
        lisp_interpreter::session::answer(read(")"), "", "err: "),
        "err: Too many close parenthesis"
    );
}
