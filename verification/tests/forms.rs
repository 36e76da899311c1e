use lisp_interpreter::error::{ErrorKind, Form, Shape};
use lisp_interpreter::environment::{Frame, Scope};
use lisp_interpreter::eval::{eval, eval_in, eval_within};
use lisp_interpreter::expression::{Atom, Expression, List};
use lisp_interpreter::token::Token;

fn read(input: &str) -> Expression {
    Expression::parse(Token::lex(input)).unwrap()
}

fn run(input: &str) -> Result<Expression, ErrorKind> {
    eval(read(input))
}

fn atom_of(name: &str) -> Expression {
    Expression::Atom(Atom::new(name))
}

fn list_of(items: Vec<Expression>) -> Expression {
    Expression::List(List::new(items))
}

#[test]
fn quote_returns_its_argument_unevaluated() {
    assert_eq!(run("(quote x)"), Ok(atom_of("x")));
    assert_eq!(run("(quote ())"), Ok(list_of(vec![])));
    assert_eq!(
        run("(quote (car (unbound)))"),
        Ok(list_of(vec![atom_of("car"), list_of(vec![atom_of("unbound")])]))
    );
    assert_eq!(
        run("''a"),
        Ok(list_of(vec![atom_of("quote"), atom_of("a")]))
    );
}

#[test]
fn eq_of_two_equal_lists_is_false() {
    assert_eq!(run("(eq '(a) '(a))"), Ok(list_of(vec![])));
    assert_eq!(run("(eq 'a 'b)"), Ok(list_of(vec![])));
    assert_eq!(run("(eq '() 't)"), Ok(list_of(vec![])));
}

#[test]
fn car_of_the_empty_list_fails() {
    assert_eq!(
        run("(car '())"),
        Err(ErrorKind::TypeMismatch(Form::Car, Shape::NonEmptyList))
    );
    assert_eq!(
        run("(car 'a)"),
        Err(ErrorKind::TypeMismatch(Form::Car, Shape::List))
    );
    assert_eq!(run("(car '((a b) c))"), Ok(list_of(vec![atom_of("a"), atom_of("b")])));
}

#[test]
fn cdr_of_a_single_element_is_empty() {
    assert_eq!(run("(cdr '(a))"), Ok(list_of(vec![])));
    assert_eq!(
        run("(cdr '())"),
        Err(ErrorKind::TypeMismatch(Form::Cdr, Shape::NonEmptyList))
    );
    assert_eq!(
        run("(cdr 'a)"),
        Err(ErrorKind::TypeMismatch(Form::Cdr, Shape::List))
    );
}

#[test]
fn cons_wants_an_atom_and_a_list() {
    assert_eq!(
        run("(cons '(a) '(b))"),
        Err(ErrorKind::TypeMismatch(Form::Cons, Shape::AtomAndList))
    );
    assert_eq!(
        run("(cons 'a 'b)"),
        Err(ErrorKind::TypeMismatch(Form::Cons, Shape::AtomAndList))
    );
    assert_eq!(run("(cons 'a '())"), Ok(list_of(vec![atom_of("a")])));
}

#[test]
fn cond_takes_any_atom_for_true() {
    assert_eq!(run("(cond ('nil 'a) ('t 'b))"), Ok(atom_of("a")));
    assert_eq!(run("(cond ('(x) 'a) ('t 'b))"), Ok(atom_of("b")));
    assert_eq!(run("(cond ('() 'a))"), Err(ErrorKind::NoCondMatched));
    assert_eq!(run("(cond ('() 'a) b)"), Err(ErrorKind::MalformedCondClause));
    assert_eq!(run("(cond ('t 'a 'b))"), Err(ErrorKind::MalformedCondClause));
    assert_eq!(run("(cond)"), Err(ErrorKind::ArityMismatch(Form::Cond, 1, 0)));
    assert_eq!(run("(cond ('t 'a) b)"), Ok(atom_of("a")));
    assert_eq!(
        run("(cond ((car '()) 'a))"),
        Err(ErrorKind::TypeMismatch(Form::Car, Shape::NonEmptyList))
    );
}

#[test]
fn atoms_and_empty_lists_fail_to_evaluate() {
    assert_eq!(run("x"), Err(ErrorKind::UnboundSymbol("x".to_owned())));
    assert_eq!(run("()"), Err(ErrorKind::EmptyListEvaluated));
    assert_eq!(run("(f 'a)"), Err(ErrorKind::UnboundSymbol("f".to_owned())));
    assert_eq!(
        run("(atom x)"),
        Err(ErrorKind::UnboundSymbol("x".to_owned()))
    );
}

#[test]
fn arity_violations_fail() {
    assert_eq!(run("(quote a b)"), Err(ErrorKind::ArityMismatch(Form::Quote, 1, 2)));
    assert_eq!(run("(quote)"), Err(ErrorKind::ArityMismatch(Form::Quote, 1, 0)));
    assert_eq!(run("(atom 'a 'b)"), Err(ErrorKind::ArityMismatch(Form::Atom, 1, 2)));
    assert_eq!(run("(eq 'a)"), Err(ErrorKind::ArityMismatch(Form::Eq, 2, 1)));
    assert_eq!(run("(car '(a) '(b))"), Err(ErrorKind::ArityMismatch(Form::Car, 1, 2)));
    assert_eq!(run("(cdr)"), Err(ErrorKind::ArityMismatch(Form::Cdr, 1, 0)));
    assert_eq!(
        run("(cons 'a '(b) '(c))"),
        Err(ErrorKind::ArityMismatch(Form::Cons, 2, 3))
    );
    assert_eq!(
        run("((lambda (x) x) 'a 'b)"),
        Err(ErrorKind::ArityMismatch(Form::Lambda, 1, 2))
    );
    assert_eq!(
        run("((lambda (x y) x) 'a)"),
        Err(ErrorKind::ArityMismatch(Form::Lambda, 2, 1))
    );
    assert_eq!(
        run("((macro (x) x))"),
        Err(ErrorKind::ArityMismatch(Form::Macro, 1, 0))
    );
    assert_eq!(
        run("((label f (lambda (x) x)) 'a 'b)"),
        Err(ErrorKind::ArityMismatch(Form::Lambda, 1, 2))
    );
}

#[test]
fn arity_is_checked_before_arguments_are_evaluated() {
    assert_eq!(
        run("(atom unbound 'b)"),
        Err(ErrorKind::ArityMismatch(Form::Atom, 1, 2))
    );
    assert_eq!(
        run("((lambda (x) x) unbound 'b)"),
        Err(ErrorKind::ArityMismatch(Form::Lambda, 1, 2))
    );
}

#[test]
fn what_is_no_function_cannot_be_called() {
    assert_eq!(run("(())"), Err(ErrorKind::NotCallable(list_of(vec![]))));
    assert_eq!(run("((a b) 'c)"), Err(ErrorKind::NotCallable(read("(a b)"))));
    assert_eq!(run("((a b c) 'c)"), Err(ErrorKind::NotCallable(read("(a b c)"))));
    assert_eq!(
        run("(((x) b c) 'c)"),
        Err(ErrorKind::NotCallable(read("((x) b c)")))
    );
    assert_eq!(
        run("((lambda (f) (f)) 'a)"),
        Err(ErrorKind::NotCallable(atom_of("a")))
    );
    assert_eq!(
        run("((lambda (f) (f)) '(a b))"),
        Err(ErrorKind::NotCallable(read("(a b)")))
    );
}

#[test]
fn parameters_must_be_a_list_of_atoms() {
    assert_eq!(
        run("((lambda x x) 'a)"),
        Err(ErrorKind::TypeMismatch(Form::Lambda, Shape::List))
    );
    assert_eq!(
        run("((macro x x) a)"),
        Err(ErrorKind::TypeMismatch(Form::Macro, Shape::List))
    );
    assert_eq!(
        run("((lambda ((x)) x) 'a)"),
        Err(ErrorKind::TypeMismatch(Form::Lambda, Shape::Atoms))
    );
    assert_eq!(
        run("((macro ((x)) x) a)"),
        Err(ErrorKind::TypeMismatch(Form::Macro, Shape::Atoms))
    );
    assert_eq!(
        run("((lambda ((x)) x) 'a 'b)"),
        Err(ErrorKind::ArityMismatch(Form::Lambda, 1, 2))
    );
}

#[test]
fn label_wants_a_name_and_a_lambda() {
    assert_eq!(
        run("((label (f) (lambda (x) x)) 'a)"),
        Err(ErrorKind::TypeMismatch(Form::Label, Shape::Atom))
    );
    assert_eq!(run("((label f g) 'a)"), Err(ErrorKind::InvalidLabelTarget));
    assert_eq!(run("((label f (lambda (x))) 'a)"), Err(ErrorKind::InvalidLabelTarget));
    assert_eq!(run("((label f (macro (x) x)) a)"), Err(ErrorKind::InvalidLabelTarget));
    assert_eq!(
        run("((label f (label g (lambda (x) x))) 'a)"),
        Err(ErrorKind::InvalidLabelTarget)
    );
    assert_eq!(run("((label f (lambda (x) x)) 'a)"), Ok(atom_of("a")));
}

#[test]
fn label_binds_its_name_to_itself() {
    assert_eq!(
        run("((label f (lambda (x) f)) 'a)"),
        Ok(read("(label f (lambda (x) f))"))
    );
    assert_eq!(
        run("((label f (lambda (x) x)) f)"),
        Ok(read("(label f (lambda (x) x))"))
    );
}

#[test]
fn reserved_names_are_not_shadowed() {
    assert_eq!(run("((lambda (car) (car '(a b))) 'x)"), Ok(atom_of("a")));
    assert_eq!(run("((lambda (quote) (quote b)) 'x)"), Ok(atom_of("b")));
    assert_eq!(run("((lambda (quote) quote) 'x)"), Ok(atom_of("x")));
}

#[test]
fn a_macro_binds_its_arguments_as_they_stand() {
    assert_eq!(run("((macro (x) 'x) (car '()))"), Ok(atom_of("x")));
    assert_eq!(run("((macro (x) x) 'a)"), Ok(read("(quote a)")));
    assert_eq!(
        run("((macro (x) (x)) (lambda () 'b))"),
        Ok(atom_of("b"))
    );
}

#[test]
fn a_later_parameter_of_the_same_name_wins() {
    assert_eq!(run("((lambda (x x) x) 'a 'b)"), Ok(atom_of("b")));
}

#[test]
fn the_first_failing_argument_ends_the_call() {
    assert_eq!(
        run("((lambda (x y) x) (car '()) (cdr '()))"),
        Err(ErrorKind::TypeMismatch(Form::Car, Shape::NonEmptyList))
    );
    assert_eq!(
        run("(eq (car '()) (cdr '()))"),
        Err(ErrorKind::TypeMismatch(Form::Car, Shape::NonEmptyList))
    );
}

#[test]
fn scoping_is_dynamic() {
    let at_a = "((lambda (f) ((lambda (x) (f)) 'a)) '(lambda () x))";
    let at_b = "((lambda (f) ((lambda (x) (f)) 'b)) '(lambda () x))";
    assert_eq!(run(at_a), Ok(atom_of("a")));
    assert_eq!(run(at_b), Ok(atom_of("b")));
    assert_eq!(
        run("((lambda (f) (f)) '(lambda () x))"),
        Err(ErrorKind::UnboundSymbol("x".to_owned()))
    );
}

#[test]
fn an_inner_frame_shadows_an_outer_one() {
    assert_eq!(
        run("((lambda (x) ((lambda (x) x) 'inner)) 'outer)"),
        Ok(atom_of("inner"))
    );
    assert_eq!(
        run("((lambda (x) ((lambda (y) x) 'inner)) 'outer)"),
        Ok(atom_of("outer"))
    );
}

#[test]
fn a_bounded_evaluation_stops_at_its_depth() {
    let forever = read("((label f (lambda (x) (f x))) 'a)");
    assert_eq!(eval_within(&forever, &Scope::Top, 0), None);
    assert_eq!(eval_within(&forever, &Scope::Top, 200), None);
    let once = read("(atom 'a)");
    assert_eq!(eval_within(&once, &Scope::Top, 0), None);
    assert_eq!(eval_within(&once, &Scope::Top, 1), None);
    assert_eq!(eval_within(&once, &Scope::Top, 2), Some(Ok(atom_of("t"))));
    assert_eq!(eval_within(&once, &Scope::Top, 3), Some(Ok(atom_of("t"))));
    assert_eq!(eval_within(&read("x"), &Scope::Top, 1), Some(Err(ErrorKind::UnboundSymbol("x".to_owned()))));
    assert_eq!(eval_within(&read("(quote a b)"), &Scope::Top, 1), Some(Err(ErrorKind::ArityMismatch(Form::Quote, 1, 2))));
    let label = read("((label f (lambda (x) (cond ((atom x) (f '())) ('t 'b)))) 'a)");
    assert_eq!(eval_within(&label, &Scope::Top, 50), Some(Ok(atom_of("b"))));
}

#[test]
fn a_free_name_is_resolved_where_the_call_stands() {
    let call = read("((lambda (y) x) 'ignored)");
    let mut here = Frame::new();
    here.bind("x".to_owned(), atom_of("here"));
    let mut there = Frame::new();
    there.bind("x".to_owned(), atom_of("there"));
    let at_here = Scope::Inner { frame: &here, outer: &Scope::Top };
    let at_there = Scope::Inner { frame: &there, outer: &Scope::Top };
    assert_eq!(eval_in(&call, &at_here), Ok(atom_of("here")));
    assert_eq!(eval_in(&call, &at_there), Ok(atom_of("there")));
    assert_eq!(
        eval_in(&call, &Scope::Top),
        Err(ErrorKind::UnboundSymbol("x".to_owned()))
    );
}

#[test]
fn names_are_looked_up_from_the_innermost_frame() {
    let mut outer = Frame::new();
    outer.bind("x".to_owned(), atom_of("outer"));
    outer.bind("y".to_owned(), atom_of("kept"));
    let mut inner = Frame::new();
    inner.bind("x".to_owned(), atom_of("first"));
    inner.bind("x".to_owned(), atom_of("second"));
    let base = Scope::Inner { frame: &outer, outer: &Scope::Top };
    let stack = Scope::Inner { frame: &inner, outer: &base };
    assert_eq!(stack.lookup("x"), Some(&atom_of("second")));
    assert_eq!(stack.lookup("y"), Some(&atom_of("kept")));
    assert_eq!(stack.lookup("z"), None);
    assert_eq!(base.lookup("x"), Some(&atom_of("outer")));
    assert_eq!(Scope::Top.lookup("x"), None);
    assert_eq!(inner.get("x"), Some(&atom_of("second")));
    assert_eq!(inner.get("y"), None);
    assert_eq!(eval_in(&read("x"), &stack), Ok(atom_of("second")));
    assert_eq!(eval_in(&read("(cons y '())"), &stack), Ok(read("(kept)")));
    assert_eq!(
        eval_within(&read("(x)"), &stack, 5),
        Some(Err(ErrorKind::NotCallable(atom_of("second"))))
    );
}
