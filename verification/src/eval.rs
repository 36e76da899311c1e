//! The evaluator.

use crate::environment::{Frame, Scope};
use crate::error::{outcome_of, ErrorKind, Failure, Form, Shape};
use crate::expression::list::values_of;
use crate::expression::{Atom, Expression, List, Sexp};
use crate::semantics::{
    all_atoms, apply_spec, args_spec, atom_spec, bind, car_spec, cdr_spec, clauses_spec,
    cond_spec, cons_spec, eq_spec, eval_spec, invoke_spec, is_lambda, lemma_args_stop,
    lemma_bind_prefix, quote_spec, result_of, terminates, truth_value,
};
use crate::strings::same_text;
use vstd::prelude::*;
use vstd::slice::slice_subrange;

verus! {

/// The mathematical value of what a bounded evaluation returns.
pub open spec fn evaluated(r: Option<Result<Expression, ErrorKind>>) -> Option<
    Result<Sexp, Failure>,
> {
    match r {
        Some(outcome) => Some(outcome_of(outcome)),
        None => None,
    }
}

/// What a caller owes for an evaluation whose outcome at depth `fuel` is
/// `outcome`: with a bound, that the bound is that depth; without one, that
/// the depth is enough.
pub open spec fn budget_ok(
    budget: Option<usize>,
    fuel: nat,
    outcome: Option<Result<Sexp, Failure>>,
) -> bool {
    match budget {
        Some(depth) => fuel == depth,
        None => outcome is Some,
    }
}

/// Evaluates `input` in the empty environment.
///
/// The evaluation must come to an end: one that does not would use up the
/// call stack.
pub fn eval(input: Expression) -> (r: Result<Expression, ErrorKind>)
    requires
        terminates(input@, Seq::empty()),
    ensures
        outcome_of(r) == result_of(input@, Seq::empty()),
{
    eval_in(&input, &Scope::Top)
}

/// Evaluates `input` in the environment `stack`.
///
/// The evaluation must come to an end: one that does not would use up the
/// call stack.
pub fn eval_in(input: &Expression, stack: &Scope) -> (r: Result<Expression, ErrorKind>)
    requires
        terminates(input@, stack@),
    ensures
        outcome_of(r) == result_of(input@, stack@),
{
    let ghost fuel = choose|fuel: nat| (#[trigger] eval_spec(input@, stack@, fuel)) is Some;
    match eval_inner(input, stack, None, Ghost(fuel)) {
        Some(r) => r,
        None => unreached(),
    }
}

/// Evaluates `input` in the environment `stack` with nested evaluations at
/// most `depth` deep; `None` where that depth is not enough.
pub fn eval_within(input: &Expression, stack: &Scope, depth: usize) -> (r: Option<
    Result<Expression, ErrorKind>,
>)
    ensures
        evaluated(r) == eval_spec(input@, stack@, depth as nat),
{
    eval_inner(input, stack, Some(depth), Ghost(depth as nat))
}

/// `t` if `holds`, else the empty list.
fn truth_of(holds: bool) -> (value: Expression)
    ensures
        value@ == truth_value(holds),
{
    if holds {
        Expression::Atom(Atom::new("t"))
    } else {
        let list = List::new(Vec::new());
        assert(list@ =~= Seq::empty());
        Expression::List(list)
    }
}

/// Adds copies of the elements of `items` from place `from` on to `into`.
fn copy_items(into: &mut Vec<Expression>, items: &[Expression], from: usize)
    requires
        from <= items@.len(),
    ensures
        values_of(final(into)@) == values_of(old(into)@) + values_of(items@).subrange(
            from as int,
            items@.len() as int,
        ),
{
    let mut i: usize = from;
    while i < items.len()
        invariant
            from <= i <= items@.len(),
            values_of(into@) == values_of(old(into)@) + values_of(items@).subrange(
                from as int,
                i as int,
            ),
        decreases items@.len() - i,
    {
        let ghost before = into@;
        into.push(items[i].clone());
        assert(values_of(into@) =~= values_of(before).push(items@[i as int]@));
        i += 1;
    }
}

/// Evaluates `input` in `stack`, within `budget` nested evaluations where
/// there is a bound.
fn eval_inner(
    input: &Expression,
    stack: &Scope,
    budget: Option<usize>,
    Ghost(fuel): Ghost<nat>,
) -> (r: Option<Result<Expression, ErrorKind>>)
    requires
        budget_ok(budget, fuel, eval_spec(input@, stack@, fuel)),
    ensures
        evaluated(r) == eval_spec(input@, stack@, fuel),
    decreases fuel, 0nat, 0nat,
{
    let rest: Option<usize> = match budget {
        Some(depth) => {
            if depth == 0 {
                return None;
            }
            Some(depth - 1)
        },
        None => None,
    };
    let ghost less = (fuel - 1) as nat;
    match input {
        Expression::Atom(atom) => match stack.lookup(atom.as_str()) {
            Some(value) => Some(Ok(value.clone())),
            None => Some(Err(ErrorKind::UnboundSymbol(atom.as_str().to_owned()))),
        },
        Expression::List(list) => {
            let items = list.as_slice();
            if items.len() == 0 {
                return Some(Err(ErrorKind::EmptyListEvaluated));
            }
            let args = slice_subrange(items, 1, items.len());
            assert(values_of(args@) =~= list@.subrange(1, list@.len() as int));
            match &items[0] {
                Expression::List(func) => apply(func, args, stack, rest, Ghost(less)),
                Expression::Atom(head) => {
                    let name = head.as_str();
                    if same_text(name, "quote") {
                        eval_quote(args)
                    } else if same_text(name, "atom") {
                        eval_atom(args, stack, rest, Ghost(less))
                    } else if same_text(name, "eq") {
                        eval_eq(args, stack, rest, Ghost(less))
                    } else if same_text(name, "car") {
                        eval_car(args, stack, rest, Ghost(less))
                    } else if same_text(name, "cdr") {
                        eval_cdr(args, stack, rest, Ghost(less))
                    } else if same_text(name, "cons") {
                        eval_cons(args, stack, rest, Ghost(less))
                    } else if same_text(name, "cond") {
                        eval_cond(args, stack, rest, Ghost(less))
                    } else {
                        match stack.lookup(name) {
                            Some(Expression::List(func)) => apply(
                                func,
                                args,
                                stack,
                                rest,
                                Ghost(less),
                            ),
                            Some(Expression::Atom(value)) => Some(
                                Err(ErrorKind::NotCallable(Expression::Atom(value.clone()))),
                            ),
                            None => Some(Err(ErrorKind::UnboundSymbol(name.to_owned()))),
                        }
                    }
                },
            }
        },
    }
}

/// `quote` on the argument expressions `args`.
fn eval_quote(args: &[Expression]) -> (r: Option<Result<Expression, ErrorKind>>)
    ensures
        evaluated(r) == quote_spec(values_of(args@)),
{
    if args.len() != 1 {
        Some(Err(ErrorKind::ArityMismatch(Form::Quote, 1, args.len())))
    } else {
        Some(Ok(args[0].clone()))
    }
}

/// `atom` on the argument expressions `args`.
fn eval_atom(args: &[Expression], stack: &Scope, budget: Option<usize>, Ghost(fuel): Ghost<nat>) -> (r:
    Option<Result<Expression, ErrorKind>>)
    requires
        budget_ok(budget, fuel, atom_spec(values_of(args@), stack@, fuel)),
    ensures
        evaluated(r) == atom_spec(values_of(args@), stack@, fuel),
    decreases fuel, 2nat, 0nat,
{
    if args.len() != 1 {
        return Some(Err(ErrorKind::ArityMismatch(Form::Atom, 1, args.len())));
    }
    match eval_inner(&args[0], stack, budget, Ghost(fuel)) {
        Some(Ok(Expression::Atom(_))) => Some(Ok(truth_of(true))),
        Some(Ok(Expression::List(_))) => Some(Ok(truth_of(false))),
        other => other,
    }
}

/// `eq` on the argument expressions `args`.
fn eval_eq(args: &[Expression], stack: &Scope, budget: Option<usize>, Ghost(fuel): Ghost<nat>) -> (r:
    Option<Result<Expression, ErrorKind>>)
    requires
        budget_ok(budget, fuel, eq_spec(values_of(args@), stack@, fuel)),
    ensures
        evaluated(r) == eq_spec(values_of(args@), stack@, fuel),
    decreases fuel, 2nat, 0nat,
{
    if args.len() != 2 {
        return Some(Err(ErrorKind::ArityMismatch(Form::Eq, 2, args.len())));
    }
    let left = match eval_inner(&args[0], stack, budget, Ghost(fuel)) {
        Some(Ok(value)) => value,
        other => {
            return other;
        },
    };
    let right = match eval_inner(&args[1], stack, budget, Ghost(fuel)) {
        Some(Ok(value)) => value,
        other => {
            return other;
        },
    };
    let holds = match (&left, &right) {
        (Expression::Atom(a), Expression::Atom(b)) => same_text(a.as_str(), b.as_str()),
        (Expression::List(a), Expression::List(b)) => a.len() == 0 && b.len() == 0,
        _ => false,
    };
    Some(Ok(truth_of(holds)))
}

/// `car` on the argument expressions `args`.
fn eval_car(args: &[Expression], stack: &Scope, budget: Option<usize>, Ghost(fuel): Ghost<nat>) -> (r:
    Option<Result<Expression, ErrorKind>>)
    requires
        budget_ok(budget, fuel, car_spec(values_of(args@), stack@, fuel)),
    ensures
        evaluated(r) == car_spec(values_of(args@), stack@, fuel),
    decreases fuel, 2nat, 0nat,
{
    if args.len() != 1 {
        return Some(Err(ErrorKind::ArityMismatch(Form::Car, 1, args.len())));
    }
    match eval_inner(&args[0], stack, budget, Ghost(fuel)) {
        Some(Ok(Expression::List(list))) => {
            let items = list.as_slice();
            if items.len() == 0 {
                Some(Err(ErrorKind::TypeMismatch(Form::Car, Shape::NonEmptyList)))
            } else {
                Some(Ok(items[0].clone()))
            }
        },
        Some(Ok(Expression::Atom(_))) => Some(Err(ErrorKind::TypeMismatch(Form::Car, Shape::List))),
        other => other,
    }
}

/// `cdr` on the argument expressions `args`.
fn eval_cdr(args: &[Expression], stack: &Scope, budget: Option<usize>, Ghost(fuel): Ghost<nat>) -> (r:
    Option<Result<Expression, ErrorKind>>)
    requires
        budget_ok(budget, fuel, cdr_spec(values_of(args@), stack@, fuel)),
    ensures
        evaluated(r) == cdr_spec(values_of(args@), stack@, fuel),
    decreases fuel, 2nat, 0nat,
{
    if args.len() != 1 {
        return Some(Err(ErrorKind::ArityMismatch(Form::Cdr, 1, args.len())));
    }
    match eval_inner(&args[0], stack, budget, Ghost(fuel)) {
        Some(Ok(Expression::List(list))) => {
            let items = list.as_slice();
            if items.len() == 0 {
                Some(Err(ErrorKind::TypeMismatch(Form::Cdr, Shape::NonEmptyList)))
            } else {
                let mut tail: Vec<Expression> = Vec::new();
                copy_items(&mut tail, items, 1);
                let tail = List::new(tail);
                Some(Ok(Expression::List(tail)))
            }
        },
        Some(Ok(Expression::Atom(_))) => Some(Err(ErrorKind::TypeMismatch(Form::Cdr, Shape::List))),
        other => other,
    }
}

/// `cons` on the argument expressions `args`.
fn eval_cons(args: &[Expression], stack: &Scope, budget: Option<usize>, Ghost(fuel): Ghost<nat>) -> (r:
    Option<Result<Expression, ErrorKind>>)
    requires
        budget_ok(budget, fuel, cons_spec(values_of(args@), stack@, fuel)),
    ensures
        evaluated(r) == cons_spec(values_of(args@), stack@, fuel),
    decreases fuel, 2nat, 0nat,
{
    if args.len() != 2 {
        return Some(Err(ErrorKind::ArityMismatch(Form::Cons, 2, args.len())));
    }
    let head = match eval_inner(&args[0], stack, budget, Ghost(fuel)) {
        Some(Ok(value)) => value,
        other => {
            return other;
        },
    };
    let tail = match eval_inner(&args[1], stack, budget, Ghost(fuel)) {
        Some(Ok(value)) => value,
        other => {
            return other;
        },
    };
    match (head, tail) {
        (Expression::Atom(first), Expression::List(rest)) => {
            let ghost head_value = Sexp::Atom(first@);
            let mut items: Vec<Expression> = Vec::new();
            items.push(Expression::Atom(first));
            copy_items(&mut items, rest.as_slice(), 0);
            let whole = List::new(items);
            assert(whole@ =~= seq![head_value] + rest@);
            Some(Ok(Expression::List(whole)))
        },
        _ => Some(Err(ErrorKind::TypeMismatch(Form::Cons, Shape::AtomAndList))),
    }
}

/// `cond` on the argument expressions `args`.
fn eval_cond(args: &[Expression], stack: &Scope, budget: Option<usize>, Ghost(fuel): Ghost<nat>) -> (r:
    Option<Result<Expression, ErrorKind>>)
    requires
        budget_ok(budget, fuel, cond_spec(values_of(args@), stack@, fuel)),
    ensures
        evaluated(r) == cond_spec(values_of(args@), stack@, fuel),
    decreases fuel, 2nat, 0nat,
{
    if args.len() == 0 {
        return Some(Err(ErrorKind::ArityMismatch(Form::Cond, 1, 0)));
    }
    let ghost clauses = values_of(args@);
    let mut i: usize = 0;
    while i < args.len()
        invariant
            i <= args@.len(),
            clauses == values_of(args@),
            clauses_spec(clauses, stack@, fuel, i as nat) == cond_spec(clauses, stack@, fuel),
            budget_ok(budget, fuel, cond_spec(clauses, stack@, fuel)),
        decreases args@.len() - i,
    {
        match &args[i] {
            Expression::Atom(_) => {
                return Some(Err(ErrorKind::MalformedCondClause));
            },
            Expression::List(pair) => {
                let pair = pair.as_slice();
                if pair.len() != 2 {
                    return Some(Err(ErrorKind::MalformedCondClause));
                }
                match eval_inner(&pair[0], stack, budget, Ghost(fuel)) {
                    Some(Ok(Expression::Atom(_))) => {
                        return eval_inner(&pair[1], stack, budget, Ghost(fuel));
                    },
                    Some(Ok(Expression::List(_))) => {},
                    other => {
                        return other;
                    },
                }
            },
        }
        i += 1;
    }
    Some(Err(ErrorKind::NoCondMatched))
}

/// The names of the parameters in `params`, where each of them is an atom.
fn parameter_names<'a>(params: &'a [Expression]) -> (names: Option<Vec<&'a str>>)
    ensures
        names is Some == all_atoms(values_of(params@)),
        names matches Some(names) ==> {
            &&& names@.len() == params@.len()
            &&& forall|i: int|
                0 <= i < names@.len() ==> (#[trigger] names@[i])@ == values_of(params@)[i]->Atom_0
        },
{
    let mut names: Vec<&'a str> = Vec::new();
    let mut i: usize = 0;
    while i < params.len()
        invariant
            i <= params@.len(),
            names@.len() == i,
            forall|k: int| 0 <= k < i ==> #[trigger] values_of(params@)[k] is Atom,
            forall|k: int|
                0 <= k < i ==> (#[trigger] names@[k])@ == values_of(params@)[k]->Atom_0,
        decreases params@.len() - i,
    {
        assert(values_of(params@)[i as int] == params@[i as int]@);
        match &params[i] {
            Expression::Atom(atom) => {
                names.push(atom.as_str());
            },
            Expression::List(_) => {
                return None;
            },
        }
        i += 1;
    }
    Some(names)
}

/// Calls the `lambda` or `macro` (`kind` says which) with the parameter
/// list `params` and the body `body` on the argument expressions `args`.
fn invoke(
    kind: Form,
    params: &Expression,
    body: &Expression,
    args: &[Expression],
    stack: &Scope,
    budget: Option<usize>,
    Ghost(fuel): Ghost<nat>,
) -> (r: Option<Result<Expression, ErrorKind>>)
    requires
        kind == Form::Lambda || kind == Form::Macro,
        budget_ok(
            budget,
            fuel,
            invoke_spec(kind, params@, body@, values_of(args@), stack@, fuel),
        ),
    ensures
        evaluated(r) == invoke_spec(kind, params@, body@, values_of(args@), stack@, fuel),
    decreases fuel, 2nat, 0nat,
{
    let listed = match params {
        Expression::Atom(_) => {
            return Some(Err(ErrorKind::TypeMismatch(kind, Shape::List)));
        },
        Expression::List(list) => list.as_slice(),
    };
    if listed.len() != args.len() {
        return Some(Err(ErrorKind::ArityMismatch(kind, listed.len(), args.len())));
    }
    let names = match parameter_names(listed) {
        None => {
            return Some(Err(ErrorKind::TypeMismatch(kind, Shape::Atoms)));
        },
        Some(names) => names,
    };
    let ghost wanted = values_of(listed@);
    let ghost given = values_of(args@);
    let ghost whole = invoke_spec(kind, Sexp::List(wanted), body@, given, stack@, fuel);
    let ghost mut values: Seq<Sexp> = Seq::empty();
    let mut frame = Frame::new();
    let mut i: usize = 0;
    while i < args.len()
        invariant
            i <= args@.len(),
            kind == Form::Lambda || kind == Form::Macro,
            given == values_of(args@),
            params@ == Sexp::List(wanted),
            wanted.len() == given.len(),
            names@.len() == wanted.len(),
            forall|k: int| 0 <= k < names@.len() ==> (#[trigger] names@[k])@ == wanted[k]->Atom_0,
            all_atoms(wanted),
            whole == invoke_spec(kind, Sexp::List(wanted), body@, given, stack@, fuel),
            budget_ok(budget, fuel, whole),
            values.len() == i,
            kind == Form::Macro ==> values == given.subrange(0, i as int),
            kind == Form::Lambda ==> args_spec(given, stack@, fuel, i as nat) == Some(
                Ok::<Seq<Sexp>, Failure>(values),
            ),
            frame@ == bind(wanted, values, i as nat),
        decreases args@.len() - i,
    {
        let ghost before = values;
        let value = match kind {
            Form::Macro => args[i].clone(),
            _ => {
                proof {
                    if args_spec(given, stack@, fuel, (i + 1) as nat) is None {
                        lemma_args_stop(given, stack@, fuel, (i + 1) as nat, given.len());
                    }
                }
                match eval_inner(&args[i], stack, budget, Ghost(fuel)) {
                    Some(Ok(value)) => value,
                    other => {
                        proof {
                            lemma_args_stop(given, stack@, fuel, (i + 1) as nat, given.len());
                        }
                        return other;
                    },
                }
            },
        };
        proof {
            values = before.push(value@);
            lemma_bind_prefix(wanted, before, values, i as nat);
            if kind == Form::Macro {
            }
        }
        frame.bind(names[i].to_owned(), value);
        i += 1;
    }
    proof {
        if kind == Form::Macro {
            assert(values =~= given);
        }
    }
    let inner = Scope::Inner { frame: &frame, outer: stack };
    eval_inner(body, &inner, budget, Ghost(fuel))
}

/// The parameter list and the body of `target`, where it is a `lambda`.
fn lambda_parts<'a>(target: &'a Expression) -> (parts: Option<(&'a Expression, &'a Expression)>)
    ensures
        parts is Some == is_lambda(target@),
        parts matches Some((params, body)) ==> {
            &&& params@ == target@->List_0[1]
            &&& body@ == target@->List_0[2]
        },
{
    match target {
        Expression::Atom(_) => None,
        Expression::List(list) => {
            let items = list.as_slice();
            if items.len() != 3 {
                return None;
            }
            match &items[0] {
                Expression::List(_) => None,
                Expression::Atom(word) => {
                    if same_text(word.as_str(), "lambda") {
                        Some((&items[1], &items[2]))
                    } else {
                        None
                    }
                },
            }
        },
    }
}

/// Calls the list `func` as a function on the argument expressions
/// `args`.
fn apply(
    func: &List,
    args: &[Expression],
    stack: &Scope,
    budget: Option<usize>,
    Ghost(fuel): Ghost<nat>,
) -> (r: Option<Result<Expression, ErrorKind>>)
    requires
        budget_ok(budget, fuel, apply_spec(func@, values_of(args@), stack@, fuel)),
    ensures
        evaluated(r) == apply_spec(func@, values_of(args@), stack@, fuel),
    decreases fuel, 3nat, 0nat,
{
    let parts = func.as_slice();
    if parts.len() != 3 {
        return Some(Err(ErrorKind::NotCallable(Expression::List(func.clone()))));
    }
    match &parts[0] {
        Expression::List(_) => Some(Err(ErrorKind::NotCallable(Expression::List(func.clone())))),
        Expression::Atom(word) => {
            let word = word.as_str();
            if same_text(word, "lambda") {
                invoke(Form::Lambda, &parts[1], &parts[2], args, stack, budget, Ghost(fuel))
            } else if same_text(word, "macro") {
                invoke(Form::Macro, &parts[1], &parts[2], args, stack, budget, Ghost(fuel))
            } else if same_text(word, "label") {
                match &parts[1] {
                    Expression::List(_) => Some(
                        Err(ErrorKind::TypeMismatch(Form::Label, Shape::Atom)),
                    ),
                    Expression::Atom(name) => match lambda_parts(&parts[2]) {
                        None => Some(Err(ErrorKind::InvalidLabelTarget)),
                        Some((params, body)) => {
                            let mut frame = Frame::new();
                            frame.bind(name.as_str().to_owned(), Expression::List(func.clone()));
                            let inner = Scope::Inner { frame: &frame, outer: stack };
                            invoke(Form::Lambda, params, body, args, &inner, budget, Ghost(fuel))
                        },
                    },
                }
            } else {
                Some(Err(ErrorKind::NotCallable(Expression::List(func.clone()))))
            }
        },
    }
}

} // verus!
