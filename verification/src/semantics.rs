//! What evaluation means: a function from an expression, an environment and
//! a bound on the depth of nested evaluations to an outcome.

use crate::error::{Failure, Form, Shape};
use crate::expression::Sexp;
use vstd::prelude::*;

verus! {

/// One frame: the bindings that a single call introduced.
pub type Bindings = Map<Seq<char>, Sexp>;

/// The environment: frames in the order in which they were pushed, the
/// innermost last.
pub type Env = Seq<Map<Seq<char>, Sexp>>;

/// The atom `t`, which the predicates return for "true".
pub open spec fn truth() -> Sexp {
    Sexp::Atom("t"@)
}

/// The empty list, the only false value.
pub open spec fn nil() -> Sexp {
    Sexp::List(Seq::empty())
}

/// The value that the innermost frame binding `name` gives it.
pub open spec fn lookup(env: Env, name: Seq<char>) -> Option<Sexp>
    decreases env.len(),
{
    if env.len() == 0 {
        None
    } else if env.last().contains_key(name) {
        Some(env.last()[name])
    } else {
        lookup(env.drop_last(), name)
    }
}

/// Whether `eq` holds of two values: equal atoms, or two empty lists.
pub open spec fn same(left: Sexp, right: Sexp) -> bool {
    match (left, right) {
        (Sexp::Atom(a), Sexp::Atom(b)) => a == b,
        (Sexp::List(a), Sexp::List(b)) => a.len() == 0 && b.len() == 0,
        _ => false,
    }
}

/// `truth()` if `holds`, else `nil()`.
pub open spec fn truth_value(holds: bool) -> Sexp {
    if holds {
        truth()
    } else {
        nil()
    }
}

/// Whether every element of `items` is an atom.
pub open spec fn all_atoms(items: Seq<Sexp>) -> bool {
    forall|i: int| 0 <= i < items.len() ==> #[trigger] items[i] is Atom
}

/// The frame that binds the first `n` of `names` to the values at the same
/// places of `values`. Where a name occurs twice, the later place wins.
pub open spec fn bind(names: Seq<Sexp>, values: Seq<Sexp>, n: nat) -> Bindings
    decreases n,
{
    if n == 0 {
        Map::empty()
    } else {
        let k = (n - 1) as nat;
        bind(names, values, k).insert(names[k as int]->Atom_0, values[k as int])
    }
}

/// Whether `target` may stand as the third element of a `label`: a list of
/// three elements whose first is the atom `lambda`.
pub open spec fn is_lambda(target: Sexp) -> bool {
    &&& target matches Sexp::List(parts)
    &&& parts.len() == 3
    &&& parts[0] matches Sexp::Atom(kind)
    &&& kind == "lambda"@
}

/// The outcome of evaluating `e` in `env` with nested evaluations at most
/// `fuel` deep: `None` where that depth is not enough, else the value or
/// the first failure.
pub open spec fn eval_spec(e: Sexp, env: Env, fuel: nat) -> Option<Result<Sexp, Failure>>
    decreases fuel, 0nat, 0nat,
{
    if fuel == 0 {
        None
    } else {
        let rest = (fuel - 1) as nat;
        match e {
            Sexp::Atom(name) => match lookup(env, name) {
                Some(value) => Some(Ok(value)),
                None => Some(Err(Failure::UnboundSymbol(name))),
            },
            Sexp::List(items) => if items.len() == 0 {
                Some(Err(Failure::EmptyListEvaluated))
            } else {
                let args = items.subrange(1, items.len() as int);
                match items[0] {
                    Sexp::List(func) => apply_spec(func, args, env, rest),
                    Sexp::Atom(head) => if head == "quote"@ {
                        quote_spec(args)
                    } else if head == "atom"@ {
                        atom_spec(args, env, rest)
                    } else if head == "eq"@ {
                        eq_spec(args, env, rest)
                    } else if head == "car"@ {
                        car_spec(args, env, rest)
                    } else if head == "cdr"@ {
                        cdr_spec(args, env, rest)
                    } else if head == "cons"@ {
                        cons_spec(args, env, rest)
                    } else if head == "cond"@ {
                        cond_spec(args, env, rest)
                    } else {
                        match lookup(env, head) {
                            Some(Sexp::List(func)) => apply_spec(func, args, env, rest),
                            Some(Sexp::Atom(name)) => Some(
                                Err(Failure::NotCallable(Sexp::Atom(name))),
                            ),
                            None => Some(Err(Failure::UnboundSymbol(head))),
                        }
                    },
                }
            },
        }
    }
}

/// `quote`: its one argument, as it stands.
pub open spec fn quote_spec(args: Seq<Sexp>) -> Option<Result<Sexp, Failure>> {
    if args.len() != 1 {
        Some(Err(Failure::ArityMismatch(Form::Quote, 1, args.len())))
    } else {
        Some(Ok(args[0]))
    }
}

/// `atom`: whether the value of its one argument is an atom.
pub open spec fn atom_spec(args: Seq<Sexp>, env: Env, fuel: nat) -> Option<Result<Sexp, Failure>>
    decreases fuel, 2nat, 0nat,
{
    if args.len() != 1 {
        Some(Err(Failure::ArityMismatch(Form::Atom, 1, args.len())))
    } else {
        match eval_spec(args[0], env, fuel) {
            Some(Ok(value)) => Some(Ok(truth_value(value is Atom))),
            other => other,
        }
    }
}

/// `eq`: whether the values of its two arguments are the same atom, or
/// both the empty list.
pub open spec fn eq_spec(args: Seq<Sexp>, env: Env, fuel: nat) -> Option<Result<Sexp, Failure>>
    decreases fuel, 2nat, 0nat,
{
    if args.len() != 2 {
        Some(Err(Failure::ArityMismatch(Form::Eq, 2, args.len())))
    } else {
        match eval_spec(args[0], env, fuel) {
            Some(Ok(left)) => match eval_spec(args[1], env, fuel) {
                Some(Ok(right)) => Some(Ok(truth_value(same(left, right)))),
                other => other,
            },
            other => other,
        }
    }
}

/// `car`: the first element of the value of its one argument, which must
/// be a list that has one.
pub open spec fn car_spec(args: Seq<Sexp>, env: Env, fuel: nat) -> Option<Result<Sexp, Failure>>
    decreases fuel, 2nat, 0nat,
{
    if args.len() != 1 {
        Some(Err(Failure::ArityMismatch(Form::Car, 1, args.len())))
    } else {
        match eval_spec(args[0], env, fuel) {
            Some(Ok(Sexp::List(items))) => if items.len() == 0 {
                Some(Err(Failure::TypeMismatch(Form::Car, Shape::NonEmptyList)))
            } else {
                Some(Ok(items[0]))
            },
            Some(Ok(Sexp::Atom(_))) => Some(Err(Failure::TypeMismatch(Form::Car, Shape::List))),
            other => other,
        }
    }
}

/// `cdr`: the value of its one argument, which must be a list with a first
/// element, without that element.
pub open spec fn cdr_spec(args: Seq<Sexp>, env: Env, fuel: nat) -> Option<Result<Sexp, Failure>>
    decreases fuel, 2nat, 0nat,
{
    if args.len() != 1 {
        Some(Err(Failure::ArityMismatch(Form::Cdr, 1, args.len())))
    } else {
        match eval_spec(args[0], env, fuel) {
            Some(Ok(Sexp::List(items))) => if items.len() == 0 {
                Some(Err(Failure::TypeMismatch(Form::Cdr, Shape::NonEmptyList)))
            } else {
                Some(Ok(Sexp::List(items.subrange(1, items.len() as int))))
            },
            Some(Ok(Sexp::Atom(_))) => Some(Err(Failure::TypeMismatch(Form::Cdr, Shape::List))),
            other => other,
        }
    }
}

/// `cons`: the value of its second argument, which must be a list, with
/// the value of its first, which must be an atom, put in front.
pub open spec fn cons_spec(args: Seq<Sexp>, env: Env, fuel: nat) -> Option<Result<Sexp, Failure>>
    decreases fuel, 2nat, 0nat,
{
    if args.len() != 2 {
        Some(Err(Failure::ArityMismatch(Form::Cons, 2, args.len())))
    } else {
        match eval_spec(args[0], env, fuel) {
            Some(Ok(head)) => match eval_spec(args[1], env, fuel) {
                Some(Ok(tail)) => match (head, tail) {
                    (Sexp::Atom(_), Sexp::List(items)) => Some(Ok(Sexp::List(seq![head] + items))),
                    _ => Some(Err(Failure::TypeMismatch(Form::Cons, Shape::AtomAndList))),
                },
                other => other,
            },
            other => other,
        }
    }
}

/// `cond`: at least one clause, tried from the first.
pub open spec fn cond_spec(args: Seq<Sexp>, env: Env, fuel: nat) -> Option<Result<Sexp, Failure>>
    decreases fuel, 2nat, 0nat,
{
    if args.len() == 0 {
        Some(Err(Failure::ArityMismatch(Form::Cond, 1, 0)))
    } else {
        clauses_spec(args, env, fuel, 0)
    }
}

/// The outcome of a `cond` whose clauses from place `i` on are still to be
/// tried: the second element of the first clause whose first element
/// evaluates to an atom.
pub open spec fn clauses_spec(clauses: Seq<Sexp>, env: Env, fuel: nat, i: nat) -> Option<
    Result<Sexp, Failure>,
>
    decreases fuel, 1nat, clauses.len() - i,
{
    if i >= clauses.len() {
        Some(Err(Failure::NoCondMatched))
    } else {
        match clauses[i as int] {
            Sexp::Atom(_) => Some(Err(Failure::MalformedCondClause)),
            Sexp::List(pair) => if pair.len() != 2 {
                Some(Err(Failure::MalformedCondClause))
            } else {
                match eval_spec(pair[0], env, fuel) {
                    Some(Ok(Sexp::Atom(_))) => eval_spec(pair[1], env, fuel),
                    Some(Ok(Sexp::List(_))) => clauses_spec(clauses, env, fuel, i + 1),
                    other => other,
                }
            },
        }
    }
}

/// The values of the first `n` of `args`, evaluated from the left, or the
/// first failure among them.
pub open spec fn args_spec(args: Seq<Sexp>, env: Env, fuel: nat, n: nat) -> Option<
    Result<Seq<Sexp>, Failure>,
>
    decreases fuel, 1nat, n,
{
    if n == 0 {
        Some(Ok(Seq::empty()))
    } else {
        let k = (n - 1) as nat;
        match args_spec(args, env, fuel, k) {
            Some(Ok(values)) => match eval_spec(args[k as int], env, fuel) {
                Some(Ok(value)) => Some(Ok(values.push(value))),
                Some(Err(failure)) => Some(Err(failure)),
                None => None,
            },
            other => other,
        }
    }
}

/// The outcome of calling a `lambda` or a `macro` (`kind` says which) with
/// parameter list `params` and body `body` on the argument expressions
/// `args`. A `lambda` evaluates them in `env`, a `macro` binds them as they
/// stand; the body is evaluated in `env` extended by the new frame.
pub open spec fn invoke_spec(
    kind: Form,
    params: Sexp,
    body: Sexp,
    args: Seq<Sexp>,
    env: Env,
    fuel: nat,
) -> Option<Result<Sexp, Failure>>
    decreases fuel, 2nat, 0nat,
{
    match params {
        Sexp::Atom(_) => Some(Err(Failure::TypeMismatch(kind, Shape::List))),
        Sexp::List(names) => if names.len() != args.len() {
            Some(Err(Failure::ArityMismatch(kind, names.len(), args.len())))
        } else if !all_atoms(names) {
            Some(Err(Failure::TypeMismatch(kind, Shape::Atoms)))
        } else if kind == Form::Macro {
            eval_spec(body, env.push(bind(names, args, names.len())), fuel)
        } else {
            match args_spec(args, env, fuel, args.len()) {
                Some(Ok(values)) => eval_spec(
                    body,
                    env.push(bind(names, values, names.len())),
                    fuel,
                ),
                Some(Err(failure)) => Some(Err(failure)),
                None => None,
            }
        },
    }
}

/// The outcome of calling the list `func` as a function on the argument
/// expressions `args`. A function is a list of three elements that starts
/// with `lambda`, `macro` or `label`. A `label` binds its name to itself in
/// a frame of its own and then calls its `lambda`.
pub open spec fn apply_spec(func: Seq<Sexp>, args: Seq<Sexp>, env: Env, fuel: nat) -> Option<
    Result<Sexp, Failure>,
>
    decreases fuel, 3nat, 0nat,
{
    if func.len() != 3 {
        Some(Err(Failure::NotCallable(Sexp::List(func))))
    } else {
        match func[0] {
            Sexp::List(_) => Some(Err(Failure::NotCallable(Sexp::List(func)))),
            Sexp::Atom(word) => if word == "lambda"@ {
                invoke_spec(Form::Lambda, func[1], func[2], args, env, fuel)
            } else if word == "macro"@ {
                invoke_spec(Form::Macro, func[1], func[2], args, env, fuel)
            } else if word == "label"@ {
                match func[1] {
                    Sexp::List(_) => Some(Err(Failure::TypeMismatch(Form::Label, Shape::Atom))),
                    Sexp::Atom(name) => if !is_lambda(func[2]) {
                        Some(Err(Failure::InvalidLabelTarget))
                    } else {
                        let target = func[2]->List_0;
                        invoke_spec(
                            Form::Lambda,
                            target[1],
                            target[2],
                            args,
                            env.push(Map::empty().insert(name, Sexp::List(func))),
                            fuel,
                        )
                    },
                }
            } else {
                Some(Err(Failure::NotCallable(Sexp::List(func))))
            },
        }
    }
}

/// The frame of the first `n` names looks at no value behind them.
pub proof fn lemma_bind_prefix(names: Seq<Sexp>, a: Seq<Sexp>, b: Seq<Sexp>, n: nat)
    requires
        n <= a.len(),
        n <= b.len(),
        forall|i: int| 0 <= i < n ==> a[i] == b[i],
    ensures
        bind(names, a, n) == bind(names, b, n),
    decreases n,
{
    if n > 0 {
        lemma_bind_prefix(names, a, b, (n - 1) as nat);
    }
}

/// Once the evaluation of the arguments has stopped, at a failure or for
/// want of depth, later arguments change nothing.
pub proof fn lemma_args_stop(args: Seq<Sexp>, env: Env, fuel: nat, m: nat, n: nat)
    requires
        m <= n,
        !(args_spec(args, env, fuel, m) matches Some(Ok(_))),
    ensures
        args_spec(args, env, fuel, n) == args_spec(args, env, fuel, m),
    decreases n,
{
    if m < n {
        lemma_args_stop(args, env, fuel, m, (n - 1) as nat);
    }
}

/// Whether the evaluation of `e` in `env` comes to an end.
pub open spec fn terminates(e: Sexp, env: Env) -> bool {
    exists|fuel: nat| (#[trigger] eval_spec(e, env, fuel)) is Some
}

/// The outcome of evaluating `e` in `env`, where that evaluation comes to
/// an end.
pub open spec fn result_of(e: Sexp, env: Env) -> Result<Sexp, Failure>
    recommends
        terminates(e, env),
{
    let fuel = choose|fuel: nat| (#[trigger] eval_spec(e, env, fuel)) is Some;
    eval_spec(e, env, fuel)->Some_0
}

} // verus!
