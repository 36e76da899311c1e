//! What holds of every evaluation.

use crate::depth::lemma_result_of;
use crate::error::{Failure, Form};
use crate::expression::Sexp;
use crate::semantics::{
    all_atoms, apply_spec, args_spec, atom_spec, bind, car_spec, cdr_spec, cond_spec,
    cons_spec, eq_spec, eval_spec, lookup, quote_spec, result_of, terminates, Env,
};
use vstd::prelude::*;

verus! {

/// The call of `head` on the argument expressions `args`.
pub open spec fn call(head: Sexp, args: Seq<Sexp>) -> Sexp {
    Sexp::List(seq![head] + args)
}

/// The `lambda` with the parameters `names` and the body `body`.
pub open spec fn lambda(names: Seq<Sexp>, body: Sexp) -> Sexp {
    Sexp::List(seq![Sexp::Atom("lambda"@), Sexp::List(names), body])
}

/// The `macro` with the parameters `names` and the body `body`.
pub open spec fn macro_of(names: Seq<Sexp>, body: Sexp) -> Sexp {
    Sexp::List(seq![Sexp::Atom("macro"@), Sexp::List(names), body])
}

/// The number of arguments that the primitive form `name` takes, with the
/// form; `cond`, which takes any number but none, is not among them.
pub open spec fn fixed_arity(name: Seq<char>) -> Option<(Form, nat)> {
    if name == "quote"@ {
        Some((Form::Quote, 1))
    } else if name == "atom"@ {
        Some((Form::Atom, 1))
    } else if name == "eq"@ {
        Some((Form::Eq, 2))
    } else if name == "car"@ {
        Some((Form::Car, 1))
    } else if name == "cdr"@ {
        Some((Form::Cdr, 1))
    } else if name == "cons"@ {
        Some((Form::Cons, 2))
    } else {
        None
    }
}

/// The names of the primitive forms differ from one another.
proof fn lemma_names_differ()
    ensures
        "quote"@ != "atom"@,
        "quote"@ != "eq"@,
        "quote"@ != "car"@,
        "quote"@ != "cdr"@,
        "quote"@ != "cons"@,
        "quote"@ != "cond"@,
        "atom"@ != "eq"@,
        "atom"@ != "car"@,
        "atom"@ != "cdr"@,
        "atom"@ != "cons"@,
        "atom"@ != "cond"@,
        "eq"@ != "car"@,
        "eq"@ != "cdr"@,
        "eq"@ != "cons"@,
        "eq"@ != "cond"@,
        "car"@ != "cdr"@,
        "car"@ != "cons"@,
        "car"@ != "cond"@,
        "cdr"@ != "cons"@,
        "cdr"@ != "cond"@,
        "cons"@ != "cond"@,
        "lambda"@ != "macro"@,
{
    reveal_strlit("quote");
    reveal_strlit("atom");
    reveal_strlit("eq");
    reveal_strlit("car");
    reveal_strlit("cdr");
    reveal_strlit("cons");
    reveal_strlit("cond");
    reveal_strlit("lambda");
    reveal_strlit("macro");
    assert("quote"@.len() == 5 && "atom"@.len() == 4 && "eq"@.len() == 2);
    assert("cond"@.len() == 4 && "lambda"@.len() == 6 && "macro"@.len() == 5);
    assert("car"@[1] != "cdr"@[1]);
    assert("cons"@[3] != "cond"@[3]);
}

/// A list whose first element is the name of a primitive form means that
/// form on the other elements, whatever the environment binds the name to.
pub proof fn lemma_reserved_names(name: Seq<char>, args: Seq<Sexp>, env: Env, fuel: nat)
    requires
        fuel > 0,
    ensures
        name == "quote"@ ==> eval_spec(call(Sexp::Atom(name), args), env, fuel) == quote_spec(
            args,
        ),
        name == "atom"@ ==> eval_spec(call(Sexp::Atom(name), args), env, fuel) == atom_spec(
            args,
            env,
            (fuel - 1) as nat,
        ),
        name == "eq"@ ==> eval_spec(call(Sexp::Atom(name), args), env, fuel) == eq_spec(
            args,
            env,
            (fuel - 1) as nat,
        ),
        name == "car"@ ==> eval_spec(call(Sexp::Atom(name), args), env, fuel) == car_spec(
            args,
            env,
            (fuel - 1) as nat,
        ),
        name == "cdr"@ ==> eval_spec(call(Sexp::Atom(name), args), env, fuel) == cdr_spec(
            args,
            env,
            (fuel - 1) as nat,
        ),
        name == "cons"@ ==> eval_spec(call(Sexp::Atom(name), args), env, fuel) == cons_spec(
            args,
            env,
            (fuel - 1) as nat,
        ),
        name == "cond"@ ==> eval_spec(call(Sexp::Atom(name), args), env, fuel) == cond_spec(
            args,
            env,
            (fuel - 1) as nat,
        ),
{
    lemma_names_differ();
    let items = seq![Sexp::Atom(name)] + args;
    assert(items.subrange(1, items.len() as int) =~= args);
}

/// `(quote x)` is `x`, not evaluated, in every environment.
pub proof fn lemma_quote(x: Sexp, env: Env)
    ensures
        terminates(call(Sexp::Atom("quote"@), seq![x]), env),
        result_of(call(Sexp::Atom("quote"@), seq![x]), env) == Ok::<Sexp, Failure>(x),
        forall|fuel: nat|
            fuel > 0 ==> #[trigger] eval_spec(call(Sexp::Atom("quote"@), seq![x]), env, fuel)
                == Some(Ok::<Sexp, Failure>(x)),
{
    let e = call(Sexp::Atom("quote"@), seq![x]);
    assert forall|fuel: nat| fuel > 0 implies #[trigger] eval_spec(e, env, fuel) == Some(
        Ok::<Sexp, Failure>(x),
    ) by {
        lemma_reserved_names("quote"@, seq![x], env, fuel);
    }
    lemma_result_of(e, env, 1);
}

/// A primitive form that takes a fixed number of arguments fails with
/// `ArityMismatch` on every other number of them, and evaluates none.
pub proof fn lemma_arity_of_forms(name: Seq<char>, args: Seq<Sexp>, env: Env)
    requires
        fixed_arity(name) matches Some((_, wanted)) && args.len() != wanted,
    ensures
        terminates(call(Sexp::Atom(name), args), env),
        result_of(call(Sexp::Atom(name), args), env) == Err::<Sexp, Failure>(
            Failure::ArityMismatch(fixed_arity(name)->Some_0.0, fixed_arity(name)->Some_0.1, args.len()),
        ),
{
    let e = call(Sexp::Atom(name), args);
    lemma_reserved_names(name, args, env, 1);
    lemma_result_of(e, env, 1);
}

/// `cond` without a clause fails with `ArityMismatch`.
pub proof fn lemma_arity_of_cond(env: Env)
    ensures
        terminates(call(Sexp::Atom("cond"@), Seq::empty()), env),
        result_of(call(Sexp::Atom("cond"@), Seq::empty()), env) == Err::<Sexp, Failure>(
            Failure::ArityMismatch(Form::Cond, 1, 0),
        ),
{
    let e = call(Sexp::Atom("cond"@), Seq::empty());
    lemma_reserved_names("cond"@, Seq::empty(), env, 1);
    lemma_result_of(e, env, 1);
}

/// A `lambda` or a `macro` called on another number of arguments than it
/// has parameters fails with `ArityMismatch`, and evaluates none of them.
pub proof fn lemma_arity_of_functions(names: Seq<Sexp>, body: Sexp, args: Seq<Sexp>, env: Env)
    requires
        names.len() != args.len(),
    ensures
        terminates(call(lambda(names, body), args), env),
        result_of(call(lambda(names, body), args), env) == Err::<Sexp, Failure>(
            Failure::ArityMismatch(Form::Lambda, names.len(), args.len()),
        ),
        terminates(call(macro_of(names, body), args), env),
        result_of(call(macro_of(names, body), args), env) == Err::<Sexp, Failure>(
            Failure::ArityMismatch(Form::Macro, names.len(), args.len()),
        ),
{
    lemma_names_differ();
    let f = call(lambda(names, body), args);
    let items = seq![lambda(names, body)] + args;
    assert(items.subrange(1, items.len() as int) =~= args);
    lemma_result_of(f, env, 1);
    let m = call(macro_of(names, body), args);
    let items = seq![macro_of(names, body)] + args;
    assert(items.subrange(1, items.len() as int) =~= args);
    assert(eval_spec(m, env, 1) == apply_spec(macro_of(names, body)->List_0, args, env, 0));
    lemma_result_of(m, env, 1);
}

/// A frame binds no name but those of its parameters.
pub proof fn lemma_bind_domain(names: Seq<Sexp>, values: Seq<Sexp>, n: nat, name: Seq<char>)
    requires
        n <= names.len(),
        forall|i: int| 0 <= i < n ==> names[i] != Sexp::Atom(name),
        all_atoms(names),
    ensures
        !bind(names, values, n).contains_key(name),
    decreases n,
{
    if n > 0 {
        lemma_bind_domain(names, values, (n - 1) as nat, name);
    }
}

/// Scoping is dynamic. A `lambda` whose body is a name that is none of its
/// parameters, called in the environment `env` on arguments that have
/// values there, gives what `env` binds the name to: the environment of
/// the call, not one of the place where the `lambda` was written.
pub proof fn lemma_dynamic_scope(
    names: Seq<Sexp>,
    free: Seq<char>,
    args: Seq<Sexp>,
    env: Env,
    fuel: nat,
)
    requires
        fuel > 0,
        all_atoms(names),
        names.len() == args.len(),
        forall|i: int| 0 <= i < names.len() ==> names[i] != Sexp::Atom(free),
        args_spec(args, env, fuel, args.len()) matches Some(Ok(_)),
    ensures
        terminates(call(lambda(names, Sexp::Atom(free)), args), env),
        result_of(call(lambda(names, Sexp::Atom(free)), args), env) == match lookup(env, free) {
            Some(value) => Ok::<Sexp, Failure>(value),
            None => Err(Failure::UnboundSymbol(free)),
        },
{
    let f = lambda(names, Sexp::Atom(free));
    let e = call(f, args);
    let items = seq![f] + args;
    assert(items.subrange(1, items.len() as int) =~= args);
    let values = args_spec(args, env, fuel, args.len())->Some_0->Ok_0;
    let frame = bind(names, values, names.len());
    lemma_bind_domain(names, values, names.len(), free);
    let inner = env.push(frame);
    assert(inner.drop_last() =~= env);
    assert(eval_spec(e, env, fuel + 1) == apply_spec(f->List_0, args, env, fuel));
    lemma_result_of(e, env, fuel + 1);
}

} // verus!
