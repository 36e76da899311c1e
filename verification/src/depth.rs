//! The depth bound does not change what is computed: an evaluation that
//! finishes within one depth finishes within every greater one, with the
//! same outcome.

use crate::error::Form;
use crate::expression::Sexp;
use crate::semantics::{
    all_atoms, apply_spec, args_spec, atom_spec, bind, car_spec, cdr_spec, clauses_spec,
    cond_spec, cons_spec, eq_spec, eval_spec, invoke_spec, is_lambda, lookup, result_of,
    terminates, Env,
};
use vstd::prelude::*;

verus! {

/// An evaluation that finishes within depth `fuel` has the same outcome
/// within every depth `more` that is at least `fuel`.
pub proof fn lemma_eval_monotone(e: Sexp, env: Env, fuel: nat, more: nat)
    requires
        fuel <= more,
        eval_spec(e, env, fuel) is Some,
    ensures
        eval_spec(e, env, more) == eval_spec(e, env, fuel),
    decreases fuel, 0nat, 0nat,
{
    let rest = (fuel - 1) as nat;
    let most = (more - 1) as nat;
    match e {
        Sexp::Atom(_) => {},
        Sexp::List(items) => {
            if items.len() > 0 {
                let args = items.subrange(1, items.len() as int);
                match items[0] {
                    Sexp::List(func) => lemma_apply_monotone(func, args, env, rest, most),
                    Sexp::Atom(head) => {
                        if head == "quote"@ {
                        } else if head == "atom"@ {
                            lemma_atom_monotone(args, env, rest, most);
                        } else if head == "eq"@ {
                            lemma_eq_monotone(args, env, rest, most);
                        } else if head == "car"@ {
                            lemma_car_monotone(args, env, rest, most);
                        } else if head == "cdr"@ {
                            lemma_cdr_monotone(args, env, rest, most);
                        } else if head == "cons"@ {
                            lemma_cons_monotone(args, env, rest, most);
                        } else if head == "cond"@ {
                            lemma_cond_monotone(args, env, rest, most);
                        } else {
                            match lookup(env, head) {
                                Some(Sexp::List(func)) => lemma_apply_monotone(
                                    func,
                                    args,
                                    env,
                                    rest,
                                    most,
                                ),
                                _ => {},
                            }
                        }
                    },
                }
            }
        },
    }
}

proof fn lemma_atom_monotone(args: Seq<Sexp>, env: Env, fuel: nat, more: nat)
    requires
        fuel <= more,
        atom_spec(args, env, fuel) is Some,
    ensures
        atom_spec(args, env, more) == atom_spec(args, env, fuel),
    decreases fuel, 2nat, 0nat,
{
    if args.len() == 1 {
        lemma_eval_monotone(args[0], env, fuel, more);
    }
}

proof fn lemma_eq_monotone(args: Seq<Sexp>, env: Env, fuel: nat, more: nat)
    requires
        fuel <= more,
        eq_spec(args, env, fuel) is Some,
    ensures
        eq_spec(args, env, more) == eq_spec(args, env, fuel),
    decreases fuel, 2nat, 0nat,
{
    if args.len() == 2 {
        lemma_eval_monotone(args[0], env, fuel, more);
        if eval_spec(args[0], env, fuel) matches Some(Ok(_)) {
            lemma_eval_monotone(args[1], env, fuel, more);
        }
    }
}

proof fn lemma_car_monotone(args: Seq<Sexp>, env: Env, fuel: nat, more: nat)
    requires
        fuel <= more,
        car_spec(args, env, fuel) is Some,
    ensures
        car_spec(args, env, more) == car_spec(args, env, fuel),
    decreases fuel, 2nat, 0nat,
{
    if args.len() == 1 {
        lemma_eval_monotone(args[0], env, fuel, more);
    }
}

proof fn lemma_cdr_monotone(args: Seq<Sexp>, env: Env, fuel: nat, more: nat)
    requires
        fuel <= more,
        cdr_spec(args, env, fuel) is Some,
    ensures
        cdr_spec(args, env, more) == cdr_spec(args, env, fuel),
    decreases fuel, 2nat, 0nat,
{
    if args.len() == 1 {
        lemma_eval_monotone(args[0], env, fuel, more);
    }
}

proof fn lemma_cons_monotone(args: Seq<Sexp>, env: Env, fuel: nat, more: nat)
    requires
        fuel <= more,
        cons_spec(args, env, fuel) is Some,
    ensures
        cons_spec(args, env, more) == cons_spec(args, env, fuel),
    decreases fuel, 2nat, 0nat,
{
    if args.len() == 2 {
        lemma_eval_monotone(args[0], env, fuel, more);
        if eval_spec(args[0], env, fuel) matches Some(Ok(_)) {
            lemma_eval_monotone(args[1], env, fuel, more);
        }
    }
}

proof fn lemma_cond_monotone(args: Seq<Sexp>, env: Env, fuel: nat, more: nat)
    requires
        fuel <= more,
        cond_spec(args, env, fuel) is Some,
    ensures
        cond_spec(args, env, more) == cond_spec(args, env, fuel),
    decreases fuel, 2nat, 0nat,
{
    if args.len() > 0 {
        lemma_clauses_monotone(args, env, fuel, more, 0);
    }
}

proof fn lemma_clauses_monotone(clauses: Seq<Sexp>, env: Env, fuel: nat, more: nat, i: nat)
    requires
        fuel <= more,
        clauses_spec(clauses, env, fuel, i) is Some,
    ensures
        clauses_spec(clauses, env, more, i) == clauses_spec(clauses, env, fuel, i),
    decreases fuel, 1nat, clauses.len() - i,
{
    if i < clauses.len() {
        match clauses[i as int] {
            Sexp::Atom(_) => {},
            Sexp::List(pair) => {
                if pair.len() == 2 {
                    lemma_eval_monotone(pair[0], env, fuel, more);
                    match eval_spec(pair[0], env, fuel) {
                        Some(Ok(Sexp::Atom(_))) => lemma_eval_monotone(pair[1], env, fuel, more),
                        Some(Ok(Sexp::List(_))) => lemma_clauses_monotone(
                            clauses,
                            env,
                            fuel,
                            more,
                            i + 1,
                        ),
                        _ => {},
                    }
                }
            },
        }
    }
}

proof fn lemma_args_monotone(args: Seq<Sexp>, env: Env, fuel: nat, more: nat, n: nat)
    requires
        fuel <= more,
        args_spec(args, env, fuel, n) is Some,
    ensures
        args_spec(args, env, more, n) == args_spec(args, env, fuel, n),
    decreases fuel, 1nat, n,
{
    if n > 0 {
        let k = (n - 1) as nat;
        lemma_args_monotone(args, env, fuel, more, k);
        if args_spec(args, env, fuel, k) matches Some(Ok(_)) {
            lemma_eval_monotone(args[k as int], env, fuel, more);
        }
    }
}

proof fn lemma_invoke_monotone(
    kind: Form,
    params: Sexp,
    body: Sexp,
    args: Seq<Sexp>,
    env: Env,
    fuel: nat,
    more: nat,
)
    requires
        fuel <= more,
        invoke_spec(kind, params, body, args, env, fuel) is Some,
    ensures
        invoke_spec(kind, params, body, args, env, more) == invoke_spec(
            kind,
            params,
            body,
            args,
            env,
            fuel,
        ),
    decreases fuel, 2nat, 0nat,
{
    match params {
        Sexp::Atom(_) => {},
        Sexp::List(names) => {
            if names.len() == args.len() && all_atoms(names) {
                if kind == Form::Macro {
                    lemma_eval_monotone(
                        body,
                        env.push(bind(names, args, names.len())),
                        fuel,
                        more,
                    );
                } else {
                    lemma_args_monotone(args, env, fuel, more, args.len());
                    match args_spec(args, env, fuel, args.len()) {
                        Some(Ok(values)) => lemma_eval_monotone(
                            body,
                            env.push(bind(names, values, names.len())),
                            fuel,
                            more,
                        ),
                        _ => {},
                    }
                }
            }
        },
    }
}

proof fn lemma_apply_monotone(func: Seq<Sexp>, args: Seq<Sexp>, env: Env, fuel: nat, more: nat)
    requires
        fuel <= more,
        apply_spec(func, args, env, fuel) is Some,
    ensures
        apply_spec(func, args, env, more) == apply_spec(func, args, env, fuel),
    decreases fuel, 3nat, 0nat,
{
    if func.len() == 3 {
        match func[0] {
            Sexp::List(_) => {},
            Sexp::Atom(word) => {
                if word == "lambda"@ {
                    lemma_invoke_monotone(Form::Lambda, func[1], func[2], args, env, fuel, more);
                } else if word == "macro"@ {
                    lemma_invoke_monotone(Form::Macro, func[1], func[2], args, env, fuel, more);
                } else if word == "label"@ {
                    match func[1] {
                        Sexp::List(_) => {},
                        Sexp::Atom(name) => {
                            if is_lambda(func[2]) {
                                let target = func[2]->List_0;
                                lemma_invoke_monotone(
                                    Form::Lambda,
                                    target[1],
                                    target[2],
                                    args,
                                    env.push(Map::empty().insert(name, Sexp::List(func))),
                                    fuel,
                                    more,
                                );
                            }
                        },
                    }
                }
            },
        }
    }
}

/// Where an evaluation finishes within some depth, it comes to an end, and
/// its outcome is the one found within that depth.
pub proof fn lemma_result_of(e: Sexp, env: Env, fuel: nat)
    requires
        eval_spec(e, env, fuel) is Some,
    ensures
        terminates(e, env),
        eval_spec(e, env, fuel) == Some(result_of(e, env)),
{
    let chosen = choose|fuel: nat| (#[trigger] eval_spec(e, env, fuel)) is Some;
    if chosen <= fuel {
        lemma_eval_monotone(e, env, chosen, fuel);
    } else {
        lemma_eval_monotone(e, env, fuel, chosen);
    }
}

} // verus!
