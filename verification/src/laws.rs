//! General properties of the interpreter, stated over the specification
//! functions that the public contracts use and proved once and for all.

use crate::environment::{
    env_def, env_lookup, first_key_idx, scope_def, scope_lookup, scope_lookup_from, EnvV, ScopeV,
};
use crate::error::ErrorV;
use crate::eval::{
    arith_type_error, bool_op_spec, divide_spec, eval_elems_spec, eval_spec, minus_spec,
    not_spec, plus_spec, truthy, TblV,
};
use crate::parser::{int_dec, parse_spec, u_dec, ExpV, FuncV, RispBuiltinFunction};
use crate::tokenizer::{
    classify_spec, digits_val, has_escape, has_sign, int_frag_val, is_digit, is_int_frag,
    strip_sign, tokenize_spec, TokenV,
};
use vstd::prelude::*;

verus! {

/// A value that evaluates to itself whatever the environment: anything but
/// a symbol or a list.
pub open spec fn is_literal(v: ExpV) -> bool {
    !(v is Symbol) && !(v is List)
}

proof fn lemma_first_key_bounds(sc: ScopeV, name: Seq<char>, i: int)
    requires
        0 <= i,
        first_key_idx(sc, name, i) is Some,
    ensures
        i <= first_key_idx(sc, name, i)->Some_0 < sc.len(),
    decreases sc.len() - i,
{
    if i < sc.len() && !(sc[i].0 == name) {
        lemma_first_key_bounds(sc, name, i + 1);
    }
}

proof fn lemma_scope_lookup_update(sc: ScopeV, name: Seq<char>, v: ExpV, j: int, i: int)
    requires
        first_key_idx(sc, name, i) == Some(j),
        0 <= i <= j,
    ensures
        scope_lookup_from(sc.update(j, (name, v)), name, i) == Some(v),
    decreases j - i,
{
    lemma_first_key_bounds(sc, name, i);
    if i < j {
        lemma_scope_lookup_update(sc, name, v, j, i + 1);
    }
}

proof fn lemma_scope_lookup_push(sc: ScopeV, name: Seq<char>, v: ExpV, i: int)
    requires
        first_key_idx(sc, name, i) is None,
        0 <= i <= sc.len(),
    ensures
        scope_lookup_from(sc.push((name, v)), name, i) == Some(v),
    decreases sc.len() - i,
{
    if i < sc.len() {
        lemma_scope_lookup_push(sc, name, v, i + 1);
    }
}

/// After a binding is written into a scope, looking the name up finds
/// exactly that binding.
pub proof fn lemma_scope_def_lookup(sc: ScopeV, name: Seq<char>, v: ExpV)
    ensures
        scope_lookup(scope_def(sc, name, v), name) == Some(v),
{
    match first_key_idx(sc, name, 0) {
        Some(j) => {
            lemma_first_key_bounds(sc, name, 0);
            lemma_scope_lookup_update(sc, name, v, j, 0);
        },
        None => {
            lemma_scope_lookup_push(sc, name, v, 0);
        },
    }
}

/// `def` followed by a lookup of the same name yields the bound value,
/// whatever the environment held before.
pub proof fn lemma_env_def_lookup(env: EnvV, name: Seq<char>, v: ExpV)
    requires
        env.len() >= 1,
    ensures
        env_lookup(env_def(env, name, v), name) == Some(v),
{
    let env2 = env_def(env, name, v);
    lemma_scope_def_lookup(env[env.len() - 1], name, v);
    assert(env2[env2.len() - 1] == scope_def(env[env.len() - 1], name, v));
}

/// Evaluating a run of literals returns them unchanged and leaves the
/// environment alone.
pub proof fn lemma_eval_literals(fuel: nat, forms: Seq<ExpV>, i: int, env: EnvV, tbl: TblV)
    requires
        fuel >= 2,
        0 <= i <= forms.len(),
        forall|j: int| i <= j < forms.len() ==> is_literal(#[trigger] forms[j]),
    ensures
        eval_elems_spec(fuel, forms, i, env, tbl) == Ok::<(Seq<ExpV>, EnvV), (ErrorV, EnvV)>(
            (forms.skip(i), env),
        ),
    decreases forms.len() - i,
{
    if i >= forms.len() {
        assert(forms.skip(i) =~= Seq::<ExpV>::empty());
    } else {
        lemma_eval_literals(fuel, forms, i + 1, env, tbl);
        assert(eval_spec((fuel - 1) as nat, forms[i], env, tbl) == Ok::<
            (ExpV, EnvV),
            (ErrorV, EnvV),
        >((forms[i], env)));
        assert(seq![forms[i]] + forms.skip(i + 1) =~= forms.skip(i));
    }
}

/// `(+ a b)` on two integers evaluates to their sum, in any environment
/// and against any float table, whenever the sum fits in 32 bits.
pub proof fn lemma_eval_plus_integers(a: i32, b: i32, env: EnvV, tbl: TblV, fuel: nat)
    requires
        fuel >= 2,
        -0x8000_0000 <= a as int + b as int <= 0x7fff_ffff,
    ensures
        eval_spec(
            fuel,
            ExpV::List(
                seq![
                    ExpV::Func(FuncV::Builtin(RispBuiltinFunction::Plus)),
                    ExpV::Integer(a),
                    ExpV::Integer(b),
                ],
            ),
            env,
            tbl,
        ) == Ok::<(ExpV, EnvV), (ErrorV, EnvV)>(
            (ExpV::Integer((a as int + b as int) as i32), env),
        ),
{
    let forms = seq![
        ExpV::Func(FuncV::Builtin(RispBuiltinFunction::Plus)),
        ExpV::Integer(a),
        ExpV::Integer(b),
    ];
    lemma_eval_literals(fuel, forms, 0, env, tbl);
    assert(forms.skip(0) =~= forms);
    let rest = forms.drop_first();
    assert(rest =~= seq![ExpV::Integer(a), ExpV::Integer(b)]);
    assert(forall|i: int| 0 <= i < rest.len() ==> (#[trigger] rest[i]) is Integer);
    assert(!crate::eval::any_float(rest));
    assert(crate::eval::all_numeric(rest));
    assert(crate::eval::int_sum_from(rest, 2, a as int + b as int) == Ok::<int, ErrorV>(
        a as int + b as int,
    ));
    assert(crate::eval::int_sum_from(rest, 1, a as int) == Ok::<int, ErrorV>(
        a as int + b as int,
    ));
    assert(crate::eval::int_sum_from(rest, 0, 0) == Ok::<int, ErrorV>(a as int + b as int));
    assert(plus_spec(rest, tbl) == Ok::<ExpV, ErrorV>(
        ExpV::Integer((a as int + b as int) as i32),
    ));
}

/// `(- )` yields 0 and `(- a)` yields `a` itself; `(/ )` with no arguments
/// is an arity error.
pub proof fn lemma_subtractive_identities(a: i32, tbl: TblV)
    ensures
        minus_spec(Seq::empty(), tbl) == Ok::<ExpV, ErrorV>(ExpV::Integer(0)),
        minus_spec(seq![ExpV::Integer(a)], tbl) == Ok::<ExpV, ErrorV>(ExpV::Integer(a)),
        divide_spec(Seq::empty(), tbl) == Err::<ExpV, ErrorV>(
            ErrorV::ArityMismatch(FuncV::Builtin(RispBuiltinFunction::Divide)),
        ),
{
    let one = seq![ExpV::Integer(a)];
    assert(crate::eval::all_numeric(Seq::empty()));
    assert(!crate::eval::any_float(Seq::empty()));
    assert(crate::eval::all_numeric(one));
    assert(!crate::eval::any_float(one)) by {
        assert(forall|i: int| 0 <= i < one.len() ==> !((#[trigger] one[i]) is Float));
    }
    assert(crate::eval::int_sum_from(one, 1, 0) == Ok::<int, ErrorV>(0));
}

/// `(and)` is true and `(or)` is false; `not` with anything but exactly
/// one argument is an arity error.
pub proof fn lemma_boolean_identities(args: Seq<ExpV>)
    ensures
        bool_op_spec(RispBuiltinFunction::And, Seq::empty()) == Ok::<ExpV, ErrorV>(
            ExpV::Bool(true),
        ),
        bool_op_spec(RispBuiltinFunction::Or, Seq::empty()) == Ok::<ExpV, ErrorV>(
            ExpV::Bool(false),
        ),
        args.len() != 1 ==> not_spec(args) == Err::<ExpV, ErrorV>(
            ErrorV::ArityMismatch(FuncV::Builtin(RispBuiltinFunction::Not)),
        ),
{
}

/// `not` answers by truthiness: only nil and false are false, every other
/// value (zero and the empty string included) is truthy.
pub proof fn lemma_not_truthiness(v: ExpV)
    ensures
        not_spec(seq![v]) == Ok::<ExpV, ErrorV>(ExpV::Bool(v is Nil || v == ExpV::Bool(false))),
        truthy(v) == !(v is Nil || v == ExpV::Bool(false)),
{
    assert(seq![v].len() == 1);
    assert(seq![v][0] == v);
}

/// `(def name v)` on an unbound name binds it and evaluates to nil, and the
/// name then looks up to exactly `v`.
pub proof fn lemma_def_binds(name: Seq<char>, v: ExpV, env: EnvV, tbl: TblV, fuel: nat)
    requires
        fuel >= 2,
        env.len() >= 1,
        env_lookup(env, name) is None,
        is_literal(v),
    ensures
        eval_spec(
            fuel,
            ExpV::List(
                seq![
                    ExpV::Func(FuncV::Builtin(RispBuiltinFunction::Def)),
                    ExpV::Symbol(name),
                    v,
                ],
            ),
            env,
            tbl,
        ) == Ok::<(ExpV, EnvV), (ErrorV, EnvV)>((ExpV::Nil, env_def(env, name, v))),
        env_lookup(env_def(env, name, v), name) == Some(v),
{
    let forms = seq![
        ExpV::Func(FuncV::Builtin(RispBuiltinFunction::Def)),
        ExpV::Symbol(name),
        v,
    ];
    let f1: nat = (fuel - 1) as nat;
    assert(eval_spec(f1, forms[0], env, tbl) == Ok::<(ExpV, EnvV), (ErrorV, EnvV)>(
        (forms[0], env),
    ));
    assert(eval_spec(f1, forms[1], env, tbl) == Ok::<(ExpV, EnvV), (ErrorV, EnvV)>(
        (forms[1], env),
    ));
    assert(eval_spec(f1, forms[2], env, tbl) == Ok::<(ExpV, EnvV), (ErrorV, EnvV)>(
        (forms[2], env),
    ));
    assert(eval_elems_spec(fuel, forms, 3, env, tbl) == Ok::<(Seq<ExpV>, EnvV), (ErrorV, EnvV)>(
        (Seq::<ExpV>::empty(), env),
    ));
    assert(eval_elems_spec(fuel, forms, 2, env, tbl) == Ok::<(Seq<ExpV>, EnvV), (ErrorV, EnvV)>(
        (seq![v] + Seq::<ExpV>::empty(), env),
    ));
    assert(eval_elems_spec(fuel, forms, 1, env, tbl) == Ok::<(Seq<ExpV>, EnvV), (ErrorV, EnvV)>(
        (seq![forms[1]] + (seq![v] + Seq::<ExpV>::empty()), env),
    ));
    assert(eval_elems_spec(fuel, forms, 0, env, tbl) == Ok::<(Seq<ExpV>, EnvV), (ErrorV, EnvV)>(
        (seq![forms[0]] + (seq![forms[1]] + (seq![v] + Seq::<ExpV>::empty())), env),
    ));
    let vals = seq![forms[0]] + (seq![forms[1]] + (seq![v] + Seq::<ExpV>::empty()));
    assert(vals =~= forms);
    assert(vals.drop_first() =~= seq![ExpV::Symbol(name), v]);
    lemma_env_def_lookup(env, name, v);
}

/// `(if c a b)` with boolean `c` returns `a` when `c` is true and `b` when
/// it is false, leaving the environment unchanged.
pub proof fn lemma_if_selects(c: bool, a: ExpV, b: ExpV, env: EnvV, tbl: TblV, fuel: nat)
    requires
        fuel >= 2,
        is_literal(a),
        is_literal(b),
    ensures
        eval_spec(
            fuel,
            ExpV::List(
                seq![
                    ExpV::Func(FuncV::Builtin(RispBuiltinFunction::If)),
                    ExpV::Bool(c),
                    a,
                    b,
                ],
            ),
            env,
            tbl,
        ) == Ok::<(ExpV, EnvV), (ErrorV, EnvV)>(
            (
                if c {
                    a
                } else {
                    b
                },
                env,
            ),
        ),
{
    let forms = seq![
        ExpV::Func(FuncV::Builtin(RispBuiltinFunction::If)),
        ExpV::Bool(c),
        a,
        b,
    ];
    lemma_eval_literals(fuel, forms, 0, env, tbl);
    assert(forms.skip(0) =~= forms);
    assert(forms.drop_first() =~= seq![ExpV::Bool(c), a, b]);
}

/// A name bound to an integer can be used twice in a sum: `(+ x x)` under
/// `x -> a` yields `2a` whenever that fits in 32 bits.
pub proof fn lemma_plus_bound_symbol(name: Seq<char>, a: i32, env: EnvV, tbl: TblV, fuel: nat)
    requires
        fuel >= 2,
        env_lookup(env, name) == Some(ExpV::Integer(a)),
        -0x8000_0000 <= 2 * (a as int) <= 0x7fff_ffff,
    ensures
        eval_spec(
            fuel,
            ExpV::List(
                seq![
                    ExpV::Func(FuncV::Builtin(RispBuiltinFunction::Plus)),
                    ExpV::Symbol(name),
                    ExpV::Symbol(name),
                ],
            ),
            env,
            tbl,
        ) == Ok::<(ExpV, EnvV), (ErrorV, EnvV)>(
            (ExpV::Integer((2 * (a as int)) as i32), env),
        ),
{
    let forms = seq![
        ExpV::Func(FuncV::Builtin(RispBuiltinFunction::Plus)),
        ExpV::Symbol(name),
        ExpV::Symbol(name),
    ];
    let f1: nat = (fuel - 1) as nat;
    assert(eval_spec(f1, forms[0], env, tbl) == Ok::<(ExpV, EnvV), (ErrorV, EnvV)>(
        (forms[0], env),
    ));
    assert(eval_spec(f1, forms[1], env, tbl) == Ok::<(ExpV, EnvV), (ErrorV, EnvV)>(
        (ExpV::Integer(a), env),
    ));
    assert(eval_spec(f1, forms[2], env, tbl) == Ok::<(ExpV, EnvV), (ErrorV, EnvV)>(
        (ExpV::Integer(a), env),
    ));
    assert(eval_elems_spec(fuel, forms, 3, env, tbl) == Ok::<(Seq<ExpV>, EnvV), (ErrorV, EnvV)>(
        (Seq::<ExpV>::empty(), env),
    ));
    assert(eval_elems_spec(fuel, forms, 2, env, tbl) == Ok::<(Seq<ExpV>, EnvV), (ErrorV, EnvV)>(
        (seq![ExpV::Integer(a)] + Seq::<ExpV>::empty(), env),
    ));
    assert(eval_elems_spec(fuel, forms, 1, env, tbl) == Ok::<(Seq<ExpV>, EnvV), (ErrorV, EnvV)>(
        (seq![ExpV::Integer(a)] + (seq![ExpV::Integer(a)] + Seq::<ExpV>::empty()), env),
    ));
    assert(eval_elems_spec(fuel, forms, 0, env, tbl) == Ok::<(Seq<ExpV>, EnvV), (ErrorV, EnvV)>(
        (
            seq![forms[0]] + (seq![ExpV::Integer(a)] + (seq![ExpV::Integer(a)]
                + Seq::<ExpV>::empty())),
            env,
        ),
    ));
    let vals = seq![forms[0]] + (seq![ExpV::Integer(a)] + (seq![ExpV::Integer(a)]
        + Seq::<ExpV>::empty()));
    let rest = vals.drop_first();
    assert(rest =~= seq![ExpV::Integer(a), ExpV::Integer(a)]);
    assert(forall|i: int| 0 <= i < rest.len() ==> (#[trigger] rest[i]) is Integer);
    assert(!crate::eval::any_float(rest));
    assert(crate::eval::all_numeric(rest));
    assert(crate::eval::int_sum_from(rest, 2, 2 * (a as int)) == Ok::<int, ErrorV>(
        2 * (a as int),
    ));
    assert(crate::eval::int_sum_from(rest, 1, a as int) == Ok::<int, ErrorV>(2 * (a as int)));
    assert(crate::eval::int_sum_from(rest, 0, 0) == Ok::<int, ErrorV>(2 * (a as int)));
}

/// A name rebound to a string makes `(+ x 1)` a type error; the
/// environment is left as it was.
pub proof fn lemma_plus_bound_string(name: Seq<char>, st: Seq<char>, env: EnvV, tbl: TblV, fuel: nat)
    requires
        fuel >= 2,
        env_lookup(env, name) == Some(ExpV::Str(st)),
    ensures
        eval_spec(
            fuel,
            ExpV::List(
                seq![
                    ExpV::Func(FuncV::Builtin(RispBuiltinFunction::Plus)),
                    ExpV::Symbol(name),
                    ExpV::Integer(1),
                ],
            ),
            env,
            tbl,
        ) == Err::<(ExpV, EnvV), (ErrorV, EnvV)>((arith_type_error(), env)),
{
    let forms = seq![
        ExpV::Func(FuncV::Builtin(RispBuiltinFunction::Plus)),
        ExpV::Symbol(name),
        ExpV::Integer(1),
    ];
    let f1: nat = (fuel - 1) as nat;
    assert(eval_spec(f1, forms[0], env, tbl) == Ok::<(ExpV, EnvV), (ErrorV, EnvV)>(
        (forms[0], env),
    ));
    assert(eval_spec(f1, forms[1], env, tbl) == Ok::<(ExpV, EnvV), (ErrorV, EnvV)>(
        (ExpV::Str(st), env),
    ));
    assert(eval_spec(f1, forms[2], env, tbl) == Ok::<(ExpV, EnvV), (ErrorV, EnvV)>(
        (forms[2], env),
    ));
    assert(eval_elems_spec(fuel, forms, 3, env, tbl) == Ok::<(Seq<ExpV>, EnvV), (ErrorV, EnvV)>(
        (Seq::<ExpV>::empty(), env),
    ));
    assert(eval_elems_spec(fuel, forms, 2, env, tbl) == Ok::<(Seq<ExpV>, EnvV), (ErrorV, EnvV)>(
        (seq![ExpV::Integer(1)] + Seq::<ExpV>::empty(), env),
    ));
    assert(eval_elems_spec(fuel, forms, 1, env, tbl) == Ok::<(Seq<ExpV>, EnvV), (ErrorV, EnvV)>(
        (seq![ExpV::Str(st)] + (seq![ExpV::Integer(1)] + Seq::<ExpV>::empty()), env),
    ));
    assert(eval_elems_spec(fuel, forms, 0, env, tbl) == Ok::<(Seq<ExpV>, EnvV), (ErrorV, EnvV)>(
        (
            seq![forms[0]] + (seq![ExpV::Str(st)] + (seq![ExpV::Integer(1)]
                + Seq::<ExpV>::empty())),
            env,
        ),
    ));
    let vals = seq![forms[0]] + (seq![ExpV::Str(st)] + (seq![ExpV::Integer(1)]
        + Seq::<ExpV>::empty()));
    let rest = vals.drop_first();
    assert(rest =~= seq![ExpV::Str(st), ExpV::Integer(1)]);
    assert(!crate::eval::all_numeric(rest)) by {
        assert(!(rest[0] is Integer || rest[0] is Float));
    }
}

/// The shape of a one-parameter adder: `(fn (p) (+ k p))`.
pub open spec fn adder_fn(p: Seq<char>, k: i32) -> FuncV {
    FuncV::Function {
        params: Box::new(ExpV::List(seq![ExpV::Symbol(p)])),
        body: Box::new(
            ExpV::List(
                seq![
                    ExpV::Func(FuncV::Builtin(RispBuiltinFunction::Plus)),
                    ExpV::Integer(k),
                    ExpV::Symbol(p),
                ],
            ),
        ),
    }
}

/// Calling a user-defined one-parameter adder bound to `name` on an
/// integer argument yields the sum; the call scope is discarded and the
/// caller's environment comes back unchanged.
pub proof fn lemma_closure_call(
    name: Seq<char>,
    p: Seq<char>,
    k: i32,
    a: i32,
    env: EnvV,
    tbl: TblV,
    fuel: nat,
)
    requires
        fuel >= 4,
        env.len() >= 1,
        env_lookup(env, name) == Some(ExpV::Func(adder_fn(p, k))),
        -0x8000_0000 <= k as int + a as int <= 0x7fff_ffff,
    ensures
        eval_spec(
            fuel,
            ExpV::List(seq![ExpV::Symbol(name), ExpV::Integer(a)]),
            env,
            tbl,
        ) == Ok::<(ExpV, EnvV), (ErrorV, EnvV)>(
            (ExpV::Integer((k as int + a as int) as i32), env),
        ),
{
    let f = adder_fn(p, k);
    let forms = seq![ExpV::Symbol(name), ExpV::Integer(a)];
    let f1: nat = (fuel - 1) as nat;
    assert(eval_spec(f1, forms[0], env, tbl) == Ok::<(ExpV, EnvV), (ErrorV, EnvV)>(
        (ExpV::Func(f), env),
    ));
    assert(eval_spec(f1, forms[1], env, tbl) == Ok::<(ExpV, EnvV), (ErrorV, EnvV)>(
        (forms[1], env),
    ));
    assert(eval_elems_spec(fuel, forms, 2, env, tbl) == Ok::<(Seq<ExpV>, EnvV), (ErrorV, EnvV)>(
        (Seq::<ExpV>::empty(), env),
    ));
    assert(eval_elems_spec(fuel, forms, 1, env, tbl) == Ok::<(Seq<ExpV>, EnvV), (ErrorV, EnvV)>(
        (seq![ExpV::Integer(a)] + Seq::<ExpV>::empty(), env),
    ));
    assert(eval_elems_spec(fuel, forms, 0, env, tbl) == Ok::<(Seq<ExpV>, EnvV), (ErrorV, EnvV)>(
        (seq![ExpV::Func(f)] + (seq![ExpV::Integer(a)] + Seq::<ExpV>::empty()), env),
    ));
    let vals = seq![ExpV::Func(f)] + (seq![ExpV::Integer(a)] + Seq::<ExpV>::empty());
    let rest = vals.drop_first();
    assert(rest =~= seq![ExpV::Integer(a)]);
    let ps = seq![ExpV::Symbol(p)];
    assert(crate::eval::all_symbols(ps));
    let pushed = env.push(Seq::<(Seq<char>, ExpV)>::empty());
    let callee = crate::eval::bind_upto(pushed, ps, rest, 1);
    assert(crate::eval::bind_upto(pushed, ps, rest, 0) == pushed);
    assert(rest[0] == ExpV::Integer(a));
    assert(ps[0]->Symbol_0 == p);
    assert(callee == env_def(pushed, p, ExpV::Integer(a)));
    lemma_env_def_lookup(pushed, p, ExpV::Integer(a));
    assert(env_lookup(callee, p) == Some(ExpV::Integer(a)));
    let f2: nat = (fuel - 1) as nat;
    lemma_eval_plus_symbol_int(p, k, a, callee, tbl, f2);
    assert(callee.drop_last() =~= env);
}

/// `(+ k p)` with literal `k` and `p` bound to an integer.
proof fn lemma_eval_plus_symbol_int(p: Seq<char>, k: i32, a: i32, env: EnvV, tbl: TblV, fuel: nat)
    requires
        fuel >= 2,
        env_lookup(env, p) == Some(ExpV::Integer(a)),
        -0x8000_0000 <= k as int + a as int <= 0x7fff_ffff,
    ensures
        eval_spec(
            fuel,
            ExpV::List(
                seq![
                    ExpV::Func(FuncV::Builtin(RispBuiltinFunction::Plus)),
                    ExpV::Integer(k),
                    ExpV::Symbol(p),
                ],
            ),
            env,
            tbl,
        ) == Ok::<(ExpV, EnvV), (ErrorV, EnvV)>(
            (ExpV::Integer((k as int + a as int) as i32), env),
        ),
{
    let forms = seq![
        ExpV::Func(FuncV::Builtin(RispBuiltinFunction::Plus)),
        ExpV::Integer(k),
        ExpV::Symbol(p),
    ];
    let f1: nat = (fuel - 1) as nat;
    assert(eval_spec(f1, forms[0], env, tbl) == Ok::<(ExpV, EnvV), (ErrorV, EnvV)>(
        (forms[0], env),
    ));
    assert(eval_spec(f1, forms[1], env, tbl) == Ok::<(ExpV, EnvV), (ErrorV, EnvV)>(
        (forms[1], env),
    ));
    assert(eval_spec(f1, forms[2], env, tbl) == Ok::<(ExpV, EnvV), (ErrorV, EnvV)>(
        (ExpV::Integer(a), env),
    ));
    assert(eval_elems_spec(fuel, forms, 3, env, tbl) == Ok::<(Seq<ExpV>, EnvV), (ErrorV, EnvV)>(
        (Seq::<ExpV>::empty(), env),
    ));
    assert(eval_elems_spec(fuel, forms, 2, env, tbl) == Ok::<(Seq<ExpV>, EnvV), (ErrorV, EnvV)>(
        (seq![ExpV::Integer(a)] + Seq::<ExpV>::empty(), env),
    ));
    assert(eval_elems_spec(fuel, forms, 1, env, tbl) == Ok::<(Seq<ExpV>, EnvV), (ErrorV, EnvV)>(
        (seq![ExpV::Integer(k)] + (seq![ExpV::Integer(a)] + Seq::<ExpV>::empty()), env),
    ));
    assert(eval_elems_spec(fuel, forms, 0, env, tbl) == Ok::<(Seq<ExpV>, EnvV), (ErrorV, EnvV)>(
        (
            seq![forms[0]] + (seq![ExpV::Integer(k)] + (seq![ExpV::Integer(a)]
                + Seq::<ExpV>::empty())),
            env,
        ),
    ));
    let vals = seq![forms[0]] + (seq![ExpV::Integer(k)] + (seq![ExpV::Integer(a)]
        + Seq::<ExpV>::empty()));
    let rest = vals.drop_first();
    assert(rest =~= seq![ExpV::Integer(k), ExpV::Integer(a)]);
    assert(forall|i: int| 0 <= i < rest.len() ==> (#[trigger] rest[i]) is Integer);
    assert(!crate::eval::any_float(rest));
    assert(crate::eval::all_numeric(rest));
    assert(crate::eval::int_sum_from(rest, 2, k as int + a as int) == Ok::<int, ErrorV>(
        k as int + a as int,
    ));
    assert(crate::eval::int_sum_from(rest, 1, k as int) == Ok::<int, ErrorV>(
        k as int + a as int,
    ));
    assert(crate::eval::int_sum_from(rest, 0, 0) == Ok::<int, ErrorV>(k as int + a as int));
}

/// Calling the adder with the wrong number of arguments is an arity error
/// naming the function, and the environment is unchanged.
pub proof fn lemma_closure_arity(
    name: Seq<char>,
    p: Seq<char>,
    k: i32,
    a: i32,
    b: i32,
    env: EnvV,
    tbl: TblV,
    fuel: nat,
)
    requires
        fuel >= 2,
        env_lookup(env, name) == Some(ExpV::Func(adder_fn(p, k))),
    ensures
        eval_spec(
            fuel,
            ExpV::List(seq![ExpV::Symbol(name), ExpV::Integer(a), ExpV::Integer(b)]),
            env,
            tbl,
        ) == Err::<(ExpV, EnvV), (ErrorV, EnvV)>(
            (ErrorV::ArityMismatch(adder_fn(p, k)), env),
        ),
{
    let f = adder_fn(p, k);
    let forms = seq![ExpV::Symbol(name), ExpV::Integer(a), ExpV::Integer(b)];
    let f1: nat = (fuel - 1) as nat;
    assert(eval_spec(f1, forms[0], env, tbl) == Ok::<(ExpV, EnvV), (ErrorV, EnvV)>(
        (ExpV::Func(f), env),
    ));
    assert(eval_spec(f1, forms[1], env, tbl) == Ok::<(ExpV, EnvV), (ErrorV, EnvV)>(
        (forms[1], env),
    ));
    assert(eval_spec(f1, forms[2], env, tbl) == Ok::<(ExpV, EnvV), (ErrorV, EnvV)>(
        (forms[2], env),
    ));
    assert(eval_elems_spec(fuel, forms, 3, env, tbl) == Ok::<(Seq<ExpV>, EnvV), (ErrorV, EnvV)>(
        (Seq::<ExpV>::empty(), env),
    ));
    assert(eval_elems_spec(fuel, forms, 2, env, tbl) == Ok::<(Seq<ExpV>, EnvV), (ErrorV, EnvV)>(
        (seq![ExpV::Integer(b)] + Seq::<ExpV>::empty(), env),
    ));
    assert(eval_elems_spec(fuel, forms, 1, env, tbl) == Ok::<(Seq<ExpV>, EnvV), (ErrorV, EnvV)>(
        (seq![ExpV::Integer(a)] + (seq![ExpV::Integer(b)] + Seq::<ExpV>::empty()), env),
    ));
    assert(eval_elems_spec(fuel, forms, 0, env, tbl) == Ok::<(Seq<ExpV>, EnvV), (ErrorV, EnvV)>(
        (
            seq![ExpV::Func(f)] + (seq![ExpV::Integer(a)] + (seq![ExpV::Integer(b)]
                + Seq::<ExpV>::empty())),
            env,
        ),
    ));
    let vals = seq![ExpV::Func(f)] + (seq![ExpV::Integer(a)] + (seq![ExpV::Integer(b)]
        + Seq::<ExpV>::empty()));
    let rest = vals.drop_first();
    assert(rest.len() == 2);
}

/// An integer literal whose value does not fit in 32 bits is rejected by
/// the tokenizer with an integer-parse error, never wrapped around.
pub proof fn lemma_int_overflow_rejected(f: Seq<char>, tbl: TblV)
    requires
        is_int_frag(f),
        int_frag_val(f) < -0x8000_0000 || int_frag_val(f) > 0x7fff_ffff,
    ensures
        classify_spec(f, tbl) == Err::<TokenV, ErrorV>(ErrorV::ParseIntError(f)),
{
    reveal_strlit("(");
    reveal_strlit(")");
    reveal_strlit("nil");
    reveal_strlit("def");
    reveal_strlit("if");
    reveal_strlit("fn");
    reveal_strlit("true");
    reveal_strlit("false");
    let t = strip_sign(f);
    assert(f.len() > 0);
    assert(is_digit(f[0]) || f[0] == '-' || f[0] == '+');
    assert(f != "("@ && f != ")"@ && f != "nil"@ && f != "def"@ && f != "if"@ && f != "fn"@
        && f != "true"@ && f != "false"@) by {
        if f == "nil"@ {
            assert(f[0] == 'n');
        }
        if f == "def"@ {
            assert(f[0] == 'd');
        }
        if f == "if"@ {
            assert(f[0] == 'i');
        }
        if f == "fn"@ {
            assert(f[0] == 'f');
        }
        if f == "true"@ {
            assert(f[0] == 't');
        }
        if f == "false"@ {
            assert(f[0] == 'f');
        }
        if f == "("@ {
            assert(f[0] == '(');
        }
        if f == ")"@ {
            assert(f[0] == ')');
        }
    }
    assert(!has_escape(f)) by {
        if exists|j: int|
            0 <= j < f.len() - 1 && #[trigger] f[j] == '\\' && f[j + 1] as u32 <= 255 {
            let j = choose|j: int|
                0 <= j < f.len() - 1 && #[trigger] f[j] == '\\' && f[j + 1] as u32 <= 255;
            if j == 0 {
                assert(is_digit(f[0]) || f[0] == '-' || f[0] == '+');
            } else {
                if has_sign(f) {
                    assert(t[j - 1] == f[j]);
                    assert(is_digit(t[j - 1]) || t[j - 1] == '_');
                } else {
                    assert(t[j] == f[j]);
                    assert(is_digit(t[j]) || t[j] == '_');
                }
            }
        }
    }
}


/// `()` tokenizes to a parenthesis pair and parses to the empty list.
pub proof fn lemma_empty_list(tbl: TblV)
    ensures
        tokenize_spec("()"@, tbl) == Ok::<Seq<TokenV>, ErrorV>(
            seq![TokenV::LParen, TokenV::RParen],
        ),
        parse_spec(seq![TokenV::LParen, TokenV::RParen]) == Ok::<ExpV, ErrorV>(
            ExpV::List(Seq::empty()),
        ),
{
    reveal_strlit("()");
    reveal_strlit("(");
    reveal_strlit(")");
    reveal_strlit("\"");
    let s = "()"@;
    assert(s.len() == 2 && s[0] == '(' && s[1] == ')');
    assert(crate::tokenizer::raw_frags(s, 2) =~= Seq::<Seq<char>>::empty());
    assert(crate::tokenizer::raw_frags(s, 1) =~= seq![seq![')']] + Seq::<Seq<char>>::empty());
    assert(crate::tokenizer::raw_frags(s, 0) =~= seq![seq!['(']] + (seq![seq![')']]
        + Seq::<Seq<char>>::empty()));
    let fr = crate::tokenizer::raw_frags(s, 0);
    assert(fr.len() == 2 && fr[0] =~= seq!['('] && fr[1] =~= seq![')']);
    assert(!crate::tokenizer::is_quote_frag(fr[0])) by {
        assert("\""@.len() == 1 && "\""@[0] == '"');
    }
    assert(!crate::tokenizer::is_quote_frag(fr[1])) by {
        assert("\""@.len() == 1 && "\""@[0] == '"');
    }
    assert(crate::tokenizer::join_quotes(fr, 2) =~= Seq::<Seq<char>>::empty());
    assert(crate::tokenizer::join_quotes(fr, 1) =~= seq![fr[1]] + Seq::<Seq<char>>::empty());
    assert(crate::tokenizer::join_quotes(fr, 0) =~= seq![fr[0]] + (seq![fr[1]]
        + Seq::<Seq<char>>::empty()));
    let jf = crate::tokenizer::join_quotes(fr, 0);
    assert(jf.len() == 2 && jf[0] == fr[0] && jf[1] == fr[1]);
    assert(jf[0] =~= "("@);
    assert(jf[1] =~= ")"@);
    assert(classify_spec(jf[0], tbl) == Ok::<TokenV, ErrorV>(TokenV::LParen));
    assert(classify_spec(jf[1], tbl) == Ok::<TokenV, ErrorV>(TokenV::RParen)) by {
        assert(jf[1] != "("@) by {
            assert(jf[1][0] == ')');
        }
    }
    assert(crate::tokenizer::classify_all(jf, 2, tbl) == Ok::<Seq<TokenV>, ErrorV>(
        Seq::<TokenV>::empty(),
    ));
    assert(crate::tokenizer::classify_all(jf, 1, tbl) == Ok::<Seq<TokenV>, ErrorV>(
        seq![TokenV::RParen] + Seq::<TokenV>::empty(),
    ));
    assert(crate::tokenizer::classify_all(jf, 0, tbl) == Ok::<Seq<TokenV>, ErrorV>(
        seq![TokenV::LParen] + (seq![TokenV::RParen] + Seq::<TokenV>::empty()),
    ));
    assert(seq![TokenV::LParen] + (seq![TokenV::RParen] + Seq::<TokenV>::empty())
        =~= seq![TokenV::LParen, TokenV::RParen]);
    let tv = seq![TokenV::LParen, TokenV::RParen];
    assert(crate::parser::read_seq_spec(6, tv, 1) == Ok::<(Seq<ExpV>, int), ErrorV>(
        (Seq::<ExpV>::empty(), 2),
    ));
    assert(crate::parser::parse_one(7, tv, 0) == Ok::<(ExpV, int), ErrorV>(
        (ExpV::List(Seq::<ExpV>::empty()), 2),
    ));
    assert(crate::parser::parse_fuel(tv) == 7);
}

proof fn lemma_digit_char_facts(m: int)
    requires
        0 <= m < 10,
    ensures
        is_digit(crate::parser::digit_char(m)),
        crate::parser::digit_char(m) != '_',
        crate::tokenizer::digit_val(crate::parser::digit_char(m)) == m,
{
}

proof fn lemma_u_dec_digits(n: nat)
    ensures
        u_dec(n).len() >= 1,
        forall|j: int| 0 <= j < u_dec(n).len() ==> is_digit(#[trigger] u_dec(n)[j]),
        digits_val(u_dec(n)) == n,
    decreases n,
{
    if n < 10 {
        lemma_digit_char_facts(n as int);
        assert(u_dec(n) == seq![crate::parser::digit_char(n as int)]);
        assert(u_dec(n)[0] == crate::parser::digit_char(n as int));
        assert(u_dec(n).drop_last() =~= Seq::<char>::empty());
        assert(digits_val(Seq::<char>::empty()) == 0);
        assert(digits_val(u_dec(n)) == n);
    } else {
        lemma_u_dec_digits(n / 10);
        lemma_digit_char_facts((n % 10) as int);
        let c = crate::parser::digit_char((n % 10) as int);
        assert(u_dec(n) == u_dec(n / 10).push(c));
        assert(u_dec(n).drop_last() =~= u_dec(n / 10));
        assert(u_dec(n).last() == c);
        assert forall|j: int| 0 <= j < u_dec(n).len() implies is_digit(
            #[trigger] u_dec(n)[j],
        ) by {
            if j < u_dec(n).len() - 1 {
                assert(u_dec(n)[j] == u_dec(n / 10)[j]);
            } else {
                assert(u_dec(n)[j] == c);
            }
        }
        assert(digits_val(u_dec(n)) == digits_val(u_dec(n / 10)) * 10
            + crate::tokenizer::digit_val(c));
        assert((n / 10) * 10 + n % 10 == n);
    }
}

/// The decimal rendering of an integer is one integer fragment, and its
/// value is the integer itself: rendering loses nothing.
pub proof fn lemma_int_render_is_int_frag(a: i32)
    ensures
        is_int_frag(int_dec(a as int)),
        int_frag_val(int_dec(a as int)) == a as int,
{
    let f = int_dec(a as int);
    if a >= 0 {
        lemma_u_dec_digits(a as nat);
        assert(strip_sign(f) == f);
    } else {
        lemma_u_dec_digits((-(a as int)) as nat);
        assert(f == seq!['-'] + u_dec((-(a as int)) as nat));
        assert(f[0] == '-');
        assert(strip_sign(f) =~= u_dec((-(a as int)) as nat));
    }
}

/// A rendered integer classifies back to exactly that integer token.
pub proof fn lemma_int_render_classifies(a: i32, tbl: TblV)
    ensures
        classify_spec(int_dec(a as int), tbl) == Ok::<TokenV, ErrorV>(TokenV::Integer(a)),
{
    reveal_strlit("(");
    reveal_strlit(")");
    reveal_strlit("nil");
    reveal_strlit("def");
    reveal_strlit("if");
    reveal_strlit("fn");
    reveal_strlit("true");
    reveal_strlit("false");
    let f = int_dec(a as int);
    lemma_int_render_is_int_frag(a);
    if a >= 0 {
        lemma_u_dec_digits(a as nat);
    } else {
        lemma_u_dec_digits((-(a as int)) as nat);
    }
    assert(is_digit(f[0]) || f[0] == '-');
    assert(f != "("@ && f != ")"@ && f != "nil"@ && f != "def"@ && f != "if"@ && f != "fn"@
        && f != "true"@ && f != "false"@) by {
        if f == "nil"@ {
            assert(f[0] == 'n');
        }
        if f == "def"@ {
            assert(f[0] == 'd');
        }
        if f == "if"@ {
            assert(f[0] == 'i');
        }
        if f == "fn"@ {
            assert(f[0] == 'f');
        }
        if f == "true"@ {
            assert(f[0] == 't');
        }
        if f == "false"@ {
            assert(f[0] == 'f');
        }
        if f == "("@ {
            assert(f[0] == '(');
        }
        if f == ")"@ {
            assert(f[0] == ')');
        }
    }
    assert(!has_escape(f)) by {
        if exists|j: int|
            0 <= j < f.len() - 1 && #[trigger] f[j] == '\\' && f[j + 1] as u32 <= 255 {
            let j = choose|j: int|
                0 <= j < f.len() - 1 && #[trigger] f[j] == '\\' && f[j + 1] as u32 <= 255;
            if a >= 0 {
                assert(is_digit(f[j]));
            } else {
                if j == 0 {
                    assert(f[0] == '-');
                } else {
                    assert(f[j] == u_dec((-(a as int)) as nat)[j - 1]);
                    assert(is_digit(f[j]));
                }
            }
        }
    }
}

/// A rendered integer line tokenizes to exactly that integer token: the
/// whole rendering is one fragment, no quotes are involved, and the
/// fragment classifies back to the value.
pub proof fn lemma_numeral_line_tokenizes(a: i32, tbl: TblV)
    ensures
        tokenize_spec(int_dec(a as int), tbl) == Ok::<Seq<TokenV>, ErrorV>(
            seq![TokenV::Integer(a)],
        ),
{
    reveal_strlit("\"");
    let f = int_dec(a as int);
    lemma_int_render_is_int_frag(a);
    if a >= 0 {
        lemma_u_dec_digits(a as nat);
    } else {
        lemma_u_dec_digits((-(a as int)) as nat);
    }
    assert(forall|j: int|
        0 <= j < f.len() ==> crate::tokenizer::is_frag_char(#[trigger] f[j])) by {
        assert forall|j: int| 0 <= j < f.len() implies crate::tokenizer::is_frag_char(
            #[trigger] f[j],
        ) by {
            if a >= 0 {
                assert(is_digit(f[j]));
            } else {
                if j == 0 {
                    assert(f[0] == '-');
                } else {
                    assert(f[j] == u_dec((-(a as int)) as nat)[j - 1]);
                    assert(is_digit(f[j]));
                }
            }
        }
    }
    lemma_full_run(f, 0);
    assert(crate::tokenizer::run_len(f, 0) == f.len());
    assert(f.subrange(0, f.len() as int) =~= f);
    assert(crate::tokenizer::raw_frags(f, f.len() as int) =~= Seq::<Seq<char>>::empty());
    assert(crate::tokenizer::raw_frags(f, 0) =~= seq![f]);
    let fr = seq![f];
    assert(!crate::tokenizer::is_quote_frag(fr[0])) by {
        assert("\""@.len() == 1 && "\""@[0] == '"');
        if f == "\""@ {
            assert(f[0] == '"');
            assert(is_digit(f[0]) || f[0] == '-');
        }
    }
    assert(crate::tokenizer::join_quotes(fr, 1) =~= Seq::<Seq<char>>::empty());
    assert(crate::tokenizer::join_quotes(fr, 0) =~= seq![f]);
    lemma_int_render_classifies(a, tbl);
    assert(crate::tokenizer::classify_all(fr, 1, tbl) == Ok::<Seq<TokenV>, ErrorV>(
        Seq::<TokenV>::empty(),
    ));
    assert(crate::tokenizer::classify_all(fr, 0, tbl) == Ok::<Seq<TokenV>, ErrorV>(
        seq![TokenV::Integer(a)] + Seq::<TokenV>::empty(),
    ));
    assert(seq![TokenV::Integer(a)] + Seq::<TokenV>::empty() =~= seq![TokenV::Integer(a)]);
}

proof fn lemma_full_run(s: Seq<char>, i: int)
    requires
        0 <= i <= s.len(),
        forall|j: int| 0 <= j < s.len() ==> crate::tokenizer::is_frag_char(#[trigger] s[j]),
    ensures
        crate::tokenizer::run_len(s, i) == s.len() - i,
    decreases s.len() - i,
{
    if i < s.len() {
        lemma_full_run(s, i + 1);
    }
}

/// The token shape of `(+ a b)` parses to the plus call form, for every
/// pair of integer literals.  With [`lemma_eval_plus_integers`] this closes
/// the pipeline: such a line evaluates to the sum.
pub proof fn lemma_plus_form_parses(a: i32, b: i32)
    ensures
        parse_spec(
            seq![
                TokenV::LParen,
                TokenV::Symbol("+"@),
                TokenV::Integer(a),
                TokenV::Integer(b),
                TokenV::RParen,
            ],
        ) == Ok::<ExpV, ErrorV>(
            ExpV::List(
                seq![
                    ExpV::Func(FuncV::Builtin(RispBuiltinFunction::Plus)),
                    ExpV::Integer(a),
                    ExpV::Integer(b),
                ],
            ),
        ),
{
    let tv = seq![
        TokenV::LParen,
        TokenV::Symbol("+"@),
        TokenV::Integer(a),
        TokenV::Integer(b),
        TokenV::RParen,
    ];
    assert(crate::parser::is_builtin_name("+"@));
    assert(crate::parser::builtin_of_name("+"@) == RispBuiltinFunction::Plus);
    assert(crate::parser::parse_one(11, tv, 1) == Ok::<(ExpV, int), ErrorV>(
        (ExpV::Func(FuncV::Builtin(RispBuiltinFunction::Plus)), 2),
    ));
    assert(crate::parser::parse_one(10, tv, 2) == Ok::<(ExpV, int), ErrorV>(
        (ExpV::Integer(a), 3),
    ));
    assert(crate::parser::parse_one(9, tv, 3) == Ok::<(ExpV, int), ErrorV>(
        (ExpV::Integer(b), 4),
    ));
    assert(crate::parser::read_seq_spec(9, tv, 4) == Ok::<(Seq<ExpV>, int), ErrorV>(
        (Seq::<ExpV>::empty(), 5),
    ));
    assert(crate::parser::read_seq_spec(10, tv, 3) == Ok::<(Seq<ExpV>, int), ErrorV>(
        (seq![ExpV::Integer(b)] + Seq::<ExpV>::empty(), 5),
    ));
    assert(crate::parser::read_seq_spec(11, tv, 2) == Ok::<(Seq<ExpV>, int), ErrorV>(
        (seq![ExpV::Integer(a)] + (seq![ExpV::Integer(b)] + Seq::<ExpV>::empty()), 5),
    ));
    assert(crate::parser::read_seq_spec(12, tv, 1) == Ok::<(Seq<ExpV>, int), ErrorV>(
        (
            seq![ExpV::Func(FuncV::Builtin(RispBuiltinFunction::Plus))] + (seq![
                ExpV::Integer(a),
            ] + (seq![ExpV::Integer(b)] + Seq::<ExpV>::empty())),
            5,
        ),
    ));
    assert(seq![ExpV::Func(FuncV::Builtin(RispBuiltinFunction::Plus))] + (seq![
        ExpV::Integer(a),
    ] + (seq![ExpV::Integer(b)] + Seq::<ExpV>::empty())) =~= seq![
        ExpV::Func(FuncV::Builtin(RispBuiltinFunction::Plus)),
        ExpV::Integer(a),
        ExpV::Integer(b),
    ]);
    assert(crate::parser::parse_fuel(tv) == 13);
    assert(crate::parser::parse_one(13, tv, 0) == Ok::<(ExpV, int), ErrorV>(
        (
            ExpV::List(
                seq![
                    ExpV::Func(FuncV::Builtin(RispBuiltinFunction::Plus)),
                    ExpV::Integer(a),
                    ExpV::Integer(b),
                ],
            ),
            5,
        ),
    ));
}

} // verus!
