//! The evaluator: reduces an expression to a value against the environment.
//!
//! Every element of a call form, the head included, is evaluated first,
//! left to right; the dispatch then goes by the evaluated head.  Float
//! arithmetic is answered by the float table; a missing answer aborts the
//! line with [`RispError::MissingFloatAnswer`] and the public entry points
//! leave the environment unchanged in that case.

use crate::environment::{env_def, env_lookup, EnvV, RispEnv};
use crate::error::{ErrorV, RispError, RispResult};
use crate::floats::{table_answer, AnswerV, FloatAnswer, FloatQuery, FloatTable, QueryV};
use crate::parser::{
    exp_view, exps_view, func_view, lemma_exps_view, ExpV, FuncV, RispBuiltinFunction, RispExp,
    RispFunction,
};
use vstd::prelude::*;

verus! {

pub type TblV = Seq<(QueryV, AnswerV)>;

/// Only nil and false are false; everything else is truthy.
pub open spec fn truthy(v: ExpV) -> bool {
    !(v is Nil || v == ExpV::Bool(false))
}

pub open spec fn arith_type_error() -> ErrorV {
    ErrorV::TypeError("Attempting to do arithmetic operation on non float/int with builtin"@)
}

pub open spec fn all_numeric(args: Seq<ExpV>) -> bool {
    forall|i: int| 0 <= i < args.len() ==> (#[trigger] args[i]) is Integer || args[i] is Float
}

pub open spec fn any_float(args: Seq<ExpV>) -> bool {
    exists|i: int| 0 <= i < args.len() && (#[trigger] args[i]) is Float
}

/// The bits the table holds for `q`; anything else counts as missing.
pub open spec fn bits_answer(tbl: TblV, q: QueryV) -> Option<u64> {
    match table_answer(tbl, q) {
        Some(AnswerV::Bits(b)) => Some(b),
        _ => None,
    }
}

pub open spec fn truth_answer(tbl: TblV, q: QueryV) -> Option<bool> {
    match table_answer(tbl, q) {
        Some(AnswerV::Truth(t)) => Some(t),
        _ => None,
    }
}

/// Truncating 32-bit division, written over the magnitudes.
pub open spec fn div_trunc(x: int, d: int) -> int {
    if x == 0 {
        0
    } else if x > 0 && d > 0 {
        x / d
    } else if x < 0 && d < 0 {
        ((x * -1) / (d * -1))
    } else if x < 0 {
        ((x * -1) / d) * -1
    } else {
        (x / (d * -1)) * -1
    }
}

/// Fold the integer arguments from `i` on with checked addition.
pub open spec fn int_sum_from(args: Seq<ExpV>, i: int, acc: int) -> Result<int, ErrorV>
    decreases args.len() - i,
{
    if i < 0 || i >= args.len() {
        Ok(acc)
    } else {
        let x = acc + args[i]->Integer_0 as int;
        if x < -0x8000_0000 || x > 0x7fff_ffff {
            Err(ErrorV::Overflow)
        } else {
            int_sum_from(args, i + 1, x)
        }
    }
}

/// Fold the integer arguments from `i` on with checked multiplication.
pub open spec fn int_prod_from(args: Seq<ExpV>, i: int, acc: int) -> Result<int, ErrorV>
    decreases args.len() - i,
{
    if i < 0 || i >= args.len() {
        Ok(acc)
    } else {
        let x = acc * args[i]->Integer_0 as int;
        if x < -0x8000_0000 || x > 0x7fff_ffff {
            Err(ErrorV::Overflow)
        } else {
            int_prod_from(args, i + 1, x)
        }
    }
}

/// The IEEE-754 bit pattern an argument contributes: a float's own bits, or
/// the table's conversion of an integer.
pub open spec fn operand_bits(tbl: TblV, v: ExpV) -> Result<u64, ErrorV> {
    match v {
        ExpV::Float(b) => Ok(b),
        ExpV::Integer(n) => match bits_answer(tbl, QueryV::FromInt(n)) {
            Some(b) => Ok(b),
            None => Err(ErrorV::MissingFloatAnswer(QueryV::FromInt(n))),
        },
        _ => Err(arith_type_error()),
    }
}

/// Which binary float query an arithmetic fold step asks.
pub open spec fn float_query_of(op: RispBuiltinFunction, a: u64, b: u64) -> QueryV {
    match op {
        RispBuiltinFunction::Plus => QueryV::Add(a, b),
        RispBuiltinFunction::Minus => QueryV::Sub(a, b),
        RispBuiltinFunction::Multiply => QueryV::Mul(a, b),
        _ => QueryV::Div(a, b),
    }
}

/// Fold the arguments from `i` on through the table with `op`.
pub open spec fn float_fold_from(
    tbl: TblV,
    op: RispBuiltinFunction,
    args: Seq<ExpV>,
    i: int,
    acc: u64,
) -> Result<u64, ErrorV>
    decreases args.len() - i,
{
    if i < 0 || i >= args.len() {
        Ok(acc)
    } else {
        match operand_bits(tbl, args[i]) {
            Err(e) => Err(e),
            Ok(b) => {
                let q = float_query_of(op, acc, b);
                match bits_answer(tbl, q) {
                    Some(c) => float_fold_from(tbl, op, args, i + 1, c),
                    None => Err(ErrorV::MissingFloatAnswer(q)),
                }
            },
        }
    }
}

/// The bits of 0.0 and 1.0, the identities of float sum and product.
pub open spec fn float_zero_bits() -> u64 {
    0
}

pub open spec fn float_one_bits() -> u64 {
    0x3ff0_0000_0000_0000
}

/// `+`: the checked sum; any float argument promotes the whole reduction to
/// a float.
pub open spec fn plus_spec(args: Seq<ExpV>, tbl: TblV) -> Result<ExpV, ErrorV> {
    if !all_numeric(args) {
        Err(arith_type_error())
    } else if any_float(args) {
        match float_fold_from(tbl, RispBuiltinFunction::Plus, args, 0, float_zero_bits()) {
            Ok(b) => Ok(ExpV::Float(b)),
            Err(e) => Err(e),
        }
    } else {
        match int_sum_from(args, 0, 0) {
            Ok(v) => Ok(ExpV::Integer(v as i32)),
            Err(e) => Err(e),
        }
    }
}

/// `*`: the checked product, with the same float promotion.
pub open spec fn multiply_spec(args: Seq<ExpV>, tbl: TblV) -> Result<ExpV, ErrorV> {
    if !all_numeric(args) {
        Err(arith_type_error())
    } else if any_float(args) {
        match float_fold_from(tbl, RispBuiltinFunction::Multiply, args, 0, float_one_bits()) {
            Ok(b) => Ok(ExpV::Float(b)),
            Err(e) => Err(e),
        }
    } else {
        match int_prod_from(args, 0, 1) {
            Ok(v) => Ok(ExpV::Integer(v as i32)),
            Err(e) => Err(e),
        }
    }
}

/// `-`: the first argument minus the sum of the rest; no arguments yield 0.
pub open spec fn minus_spec(args: Seq<ExpV>, tbl: TblV) -> Result<ExpV, ErrorV> {
    if !all_numeric(args) {
        Err(arith_type_error())
    } else if args.len() == 0 {
        Ok(ExpV::Integer(0))
    } else if any_float(args) {
        match operand_bits(tbl, args[0]) {
            Err(e) => Err(e),
            Ok(first) => match float_fold_from(
                tbl,
                RispBuiltinFunction::Plus,
                args,
                1,
                float_zero_bits(),
            ) {
                Err(e) => Err(e),
                Ok(sum) => {
                    let q = QueryV::Sub(first, sum);
                    match bits_answer(tbl, q) {
                        Some(b) => Ok(ExpV::Float(b)),
                        None => Err(ErrorV::MissingFloatAnswer(q)),
                    }
                },
            },
        }
    } else {
        match int_sum_from(args, 1, 0) {
            Err(e) => Err(e),
            Ok(sum) => {
                let x = args[0]->Integer_0 as int - sum;
                if x < -0x8000_0000 || x > 0x7fff_ffff {
                    Err(ErrorV::Overflow)
                } else {
                    Ok(ExpV::Integer(x as i32))
                }
            },
        }
    }
}

/// `/`: the first argument divided by the product of the rest; at least one
/// argument is required.
pub open spec fn divide_spec(args: Seq<ExpV>, tbl: TblV) -> Result<ExpV, ErrorV> {
    if args.len() < 1 {
        Err(ErrorV::ArityMismatch(FuncV::Builtin(RispBuiltinFunction::Divide)))
    } else if !all_numeric(args) {
        Err(arith_type_error())
    } else if any_float(args) {
        match operand_bits(tbl, args[0]) {
            Err(e) => Err(e),
            Ok(first) => match float_fold_from(
                tbl,
                RispBuiltinFunction::Multiply,
                args,
                1,
                float_one_bits(),
            ) {
                Err(e) => Err(e),
                Ok(prod) => {
                    let q = QueryV::Div(first, prod);
                    match bits_answer(tbl, q) {
                        Some(b) => Ok(ExpV::Float(b)),
                        None => Err(ErrorV::MissingFloatAnswer(q)),
                    }
                },
            },
        }
    } else {
        match int_prod_from(args, 1, 1) {
            Err(e) => Err(e),
            Ok(prod) => {
                if prod == 0 {
                    Err(ErrorV::DivisionByZero)
                } else {
                    let x = div_trunc(args[0]->Integer_0 as int, prod);
                    if x < -0x8000_0000 || x > 0x7fff_ffff {
                        Err(ErrorV::Overflow)
                    } else {
                        Ok(ExpV::Integer(x as i32))
                    }
                }
            },
        }
    }
}

/// Left fold of the arguments' truth values from `i` on.
pub open spec fn bool_fold_from(
    op: RispBuiltinFunction,
    args: Seq<ExpV>,
    i: int,
    acc: bool,
) -> bool
    decreases args.len() - i,
{
    if i < 0 || i >= args.len() {
        acc
    } else {
        let t = truthy(args[i]);
        let c = match op {
            RispBuiltinFunction::And => acc && t,
            RispBuiltinFunction::Or => acc || t,
            _ => acc != t,
        };
        bool_fold_from(op, args, i + 1, c)
    }
}

/// `and`, `or`, `xor`: fold the truth values pairwise; no arguments yield
/// the fold's identity (true, false, false).
pub open spec fn bool_op_spec(op: RispBuiltinFunction, args: Seq<ExpV>) -> Result<ExpV, ErrorV> {
    if args.len() == 0 {
        Ok(
            ExpV::Bool(
                match op {
                    RispBuiltinFunction::And => true,
                    _ => false,
                },
            ),
        )
    } else {
        Ok(ExpV::Bool(bool_fold_from(op, args, 1, truthy(args[0]))))
    }
}

/// `not`: exactly one argument.
pub open spec fn not_spec(args: Seq<ExpV>) -> Result<ExpV, ErrorV> {
    if args.len() != 1 {
        Err(ErrorV::ArityMismatch(FuncV::Builtin(RispBuiltinFunction::Not)))
    } else {
        Ok(ExpV::Bool(!truthy(args[0])))
    }
}

/// Which ordering query a comparison of two floats asks.
pub open spec fn cmp_query_of(op: RispBuiltinFunction, a: u64, b: u64) -> QueryV {
    match op {
        RispBuiltinFunction::LT => QueryV::Lt(a, b),
        RispBuiltinFunction::LTE => QueryV::Lte(a, b),
        RispBuiltinFunction::GT => QueryV::Gt(a, b),
        _ => QueryV::Gte(a, b),
    }
}

/// An ordering comparison of two values: integers compare directly, any
/// float pairing goes through the table, and a non-numeric operand has no
/// ordering, which compares false.
pub open spec fn num_cmp_spec(op: RispBuiltinFunction, a: ExpV, b: ExpV, tbl: TblV) -> Result<
    bool,
    ErrorV,
> {
    if a is Integer && b is Integer {
        let x = a->Integer_0 as int;
        let y = b->Integer_0 as int;
        Ok(
            match op {
                RispBuiltinFunction::LT => x < y,
                RispBuiltinFunction::LTE => x <= y,
                RispBuiltinFunction::GT => x > y,
                _ => x >= y,
            },
        )
    } else if (a is Integer || a is Float) && (b is Integer || b is Float) {
        match operand_bits(tbl, a) {
            Err(e) => Err(e),
            Ok(ab) => match operand_bits(tbl, b) {
                Err(e) => Err(e),
                Ok(bb) => {
                    let q = cmp_query_of(op, ab, bb);
                    match truth_answer(tbl, q) {
                        Some(t) => Ok(t),
                        None => Err(ErrorV::MissingFloatAnswer(q)),
                    }
                },
            },
        }
    } else {
        Ok(false)
    }
}

/// `<`, `<=`, `>`, `>=`: zero to two arguments; fewer than two compare
/// true.
pub open spec fn cmp_op_spec(op: RispBuiltinFunction, args: Seq<ExpV>, tbl: TblV) -> Result<
    ExpV,
    ErrorV,
> {
    if args.len() > 2 {
        Err(ErrorV::ArityMismatch(FuncV::Builtin(op)))
    } else if args.len() <= 1 {
        Ok(ExpV::Bool(true))
    } else {
        match num_cmp_spec(op, args[0], args[1], tbl) {
            Ok(t) => Ok(ExpV::Bool(t)),
            Err(e) => Err(e),
        }
    }
}

/// `=`: zero to two arguments; fewer than two compare true; two floats are
/// compared by the table, everything else structurally.
pub open spec fn eq_op_spec(args: Seq<ExpV>, tbl: TblV) -> Result<ExpV, ErrorV> {
    if args.len() > 2 {
        Err(ErrorV::ArityMismatch(FuncV::Builtin(RispBuiltinFunction::EQ)))
    } else if args.len() <= 1 {
        Ok(ExpV::Bool(true))
    } else if args[0] is Float && args[1] is Float {
        let q = QueryV::Eq(args[0]->Float_0, args[1]->Float_0);
        match truth_answer(tbl, q) {
            Some(t) => Ok(ExpV::Bool(t)),
            None => Err(ErrorV::MissingFloatAnswer(q)),
        }
    } else {
        Ok(ExpV::Bool(args[0] == args[1]))
    }
}

/// The environment after the parameters are bound to the arguments, first
/// `j` bindings applied.
pub open spec fn bind_upto(env: EnvV, ps: Seq<ExpV>, vals: Seq<ExpV>, j: int) -> EnvV
    decreases j,
{
    if j <= 0 {
        env
    } else {
        env_def(bind_upto(env, ps, vals, j - 1), ps[j - 1]->Symbol_0, vals[j - 1])
    }
}

pub open spec fn params_msg() -> Seq<char> {
    "fn params should be a list"@
}

pub open spec fn param_symbol_msg() -> Seq<char> {
    "fn param should be a symbol"@
}

/// One evaluation step, with the environment it leaves behind on either
/// outcome.  The fuel bounds the recursion depth; running out reports
/// [`ErrorV::RecursionLimit`].
pub open spec fn eval_spec(fuel: nat, e: ExpV, env: EnvV, tbl: TblV) -> Result<
    (ExpV, EnvV),
    (ErrorV, EnvV),
>
    decreases fuel, 2int, 0int,
{
    if fuel == 0 {
        Err((ErrorV::RecursionLimit, env))
    } else {
        match e {
            ExpV::Symbol(s) => match env_lookup(env, s) {
                Some(v) => Ok((v, env)),
                None => Ok((e, env)),
            },
            ExpV::List(forms) => {
                if forms.len() == 0 {
                    Ok((e, env))
                } else {
                    eval_call_spec(fuel, forms, env, tbl)
                }
            },
            _ => Ok((e, env)),
        }
    }
}

/// Evaluate the elements of a call form from `i` on, left to right,
/// threading the environment.
pub open spec fn eval_elems_spec(fuel: nat, forms: Seq<ExpV>, i: int, env: EnvV, tbl: TblV) -> Result<
    (Seq<ExpV>, EnvV),
    (ErrorV, EnvV),
>
    decreases fuel, 0int, forms.len() - i,
{
    if i < 0 || i >= forms.len() {
        Ok((Seq::empty(), env))
    } else if fuel == 0 {
        Err((ErrorV::RecursionLimit, env))
    } else {
        match eval_spec((fuel - 1) as nat, forms[i], env, tbl) {
            Err(p) => Err(p),
            Ok((v, env1)) => match eval_elems_spec(fuel, forms, i + 1, env1, tbl) {
                Err(p) => Err(p),
                Ok((vs, env2)) => Ok((seq![v] + vs, env2)),
            },
        }
    }
}

/// Whether every parameter of a user-defined function is a symbol.
pub open spec fn all_symbols(ps: Seq<ExpV>) -> bool {
    forall|i: int| 0 <= i < ps.len() ==> (#[trigger] ps[i]) is Symbol
}

/// Dispatch of a non-empty call form: every element is evaluated first,
/// then the evaluated head decides.
pub open spec fn eval_call_spec(fuel: nat, forms: Seq<ExpV>, env: EnvV, tbl: TblV) -> Result<
    (ExpV, EnvV),
    (ErrorV, EnvV),
>
    decreases fuel, 1int, 0int,
{
    if fuel == 0 {
        Err((ErrorV::RecursionLimit, env))
    } else {
        match eval_elems_spec(fuel, forms, 0, env, tbl) {
            Err(p) => Err(p),
            Ok((vals, env1)) => {
                let first = vals[0];
                let rest = vals.drop_first();
                match first {
                    ExpV::Func(FuncV::Builtin(op)) => match op {
                        RispBuiltinFunction::Plus => pure_result(plus_spec(rest, tbl), env1),
                        RispBuiltinFunction::Minus => pure_result(minus_spec(rest, tbl), env1),
                        RispBuiltinFunction::Multiply => pure_result(
                            multiply_spec(rest, tbl),
                            env1,
                        ),
                        RispBuiltinFunction::Divide => pure_result(divide_spec(rest, tbl), env1),
                        RispBuiltinFunction::And => pure_result(
                            bool_op_spec(RispBuiltinFunction::And, rest),
                            env1,
                        ),
                        RispBuiltinFunction::Or => pure_result(
                            bool_op_spec(RispBuiltinFunction::Or, rest),
                            env1,
                        ),
                        RispBuiltinFunction::Xor => pure_result(
                            bool_op_spec(RispBuiltinFunction::Xor, rest),
                            env1,
                        ),
                        RispBuiltinFunction::Not => pure_result(not_spec(rest), env1),
                        RispBuiltinFunction::LT => pure_result(
                            cmp_op_spec(RispBuiltinFunction::LT, rest, tbl),
                            env1,
                        ),
                        RispBuiltinFunction::LTE => pure_result(
                            cmp_op_spec(RispBuiltinFunction::LTE, rest, tbl),
                            env1,
                        ),
                        RispBuiltinFunction::GT => pure_result(
                            cmp_op_spec(RispBuiltinFunction::GT, rest, tbl),
                            env1,
                        ),
                        RispBuiltinFunction::GTE => pure_result(
                            cmp_op_spec(RispBuiltinFunction::GTE, rest, tbl),
                            env1,
                        ),
                        RispBuiltinFunction::EQ => pure_result(eq_op_spec(rest, tbl), env1),
                        RispBuiltinFunction::Def => {
                            if rest.len() != 2 {
                                Err(
                                    (
                                        ErrorV::ArityMismatch(
                                            FuncV::Builtin(RispBuiltinFunction::Def),
                                        ),
                                        env1,
                                    ),
                                )
                            } else if rest[0] is Symbol {
                                Ok((ExpV::Nil, env_def(env1, rest[0]->Symbol_0, rest[1])))
                            } else {
                                Err((ErrorV::MalformedDefExpression, env1))
                            }
                        },
                        RispBuiltinFunction::If => {
                            if rest.len() != 3 {
                                Err(
                                    (
                                        ErrorV::ArityMismatch(
                                            FuncV::Builtin(RispBuiltinFunction::If),
                                        ),
                                        env1,
                                    ),
                                )
                            } else if rest[0] is Bool {
                                Ok(
                                    (
                                        if rest[0]->Bool_0 {
                                            rest[1]
                                        } else {
                                            rest[2]
                                        },
                                        env1,
                                    ),
                                )
                            } else {
                                Err((ErrorV::MalformedDefExpression, env1))
                            }
                        },
                    },
                    ExpV::Func(FuncV::Function { params, body }) => {
                        if !(*params is List) {
                            Err((ErrorV::GenericError(params_msg()), env1))
                        } else {
                            let ps = (*params)->List_0;
                            if ps.len() != rest.len() {
                                Err(
                                    (
                                        ErrorV::ArityMismatch(
                                            FuncV::Function { params, body },
                                        ),
                                        env1,
                                    ),
                                )
                            } else if !all_symbols(ps) {
                                Err((ErrorV::GenericError(param_symbol_msg()), env1))
                            } else {
                                let callee = bind_upto(
                                    env1.push(Seq::empty()),
                                    ps,
                                    rest,
                                    ps.len() as int,
                                );
                                match eval_spec((fuel - 1) as nat, *body, callee, tbl) {
                                    Ok((v, env2)) => Ok((v, env2.drop_last())),
                                    Err((er, env2)) => Err((er, env2.drop_last())),
                                }
                            }
                        }
                    },
                    _ => Err((ErrorV::FirstFormMustBeFunction(first), env1)),
                }
            },
        }
    }
}

/// Attach the unchanged environment to a pure builtin's outcome.
pub open spec fn pure_result(r: Result<ExpV, ErrorV>, env: EnvV) -> Result<
    (ExpV, EnvV),
    (ErrorV, EnvV),
> {
    match r {
        Ok(v) => Ok((v, env)),
        Err(e) => Err((e, env)),
    }
}

fn truthiness(b: &RispExp) -> (r: bool)
    ensures
        r == truthy(b@),
{
    match b {
        RispExp::Nil => false,
        RispExp::Bool(t) => *t,
        _ => true,
    }
}

#[verifier::loop_isolation(false)]
fn check_all_numeric(args: &[RispExp]) -> (r: bool)
    ensures
        r == all_numeric(exps_view(args@)),
{
    proof {
        lemma_exps_view(args@);
    }
    let ghost av = exps_view(args@);
    let n = args.len();
    let mut i: usize = 0;
    while i < n
        invariant
            n == args@.len(),
            0 <= i <= n,
            forall|j: int| 0 <= j < i ==> (#[trigger] av[j]) is Integer || av[j] is Float,
        decreases n - i,
    {
        let ok = match &args[i] {
            RispExp::Integer(_) => true,
            RispExp::Float(_) => true,
            _ => false,
        };
        if !ok {
            proof {
                assert(!(av[i as int] is Integer || av[i as int] is Float));
            }
            return false;
        }
        i = i + 1;
    }
    true
}

#[verifier::loop_isolation(false)]
fn check_any_float(args: &[RispExp]) -> (r: bool)
    ensures
        r == any_float(exps_view(args@)),
{
    proof {
        lemma_exps_view(args@);
    }
    let ghost av = exps_view(args@);
    let n = args.len();
    let mut i: usize = 0;
    while i < n
        invariant
            n == args@.len(),
            0 <= i <= n,
            forall|j: int| 0 <= j < i ==> !((#[trigger] av[j]) is Float),
        decreases n - i,
    {
        if let RispExp::Float(_) = &args[i] {
            proof {
                assert(av[i as int] is Float);
            }
            return true;
        }
        i = i + 1;
    }
    false
}

#[verifier::loop_isolation(false)]
fn int_fold(args: &[RispExp], start: usize, init: i32, mul: bool) -> (r: Result<i32, RispError>)
    requires
        all_numeric(exps_view(args@)),
        !any_float(exps_view(args@)),
    ensures
        ({
            let sv = if mul {
                int_prod_from(exps_view(args@), start as int, init as int)
            } else {
                int_sum_from(exps_view(args@), start as int, init as int)
            };
            match r {
                Ok(v) => sv == Ok::<int, ErrorV>(v as int),
                Err(e) => sv == Err::<int, ErrorV>(e@),
            }
        }),
{
    proof {
        lemma_exps_view(args@);
    }
    let ghost av = exps_view(args@);
    let n = args.len();
    let mut acc: i32 = init;
    let mut i: usize = start;
    if i > n {
        i = n;
    }
    while i < n
        invariant
            n == args@.len(),
            0 <= i <= n,
            (if mul {
                int_prod_from(av, start as int, init as int)
            } else {
                int_sum_from(av, start as int, init as int)
            }) == (if mul {
                int_prod_from(av, i as int, acc as int)
            } else {
                int_sum_from(av, i as int, acc as int)
            }),
        decreases n - i,
    {
        let x = match &args[i] {
            RispExp::Integer(v) => *v,
            _ => {
                proof {
                    assert(av[i as int] is Integer || av[i as int] is Float);
                    assert(!(av[i as int] is Float));
                }
                0
            },
        };
        proof {
            assert(av[i as int] is Integer && av[i as int]->Integer_0 == x);
        }
        let next = if mul {
            acc.checked_mul(x)
        } else {
            acc.checked_add(x)
        };
        match next {
            Some(v) => {
                acc = v;
            },
            None => {
                return Err(RispError::Overflow);
            },
        }
        i = i + 1;
    }
    Ok(acc)
}

/// The bits an argument contributes to a float reduction.
fn float_operand(floats: &FloatTable, e: &RispExp) -> (r: Result<u64, RispError>)
    ensures
        match r {
            Ok(b) => operand_bits(floats@, e@) == Ok::<u64, ErrorV>(b),
            Err(er) => operand_bits(floats@, e@) == Err::<u64, ErrorV>(er@),
        },
{
    match e {
        RispExp::Float(b) => Ok(*b),
        RispExp::Integer(n) => {
            let q = FloatQuery::FromInt(*n);
            match floats.lookup(&q) {
                Some(FloatAnswer::Bits(b)) => Ok(*b),
                _ => Err(RispError::MissingFloatAnswer(q)),
            }
        },
        _ => Err(
            RispError::TypeError(
                String::from_str(
                    "Attempting to do arithmetic operation on non float/int with builtin",
                ),
            ),
        ),
    }
}

fn arith_query(op: RispBuiltinFunction, a: u64, b: u64) -> (q: FloatQuery)
    ensures
        q@ == float_query_of(op, a, b),
{
    match op {
        RispBuiltinFunction::Plus => FloatQuery::Add(a, b),
        RispBuiltinFunction::Minus => FloatQuery::Sub(a, b),
        RispBuiltinFunction::Multiply => FloatQuery::Mul(a, b),
        _ => FloatQuery::Div(a, b),
    }
}

#[verifier::loop_isolation(false)]
fn float_fold(
    floats: &FloatTable,
    op: RispBuiltinFunction,
    args: &[RispExp],
    start: usize,
    init: u64,
) -> (r: Result<u64, RispError>)
    ensures
        match r {
            Ok(b) => float_fold_from(floats@, op, exps_view(args@), start as int, init) == Ok::<
                u64,
                ErrorV,
            >(b),
            Err(er) => float_fold_from(floats@, op, exps_view(args@), start as int, init)
                == Err::<u64, ErrorV>(er@),
        },
{
    proof {
        lemma_exps_view(args@);
    }
    let ghost av = exps_view(args@);
    let n = args.len();
    let mut acc: u64 = init;
    let mut i: usize = start;
    if i > n {
        i = n;
    }
    while i < n
        invariant
            n == args@.len(),
            0 <= i <= n,
            float_fold_from(floats@, op, av, start as int, init) == float_fold_from(
                floats@,
                op,
                av,
                i as int,
                acc,
            ),
        decreases n - i,
    {
        match float_operand(floats, &args[i]) {
            Err(e) => {
                return Err(e);
            },
            Ok(b) => {
                let q = arith_query(op, acc, b);
                match floats.lookup(&q) {
                    Some(FloatAnswer::Bits(c)) => {
                        acc = *c;
                    },
                    _ => {
                        return Err(RispError::MissingFloatAnswer(q));
                    },
                }
            },
        }
        i = i + 1;
    }
    Ok(acc)
}

/// `+` over the evaluated arguments.
pub fn plus(args: &[RispExp], floats: &FloatTable) -> (r: RispResult<RispExp>)
    ensures
        match r {
            Ok(v) => plus_spec(exps_view(args@), floats@) == Ok::<ExpV, ErrorV>(v@),
            Err(e) => plus_spec(exps_view(args@), floats@) == Err::<ExpV, ErrorV>(e@),
        },
{
    if !check_all_numeric(args) {
        return Err(
            RispError::TypeError(
                String::from_str(
                    "Attempting to do arithmetic operation on non float/int with builtin",
                ),
            ),
        );
    }
    if check_any_float(args) {
        match float_fold(floats, RispBuiltinFunction::Plus, args, 0, 0) {
            Ok(b) => Ok(RispExp::Float(b)),
            Err(e) => Err(e),
        }
    } else {
        match int_fold(args, 0, 0, false) {
            Ok(v) => Ok(RispExp::Integer(v)),
            Err(e) => Err(e),
        }
    }
}

/// `*` over the evaluated arguments.
pub fn multiply(args: &[RispExp], floats: &FloatTable) -> (r: RispResult<RispExp>)
    ensures
        match r {
            Ok(v) => multiply_spec(exps_view(args@), floats@) == Ok::<ExpV, ErrorV>(v@),
            Err(e) => multiply_spec(exps_view(args@), floats@) == Err::<ExpV, ErrorV>(e@),
        },
{
    if !check_all_numeric(args) {
        return Err(
            RispError::TypeError(
                String::from_str(
                    "Attempting to do arithmetic operation on non float/int with builtin",
                ),
            ),
        );
    }
    if check_any_float(args) {
        match float_fold(floats, RispBuiltinFunction::Multiply, args, 0, 0x3ff0_0000_0000_0000) {
            Ok(b) => Ok(RispExp::Float(b)),
            Err(e) => Err(e),
        }
    } else {
        match int_fold(args, 0, 1, true) {
            Ok(v) => Ok(RispExp::Integer(v)),
            Err(e) => Err(e),
        }
    }
}

/// `-`: the first argument minus the sum of the rest.
pub fn minus(args: &[RispExp], floats: &FloatTable) -> (r: RispResult<RispExp>)
    ensures
        match r {
            Ok(v) => minus_spec(exps_view(args@), floats@) == Ok::<ExpV, ErrorV>(v@),
            Err(e) => minus_spec(exps_view(args@), floats@) == Err::<ExpV, ErrorV>(e@),
        },
{
    proof {
        lemma_exps_view(args@);
    }
    if !check_all_numeric(args) {
        return Err(
            RispError::TypeError(
                String::from_str(
                    "Attempting to do arithmetic operation on non float/int with builtin",
                ),
            ),
        );
    }
    if args.len() == 0 {
        return Ok(RispExp::Integer(0));
    }
    if check_any_float(args) {
        match float_operand(floats, &args[0]) {
            Err(e) => Err(e),
            Ok(first) => match float_fold(floats, RispBuiltinFunction::Plus, args, 1, 0) {
                Err(e) => Err(e),
                Ok(sum) => {
                    let q = FloatQuery::Sub(first, sum);
                    match floats.lookup(&q) {
                        Some(FloatAnswer::Bits(b)) => Ok(RispExp::Float(*b)),
                        _ => Err(RispError::MissingFloatAnswer(q)),
                    }
                },
            },
        }
    } else {
        match int_fold(args, 1, 0, false) {
            Err(e) => Err(e),
            Ok(sum) => {
                let first = match &args[0] {
                    RispExp::Integer(v) => *v,
                    _ => 0,
                };
                match first.checked_sub(sum) {
                    Some(v) => Ok(RispExp::Integer(v)),
                    None => Err(RispError::Overflow),
                }
            },
        }
    }
}

/// `/`: the first argument divided by the product of the rest.
pub fn divide(args: &[RispExp], floats: &FloatTable) -> (r: RispResult<RispExp>)
    ensures
        match r {
            Ok(v) => divide_spec(exps_view(args@), floats@) == Ok::<ExpV, ErrorV>(v@),
            Err(e) => divide_spec(exps_view(args@), floats@) == Err::<ExpV, ErrorV>(e@),
        },
{
    proof {
        lemma_exps_view(args@);
    }
    if args.len() < 1 {
        return Err(
            RispError::ArityMismatch(RispFunction::Builtin(RispBuiltinFunction::Divide)),
        );
    }
    if !check_all_numeric(args) {
        return Err(
            RispError::TypeError(
                String::from_str(
                    "Attempting to do arithmetic operation on non float/int with builtin",
                ),
            ),
        );
    }
    if check_any_float(args) {
        match float_operand(floats, &args[0]) {
            Err(e) => Err(e),
            Ok(first) => match float_fold(
                floats,
                RispBuiltinFunction::Multiply,
                args,
                1,
                0x3ff0_0000_0000_0000,
            ) {
                Err(e) => Err(e),
                Ok(prod) => {
                    let q = FloatQuery::Div(first, prod);
                    match floats.lookup(&q) {
                        Some(FloatAnswer::Bits(b)) => Ok(RispExp::Float(*b)),
                        _ => Err(RispError::MissingFloatAnswer(q)),
                    }
                },
            },
        }
    } else {
        match int_fold(args, 1, 1, true) {
            Err(e) => Err(e),
            Ok(prod) => {
                if prod == 0 {
                    return Err(RispError::DivisionByZero);
                }
                let first = match &args[0] {
                    RispExp::Integer(v) => *v,
                    _ => 0,
                };
                match first.checked_div(prod) {
                    Some(v) => Ok(RispExp::Integer(v)),
                    None => Err(RispError::Overflow),
                }
            },
        }
    }
}

#[verifier::loop_isolation(false)]
fn bool_fold_exec(op: RispBuiltinFunction, args: &[RispExp]) -> (r: bool)
    requires
        args@.len() >= 1,
    ensures
        r == bool_fold_from(op, exps_view(args@), 1, truthy(exps_view(args@)[0])),
{
    proof {
        lemma_exps_view(args@);
    }
    let ghost av = exps_view(args@);
    let n = args.len();
    let mut acc = truthiness(&args[0]);
    let mut i: usize = 1;
    while i < n
        invariant
            n == args@.len(),
            1 <= i <= n,
            bool_fold_from(op, av, 1, truthy(av[0])) == bool_fold_from(op, av, i as int, acc),
        decreases n - i,
    {
        let t = truthiness(&args[i]);
        acc = match op {
            RispBuiltinFunction::And => acc && t,
            RispBuiltinFunction::Or => acc || t,
            _ => acc != t,
        };
        i = i + 1;
    }
    acc
}

/// `and` over the evaluated arguments; only nil and false are false.
pub fn boolean_and(args: &[RispExp]) -> (r: RispResult<RispExp>)
    ensures
        match r {
            Ok(v) => bool_op_spec(RispBuiltinFunction::And, exps_view(args@)) == Ok::<
                ExpV,
                ErrorV,
            >(v@),
            Err(e) => false,
        },
{
    proof {
        lemma_exps_view(args@);
    }
    if args.len() == 0 {
        return Ok(RispExp::Bool(true));
    }
    Ok(RispExp::Bool(bool_fold_exec(RispBuiltinFunction::And, args)))
}

/// `or` over the evaluated arguments.
pub fn boolean_or(args: &[RispExp]) -> (r: RispResult<RispExp>)
    ensures
        match r {
            Ok(v) => bool_op_spec(RispBuiltinFunction::Or, exps_view(args@)) == Ok::<
                ExpV,
                ErrorV,
            >(v@),
            Err(e) => false,
        },
{
    proof {
        lemma_exps_view(args@);
    }
    if args.len() == 0 {
        return Ok(RispExp::Bool(false));
    }
    Ok(RispExp::Bool(bool_fold_exec(RispBuiltinFunction::Or, args)))
}

/// `xor` over the evaluated arguments.
pub fn boolean_xor(args: &[RispExp]) -> (r: RispResult<RispExp>)
    ensures
        match r {
            Ok(v) => bool_op_spec(RispBuiltinFunction::Xor, exps_view(args@)) == Ok::<
                ExpV,
                ErrorV,
            >(v@),
            Err(e) => false,
        },
{
    proof {
        lemma_exps_view(args@);
    }
    if args.len() == 0 {
        return Ok(RispExp::Bool(false));
    }
    Ok(RispExp::Bool(bool_fold_exec(RispBuiltinFunction::Xor, args)))
}

/// `not`: exactly one argument.
pub fn boolean_not(args: &[RispExp]) -> (r: RispResult<RispExp>)
    ensures
        match r {
            Ok(v) => not_spec(exps_view(args@)) == Ok::<ExpV, ErrorV>(v@),
            Err(e) => not_spec(exps_view(args@)) == Err::<ExpV, ErrorV>(e@),
        },
{
    proof {
        lemma_exps_view(args@);
    }
    if args.len() != 1 {
        return Err(RispError::ArityMismatch(RispFunction::Builtin(RispBuiltinFunction::Not)));
    }
    Ok(RispExp::Bool(!truthiness(&args[0])))
}

fn cmp_query(op: RispBuiltinFunction, a: u64, b: u64) -> (q: FloatQuery)
    ensures
        q@ == cmp_query_of(op, a, b),
{
    match op {
        RispBuiltinFunction::LT => FloatQuery::Lt(a, b),
        RispBuiltinFunction::LTE => FloatQuery::Lte(a, b),
        RispBuiltinFunction::GT => FloatQuery::Gt(a, b),
        _ => FloatQuery::Gte(a, b),
    }
}

fn cmp_op(op: RispBuiltinFunction, rest: &[RispExp], floats: &FloatTable) -> (r: RispResult<
    RispExp,
>)
    ensures
        match r {
            Ok(v) => cmp_op_spec(op, exps_view(rest@), floats@) == Ok::<ExpV, ErrorV>(v@),
            Err(e) => cmp_op_spec(op, exps_view(rest@), floats@) == Err::<ExpV, ErrorV>(e@),
        },
{
    proof {
        lemma_exps_view(rest@);
    }
    if rest.len() > 2 {
        return Err(RispError::ArityMismatch(RispFunction::Builtin(op)));
    }
    if rest.len() <= 1 {
        return Ok(RispExp::Bool(true));
    }
    let a = &rest[0];
    let b = &rest[1];
    match (a, b) {
        (RispExp::Integer(x), RispExp::Integer(y)) => {
            let t = match op {
                RispBuiltinFunction::LT => *x < *y,
                RispBuiltinFunction::LTE => *x <= *y,
                RispBuiltinFunction::GT => *x > *y,
                _ => *x >= *y,
            };
            Ok(RispExp::Bool(t))
        },
        _ => {
            let a_num = match a {
                RispExp::Integer(_) => true,
                RispExp::Float(_) => true,
                _ => false,
            };
            let b_num = match b {
                RispExp::Integer(_) => true,
                RispExp::Float(_) => true,
                _ => false,
            };
            if !(a_num && b_num) {
                return Ok(RispExp::Bool(false));
            }
            match float_operand(floats, a) {
                Err(e) => Err(e),
                Ok(ab) => match float_operand(floats, b) {
                    Err(e) => Err(e),
                    Ok(bb) => {
                        let q = cmp_query(op, ab, bb);
                        match floats.lookup(&q) {
                            Some(FloatAnswer::Truth(t)) => Ok(RispExp::Bool(*t)),
                            _ => Err(RispError::MissingFloatAnswer(q)),
                        }
                    },
                },
            }
        },
    }
}

/// `<` over zero to two evaluated arguments.
pub fn op_lt(rest: &[RispExp], floats: &FloatTable) -> (r: RispResult<RispExp>)
    ensures
        match r {
            Ok(v) => cmp_op_spec(RispBuiltinFunction::LT, exps_view(rest@), floats@) == Ok::<
                ExpV,
                ErrorV,
            >(v@),
            Err(e) => cmp_op_spec(RispBuiltinFunction::LT, exps_view(rest@), floats@) == Err::<
                ExpV,
                ErrorV,
            >(e@),
        },
{
    cmp_op(RispBuiltinFunction::LT, rest, floats)
}

/// `<=` over zero to two evaluated arguments.
pub fn op_lte(rest: &[RispExp], floats: &FloatTable) -> (r: RispResult<RispExp>)
    ensures
        match r {
            Ok(v) => cmp_op_spec(RispBuiltinFunction::LTE, exps_view(rest@), floats@) == Ok::<
                ExpV,
                ErrorV,
            >(v@),
            Err(e) => cmp_op_spec(RispBuiltinFunction::LTE, exps_view(rest@), floats@) == Err::<
                ExpV,
                ErrorV,
            >(e@),
        },
{
    cmp_op(RispBuiltinFunction::LTE, rest, floats)
}

/// `>` over zero to two evaluated arguments.
pub fn op_gt(rest: &[RispExp], floats: &FloatTable) -> (r: RispResult<RispExp>)
    ensures
        match r {
            Ok(v) => cmp_op_spec(RispBuiltinFunction::GT, exps_view(rest@), floats@) == Ok::<
                ExpV,
                ErrorV,
            >(v@),
            Err(e) => cmp_op_spec(RispBuiltinFunction::GT, exps_view(rest@), floats@) == Err::<
                ExpV,
                ErrorV,
            >(e@),
        },
{
    cmp_op(RispBuiltinFunction::GT, rest, floats)
}

/// `>=` over zero to two evaluated arguments.
pub fn op_gte(rest: &[RispExp], floats: &FloatTable) -> (r: RispResult<RispExp>)
    ensures
        match r {
            Ok(v) => cmp_op_spec(RispBuiltinFunction::GTE, exps_view(rest@), floats@) == Ok::<
                ExpV,
                ErrorV,
            >(v@),
            Err(e) => cmp_op_spec(RispBuiltinFunction::GTE, exps_view(rest@), floats@) == Err::<
                ExpV,
                ErrorV,
            >(e@),
        },
{
    cmp_op(RispBuiltinFunction::GTE, rest, floats)
}

/// `=` over zero to two evaluated arguments: structural equality, floats
/// through the table.
pub fn op_eq(rest: &[RispExp], floats: &FloatTable) -> (r: RispResult<RispExp>)
    ensures
        match r {
            Ok(v) => eq_op_spec(exps_view(rest@), floats@) == Ok::<ExpV, ErrorV>(v@),
            Err(e) => eq_op_spec(exps_view(rest@), floats@) == Err::<ExpV, ErrorV>(e@),
        },
{
    proof {
        lemma_exps_view(rest@);
    }
    if rest.len() > 2 {
        return Err(RispError::ArityMismatch(RispFunction::Builtin(RispBuiltinFunction::EQ)));
    }
    if rest.len() <= 1 {
        return Ok(RispExp::Bool(true));
    }
    if let (RispExp::Float(a), RispExp::Float(b)) = (&rest[0], &rest[1]) {
        let q = FloatQuery::Eq(*a, *b);
        match floats.lookup(&q) {
            Some(FloatAnswer::Truth(t)) => Ok(RispExp::Bool(*t)),
            _ => Err(RispError::MissingFloatAnswer(q)),
        }
    } else {
        Ok(RispExp::Bool(&rest[0] == &rest[1]))
    }
}

/// Evaluation depth bound of the public entry points.
pub const EVAL_DEPTH: u64 = 256;

#[verifier::loop_isolation(false)]
fn eval_core(exp: &RispExp, env: &mut RispEnv, floats: &FloatTable, fuel: u64) -> (r: RispResult<
    RispExp,
>)
    requires
        old(env).wf(),
    ensures
        final(env).wf(),
        final(env)@.len() == old(env)@.len(),
        match r {
            Ok(v) => eval_spec(fuel as nat, exp@, old(env)@, floats@) == Ok::<
                (ExpV, EnvV),
                (ErrorV, EnvV),
            >((v@, final(env)@)),
            Err(e) => eval_spec(fuel as nat, exp@, old(env)@, floats@) == Err::<
                (ExpV, EnvV),
                (ErrorV, EnvV),
            >((e@, final(env)@)),
        },
    decreases fuel, 1int,
{
    if fuel == 0 {
        return Err(RispError::RecursionLimit);
    }
    match exp {
        RispExp::Symbol(s) => {
            if env.has_interned_var(s) {
                match env.get(s) {
                    Some(v) => Ok(v.clone()),
                    None => Ok(exp.clone()),
                }
            } else {
                Ok(exp.clone())
            }
        },
        RispExp::List(forms) => {
            if forms.len() == 0 {
                let r = RispExp::List(Vec::new());
                proof {
                    lemma_exps_view(forms@);
                    lemma_exps_view(Seq::<RispExp>::empty());
                    assert(exps_view(Seq::<RispExp>::empty()) =~= exps_view(forms@));
                }
                return Ok(r);
            }
            eval_list_as_func(forms, env, floats, fuel)
        },
        _ => Ok(exp.clone()),
    }
}

/// Evaluate every element of a non-empty call form, then dispatch on the
/// evaluated head.
#[verifier::loop_isolation(false)]
fn eval_list_as_func(
    forms: &Vec<RispExp>,
    env: &mut RispEnv,
    floats: &FloatTable,
    fuel: u64,
) -> (r: RispResult<RispExp>)
    requires
        old(env).wf(),
        forms@.len() >= 1,
        fuel >= 1,
    ensures
        final(env).wf(),
        final(env)@.len() == old(env)@.len(),
        match r {
            Ok(v) => eval_call_spec(fuel as nat, exps_view(forms@), old(env)@, floats@) == Ok::<
                (ExpV, EnvV),
                (ErrorV, EnvV),
            >((v@, final(env)@)),
            Err(e) => eval_call_spec(fuel as nat, exps_view(forms@), old(env)@, floats@) == Err::<
                (ExpV, EnvV),
                (ErrorV, EnvV),
            >((e@, final(env)@)),
        },
    decreases fuel, 0int,
{
    let ghost fv = exps_view(forms@);
    let ghost env0 = env@;
    let ghost tbl = floats@;
    proof {
        lemma_exps_view(forms@);
    }
    let n = forms.len();
    let mut vals: Vec<RispExp> = Vec::new();
    let mut i: usize = 0;
    while i < n
        invariant
            n == forms@.len(),
            0 <= i <= n,
            env.wf(),
            env@.len() == env0.len(),
            vals@.len() == i,
            eval_elems_spec(fuel as nat, fv, 0, env0, tbl) == (match eval_elems_spec(
                fuel as nat,
                fv,
                i as int,
                env@,
                tbl,
            ) {
                Ok((vs, e2)) => Ok::<(Seq<ExpV>, EnvV), (ErrorV, EnvV)>(
                    (exps_view(vals@) + vs, e2),
                ),
                Err(p) => Err::<(Seq<ExpV>, EnvV), (ErrorV, EnvV)>(p),
            }),
        decreases n - i,
    {
        let ghost vals0 = vals@;
        let ghost env_before = env@;
        match eval_core(&forms[i], env, floats, fuel - 1) {
            Err(e) => {
                proof {
                    lemma_exps_view(vals0);
                    assert(eval_spec((fuel - 1) as nat, fv[i as int], env_before, tbl)
                        == Err::<(ExpV, EnvV), (ErrorV, EnvV)>((e@, env@)));
                    assert(eval_elems_spec(fuel as nat, fv, i as int, env_before, tbl)
                        == Err::<(Seq<ExpV>, EnvV), (ErrorV, EnvV)>((e@, env@)));
                }
                return Err(e);
            },
            Ok(v) => {
                let ghost vv = v@;
                vals.push(v);
                proof {
                    lemma_exps_view(vals@);
                    lemma_exps_view(vals0);
                    assert(vals@ =~= vals0.push(vals@.last()));
                    assert forall|k: int| 0 <= k < vals@.len() implies exps_view(vals@)[k]
                        == exps_view(vals0).push(vv)[k] by {
                        assert(exps_view(vals@)[k] == exp_view(vals@[k]));
                        if k < vals@.len() - 1 {
                            assert(vals@[k] == vals0[k]);
                            assert(exps_view(vals0)[k] == exp_view(vals0[k]));
                        } else {
                            assert(vals@[k] == vals@.last());
                        }
                    }
                    assert(exps_view(vals@) =~= exps_view(vals0).push(vv));
                    if eval_elems_spec(fuel as nat, fv, i as int + 1, env@, tbl) is Ok {
                        let (vs2, e3) = eval_elems_spec(
                            fuel as nat,
                            fv,
                            i as int + 1,
                            env@,
                            tbl,
                        )->Ok_0;
                        assert(exps_view(vals0) + (seq![vv] + vs2) =~= exps_view(vals@) + vs2);
                    }
                }
            },
        }
        i = i + 1;
    }
    proof {
        lemma_exps_view(vals@);
        assert(exps_view(vals@) + Seq::<ExpV>::empty() =~= exps_view(vals@));
    }
    let ghost valsv = exps_view(vals@);
    let ghost env1 = env@;
    let ghost restv = valsv.drop_first();
    let rest: &[RispExp] = &vals.as_slice()[1..vals.len()];
    proof {
        lemma_exps_view(rest@);
        assert forall|k: int| 0 <= k < rest@.len() implies exps_view(rest@)[k] == restv[k] by {
            assert(rest@[k] == vals@[k + 1]);
            assert(exps_view(rest@)[k] == exp_view(rest@[k]));
        }
        assert(exps_view(rest@) =~= restv);
    }
    match &vals[0] {
        RispExp::Func(f) => match f {
            RispFunction::Builtin(op) => match op {
                RispBuiltinFunction::Plus => plus(rest, floats),
                RispBuiltinFunction::Minus => minus(rest, floats),
                RispBuiltinFunction::Multiply => multiply(rest, floats),
                RispBuiltinFunction::Divide => divide(rest, floats),
                RispBuiltinFunction::And => boolean_and(rest),
                RispBuiltinFunction::Or => boolean_or(rest),
                RispBuiltinFunction::Xor => boolean_xor(rest),
                RispBuiltinFunction::Not => boolean_not(rest),
                RispBuiltinFunction::LT => op_lt(rest, floats),
                RispBuiltinFunction::LTE => op_lte(rest, floats),
                RispBuiltinFunction::GT => op_gt(rest, floats),
                RispBuiltinFunction::GTE => op_gte(rest, floats),
                RispBuiltinFunction::EQ => op_eq(rest, floats),
                RispBuiltinFunction::Def => {
                    if vals.len() != 3 {
                        return Err(
                            RispError::ArityMismatch(
                                RispFunction::Builtin(RispBuiltinFunction::Def),
                            ),
                        );
                    }
                    match &vals[1] {
                        RispExp::Symbol(name) => {
                            let res = env.def(name, &vals[2]);
                            res
                        },
                        _ => Err(RispError::MalformedDefExpression),
                    }
                },
                RispBuiltinFunction::If => {
                    if vals.len() != 4 {
                        return Err(
                            RispError::ArityMismatch(
                                RispFunction::Builtin(RispBuiltinFunction::If),
                            ),
                        );
                    }
                    match &vals[1] {
                        RispExp::Bool(b) => {
                            if *b {
                                Ok(vals[2].clone())
                            } else {
                                Ok(vals[3].clone())
                            }
                        },
                        _ => Err(RispError::MalformedDefExpression),
                    }
                },
            },
            RispFunction::Function { params, body } => {
                match &**params {
                    RispExp::List(ps) => {
                        proof {
                            lemma_exps_view(ps@);
                        }
                        let ghost psv = exps_view(ps@);
                        if ps.len() != vals.len() - 1 {
                            return Err(RispError::ArityMismatch(f.clone()));
                        }
                        let m = ps.len();
                        let mut j: usize = 0;
                        while j < m
                            invariant
                                m == ps@.len(),
                                0 <= j <= m,
                                forall|k: int| 0 <= k < j ==> (#[trigger] psv[k]) is Symbol,
                            decreases m - j,
                        {
                            match &ps[j] {
                                RispExp::Symbol(_) => {
                                },
                                _ => {
                                    proof {
                                        assert(!(psv[j as int] is Symbol));
                                    }
                                    return Err(
                                        RispError::GenericError(
                                            String::from_str("fn param should be a symbol"),
                                        ),
                                    );
                                },
                            }
                            j = j + 1;
                        }
                        env.push_scope();
                        let ghost pushed = env1.push(Seq::<(Seq<char>, ExpV)>::empty());
                        let mut j2: usize = 0;
                        while j2 < m
                            invariant
                                m == ps@.len(),
                                m == vals@.len() - 1,
                                0 <= j2 <= m,
                                env.wf(),
                                env@.len() == pushed.len(),
                                env@ == bind_upto(pushed, psv, restv, j2 as int),
                                forall|k: int| 0 <= k < m ==> (#[trigger] psv[k]) is Symbol,
                            decreases m - j2,
                        {
                            match &ps[j2] {
                                RispExp::Symbol(nm) => {
                                    let ghost envb = env@;
                                    let _ = env.def(nm, &vals[1 + j2]);
                                    proof {
                                        assert(restv[j2 as int] == valsv[j2 as int + 1]);
                                        assert(exp_view(vals@[j2 as int + 1]) == valsv[j2 as int
                                            + 1]);
                                        assert(psv[j2 as int]->Symbol_0 == nm@);
                                        assert(env@ == env_def(
                                            envb,
                                            psv[j2 as int]->Symbol_0,
                                            restv[j2 as int],
                                        ));
                                    }
                                },
                                _ => {
                                },
                            }
                            j2 = j2 + 1;
                        }
                        let res = eval_core(&**body, env, floats, fuel - 1);
                        let ghost env2 = env@;
                        env.pop_scope();
                        proof {
                            assert(env@ == env2.drop_last());
                        }
                        res
                    },
                    _ => Err(
                        RispError::GenericError(String::from_str("fn params should be a list")),
                    ),
                }
            },
        },
        _ => Err(RispError::FirstFormMustBeFunction(vals[0].clone())),
    }
}

/// Evaluate an expression against the environment and the given float
/// table.  On [`RispError::MissingFloatAnswer`] the environment is left
/// exactly as it was, so the caller can answer the query and run the same
/// line again.
pub fn eval_with(exp: &RispExp, env: &mut RispEnv, floats: &FloatTable) -> (r: RispResult<
    RispExp,
>)
    requires
        old(env).wf(),
    ensures
        final(env).wf(),
        match r {
            Ok(v) => eval_spec(EVAL_DEPTH as nat, exp@, old(env)@, floats@) == Ok::<
                (ExpV, EnvV),
                (ErrorV, EnvV),
            >((v@, final(env)@)),
            Err(e) => {
                &&& eval_spec(EVAL_DEPTH as nat, exp@, old(env)@, floats@) matches Err((ev, env2))
                &&& ev == e@
                &&& (e is MissingFloatAnswer ==> final(env)@ == old(env)@)
                &&& (!(e is MissingFloatAnswer) ==> final(env)@ == env2)
            },
        },
{
    let snapshot = env.clone();
    let r = eval_core(exp, env, floats, EVAL_DEPTH);
    if let Err(RispError::MissingFloatAnswer(_)) = &r {
        *env = snapshot;
    }
    r
}

/// Evaluate an expression with an empty float table: lines that reach no
/// float arithmetic behave exactly as with [`eval_with`]; one that does
/// reports the first query it needs and leaves the environment unchanged.
pub fn eval(exp: &RispExp, env: &mut RispEnv) -> (r: RispResult<RispExp>)
    requires
        old(env).wf(),
    ensures
        final(env).wf(),
        match r {
            Ok(v) => eval_spec(EVAL_DEPTH as nat, exp@, old(env)@, Seq::empty()) == Ok::<
                (ExpV, EnvV),
                (ErrorV, EnvV),
            >((v@, final(env)@)),
            Err(e) => {
                &&& eval_spec(EVAL_DEPTH as nat, exp@, old(env)@, Seq::empty()) matches Err(
                    (ev, env2),
                )
                &&& ev == e@
                &&& (e is MissingFloatAnswer ==> final(env)@ == old(env)@)
                &&& (!(e is MissingFloatAnswer) ==> final(env)@ == env2)
            },
        },
{
    let empty = FloatTable::new();
    eval_with(exp, env, &empty)
}

} // verus!
