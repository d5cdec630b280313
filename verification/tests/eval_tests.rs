use risp_lib::environment::RispEnv;
use risp_lib::error::RispError;
use risp_lib::eval::eval_with;
use risp_lib::floats::{FloatAnswer, FloatQuery, FloatTable};
use risp_lib::parser::{RispBuiltinFunction, RispExp, RispFunction};

fn compute(q: &FloatQuery) -> FloatAnswer {
    match q {
        FloatQuery::Parse(s) => match s.parse::<f64>() {
            Ok(f) => FloatAnswer::Bits(f.to_bits()),
            Err(_) => FloatAnswer::NoParse,
        },
        FloatQuery::FromInt(i) => FloatAnswer::Bits((*i as f64).to_bits()),
        FloatQuery::Add(a, b) => {
            FloatAnswer::Bits((f64::from_bits(*a) + f64::from_bits(*b)).to_bits())
        }
        FloatQuery::Sub(a, b) => {
            FloatAnswer::Bits((f64::from_bits(*a) - f64::from_bits(*b)).to_bits())
        }
        FloatQuery::Mul(a, b) => {
            FloatAnswer::Bits((f64::from_bits(*a) * f64::from_bits(*b)).to_bits())
        }
        FloatQuery::Div(a, b) => {
            FloatAnswer::Bits((f64::from_bits(*a) / f64::from_bits(*b)).to_bits())
        }
        FloatQuery::Lt(a, b) => FloatAnswer::Truth(f64::from_bits(*a) < f64::from_bits(*b)),
        FloatQuery::Lte(a, b) => FloatAnswer::Truth(f64::from_bits(*a) <= f64::from_bits(*b)),
        FloatQuery::Gt(a, b) => FloatAnswer::Truth(f64::from_bits(*a) > f64::from_bits(*b)),
        FloatQuery::Gte(a, b) => FloatAnswer::Truth(f64::from_bits(*a) >= f64::from_bits(*b)),
        FloatQuery::Eq(a, b) => FloatAnswer::Truth(f64::from_bits(*a) == f64::from_bits(*b)),
        FloatQuery::Render(b) => FloatAnswer::Text(f64::from_bits(*b).to_string()),
    }
}

/// The replay loop: answer float queries until the line goes through.
fn eval(exp: &RispExp, env: &mut RispEnv) -> Result<RispExp, RispError> {
    let mut tbl = FloatTable::new();
    loop {
        match eval_with(exp, env, &tbl) {
            Err(RispError::MissingFloatAnswer(q)) => {
                let a = compute(&q);
                tbl.answer(q, a);
            }
            r => return r,
        }
    }
}

fn type_err() -> RispError {
    RispError::TypeError(
        "Attempting to do arithmetic operation on non float/int with builtin".to_string(),
    )
}

fn b(x: RispBuiltinFunction) -> RispExp {
    RispExp::Func(RispFunction::Builtin(x))
}

#[test]
fn eval_plus_2_or_more() {
    let mut env = RispEnv::default();
    let exp = RispExp::List(vec![b(RispBuiltinFunction::Plus), RispExp::Integer(37), RispExp::Integer(42)]);
    assert_eq!(eval(&exp, &mut env).unwrap(), RispExp::Integer(37 + 42));
    let exp = RispExp::List(vec![b(RispBuiltinFunction::Plus), RispExp::Integer(37), RispExp::Integer(42), RispExp::Integer(42), RispExp::Integer(42)]);
    assert_eq!(eval(&exp, &mut env).unwrap(), RispExp::Integer(37 + 3 * 42));
    let exp = RispExp::List(vec![b(RispBuiltinFunction::Plus), RispExp::Integer(37), RispExp::Integer(-42)]);
    assert_eq!(eval(&exp, &mut env).unwrap(), RispExp::Integer(37 - 42));
    let exp = RispExp::List(vec![b(RispBuiltinFunction::Plus), RispExp::Integer(-37), RispExp::Integer(42)]);
    assert_eq!(eval(&exp, &mut env).unwrap(), RispExp::Integer(-37 + 42));
    let exp = RispExp::List(vec![b(RispBuiltinFunction::Plus), RispExp::Float((-37f64).to_bits()), RispExp::Integer(42)]);
    assert_eq!(eval(&exp, &mut env).unwrap(), RispExp::Float((-37f64 + 42f64).to_bits()));
}

#[test]
fn eval_plus1() {
    let mut env = RispEnv::default();
    let exp = RispExp::List(vec![b(RispBuiltinFunction::Plus), RispExp::Integer(37)]);
    assert_eq!(eval(&exp, &mut env).unwrap(), RispExp::Integer(37));
}

#[test]
fn eval_plus0() {
    let mut env = RispEnv::default();
    let exp = RispExp::List(vec![b(RispBuiltinFunction::Plus)]);
    assert_eq!(eval(&exp, &mut env).unwrap(), RispExp::Integer(0));
}

#[test]
fn eval_plus_non_number() {
    let mut env = RispEnv::default();
    let exp = RispExp::List(vec![b(RispBuiltinFunction::Plus), RispExp::String("Locutus".to_owned()), RispExp::Integer(42)]);
    assert_eq!(eval(&exp, &mut env).unwrap_err(), type_err());
}

#[test]
fn eval_minus_2_or_more() {
    let mut env = RispEnv::default();
    let exp = RispExp::List(vec![b(RispBuiltinFunction::Minus), RispExp::Integer(37), RispExp::Integer(42)]);
    assert_eq!(eval(&exp, &mut env).unwrap(), RispExp::Integer(37 - 42));
    let exp = RispExp::List(vec![b(RispBuiltinFunction::Minus), RispExp::Integer(37), RispExp::Integer(42), RispExp::Integer(42), RispExp::Integer(42)]);
    assert_eq!(eval(&exp, &mut env).unwrap(), RispExp::Integer(37 - 3 * 42));
    let exp = RispExp::List(vec![b(RispBuiltinFunction::Minus), RispExp::Integer(37), RispExp::Integer(-42)]);
    assert_eq!(eval(&exp, &mut env).unwrap(), RispExp::Integer(37 - (-42)));
    let exp = RispExp::List(vec![b(RispBuiltinFunction::Minus), RispExp::Integer(-37), RispExp::Integer(42)]);
    assert_eq!(eval(&exp, &mut env).unwrap(), RispExp::Integer(-37 - 42));
    let exp = RispExp::List(vec![b(RispBuiltinFunction::Minus), RispExp::Float((-37f64).to_bits()), RispExp::Integer(42)]);
    assert_eq!(eval(&exp, &mut env).unwrap(), RispExp::Float((-37f64 - 42f64).to_bits()));
}

#[test]
fn eval_minus1() {
    let mut env = RispEnv::default();
    let exp = RispExp::List(vec![b(RispBuiltinFunction::Minus), RispExp::Integer(37)]);
    assert_eq!(eval(&exp, &mut env).unwrap(), RispExp::Integer(37));
}

#[test]
fn eval_minus0() {
    let mut env = RispEnv::default();
    let exp = RispExp::List(vec![b(RispBuiltinFunction::Minus)]);
    assert_eq!(eval(&exp, &mut env).unwrap(), RispExp::Integer(0));
}

#[test]
fn eval_minus_non_number() {
    let mut env = RispEnv::default();
    let exp = RispExp::List(vec![b(RispBuiltinFunction::Minus), RispExp::String("Locutus".to_owned()), RispExp::Integer(42)]);
    assert_eq!(eval(&exp, &mut env).unwrap_err(), type_err());
}

#[test]
fn eval_multiply_2_or_more() {
    let mut env = RispEnv::default();
    let exp = RispExp::List(vec![b(RispBuiltinFunction::Multiply), RispExp::Integer(37), RispExp::Integer(42)]);
    assert_eq!(eval(&exp, &mut env).unwrap(), RispExp::Integer(37 * 42));
    let exp = RispExp::List(vec![b(RispBuiltinFunction::Multiply), RispExp::Integer(37), RispExp::Integer(42), RispExp::Integer(42), RispExp::Integer(42)]);
    assert_eq!(eval(&exp, &mut env).unwrap(), RispExp::Integer(37 * 42 * 42 * 42));
    let exp = RispExp::List(vec![b(RispBuiltinFunction::Multiply), RispExp::Integer(37), RispExp::Integer(-42)]);
    assert_eq!(eval(&exp, &mut env).unwrap(), RispExp::Integer(37 * (-42)));
    let exp = RispExp::List(vec![b(RispBuiltinFunction::Multiply), RispExp::Integer(-37), RispExp::Integer(42)]);
    assert_eq!(eval(&exp, &mut env).unwrap(), RispExp::Integer(-37 * 42));
    let exp = RispExp::List(vec![b(RispBuiltinFunction::Multiply), RispExp::Float((-37f64).to_bits()), RispExp::Integer(42)]);
    assert_eq!(eval(&exp, &mut env).unwrap(), RispExp::Float((-37f64 * 42f64).to_bits()));
}

#[test]
fn eval_multiply1() {
    let mut env = RispEnv::default();
    let exp = RispExp::List(vec![b(RispBuiltinFunction::Multiply), RispExp::Integer(37)]);
    assert_eq!(eval(&exp, &mut env).unwrap(), RispExp::Integer(37));
}

#[test]
fn eval_multiply0() {
    let mut env = RispEnv::default();
    let exp = RispExp::List(vec![b(RispBuiltinFunction::Multiply)]);
    assert_eq!(eval(&exp, &mut env).unwrap(), RispExp::Integer(1));
}

#[test]
fn eval_multiply_non_number() {
    let mut env = RispEnv::default();
    let exp = RispExp::List(vec![b(RispBuiltinFunction::Minus), RispExp::String("Locutus".to_owned()), RispExp::Integer(42)]);
    assert_eq!(eval(&exp, &mut env).unwrap_err(), type_err());
}

#[test]
fn eval_divide_2_or_more() {
    let mut env = RispEnv::default();
    let exp = RispExp::List(vec![b(RispBuiltinFunction::Divide), RispExp::Integer(100), RispExp::Integer(42)]);
    assert_eq!(eval(&exp, &mut env).unwrap(), RispExp::Integer(100 / 42));
    let exp = RispExp::List(vec![b(RispBuiltinFunction::Divide), RispExp::Integer(1000), RispExp::Integer(10), RispExp::Integer(10), RispExp::Integer(5)]);
    assert_eq!(eval(&exp, &mut env).unwrap(), RispExp::Integer(1000 / 10 / 10 / 5));
    let exp = RispExp::List(vec![b(RispBuiltinFunction::Divide), RispExp::Integer(100), RispExp::Integer(-50)]);
    assert_eq!(eval(&exp, &mut env).unwrap(), RispExp::Integer(100 / -50));
    let exp = RispExp::List(vec![b(RispBuiltinFunction::Divide), RispExp::Integer(-100), RispExp::Integer(50)]);
    assert_eq!(eval(&exp, &mut env).unwrap(), RispExp::Integer(-100 / 50));
    let exp = RispExp::List(vec![b(RispBuiltinFunction::Divide), RispExp::Float((-1000f64).to_bits()), RispExp::Integer(500)]);
    assert_eq!(eval(&exp, &mut env).unwrap(), RispExp::Float((-1000f64 / 500f64).to_bits()));
}

#[test]
fn eval_divide1() {
    let mut env = RispEnv::default();
    let exp = RispExp::List(vec![b(RispBuiltinFunction::Divide), RispExp::Integer(37)]);
    assert_eq!(eval(&exp, &mut env).unwrap(), RispExp::Integer(37));
}

#[test]
fn eval_divide0() {
    let mut env = RispEnv::default();
    let exp = RispExp::List(vec![b(RispBuiltinFunction::Divide)]);
    assert_eq!(
        eval(&exp, &mut env).unwrap_err(),
        RispError::ArityMismatch(RispFunction::Builtin(RispBuiltinFunction::Divide))
    );
}

#[test]
fn eval_divide_non_number() {
    let mut env = RispEnv::default();
    let exp = RispExp::List(vec![b(RispBuiltinFunction::Divide), RispExp::String("Locutus".to_owned()), RispExp::Integer(42)]);
    assert_eq!(eval(&exp, &mut env).unwrap_err(), type_err());
}

#[test]
fn eval_and_2_or_more() {
    let mut env = RispEnv::default();
    let exp = RispExp::List(vec![b(RispBuiltinFunction::And), RispExp::Bool(true), RispExp::Bool(true)]);
    assert_eq!(eval(&exp, &mut env).unwrap(), RispExp::Bool(true));
    let exp = RispExp::List(vec![b(RispBuiltinFunction::And), RispExp::Bool(false), RispExp::Bool(true)]);
    assert_eq!(eval(&exp, &mut env).unwrap(), RispExp::Bool(false));
    let exp = RispExp::List(vec![b(RispBuiltinFunction::And), RispExp::Bool(true), RispExp::Bool(false), RispExp::Bool(true)]);
    assert_eq!(eval(&exp, &mut env).unwrap(), RispExp::Bool(false));
    let exp = RispExp::List(vec![b(RispBuiltinFunction::And), RispExp::Bool(true), RispExp::Bool(true), RispExp::Bool(true), RispExp::Bool(true)]);
    assert_eq!(eval(&exp, &mut env).unwrap(), RispExp::Bool(true));
}

#[test]
fn eval_and1() {
    let mut env = RispEnv::default();
    let exp = RispExp::List(vec![b(RispBuiltinFunction::And), RispExp::Bool(true)]);
    assert_eq!(eval(&exp, &mut env).unwrap(), RispExp::Bool(true));
    let exp = RispExp::List(vec![b(RispBuiltinFunction::And), RispExp::Bool(false)]);
    assert_eq!(eval(&exp, &mut env).unwrap(), RispExp::Bool(false));
}

#[test]
fn eval_and0() {
    let mut env = RispEnv::default();
    let exp = RispExp::List(vec![b(RispBuiltinFunction::And)]);
    assert_eq!(eval(&exp, &mut env).unwrap(), RispExp::Bool(true));
}

#[test]
fn eval_and_non_bool() {
    let mut env = RispEnv::default();
    let exp = RispExp::List(vec![b(RispBuiltinFunction::And), RispExp::String("Locutus".to_owned()), RispExp::Integer(42), RispExp::Bool(true)]);
    assert_eq!(eval(&exp, &mut env).unwrap(), RispExp::Bool(true));
    let exp = RispExp::List(vec![b(RispBuiltinFunction::And), RispExp::Nil, RispExp::Integer(42), RispExp::Bool(true)]);
    assert_eq!(eval(&exp, &mut env).unwrap(), RispExp::Bool(false));
    let exp = RispExp::List(vec![b(RispBuiltinFunction::And), RispExp::Integer(0), RispExp::Bool(true)]);
    assert_eq!(eval(&exp, &mut env).unwrap(), RispExp::Bool(true));
    let exp = RispExp::List(vec![b(RispBuiltinFunction::And), RispExp::Integer(42), RispExp::Bool(false)]);
    assert_eq!(eval(&exp, &mut env).unwrap(), RispExp::Bool(false));
}

#[test]
fn eval_or_2_or_more() {
    let mut env = RispEnv::default();
    let exp = RispExp::List(vec![b(RispBuiltinFunction::Or), RispExp::Bool(true), RispExp::Bool(true)]);
    assert_eq!(eval(&exp, &mut env).unwrap(), RispExp::Bool(true));
    let exp = RispExp::List(vec![b(RispBuiltinFunction::Or), RispExp::Bool(false), RispExp::Bool(false), RispExp::Bool(false)]);
    assert_eq!(eval(&exp, &mut env).unwrap(), RispExp::Bool(false));
    let exp = RispExp::List(vec![b(RispBuiltinFunction::Or), RispExp::Bool(true), RispExp::Bool(false), RispExp::Bool(true)]);
    assert_eq!(eval(&exp, &mut env).unwrap(), RispExp::Bool(true));
    let exp = RispExp::List(vec![b(RispBuiltinFunction::Or), RispExp::Bool(true), RispExp::Bool(true), RispExp::Bool(true), RispExp::Bool(true)]);
    assert_eq!(eval(&exp, &mut env).unwrap(), RispExp::Bool(true));
}

#[test]
fn eval_or1() {
    let mut env = RispEnv::default();
    let exp = RispExp::List(vec![b(RispBuiltinFunction::Or), RispExp::Bool(true)]);
    assert_eq!(eval(&exp, &mut env).unwrap(), RispExp::Bool(true));
    let exp = RispExp::List(vec![b(RispBuiltinFunction::Or), RispExp::Bool(false)]);
    assert_eq!(eval(&exp, &mut env).unwrap(), RispExp::Bool(false));
}

#[test]
fn eval_or0() {
    let mut env = RispEnv::default();
    let exp = RispExp::List(vec![b(RispBuiltinFunction::Or)]);
    assert_eq!(eval(&exp, &mut env).unwrap(), RispExp::Bool(false));
}

#[test]
fn eval_or_non_bool() {
    let mut env = RispEnv::default();
    let exp = RispExp::List(vec![b(RispBuiltinFunction::Or), RispExp::String("Locutus".to_owned()), RispExp::Integer(42), RispExp::Bool(false)]);
    assert_eq!(eval(&exp, &mut env).unwrap(), RispExp::Bool(true));
    let exp = RispExp::List(vec![b(RispBuiltinFunction::Or), RispExp::Nil, RispExp::Bool(false)]);
    assert_eq!(eval(&exp, &mut env).unwrap(), RispExp::Bool(false));
    let exp = RispExp::List(vec![b(RispBuiltinFunction::Or), RispExp::Integer(0), RispExp::Bool(true)]);
    assert_eq!(eval(&exp, &mut env).unwrap(), RispExp::Bool(true));
    let exp = RispExp::List(vec![b(RispBuiltinFunction::Or), RispExp::Integer(42), RispExp::Bool(false)]);
    assert_eq!(eval(&exp, &mut env).unwrap(), RispExp::Bool(true));
}

#[test]
fn eval_not_2_or_more() {
    let mut env = RispEnv::default();
    let exp = RispExp::List(vec![b(RispBuiltinFunction::Not), RispExp::Bool(true), RispExp::Bool(true)]);
    assert_eq!(
        eval(&exp, &mut env).unwrap_err(),
        RispError::ArityMismatch(RispFunction::Builtin(RispBuiltinFunction::Not))
    );
    let exp = RispExp::List(vec![b(RispBuiltinFunction::Not), RispExp::Bool(false), RispExp::Bool(false), RispExp::Bool(false)]);
    assert_eq!(
        eval(&exp, &mut env).unwrap_err(),
        RispError::ArityMismatch(RispFunction::Builtin(RispBuiltinFunction::Not))
    );
}

#[test]
fn eval_not1() {
    let mut env = RispEnv::default();
    let exp = RispExp::List(vec![b(RispBuiltinFunction::Not), RispExp::Bool(true)]);
    assert_eq!(eval(&exp, &mut env).unwrap(), RispExp::Bool(false));
    let exp = RispExp::List(vec![b(RispBuiltinFunction::Not), RispExp::Bool(false)]);
    assert_eq!(eval(&exp, &mut env).unwrap(), RispExp::Bool(true));
}

#[test]
fn eval_not0() {
    let mut env = RispEnv::default();
    let exp = RispExp::List(vec![b(RispBuiltinFunction::Not)]);
    assert_eq!(
        eval(&exp, &mut env).unwrap_err(),
        RispError::ArityMismatch(RispFunction::Builtin(RispBuiltinFunction::Not))
    );
}

#[test]
fn eval_not_non_bool() {
    let mut env = RispEnv::default();
    let exp = RispExp::List(vec![b(RispBuiltinFunction::Not), RispExp::String("Locutus".to_owned())]);
    assert_eq!(eval(&exp, &mut env).unwrap(), RispExp::Bool(false));
    let exp = RispExp::List(vec![b(RispBuiltinFunction::Not), RispExp::Nil]);
    assert_eq!(eval(&exp, &mut env).unwrap(), RispExp::Bool(true));
    let exp = RispExp::List(vec![b(RispBuiltinFunction::Not), RispExp::Integer(0)]);
    assert_eq!(eval(&exp, &mut env).unwrap(), RispExp::Bool(false));
}

#[test]
fn eval_xor_2_or_more() {
    let mut env = RispEnv::default();
    let exp = RispExp::List(vec![b(RispBuiltinFunction::Xor), RispExp::Bool(true), RispExp::Bool(true)]);
    assert_eq!(eval(&exp, &mut env).unwrap(), RispExp::Bool(false));
    let exp = RispExp::List(vec![b(RispBuiltinFunction::Xor), RispExp::Bool(false), RispExp::Bool(false), RispExp::Bool(true)]);
    assert_eq!(eval(&exp, &mut env).unwrap(), RispExp::Bool(true));
    let exp = RispExp::List(vec![b(RispBuiltinFunction::Xor), RispExp::Bool(true), RispExp::Bool(false), RispExp::Bool(true)]);
    assert_eq!(eval(&exp, &mut env).unwrap(), RispExp::Bool(false));
    let exp = RispExp::List(vec![b(RispBuiltinFunction::Xor), RispExp::Bool(true), RispExp::Bool(true), RispExp::Bool(true), RispExp::Bool(true)]);
    assert_eq!(eval(&exp, &mut env).unwrap(), RispExp::Bool(false));
}

#[test]
fn eval_xor1() {
    let mut env = RispEnv::default();
    let exp = RispExp::List(vec![b(RispBuiltinFunction::Xor), RispExp::Bool(true)]);
    assert_eq!(eval(&exp, &mut env).unwrap(), RispExp::Bool(true));
    let exp = RispExp::List(vec![b(RispBuiltinFunction::Xor), RispExp::Bool(false)]);
    assert_eq!(eval(&exp, &mut env).unwrap(), RispExp::Bool(false));
}

#[test]
fn eval_xor0() {
    let mut env = RispEnv::default();
    let exp = RispExp::List(vec![b(RispBuiltinFunction::Xor)]);
    assert_eq!(eval(&exp, &mut env).unwrap(), RispExp::Bool(false));
}

#[test]
fn eval_xor_non_bool() {
    let mut env = RispEnv::default();
    let exp = RispExp::List(vec![b(RispBuiltinFunction::Xor), RispExp::String("Locutus".to_owned()), RispExp::Bool(false)]);
    assert_eq!(eval(&exp, &mut env).unwrap(), RispExp::Bool(true));
    let exp = RispExp::List(vec![b(RispBuiltinFunction::Xor), RispExp::Nil, RispExp::Bool(false)]);
    assert_eq!(eval(&exp, &mut env).unwrap(), RispExp::Bool(false));
    let exp = RispExp::List(vec![b(RispBuiltinFunction::Xor), RispExp::Integer(0), RispExp::Bool(true)]);
    assert_eq!(eval(&exp, &mut env).unwrap(), RispExp::Bool(false));
    let exp = RispExp::List(vec![b(RispBuiltinFunction::Xor), RispExp::Integer(42), RispExp::Bool(false)]);
    assert_eq!(eval(&exp, &mut env).unwrap(), RispExp::Bool(true));
}

#[test]
fn eval_nested_builtin_eval() {
    let mut env = RispEnv::default();
    let exp = RispExp::List(vec![
        b(RispBuiltinFunction::Plus),
        RispExp::Integer(37),
        RispExp::List(vec![b(RispBuiltinFunction::Plus), RispExp::Integer(42), RispExp::Integer(100)]),
    ]);
    assert_eq!(eval(&exp, &mut env).unwrap(), RispExp::Integer(37 + 42 + 100));
    let exp = RispExp::List(vec![
        b(RispBuiltinFunction::Plus),
        RispExp::List(vec![
            b(RispBuiltinFunction::Plus),
            RispExp::Integer(42),
            RispExp::List(vec![b(RispBuiltinFunction::Plus), RispExp::Integer(42), RispExp::Integer(100)]),
        ]),
        RispExp::Integer(37),
    ]);
    assert_eq!(eval(&exp, &mut env).unwrap(), RispExp::Integer(42 + 42 + 100 + 37));
}

#[test]
fn eval_def_works() {
    let mut env = RispEnv::default();
    let exp = RispExp::List(vec![
        b(RispBuiltinFunction::Def),
        RispExp::Symbol("captain".to_owned()),
        RispExp::String("picard".to_owned()),
    ]);
    assert_eq!(eval(&exp, &mut env).unwrap(), RispExp::Nil);
    assert_eq!(
        env.get(&"captain".to_string()).unwrap(),
        &RispExp::String("picard".to_owned())
    );
    let exp = RispExp::List(vec![b(RispBuiltinFunction::Def), RispExp::Symbol("one".to_owned()), RispExp::Integer(1)]);
    eval(&exp, &mut env).unwrap();
    let exp = RispExp::List(vec![b(RispBuiltinFunction::Def), RispExp::Symbol("two".to_owned()), RispExp::Integer(2)]);
    eval(&exp, &mut env).unwrap();
    let exp = RispExp::List(vec![b(RispBuiltinFunction::Plus), RispExp::Symbol("one".to_owned()), RispExp::Symbol("two".to_owned())]);
    assert_eq!(eval(&exp, &mut env).unwrap(), RispExp::Integer(3));
}
