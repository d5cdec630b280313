use risp_lib::environment::RispEnv;
use risp_lib::error::RispError;
use risp_lib::eval::eval_with;
use risp_lib::floats::{FloatAnswer, FloatQuery, FloatTable};
use risp_lib::parser::{parse, RispExp};
use risp_lib::tokenizer::{tokenize_with, RispToken};

fn compute(q: &FloatQuery) -> FloatAnswer {
    match q {
        FloatQuery::Parse(s) => match s.parse::<f64>() {
            Ok(f) => FloatAnswer::Bits(f.to_bits()),
            Err(_) => FloatAnswer::NoParse,
        },
        FloatQuery::FromInt(i) => FloatAnswer::Bits((*i as f64).to_bits()),
        FloatQuery::Add(a, b) => {
            FloatAnswer::Bits((f64::from_bits(*a) + f64::from_bits(*b)).to_bits())
        }
        FloatQuery::Sub(a, b) => {
            FloatAnswer::Bits((f64::from_bits(*a) - f64::from_bits(*b)).to_bits())
        }
        FloatQuery::Mul(a, b) => {
            FloatAnswer::Bits((f64::from_bits(*a) * f64::from_bits(*b)).to_bits())
        }
        FloatQuery::Div(a, b) => {
            FloatAnswer::Bits((f64::from_bits(*a) / f64::from_bits(*b)).to_bits())
        }
        FloatQuery::Lt(a, b) => FloatAnswer::Truth(f64::from_bits(*a) < f64::from_bits(*b)),
        FloatQuery::Lte(a, b) => FloatAnswer::Truth(f64::from_bits(*a) <= f64::from_bits(*b)),
        FloatQuery::Gt(a, b) => FloatAnswer::Truth(f64::from_bits(*a) > f64::from_bits(*b)),
        FloatQuery::Gte(a, b) => FloatAnswer::Truth(f64::from_bits(*a) >= f64::from_bits(*b)),
        FloatQuery::Eq(a, b) => FloatAnswer::Truth(f64::from_bits(*a) == f64::from_bits(*b)),
        FloatQuery::Render(b) => FloatAnswer::Text(f64::from_bits(*b).to_string()),
    }
}

fn tokenize(line: &str) -> Result<Vec<RispToken>, RispError> {
    let mut tbl = FloatTable::new();
    loop {
        match tokenize_with(line, &tbl) {
            Err(RispError::MissingFloatAnswer(q)) => {
                let a = compute(&q);
                tbl.answer(q, a);
            }
            r => return r,
        }
    }
}

fn eval(exp: &RispExp, env: &mut RispEnv) -> Result<RispExp, RispError> {
    let mut tbl = FloatTable::new();
    loop {
        match eval_with(exp, env, &tbl) {
            Err(RispError::MissingFloatAnswer(q)) => {
                let a = compute(&q);
                tbl.answer(q, a);
            }
            r => return r,
        }
    }
}

#[test]
fn def() {
    let mut env = RispEnv::default();
    let tokens = tokenize(r#"(def one 1)"#).unwrap();
    let expr = parse(&tokens).unwrap();
    assert_eq!(eval(&expr, &mut env).unwrap(), RispExp::Nil);
    let tokens = tokenize(r#"(def two 2)"#).unwrap();
    let expr = parse(&tokens).unwrap();
    assert_eq!(eval(&expr, &mut env).unwrap(), RispExp::Nil);
    let tokens = tokenize(r#"(+ one two)"#).unwrap();
    let expr = parse(&tokens).unwrap();
    assert_eq!(eval(&expr, &mut env).unwrap(), RispExp::Integer(3));
}

#[test]
fn if_integration_test() {
    let mut env = RispEnv::default();
    let tokens = tokenize(r#"(if true "true" "false")"#).unwrap();
    let expr = parse(&tokens).unwrap();
    assert_eq!(
        eval(&expr, &mut env).unwrap(),
        RispExp::String("true".to_owned())
    );
    let tokens = tokenize(r#"(if false "true" "false")"#).unwrap();
    let expr = parse(&tokens).unwrap();
    assert_eq!(
        eval(&expr, &mut env).unwrap(),
        RispExp::String("false".to_owned())
    );
}

#[test]
fn lambda_works() {
    let mut env = RispEnv::default();
    let tokens = tokenize(r#"(def addOne (fn (x) (+ 1 x)))"#).unwrap();
    let expr = parse(&tokens).unwrap();
    assert_eq!(eval(&expr, &mut env).unwrap(), RispExp::Nil);
    let tokens = tokenize(r#"(addOne 37)"#).unwrap();
    let expr = parse(&tokens).unwrap();
    assert_eq!(eval(&expr, &mut env).unwrap(), RispExp::Integer(38));
}

#[test]
fn test_add() {
    let mut env = RispEnv::default();
    let tokens = tokenize("(+ 1 1)").unwrap();
    let expr = parse(&tokens).unwrap();
    assert_eq!(eval(&expr, &mut env).unwrap(), RispExp::Integer(2));
}

#[test]
fn test_with_negative() {
    let mut env = RispEnv::default();
    let tokens = tokenize("(+ 2 -1)").unwrap();
    let expr = parse(&tokens).unwrap();
    assert_eq!(eval(&expr, &mut env).unwrap(), RispExp::Integer(1));
}

#[test]
fn test_sub() {
    let mut env = RispEnv::default();
    let tokens = tokenize("(- 2 1)").unwrap();
    let expr = parse(&tokens).unwrap();
    assert_eq!(eval(&expr, &mut env).unwrap(), RispExp::Integer(1));
}

#[test]
fn test_nesting() {
    let mut env = RispEnv::default();
    let tokens = tokenize("(- 2 (+ 10 10) 37 (* 10 10))").unwrap();
    let expr = parse(&tokens).unwrap();
    assert_eq!(eval(&expr, &mut env).unwrap(), RispExp::Integer(-155));
}

#[test]
fn test_and() {
    let mut env = RispEnv::default();
    let tokens = tokenize(r#"(and true "wakeupneo")"#).unwrap();
    let expr = parse(&tokens).unwrap();
    assert_eq!(eval(&expr, &mut env).unwrap(), RispExp::Bool(true));
    let tokens = tokenize(r#"(and false "wakeupneo")"#).unwrap();
    let expr = parse(&tokens).unwrap();
    assert_eq!(eval(&expr, &mut env).unwrap(), RispExp::Bool(false));
}

#[test]
fn test() {
    let mut env = RispEnv::default();
    let tokens = tokenize("(+ 1 1)").unwrap();
    let expr = parse(&tokens).unwrap();
    println!("Expr: {:?}", expr);
    println!("Evals to: {:?}", eval(&expr, &mut env).unwrap());

    let tokens = tokenize("(+ 2 -1)").unwrap();
    let expr = parse(&tokens).unwrap();
    println!("Expr: {:?}", expr);
    println!("Evals to: {:?}", eval(&expr, &mut env).unwrap());

    let tokens = tokenize("(- 1 200000 2.0 100_000 abc)").unwrap();
    let expr = parse(&tokens).unwrap();
    println!("Expr: {:?}", expr);

    let tokens = tokenize("(* 1 200000 2.0f 100_000 abc)").unwrap();
    let expr = parse(&tokens).unwrap();
    println!("Expr: {:?}", expr);

    let tokens = tokenize("(/ 1 200000 2f 100_000 abc)").unwrap();
    let expr = parse(&tokens).unwrap();
    println!("Expr: {:?}", expr);

    let tokens = tokenize("(xor 1 200000 2.0 100_000 abc)").unwrap();
    let expr = parse(&tokens).unwrap();
    println!("Expr: {:?}", expr);

    let tokens = tokenize("(or 1 200000 2.0 100_000 abc)").unwrap();
    let expr = parse(&tokens).unwrap();
    println!("Expr: {:?}", expr);

    let tokens = tokenize("(and 1 200000 2.0 100_000 abc)").unwrap();
    let expr = parse(&tokens).unwrap();
    println!("Expr: {:?}", expr);
}
