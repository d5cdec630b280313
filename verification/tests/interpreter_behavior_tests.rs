use risp_lib::environment::RispEnv;
use risp_lib::error::RispError;
use risp_lib::eval::{eval, eval_with};
use risp_lib::floats::{FloatAnswer, FloatQuery, FloatTable};
use risp_lib::parser::{parse, RispBuiltinFunction, RispExp, RispFunction};
use risp_lib::tokenizer::{tokenize, tokenize_with, ComparisonOp, RispToken};

fn compute(q: &FloatQuery) -> FloatAnswer {
    match q {
        FloatQuery::Parse(s) => match s.parse::<f64>() {
            Ok(f) => FloatAnswer::Bits(f.to_bits()),
            Err(_) => FloatAnswer::NoParse,
        },
        FloatQuery::FromInt(i) => FloatAnswer::Bits((*i as f64).to_bits()),
        FloatQuery::Add(a, b) => {
            FloatAnswer::Bits((f64::from_bits(*a) + f64::from_bits(*b)).to_bits())
        }
        FloatQuery::Sub(a, b) => {
            FloatAnswer::Bits((f64::from_bits(*a) - f64::from_bits(*b)).to_bits())
        }
        FloatQuery::Mul(a, b) => {
            FloatAnswer::Bits((f64::from_bits(*a) * f64::from_bits(*b)).to_bits())
        }
        FloatQuery::Div(a, b) => {
            FloatAnswer::Bits((f64::from_bits(*a) / f64::from_bits(*b)).to_bits())
        }
        FloatQuery::Lt(a, b) => FloatAnswer::Truth(f64::from_bits(*a) < f64::from_bits(*b)),
        FloatQuery::Lte(a, b) => FloatAnswer::Truth(f64::from_bits(*a) <= f64::from_bits(*b)),
        FloatQuery::Gt(a, b) => FloatAnswer::Truth(f64::from_bits(*a) > f64::from_bits(*b)),
        FloatQuery::Gte(a, b) => FloatAnswer::Truth(f64::from_bits(*a) >= f64::from_bits(*b)),
        FloatQuery::Eq(a, b) => FloatAnswer::Truth(f64::from_bits(*a) == f64::from_bits(*b)),
        FloatQuery::Render(b) => FloatAnswer::Text(f64::from_bits(*b).to_string()),
    }
}

fn drive(exp: &RispExp, env: &mut RispEnv) -> Result<RispExp, RispError> {
    let mut tbl = FloatTable::new();
    loop {
        match eval_with(exp, env, &tbl) {
            Err(RispError::MissingFloatAnswer(q)) => {
                let a = compute(&q);
                tbl.answer(q, a);
            }
            r => return r,
        }
    }
}

fn run_line(line: &str, env: &mut RispEnv) -> Result<RispExp, RispError> {
    let mut tbl = FloatTable::new();
    loop {
        let tokens = match tokenize_with(line, &tbl) {
            Err(RispError::MissingFloatAnswer(q)) => {
                let a = compute(&q);
                tbl.answer(q, a);
                continue;
            }
            r => r?,
        };
        let expr = parse(&tokens)?;
        match eval_with(&expr, env, &tbl) {
            Err(RispError::MissingFloatAnswer(q)) => {
                let a = compute(&q);
                tbl.answer(q, a);
            }
            r => return r,
        }
    }
}

fn b(x: RispBuiltinFunction) -> RispExp {
    RispExp::Func(RispFunction::Builtin(x))
}

#[test]
fn mixed_sum_promotes_to_float() {
    let mut env = RispEnv::default();
    assert_eq!(
        run_line("(+ 37 2.5)", &mut env).unwrap(),
        RispExp::Float((0f64 + 37f64 + 2.5f64).to_bits())
    );
}

#[test]
fn comparisons_on_integers() {
    let mut env = RispEnv::default();
    assert_eq!(run_line("(< 1 2)", &mut env).unwrap(), RispExp::Bool(true));
    assert_eq!(run_line("(<= 2 2)", &mut env).unwrap(), RispExp::Bool(true));
    assert_eq!(run_line("(> 1 2)", &mut env).unwrap(), RispExp::Bool(false));
    assert_eq!(run_line("(>= 1 2)", &mut env).unwrap(), RispExp::Bool(false));
    assert_eq!(run_line("(= 2 2)", &mut env).unwrap(), RispExp::Bool(true));
    assert_eq!(run_line("(<)", &mut env).unwrap(), RispExp::Bool(true));
    assert_eq!(run_line("(< 1)", &mut env).unwrap(), RispExp::Bool(true));
}

#[test]
fn comparisons_with_floats() {
    let mut env = RispEnv::default();
    assert_eq!(
        run_line("(< 1 2.5)", &mut env).unwrap(),
        RispExp::Bool(true)
    );
    assert_eq!(
        run_line("(= 2.5 2.5)", &mut env).unwrap(),
        RispExp::Bool(true)
    );
    assert_eq!(run_line("(= 1 1.0)", &mut env).unwrap(), RispExp::Bool(false));
}

#[test]
fn comparison_without_ordering_is_false() {
    let mut env = RispEnv::default();
    assert_eq!(
        run_line(r#"(< "a" 1)"#, &mut env).unwrap(),
        RispExp::Bool(false)
    );
}

#[test]
fn comparison_arity_error() {
    let mut env = RispEnv::default();
    assert_eq!(
        run_line("(< 1 2 3)", &mut env).unwrap_err(),
        RispError::ArityMismatch(RispFunction::Builtin(RispBuiltinFunction::LT))
    );
}

#[test]
fn equality_on_strings() {
    let mut env = RispEnv::default();
    assert_eq!(
        run_line(r#"(= "a" "a")"#, &mut env).unwrap(),
        RispExp::Bool(true)
    );
    assert_eq!(
        run_line(r#"(= "a" "b")"#, &mut env).unwrap(),
        RispExp::Bool(false)
    );
}

#[test]
fn string_literal_keeps_spaces() {
    assert_eq!(
        tokenize(r#""hello world""#).unwrap(),
        vec![RispToken::StringLiteral("hello world".to_string())]
    );
}

#[test]
fn escaped_character_token() {
    assert_eq!(tokenize(r"\a").unwrap(), vec![RispToken::Char('\\')]);
}

#[test]
fn unrecognized_fragment_is_an_error() {
    let err = tokenize("a=b").unwrap_err();
    assert_eq!(err, RispError::UnrecognizedToken("a=b".to_string()));
}

#[test]
fn unterminated_list_is_an_error() {
    let tokens = tokenize("(+ 1 2").unwrap();
    assert_eq!(parse(&tokens).unwrap_err(), RispError::UnterminatedList);
}

#[test]
fn trailing_tokens_are_an_error() {
    let tokens = tokenize("(+ 1 2) 3").unwrap();
    assert!(matches!(
        parse(&tokens).unwrap_err(),
        RispError::UnexpectedToken(RispToken::Integer(3), _)
    ));
}

#[test]
fn bare_closing_paren_is_an_error() {
    let tokens = tokenize(")").unwrap();
    assert!(matches!(
        parse(&tokens).unwrap_err(),
        RispError::UnexpectedToken(RispToken::RParen, _)
    ));
}

#[test]
fn fn_without_args_list_is_an_error() {
    let tokens = tokenize("(fn 1 (+ 1 2))").unwrap();
    assert!(matches!(
        parse(&tokens).unwrap_err(),
        RispError::UnexpectedToken(_, _)
    ));
}

#[test]
fn parse_of_nothing_is_empty() {
    assert_eq!(parse(&[]).unwrap(), RispExp::Empty);
}

#[test]
fn first_form_must_be_function() {
    let mut env = RispEnv::default();
    assert!(matches!(
        run_line("(1 2)", &mut env).unwrap_err(),
        RispError::FirstFormMustBeFunction(RispExp::Integer(1))
    ));
}

#[test]
fn malformed_def_is_an_error() {
    let mut env = RispEnv::default();
    assert_eq!(
        run_line("(def 5 5)", &mut env).unwrap_err(),
        RispError::MalformedDefExpression
    );
    assert_eq!(
        run_line("(def x)", &mut env).unwrap_err(),
        RispError::ArityMismatch(RispFunction::Builtin(RispBuiltinFunction::Def))
    );
}

#[test]
fn if_arity_and_condition_type() {
    let mut env = RispEnv::default();
    assert_eq!(
        run_line("(if true 1)", &mut env).unwrap_err(),
        RispError::ArityMismatch(RispFunction::Builtin(RispBuiltinFunction::If))
    );
    assert_eq!(
        run_line("(if 1 2 3)", &mut env).unwrap_err(),
        RispError::MalformedDefExpression
    );
}

#[test]
fn integer_overflow_is_an_error() {
    let mut env = RispEnv::default();
    assert_eq!(
        run_line("(+ 2147483647 1)", &mut env).unwrap_err(),
        RispError::Overflow
    );
    assert_eq!(
        run_line("(- -2147483648 1)", &mut env).unwrap_err(),
        RispError::Overflow
    );
}

#[test]
fn division_by_zero_is_an_error() {
    let mut env = RispEnv::default();
    assert_eq!(
        run_line("(/ 1 0)", &mut env).unwrap_err(),
        RispError::DivisionByZero
    );
}

#[test]
fn deep_nesting_hits_the_recursion_limit() {
    let mut env = RispEnv::default();
    let mut exp = RispExp::Integer(1);
    let mut depth = 0;
    while depth < 300 {
        exp = RispExp::List(vec![b(RispBuiltinFunction::Plus), RispExp::Integer(1), exp]);
        depth += 1;
    }
    assert_eq!(eval(&exp, &mut env).unwrap_err(), RispError::RecursionLimit);
}

#[test]
fn moderate_nesting_evaluates() {
    let mut env = RispEnv::default();
    let mut exp = RispExp::Integer(1);
    let mut depth = 0;
    while depth < 50 {
        exp = RispExp::List(vec![b(RispBuiltinFunction::Plus), RispExp::Integer(1), exp]);
        depth += 1;
    }
    assert_eq!(eval(&exp, &mut env).unwrap(), RispExp::Integer(51));
}

#[test]
fn missing_float_answer_leaves_env_unchanged() {
    let mut env = RispEnv::default();
    let tokens = tokenize("(def x 5)").unwrap();
    let expr = parse(&tokens).unwrap();
    eval(&expr, &mut env).unwrap();

    let def_float = RispExp::List(vec![
        b(RispBuiltinFunction::Def),
        RispExp::Symbol("y".to_string()),
        RispExp::List(vec![
            b(RispBuiltinFunction::Plus),
            RispExp::Float(1.5f64.to_bits()),
            RispExp::Integer(1),
        ]),
    ]);
    let err = eval(&def_float, &mut env).unwrap_err();
    assert!(matches!(err, RispError::MissingFloatAnswer(_)));
    assert!(env.get(&"y".to_string()).is_none());
    assert_eq!(env.get(&"x".to_string()), Some(&RispExp::Integer(5)));

    assert_eq!(drive(&def_float, &mut env).unwrap(), RispExp::Nil);
    assert_eq!(
        env.get(&"y".to_string()),
        Some(&RispExp::Float((1.5f64 + 1f64).to_bits()))
    );
}

#[test]
fn unbound_symbol_evaluates_to_itself() {
    let mut env = RispEnv::default();
    assert_eq!(
        run_line("lonely", &mut env).unwrap(),
        RispExp::Symbol("lonely".to_string())
    );
}

#[test]
fn call_scope_is_discarded_after_the_call() {
    let mut env = RispEnv::default();
    run_line("(def addOne (fn (x) (+ 1 x)))", &mut env).unwrap();
    run_line("(addOne 37)", &mut env).unwrap();
    assert!(env.get(&"x".to_string()).is_none());
}

#[test]
fn closure_wrong_arity_is_an_error() {
    let mut env = RispEnv::default();
    run_line("(def addOne (fn (x) (+ 1 x)))", &mut env).unwrap();
    assert!(matches!(
        run_line("(addOne 1 2)", &mut env).unwrap_err(),
        RispError::ArityMismatch(RispFunction::Function { .. })
    ));
}

#[test]
fn calling_with_bad_params_shape_is_an_error() {
    let mut env = RispEnv::default();
    let call = RispExp::List(vec![RispExp::Func(RispFunction::Function {
        params: Box::new(RispExp::Integer(1)),
        body: Box::new(RispExp::Nil),
    })]);
    assert!(matches!(
        eval(&call, &mut env).unwrap_err(),
        RispError::GenericError(_)
    ));
    let call = RispExp::List(vec![
        RispExp::Func(RispFunction::Function {
            params: Box::new(RispExp::List(vec![RispExp::Integer(1)])),
            body: Box::new(RispExp::Nil),
        }),
        RispExp::Integer(2),
    ]);
    assert!(matches!(
        eval(&call, &mut env).unwrap_err(),
        RispError::GenericError(_)
    ));
}

#[test]
fn rendering_matches_the_repl_format() {
    let tbl = FloatTable::new();
    assert_eq!(RispExp::Nil.to_display_string(&tbl).unwrap(), "nil");
    assert_eq!(
        RispExp::Symbol("s".to_string()).to_display_string(&tbl).unwrap(),
        "'s"
    );
    assert_eq!(RispExp::Bool(true).to_display_string(&tbl).unwrap(), "#t");
    assert_eq!(RispExp::Bool(false).to_display_string(&tbl).unwrap(), "#f");
    assert_eq!(RispExp::Integer(-42).to_display_string(&tbl).unwrap(), "-42");
    assert_eq!(
        RispExp::Integer(i32::MIN).to_display_string(&tbl).unwrap(),
        "-2147483648"
    );
    assert_eq!(RispExp::Char('c').to_display_string(&tbl).unwrap(), "c");
    assert_eq!(
        RispExp::String("hi".to_string()).to_display_string(&tbl).unwrap(),
        "hi"
    );
    assert_eq!(
        RispExp::List(vec![RispExp::Integer(1), RispExp::Integer(2)])
            .to_display_string(&tbl)
            .unwrap(),
        "(1, 2)"
    );
    assert_eq!(
        b(RispBuiltinFunction::Plus).to_display_string(&tbl).unwrap(),
        "f@+"
    );
}

#[test]
fn rendering_floats_goes_through_the_table() {
    let mut tbl = FloatTable::new();
    let e = RispExp::Float(2.5f64.to_bits());
    let q = match e.to_display_string(&tbl).unwrap_err() {
        RispError::MissingFloatAnswer(q) => q,
        other => panic!("unexpected error: {:?}", other),
    };
    let a = compute(&q);
    tbl.answer(q, a);
    assert_eq!(e.to_display_string(&tbl).unwrap(), "2.5");
}

#[test]
fn comparison_tokens_parse_to_builtins() {
    let tokens = tokenize("(< 1 2)").unwrap();
    assert_eq!(
        parse(&tokens).unwrap(),
        RispExp::List(vec![
            b(RispBuiltinFunction::LT),
            RispExp::Integer(1),
            RispExp::Integer(2)
        ])
    );
    assert_eq!(
        tokenize("<=").unwrap(),
        vec![RispToken::Comparison(ComparisonOp::LTE)]
    );
}

#[test]
fn underscored_integers_are_read() {
    let mut env = RispEnv::default();
    assert_eq!(
        run_line("(+ 100_000 1)", &mut env).unwrap(),
        RispExp::Integer(100001)
    );
}

#[test]
fn float_literal_without_digits_is_a_parse_error() {
    let mut tbl = FloatTable::new();
    let r = tokenize_with("f", &tbl);
    assert!(matches!(r.unwrap_err(), RispError::ParseFloatError(_)));
    let r2 = tokenize_with("+f", &tbl);
    assert!(matches!(r2.unwrap_err(), RispError::ParseFloatError(_)));
    tbl.answer(FloatQuery::FromInt(0), FloatAnswer::Bits(0));
    assert!(matches!(
        tokenize_with("f", &tbl).unwrap_err(),
        RispError::ParseFloatError(_)
    ));
}

#[test]
fn nested_def_side_effect_survives_a_later_error() {
    let mut env = RispEnv::default();
    let err = run_line(r#"(+ (def a 2) "s")"#, &mut env).unwrap_err();
    assert!(matches!(err, RispError::TypeError(_)));
    assert_eq!(env.get(&"a".to_string()), Some(&RispExp::Integer(2)));
}

#[test]
fn def_then_sum_of_the_name() {
    let mut env = RispEnv::default();
    assert_eq!(run_line("(def x 5)", &mut env).unwrap(), RispExp::Nil);
    assert_eq!(run_line("(+ x x)", &mut env).unwrap(), RispExp::Integer(10));
}

#[test]
fn arithmetic_on_a_string_binding_is_a_type_error() {
    let mut env = RispEnv::default();
    assert_eq!(run_line(r#"(def s "text")"#, &mut env).unwrap(), RispExp::Nil);
    assert!(matches!(
        run_line("(+ s 1)", &mut env).unwrap_err(),
        RispError::TypeError(_)
    ));
}

#[test]
fn redefining_a_bound_name_trips_on_eager_evaluation() {
    // The def target is evaluated like every other element, so a bound
    // name no longer reaches def as a symbol.
    let mut env = RispEnv::default();
    run_line("(def x 5)", &mut env).unwrap();
    assert_eq!(
        run_line(r#"(def x "s")"#, &mut env).unwrap_err(),
        RispError::MalformedDefExpression
    );
}
