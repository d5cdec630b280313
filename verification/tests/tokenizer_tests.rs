use risp_lib::error::RispError;
use risp_lib::floats::{FloatAnswer, FloatQuery, FloatTable};
use risp_lib::tokenizer::{tokenize, tokenize_with, ComparisonOp, RispToken};

/// The replay loop for the tokenizer: answer float-literal parses until
/// the line goes through.
fn tokenize_full(line: &str) -> Result<Vec<RispToken>, RispError> {
    let mut tbl = FloatTable::new();
    loop {
        match tokenize_with(line, &tbl) {
            Err(RispError::MissingFloatAnswer(q)) => {
                let a = match &q {
                    FloatQuery::Parse(s) => match s.parse::<f64>() {
                        Ok(f) => FloatAnswer::Bits(f.to_bits()),
                        Err(_) => FloatAnswer::NoParse,
                    },
                    _ => FloatAnswer::NoParse,
                };
                tbl.answer(q, a);
            }
            r => return r,
        }
    }
}

fn operator_assertion(op: &str) {
    assert_eq!(tokenize(op).unwrap(), vec![RispToken::Symbol(op.to_string())]);
}

#[test]
fn tokenizer_recognizes_operators_as_symbols() {
    operator_assertion("+");
    operator_assertion("-");
    operator_assertion("*");
    operator_assertion("/");
}

#[test]
fn tokenizer_recognizes_strings_as_symbols() {
    assert_eq!(
        tokenize("engage").unwrap(),
        vec![RispToken::Symbol("engage".to_string())]
    )
}

#[test]
fn tokenizer_empty_string_is_nothing() {
    assert_eq!(tokenize("").unwrap(), vec![])
}

#[test]
fn tokenizer_integer_works() {
    assert_eq!(tokenize("123").unwrap(), vec![RispToken::Integer(123)])
}

#[test]
fn tokenizer_neg_integer_works() {
    assert_eq!(tokenize("-123").unwrap(), vec![RispToken::Integer(-123)])
}

#[test]
fn tokenizer_float_works() {
    assert_eq!(
        tokenize_full("123.0").unwrap(),
        vec![RispToken::Float(123f64.to_bits())]
    );
    assert_eq!(
        tokenize_full("123f").unwrap(),
        vec![RispToken::Float(123f64.to_bits())]
    );
    assert_eq!(
        tokenize_full("123.0f").unwrap(),
        vec![RispToken::Float(123f64.to_bits())]
    );
    assert_eq!(
        tokenize_full("-123.0f").unwrap(),
        vec![RispToken::Float((-123f64).to_bits())]
    );
}

#[test]
fn overflow_int_works() {
    let err = tokenize(&i64::MAX.to_string());
    assert!(err.is_err());
    assert!(matches!(err.unwrap_err(), RispError::ParseIntError(_)));
}

#[test]
fn overflow_float_works() {
    assert_eq!(
        tokenize_full(&format!("11{}f", f64::MAX.to_string())).unwrap(),
        vec![RispToken::Float(f64::INFINITY.to_bits())]
    );
    assert_eq!(
        tokenize_full(&format!("-11{}f", f64::MAX.to_string())).unwrap(),
        vec![RispToken::Float(f64::NEG_INFINITY.to_bits())]
    );
}

#[test]
fn tokenizer_recognizes_bools() {
    assert_eq!(tokenize("true").unwrap(), vec![RispToken::Bool(true)]);
    assert_eq!(tokenize("false").unwrap(), vec![RispToken::Bool(false)]);
}

#[test]
fn tokenizer_recognizes_empty_list() {
    assert_eq!(
        tokenize("()").unwrap(),
        vec![RispToken::LParen, RispToken::RParen]
    );
}

#[test]
fn tokenizer_recognizes_list() {
    assert_eq!(
        tokenize("(1 2 3)").unwrap(),
        vec![
            RispToken::LParen,
            RispToken::Integer(1),
            RispToken::Integer(2),
            RispToken::Integer(3),
            RispToken::RParen
        ]
    );
}

#[test]
fn recognizes_comparison() {
    assert_eq!(
        tokenize("(= < <= > >=)").unwrap(),
        vec![
            RispToken::LParen,
            RispToken::Comparison(ComparisonOp::EQ),
            RispToken::Comparison(ComparisonOp::LT),
            RispToken::Comparison(ComparisonOp::LTE),
            RispToken::Comparison(ComparisonOp::GT),
            RispToken::Comparison(ComparisonOp::GTE),
            RispToken::RParen,
        ]
    );
}

#[test]
fn tokenizer_overflow_int_works() {
    let err = tokenize(&i64::MAX.to_string());
    assert!(err.is_err());
    assert!(matches!(err.unwrap_err(), RispError::ParseIntError(_)));
}

#[test]
fn tokenizer_overflow_float_works() {
    assert_eq!(
        tokenize_full(&format!("11{}f", f64::MAX.to_string())).unwrap(),
        vec![RispToken::Float(f64::INFINITY.to_bits())]
    );
}
