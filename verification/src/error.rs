//! The error taxonomy.  Every fallible step of the pipeline returns
//! [`RispResult`]; nothing is recovered locally, a failure aborts the one
//! input line it came from.

use crate::floats::{FloatQuery, QueryV};
use crate::parser::{ExpV, FuncV, RispExp, RispFunction};
use crate::tokenizer::{RispToken, TokenV};
use vstd::prelude::*;

verus! {

pub type RispResult<T> = Result<T, RispError>;

#[derive(Debug, PartialEq)]
pub enum RispError {
    GenericError(String),
    UnexpectedEndOfInput,
    InvalidName(String),
    /// No lexical rule matched this fragment.
    UnrecognizedToken(String),
    /// The token was not expected here; the string names the context.
    UnexpectedToken(RispToken, String),
    UnexpectedExpr(RispExp, String),
    UnexpectedSymbol(String),
    MalformedDefExpression,
    TypeError(String),
    /// The text of an integer literal that did not fit in 32 bits.
    ParseIntError(String),
    /// The text of a float literal that did not parse.
    ParseFloatError(String),
    ParseBoolError(String),
    ArityMismatch(RispFunction),
    UnterminatedList,
    FirstFormMustBeFunction(RispExp),
    /// Integer arithmetic overflowed.
    Overflow,
    /// Integer division by zero.
    DivisionByZero,
    /// The float table holds no answer for this query; the caller computes
    /// it, records it, and runs the line again.  The environment is left
    /// unchanged when this error comes out of evaluation.
    MissingFloatAnswer(FloatQuery),
    /// Evaluation exceeded the recursion depth bound.
    RecursionLimit,
}

/// Mathematical image of [`RispError`].
pub enum ErrorV {
    GenericError(Seq<char>),
    UnexpectedEndOfInput,
    InvalidName(Seq<char>),
    UnrecognizedToken(Seq<char>),
    UnexpectedToken(TokenV, Seq<char>),
    UnexpectedExpr(ExpV, Seq<char>),
    UnexpectedSymbol(Seq<char>),
    MalformedDefExpression,
    TypeError(Seq<char>),
    ParseIntError(Seq<char>),
    ParseFloatError(Seq<char>),
    ParseBoolError(Seq<char>),
    ArityMismatch(FuncV),
    UnterminatedList,
    FirstFormMustBeFunction(ExpV),
    Overflow,
    DivisionByZero,
    MissingFloatAnswer(QueryV),
    RecursionLimit,
}

impl View for RispError {
    type V = ErrorV;

    open spec fn view(&self) -> ErrorV {
        match self {
            RispError::GenericError(s) => ErrorV::GenericError(s@),
            RispError::UnexpectedEndOfInput => ErrorV::UnexpectedEndOfInput,
            RispError::InvalidName(s) => ErrorV::InvalidName(s@),
            RispError::UnrecognizedToken(s) => ErrorV::UnrecognizedToken(s@),
            RispError::UnexpectedToken(t, s) => ErrorV::UnexpectedToken(t@, s@),
            RispError::UnexpectedExpr(e, s) => ErrorV::UnexpectedExpr(e@, s@),
            RispError::UnexpectedSymbol(s) => ErrorV::UnexpectedSymbol(s@),
            RispError::MalformedDefExpression => ErrorV::MalformedDefExpression,
            RispError::TypeError(s) => ErrorV::TypeError(s@),
            RispError::ParseIntError(s) => ErrorV::ParseIntError(s@),
            RispError::ParseFloatError(s) => ErrorV::ParseFloatError(s@),
            RispError::ParseBoolError(s) => ErrorV::ParseBoolError(s@),
            RispError::ArityMismatch(f) => ErrorV::ArityMismatch(f@),
            RispError::UnterminatedList => ErrorV::UnterminatedList,
            RispError::FirstFormMustBeFunction(e) => ErrorV::FirstFormMustBeFunction(e@),
            RispError::Overflow => ErrorV::Overflow,
            RispError::DivisionByZero => ErrorV::DivisionByZero,
            RispError::MissingFloatAnswer(q) => ErrorV::MissingFloatAnswer(q@),
            RispError::RecursionLimit => ErrorV::RecursionLimit,
        }
    }
}

} // verus!
