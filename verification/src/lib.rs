//! A small interpreter for a parenthesized symbolic-expression language:
//! text is tokenized, the tokens are parsed into one expression tree, and
//! the tree is reduced to a value against a mutable set of bindings.
//!
//! Floating-point values travel through the interpreter as IEEE-754 bit
//! patterns; the arithmetic on them is delegated to the caller through the
//! query table in [`floats`], since the verifier has no floating point.

pub mod environment;
pub mod error;
pub mod eval;
pub mod floats;
pub mod laws;
pub mod parser;
pub mod tokenizer;
