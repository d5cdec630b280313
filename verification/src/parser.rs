//! The expression model and the parser.
//!
//! [`RispExp`] is both the parser's output and the evaluator's value type.
//! Contracts speak of the mathematical image [`ExpV`], where strings are
//! character sequences and lists are `Seq`s.

use crate::error::{RispError, RispResult};
use crate::floats::{table_answer, AnswerV, FloatAnswer, FloatQuery, FloatTable, QueryV};
use crate::tokenizer::{ComparisonOp, RispToken, TokenV};
use vstd::prelude::*;

verus! {

/// The fixed operator set; resolved from symbols at parse time, so these
/// names cannot be rebound.
#[derive(Clone, Copy, Debug, PartialEq, Eq, Structural)]
pub enum RispBuiltinFunction {
    Plus,
    Minus,
    Multiply,
    Divide,
    Not,
    Xor,
    Or,
    And,
    LT,
    LTE,
    GT,
    GTE,
    EQ,
    Def,
    If,
}

/// A callable value: a fixed builtin, or a user-defined function built by
/// `fn` from a parameter list and a body.
#[derive(Debug)]
pub enum RispFunction {
    Function { params: Box<RispExp>, body: Box<RispExp> },
    Builtin(RispBuiltinFunction),
}

/// The unified syntax-tree/value type.  A float value is carried as the bit
/// pattern of an IEEE-754 double.
#[derive(Debug)]
pub enum RispExp {
    /// The parse of an empty token sequence.
    Empty,
    Nil,
    Symbol(String),
    Bool(bool),
    Integer(i32),
    Float(u64),
    Char(char),
    String(String),
    List(Vec<RispExp>),
    Func(RispFunction),
}

/// Mathematical image of [`RispFunction`].
pub enum FuncV {
    Function { params: Box<ExpV>, body: Box<ExpV> },
    Builtin(RispBuiltinFunction),
}

/// Mathematical image of [`RispExp`].
pub enum ExpV {
    Empty,
    Nil,
    Symbol(Seq<char>),
    Bool(bool),
    Integer(i32),
    Float(u64),
    Char(char),
    Str(Seq<char>),
    List(Seq<ExpV>),
    Func(FuncV),
}

pub open spec fn exp_view(e: RispExp) -> ExpV
    decreases e,
{
    match e {
        RispExp::Empty => ExpV::Empty,
        RispExp::Nil => ExpV::Nil,
        RispExp::Symbol(s) => ExpV::Symbol(s@),
        RispExp::Bool(b) => ExpV::Bool(b),
        RispExp::Integer(i) => ExpV::Integer(i),
        RispExp::Float(bits) => ExpV::Float(bits),
        RispExp::Char(c) => ExpV::Char(c),
        RispExp::String(s) => ExpV::Str(s@),
        RispExp::List(l) => ExpV::List(exps_view(l@)),
        RispExp::Func(f) => ExpV::Func(func_view(f)),
    }
}

pub open spec fn func_view(f: RispFunction) -> FuncV
    decreases f,
{
    match f {
        RispFunction::Function { params, body } => FuncV::Function {
            params: Box::new(exp_view(*params)),
            body: Box::new(exp_view(*body)),
        },
        RispFunction::Builtin(b) => FuncV::Builtin(b),
    }
}

pub open spec fn exps_view(l: Seq<RispExp>) -> Seq<ExpV>
    decreases l,
{
    if l.len() == 0 {
        Seq::empty()
    } else {
        exps_view(l.drop_last()).push(exp_view(l.last()))
    }
}

impl View for RispExp {
    type V = ExpV;

    open spec fn view(&self) -> ExpV {
        exp_view(*self)
    }
}

impl View for RispFunction {
    type V = FuncV;

    open spec fn view(&self) -> FuncV {
        func_view(*self)
    }
}

pub proof fn lemma_exps_view(l: Seq<RispExp>)
    ensures
        exps_view(l).len() == l.len(),
        forall|i: int| 0 <= i < l.len() ==> exps_view(l)[i] == exp_view(#[trigger] l[i]),
    decreases l.len(),
{
    if l.len() > 0 {
        lemma_exps_view(l.drop_last());
        assert forall|i: int| 0 <= i < l.len() implies exps_view(l)[i] == exp_view(
            #[trigger] l[i],
        ) by {
            if i < l.len() - 1 {
                assert(l.drop_last()[i] == l[i]);
                assert(exps_view(l)[i] == exps_view(l.drop_last())[i]);
            } else {
                assert(l.last() == l[i]);
            }
        }
    }
}

fn exp_eq(x: &RispExp, y: &RispExp) -> (r: bool)
    ensures
        r == (x@ == y@),
    decreases x,
{
    match (x, y) {
        (RispExp::Empty, RispExp::Empty) => true,
        (RispExp::Nil, RispExp::Nil) => true,
        (RispExp::Symbol(a), RispExp::Symbol(b)) => *a == *b,
        (RispExp::Bool(a), RispExp::Bool(b)) => *a == *b,
        (RispExp::Integer(a), RispExp::Integer(b)) => *a == *b,
        (RispExp::Float(a), RispExp::Float(b)) => *a == *b,
        (RispExp::Char(a), RispExp::Char(b)) => *a == *b,
        (RispExp::String(a), RispExp::String(b)) => *a == *b,
        (RispExp::List(a), RispExp::List(b)) => {
            if a.len() != b.len() {
                proof {
                    lemma_exps_view(a@);
                    lemma_exps_view(b@);
                }
                return false;
            }
            let mut i: usize = 0;
            while i < a.len()
                invariant
                    *x is List,
                    x->List_0 == *a,
                    *y is List,
                    y->List_0 == *b,
                    a@.len() == b@.len(),
                    i <= a@.len(),
                    forall|j: int| 0 <= j < i ==> exp_view(a@[j]) == exp_view(b@[j]),
                decreases a@.len() - i,
            {
                proof {
                    assert(decreases_to!(*x => *a));
                    assert(decreases_to!(*a => a@));
                    assert(decreases_to!(a@ => a@[i as int]));
                }
                if !exp_eq(&a[i], &b[i]) {
                    proof {
                        lemma_exps_view(a@);
                        lemma_exps_view(b@);
                        assert(exps_view(a@)[i as int] != exps_view(b@)[i as int]);
                    }
                    return false;
                }
                i = i + 1;
            }
            proof {
                lemma_exps_view(a@);
                lemma_exps_view(b@);
                assert forall|k: int| 0 <= k < a@.len() implies exps_view(a@)[k] == exps_view(
                    b@,
                )[k] by {
                    assert(exp_view(a@[k]) == exp_view(b@[k]));
                }
                assert(exps_view(a@) =~= exps_view(b@));
            }
            true
        }
        (RispExp::Func(f), RispExp::Func(g)) => func_eq(f, g),
        _ => false,
    }
}

fn func_eq(f: &RispFunction, g: &RispFunction) -> (r: bool)
    ensures
        r == (f@ == g@),
    decreases f,
{
    match (f, g) {
        (RispFunction::Builtin(a), RispFunction::Builtin(b)) => *a == *b,
        (
            RispFunction::Function { params: p1, body: b1 },
            RispFunction::Function { params: p2, body: b2 },
        ) => exp_eq(&**p1, &**p2) && exp_eq(&**b1, &**b2),
        _ => false,
    }
}

impl PartialEq for RispExp {
    fn eq(&self, other: &Self) -> (r: bool) {
        exp_eq(self, other)
    }
}

impl vstd::std_specs::cmp::PartialEqSpecImpl for RispExp {
    open spec fn obeys_eq_spec() -> bool {
        true
    }

    open spec fn eq_spec(&self, other: &Self) -> bool {
        self@ == other@
    }
}

impl PartialEq for RispFunction {
    fn eq(&self, other: &Self) -> (r: bool) {
        func_eq(self, other)
    }
}

impl vstd::std_specs::cmp::PartialEqSpecImpl for RispFunction {
    open spec fn obeys_eq_spec() -> bool {
        true
    }

    open spec fn eq_spec(&self, other: &Self) -> bool {
        self@ == other@
    }
}

impl Clone for RispExp {
    fn clone(&self) -> (r: Self)
        ensures
            r@ == self@,
        decreases self,
    {
        match self {
            RispExp::Empty => RispExp::Empty,
            RispExp::Nil => RispExp::Nil,
            RispExp::Symbol(s) => RispExp::Symbol(s.clone()),
            RispExp::Bool(b) => RispExp::Bool(*b),
            RispExp::Integer(i) => RispExp::Integer(*i),
            RispExp::Float(bits) => RispExp::Float(*bits),
            RispExp::Char(c) => RispExp::Char(*c),
            RispExp::String(s) => RispExp::String(s.clone()),
            RispExp::List(l) => {
                let mut out: Vec<RispExp> = Vec::new();
                let mut i: usize = 0;
                while i < l.len()
                    invariant
                        *self is List,
                        self->List_0 == *l,
                        i <= l@.len(),
                        out@.len() == i as int,
                        forall|j: int| 0 <= j < i ==> exp_view(out@[j]) == exp_view(l@[j]),
                    decreases l@.len() - i,
                {
                    proof {
                        assert(decreases_to!(*self => *l));
                        assert(decreases_to!(*l => l@));
                        assert(decreases_to!(l@ => l@[i as int]));
                    }
                    out.push(l[i].clone());
                    i = i + 1;
                }
                let res = RispExp::List(out);
                proof {
                    lemma_exps_view(res->List_0@);
                    lemma_exps_view(l@);
                    assert forall|k: int| 0 <= k < l@.len() implies exps_view(res->List_0@)[k]
                        == exps_view(l@)[k] by {
                        assert(exp_view(res->List_0@[k]) == exp_view(l@[k]));
                    }
                    assert(exps_view(res->List_0@) =~= exps_view(l@));
                }
                res
            }
            RispExp::Func(f) => RispExp::Func(f.clone()),
        }
    }
}

impl Clone for RispFunction {
    fn clone(&self) -> (r: Self)
        ensures
            r@ == self@,
        decreases self,
    {
        match self {
            RispFunction::Builtin(b) => RispFunction::Builtin(*b),
            RispFunction::Function { params, body } => RispFunction::Function {
                params: Box::new((**params).clone()),
                body: Box::new((**body).clone()),
            },
        }
    }
}

/// The eight operator names that resolve to builtins at parse time.
pub open spec fn is_builtin_name(s: Seq<char>) -> bool {
    ||| s == "+"@
    ||| s == "-"@
    ||| s == "*"@
    ||| s == "/"@
    ||| s == "xor"@
    ||| s == "or"@
    ||| s == "and"@
    ||| s == "not"@
}

pub open spec fn builtin_of_name(s: Seq<char>) -> RispBuiltinFunction {
    if s == "+"@ {
        RispBuiltinFunction::Plus
    } else if s == "-"@ {
        RispBuiltinFunction::Minus
    } else if s == "*"@ {
        RispBuiltinFunction::Multiply
    } else if s == "/"@ {
        RispBuiltinFunction::Divide
    } else if s == "xor"@ {
        RispBuiltinFunction::Xor
    } else if s == "or"@ {
        RispBuiltinFunction::Or
    } else if s == "and"@ {
        RispBuiltinFunction::And
    } else {
        RispBuiltinFunction::Not
    }
}

pub open spec fn builtin_of_comparison(op: crate::tokenizer::ComparisonOp) -> RispBuiltinFunction {
    match op {
        crate::tokenizer::ComparisonOp::GT => RispBuiltinFunction::GT,
        crate::tokenizer::ComparisonOp::GTE => RispBuiltinFunction::GTE,
        crate::tokenizer::ComparisonOp::LT => RispBuiltinFunction::LT,
        crate::tokenizer::ComparisonOp::LTE => RispBuiltinFunction::LTE,
        crate::tokenizer::ComparisonOp::EQ => RispBuiltinFunction::EQ,
    }
}

/// What a single atom token parses to.
pub open spec fn parse_atom_spec(t: TokenV) -> Result<ExpV, crate::error::ErrorV> {
    match t {
        TokenV::Nil => Ok(ExpV::Nil),
        TokenV::Char(c) => Ok(ExpV::Char(c)),
        TokenV::Bool(b) => Ok(ExpV::Bool(b)),
        TokenV::Integer(i) => Ok(ExpV::Integer(i)),
        TokenV::Float(bits) => Ok(ExpV::Float(bits)),
        TokenV::Symbol(s) => if is_builtin_name(s) {
            Ok(ExpV::Func(FuncV::Builtin(builtin_of_name(s))))
        } else {
            Ok(ExpV::Symbol(s))
        },
        TokenV::StringLiteral(s) => Ok(ExpV::Str(s)),
        TokenV::Comparison(op) => Ok(ExpV::Func(FuncV::Builtin(builtin_of_comparison(op)))),
        TokenV::Def => Ok(ExpV::Func(FuncV::Builtin(RispBuiltinFunction::Def))),
        TokenV::If => Ok(ExpV::Func(FuncV::Builtin(RispBuiltinFunction::If))),
        TokenV::LParen => Err(crate::error::ErrorV::UnexpectedToken(t, Seq::empty())),
        TokenV::RParen => Err(crate::error::ErrorV::UnexpectedToken(t, Seq::empty())),
        TokenV::Fn => Err(crate::error::ErrorV::UnexpectedToken(t, Seq::empty())),
    }
}

/// One step of the recursive-descent parser: the expression at position
/// `i`, and the position just after it.  The fuel only bounds the
/// recursion; [`parse_fuel`] is always enough for a real token sequence.
pub open spec fn parse_one(fuel: nat, tv: Seq<TokenV>, i: int) -> Result<
    (ExpV, int),
    crate::error::ErrorV,
>
    decreases fuel,
{
    if fuel == 0 {
        Err(crate::error::ErrorV::UnterminatedList)
    } else if i >= tv.len() {
        Ok((ExpV::Empty, i))
    } else {
        match tv[i] {
            TokenV::Fn => read_fn_spec((fuel - 1) as nat, tv, i + 1),
            TokenV::LParen => {
                if i + 1 < tv.len() && tv[i + 1] is Fn {
                    match read_fn_spec((fuel - 1) as nat, tv, i + 2) {
                        Err(e) => Err(e),
                        Ok((f, j)) => {
                            if j >= tv.len() {
                                Err(crate::error::ErrorV::UnterminatedList)
                            } else if !(tv[j] is RParen) {
                                Err(crate::error::ErrorV::UnexpectedToken(tv[j], Seq::empty()))
                            } else {
                                Ok((f, j + 1))
                            }
                        },
                    }
                } else {
                    match read_seq_spec((fuel - 1) as nat, tv, i + 1) {
                        Ok((es, j)) => Ok((ExpV::List(es), j)),
                        Err(e) => Err(e),
                    }
                }
            },
            TokenV::RParen => Err(
                crate::error::ErrorV::UnexpectedToken(
                    TokenV::RParen,
                    "A closing paren was not expected here, are there too many?"@,
                ),
            ),
            t => match parse_atom_spec(t) {
                Ok(e) => Ok((e, i + 1)),
                Err(e) => Err(e),
            },
        }
    }
}

/// The elements of a parenthesized sequence from position `i` up to its
/// closing parenthesis, and the position just after that parenthesis.
pub open spec fn read_seq_spec(fuel: nat, tv: Seq<TokenV>, i: int) -> Result<
    (Seq<ExpV>, int),
    crate::error::ErrorV,
>
    decreases fuel,
{
    if fuel == 0 {
        Err(crate::error::ErrorV::UnterminatedList)
    } else if i < 0 || i >= tv.len() {
        Err(crate::error::ErrorV::UnterminatedList)
    } else if tv[i] is RParen {
        Ok((Seq::empty(), i + 1))
    } else {
        match parse_one((fuel - 1) as nat, tv, i) {
            Ok((e, j)) => match read_seq_spec((fuel - 1) as nat, tv, j) {
                Ok((es, k)) => Ok((seq![e] + es, k)),
                Err(err) => Err(err),
            },
            Err(err) => Err(err),
        }
    }
}

/// A `fn` form: an args list, then a body form, both parenthesized.
pub open spec fn read_fn_spec(fuel: nat, tv: Seq<TokenV>, i: int) -> Result<
    (ExpV, int),
    crate::error::ErrorV,
>
    decreases fuel,
{
    if fuel == 0 {
        Err(crate::error::ErrorV::UnterminatedList)
    } else if i >= tv.len() {
        Err(crate::error::ErrorV::UnterminatedList)
    } else if !(tv[i] is LParen) {
        Err(
            crate::error::ErrorV::UnexpectedToken(
                tv[i],
                "A fn must have an args list in it's first argument"@,
            ),
        )
    } else {
        match read_seq_spec((fuel - 1) as nat, tv, i + 1) {
            Err(e) => Err(e),
            Ok((args, j)) => {
                if j >= tv.len() {
                    Err(crate::error::ErrorV::UnterminatedList)
                } else if !(tv[j] is LParen) {
                    Err(
                        crate::error::ErrorV::UnexpectedToken(
                            tv[i],
                            "A fn must have a function definition in it's second argument"@,
                        ),
                    )
                } else {
                    match read_seq_spec((fuel - 1) as nat, tv, j + 1) {
                        Err(e) => Err(e),
                        Ok((body, k)) => Ok(
                            (
                                ExpV::Func(
                                    FuncV::Function {
                                        params: Box::new(ExpV::List(args)),
                                        body: Box::new(ExpV::List(body)),
                                    },
                                ),
                                k,
                            ),
                        ),
                    }
                }
            },
        }
    }
}

/// The recursion bound used on a given token sequence.
pub open spec fn parse_fuel(tv: Seq<TokenV>) -> nat {
    2 * tv.len() + 3
}

/// What parsing a whole token sequence yields: one expression with nothing
/// left over.
pub open spec fn parse_spec(tv: Seq<TokenV>) -> Result<ExpV, crate::error::ErrorV> {
    match parse_one(parse_fuel(tv), tv, 0) {
        Err(e) => Err(e),
        Ok((e, j)) => {
            if j < tv.len() {
                Err(
                    crate::error::ErrorV::UnexpectedToken(
                        tv[j],
                        "Trailing tokens, did you type extra stuff outside parens? This is a lisp you know..."@,
                    ),
                )
            } else {
                Ok(e)
            }
        },
    }
}

fn builtin_symbol_of(s: &String) -> (r: Option<RispBuiltinFunction>)
    ensures
        match r {
            Some(b) => is_builtin_name(s@) && b == builtin_of_name(s@),
            None => !is_builtin_name(s@),
        },
{
    if *s == String::from_str("+") {
        Some(RispBuiltinFunction::Plus)
    } else if *s == String::from_str("-") {
        Some(RispBuiltinFunction::Minus)
    } else if *s == String::from_str("*") {
        Some(RispBuiltinFunction::Multiply)
    } else if *s == String::from_str("/") {
        Some(RispBuiltinFunction::Divide)
    } else if *s == String::from_str("xor") {
        Some(RispBuiltinFunction::Xor)
    } else if *s == String::from_str("or") {
        Some(RispBuiltinFunction::Or)
    } else if *s == String::from_str("and") {
        Some(RispBuiltinFunction::And)
    } else if *s == String::from_str("not") {
        Some(RispBuiltinFunction::Not)
    } else {
        None
    }
}

fn parse_atom(token: &RispToken) -> (r: RispResult<RispExp>)
    ensures
        match r {
            Ok(e) => parse_atom_spec(token@) == Ok::<ExpV, crate::error::ErrorV>(e@),
            Err(e) => parse_atom_spec(token@) == Err::<ExpV, crate::error::ErrorV>(e@),
        },
{
    match token {
        RispToken::Nil => Ok(RispExp::Nil),
        RispToken::Char(c) => Ok(RispExp::Char(*c)),
        RispToken::Bool(b) => Ok(RispExp::Bool(*b)),
        RispToken::Integer(i) => Ok(RispExp::Integer(*i)),
        RispToken::Float(bits) => Ok(RispExp::Float(*bits)),
        RispToken::Symbol(s) => match builtin_symbol_of(s) {
            Some(b) => Ok(RispExp::Func(RispFunction::Builtin(b))),
            None => Ok(RispExp::Symbol(s.clone())),
        },
        RispToken::StringLiteral(s) => Ok(RispExp::String(s.clone())),
        RispToken::Comparison(op) => match op {
            ComparisonOp::GT => Ok(RispExp::Func(RispFunction::Builtin(RispBuiltinFunction::GT))),
            ComparisonOp::GTE => Ok(
                RispExp::Func(RispFunction::Builtin(RispBuiltinFunction::GTE)),
            ),
            ComparisonOp::LT => Ok(RispExp::Func(RispFunction::Builtin(RispBuiltinFunction::LT))),
            ComparisonOp::LTE => Ok(
                RispExp::Func(RispFunction::Builtin(RispBuiltinFunction::LTE)),
            ),
            ComparisonOp::EQ => Ok(RispExp::Func(RispFunction::Builtin(RispBuiltinFunction::EQ))),
        },
        RispToken::Def => Ok(RispExp::Func(RispFunction::Builtin(RispBuiltinFunction::Def))),
        RispToken::If => Ok(RispExp::Func(RispFunction::Builtin(RispBuiltinFunction::If))),
        RispToken::LParen => Err(
            RispError::UnexpectedToken(RispToken::LParen, String::new()),
        ),
        RispToken::RParen => Err(
            RispError::UnexpectedToken(RispToken::RParen, String::new()),
        ),
        RispToken::Fn => Err(RispError::UnexpectedToken(RispToken::Fn, String::new())),
    }
}

fn parse_internal(tokens: &[RispToken], i: usize, fuel: u64) -> (r: RispResult<(RispExp, usize)>)
    requires
        i <= tokens@.len(),
        tokens@.len() < 0x1000_0000_0000_0000,
    ensures
        match r {
            Ok((e, j)) => parse_one(fuel as nat, crate::tokenizer::tokens_view(tokens@), i as int)
                == Ok::<(ExpV, int), crate::error::ErrorV>((e@, j as int)) && i <= j
                <= tokens@.len(),
            Err(e) => parse_one(fuel as nat, crate::tokenizer::tokens_view(tokens@), i as int)
                == Err::<(ExpV, int), crate::error::ErrorV>(e@),
        },
    decreases fuel,
{
    let ghost tv = crate::tokenizer::tokens_view(tokens@);
    if fuel == 0 {
        return Err(RispError::UnterminatedList);
    }
    if i >= tokens.len() {
        return Ok((RispExp::Empty, i));
    }
    match &tokens[i] {
        RispToken::Fn => read_fn(tokens, i + 1, fuel - 1),
        RispToken::LParen => {
            let next_is_fn = i + 1 < tokens.len() && matches!(&tokens[i + 1], RispToken::Fn);
            if next_is_fn {
                match read_fn(tokens, i + 2, fuel - 1) {
                    Err(e) => Err(e),
                    Ok((f, j)) => {
                        if j >= tokens.len() {
                            Err(RispError::UnterminatedList)
                        } else if !matches!(&tokens[j], RispToken::RParen) {
                            Err(RispError::UnexpectedToken(tokens[j].clone(), String::new()))
                        } else {
                            Ok((f, j + 1))
                        }
                    },
                }
            } else {
                match read_seq(tokens, i + 1, fuel - 1) {
                    Ok((es, j)) => Ok((RispExp::List(es), j)),
                    Err(e) => Err(e),
                }
            }
        },
        RispToken::RParen => Err(
            RispError::UnexpectedToken(
                RispToken::RParen,
                String::from_str("A closing paren was not expected here, are there too many?"),
            ),
        ),
        t => match parse_atom(t) {
            Ok(e) => Ok((e, i + 1)),
            Err(e) => Err(e),
        },
    }
}

fn read_seq(tokens: &[RispToken], i: usize, fuel: u64) -> (r: RispResult<(Vec<RispExp>, usize)>)
    requires
        i <= tokens@.len() + 1,
        tokens@.len() < 0x1000_0000_0000_0000,
    ensures
        match r {
            Ok((es, j)) => read_seq_spec(
                fuel as nat,
                crate::tokenizer::tokens_view(tokens@),
                i as int,
            ) == Ok::<(Seq<ExpV>, int), crate::error::ErrorV>((exps_view(es@), j as int)) && i
                <= j <= tokens@.len(),
            Err(e) => read_seq_spec(fuel as nat, crate::tokenizer::tokens_view(tokens@), i as int)
                == Err::<(Seq<ExpV>, int), crate::error::ErrorV>(e@),
        },
    decreases fuel,
{
    let ghost tv = crate::tokenizer::tokens_view(tokens@);
    if fuel == 0 {
        return Err(RispError::UnterminatedList);
    }
    if i >= tokens.len() {
        return Err(RispError::UnterminatedList);
    }
    if let RispToken::RParen = &tokens[i] {
        proof {
            lemma_exps_view(Seq::<RispExp>::empty());
            assert(exps_view(Seq::<RispExp>::empty()) =~= Seq::<ExpV>::empty());
        }
        return Ok((Vec::new(), i + 1));
    }
    match parse_internal(tokens, i, fuel - 1) {
        Err(e) => Err(e),
        Ok((e, j)) => match read_seq(tokens, j, fuel - 1) {
            Err(e2) => Err(e2),
            Ok((es, k)) => {
                let ghost ev = e@;
                let ghost esv = es@;
                let mut out: Vec<RispExp> = Vec::new();
                out.push(e);
                let mut es2 = es;
                out.append(&mut es2);
                proof {
                    lemma_exps_view(out@);
                    lemma_exps_view(esv);
                    assert(out@ =~= seq![out@[0]] + esv);
                    assert forall|k: int| 0 <= k < out@.len() implies exps_view(out@)[k] == (
                    seq![ev] + exps_view(esv))[k] by {
                        assert(exps_view(out@)[k] == exp_view(out@[k]));
                        if k > 0 {
                            assert(out@[k] == esv[k - 1]);
                            assert(exps_view(esv)[k - 1] == exp_view(esv[k - 1]));
                        }
                    }
                    assert(exps_view(out@) =~= seq![ev] + exps_view(esv));
                }
                Ok((out, k))
            },
        },
    }
}

fn read_fn(tokens: &[RispToken], i: usize, fuel: u64) -> (r: RispResult<(RispExp, usize)>)
    requires
        i <= tokens@.len() + 1,
        tokens@.len() < 0x1000_0000_0000_0000,
    ensures
        match r {
            Ok((e, j)) => read_fn_spec(fuel as nat, crate::tokenizer::tokens_view(tokens@), i as int)
                == Ok::<(ExpV, int), crate::error::ErrorV>((e@, j as int)) && i <= j
                <= tokens@.len(),
            Err(e) => read_fn_spec(fuel as nat, crate::tokenizer::tokens_view(tokens@), i as int)
                == Err::<(ExpV, int), crate::error::ErrorV>(e@),
        },
    decreases fuel,
{
    let ghost tv = crate::tokenizer::tokens_view(tokens@);
    if fuel == 0 {
        return Err(RispError::UnterminatedList);
    }
    if i >= tokens.len() {
        return Err(RispError::UnterminatedList);
    }
    let args_begin_is_paren = matches!(&tokens[i], RispToken::LParen);
    if !args_begin_is_paren {
        return Err(
            RispError::UnexpectedToken(
                tokens[i].clone(),
                String::from_str("A fn must have an args list in it's first argument"),
            ),
        );
    }
    match read_seq(tokens, i + 1, fuel - 1) {
        Err(e) => Err(e),
        Ok((args, j)) => {
            if j >= tokens.len() {
                return Err(RispError::UnterminatedList);
            }
            let body_begin_is_paren = matches!(&tokens[j], RispToken::LParen);
            if !body_begin_is_paren {
                return Err(
                    RispError::UnexpectedToken(
                        tokens[i].clone(),
                        String::from_str(
                            "A fn must have a function definition in it's second argument",
                        ),
                    ),
                );
            }
            match read_seq(tokens, j + 1, fuel - 1) {
                Err(e) => Err(e),
                Ok((body, k)) => {
                    let params_exp = RispExp::List(args);
                    let body_exp = RispExp::List(body);
                    proof {
                        assert(params_exp@ == ExpV::List(exps_view(params_exp->List_0@)));
                        assert(body_exp@ == ExpV::List(exps_view(body_exp->List_0@)));
                    }
                    let f = RispFunction::Function {
                        params: Box::new(params_exp),
                        body: Box::new(body_exp),
                    };
                    proof {
                        assert(f@ == (FuncV::Function {
                            params: Box::new(ExpV::List(exps_view(f->Function_params->List_0@))),
                            body: Box::new(ExpV::List(exps_view(f->Function_body->List_0@))),
                        }));
                    }
                    Ok((RispExp::Func(f), k))
                },
            }
        },
    }
}

/// Parse a whole token sequence into one expression; leftover tokens after
/// the first complete form are an error.
pub fn parse(tokens: &[RispToken]) -> (r: RispResult<RispExp>)
    requires
        tokens@.len() < 0x1000_0000_0000_0000,
    ensures
        match r {
            Ok(e) => parse_spec(crate::tokenizer::tokens_view(tokens@)) == Ok::<
                ExpV,
                crate::error::ErrorV,
            >(e@),
            Err(e) => parse_spec(crate::tokenizer::tokens_view(tokens@)) == Err::<
                ExpV,
                crate::error::ErrorV,
            >(e@),
        },
{
    let n = tokens.len();
    let fuel: u64 = 2 * (n as u64) + 3;
    match parse_internal(tokens, 0, fuel) {
        Err(e) => Err(e),
        Ok((e, j)) => {
            if j < n {
                Err(
                    RispError::UnexpectedToken(
                        tokens[j].clone(),
                        String::from_str(
                            "Trailing tokens, did you type extra stuff outside parens? This is a lisp you know...",
                        ),
                    ),
                )
            } else {
                Ok(e)
            }
        },
    }
}

pub open spec fn digit_char(d: int) -> char {
    if d == 0 {
        '0'
    } else if d == 1 {
        '1'
    } else if d == 2 {
        '2'
    } else if d == 3 {
        '3'
    } else if d == 4 {
        '4'
    } else if d == 5 {
        '5'
    } else if d == 6 {
        '6'
    } else if d == 7 {
        '7'
    } else if d == 8 {
        '8'
    } else {
        '9'
    }
}

/// The decimal rendering of a nonnegative number.
pub open spec fn u_dec(n: nat) -> Seq<char>
    decreases n,
{
    if n < 10 {
        seq![digit_char(n as int)]
    } else {
        u_dec(n / 10).push(digit_char((n % 10) as int))
    }
}

/// The decimal rendering of an integer.
pub open spec fn int_dec(i: int) -> Seq<char> {
    if i < 0 {
        seq!['-'] + u_dec((-i) as nat)
    } else {
        u_dec(i as nat)
    }
}

/// The operator name a builtin renders as.
pub open spec fn builtin_name(b: RispBuiltinFunction) -> Seq<char> {
    match b {
        RispBuiltinFunction::Plus => "+"@,
        RispBuiltinFunction::Minus => "-"@,
        RispBuiltinFunction::Multiply => "*"@,
        RispBuiltinFunction::Divide => "/"@,
        RispBuiltinFunction::Not => "not"@,
        RispBuiltinFunction::Xor => "xor"@,
        RispBuiltinFunction::Or => "or"@,
        RispBuiltinFunction::And => "and"@,
        RispBuiltinFunction::LT => "<"@,
        RispBuiltinFunction::LTE => "<="@,
        RispBuiltinFunction::GT => ">"@,
        RispBuiltinFunction::GTE => ">="@,
        RispBuiltinFunction::EQ => "="@,
        RispBuiltinFunction::Def => "def"@,
        RispBuiltinFunction::If => "if"@,
    }
}

/// The textual rendering of a value: nil as `nil`, a symbol with a leading
/// quote, booleans as `#t`/`#f`, numbers in decimal (floats through the
/// table), a list as `(e1, e2, ...)`, a function with an `f@` prefix.
pub open spec fn render_exp(e: ExpV, tbl: Seq<(QueryV, AnswerV)>) -> Result<
    Seq<char>,
    crate::error::ErrorV,
>
    decreases e, 0int,
{
    match e {
        ExpV::Empty => Ok(Seq::empty()),
        ExpV::Nil => Ok("nil"@),
        ExpV::Symbol(s) => Ok(seq!['\''] + s),
        ExpV::Bool(b) => Ok(
            if b {
                "#t"@
            } else {
                "#f"@
            },
        ),
        ExpV::Integer(i) => Ok(int_dec(i as int)),
        ExpV::Float(bits) => match table_answer(tbl, QueryV::Render(bits)) {
            Some(AnswerV::Text(t)) => Ok(t),
            _ => Err(crate::error::ErrorV::MissingFloatAnswer(QueryV::Render(bits))),
        },
        ExpV::Char(c) => Ok(seq![c]),
        ExpV::Str(s) => Ok(s),
        ExpV::List(l) => match render_items(l, 0, tbl) {
            Ok(t) => Ok(seq!['('] + t + seq![')']),
            Err(e) => Err(e),
        },
        ExpV::Func(f) => match render_func(f, tbl) {
            Ok(t) => Ok("f@"@ + t),
            Err(e) => Err(e),
        },
    }
}

/// The elements from `i` on, joined with `, `.
pub open spec fn render_items(l: Seq<ExpV>, i: int, tbl: Seq<(QueryV, AnswerV)>) -> Result<
    Seq<char>,
    crate::error::ErrorV,
>
    decreases l, l.len() - i,
{
    if i < 0 || i >= l.len() {
        Ok(Seq::empty())
    } else {
        match render_exp(l[i], tbl) {
            Err(e) => Err(e),
            Ok(t) => match render_items(l, i + 1, tbl) {
                Err(e) => Err(e),
                Ok(rest) => Ok(
                    t + (if i + 1 < l.len() {
                        ", "@
                    } else {
                        Seq::empty()
                    }) + rest,
                ),
            },
        }
    }
}

/// A builtin renders as its operator name; a user-defined function shows
/// its parameter list and body.
pub open spec fn render_func(f: FuncV, tbl: Seq<(QueryV, AnswerV)>) -> Result<
    Seq<char>,
    crate::error::ErrorV,
>
    decreases f, 0int,
{
    match f {
        FuncV::Builtin(b) => Ok(builtin_name(b)),
        FuncV::Function { params, body } => match render_exp(*params, tbl) {
            Err(e) => Err(e),
            Ok(p) => match render_exp(*body, tbl) {
                Err(e) => Err(e),
                Ok(bo) => Ok("lambda args: "@ + p + " body: "@ + bo),
            },
        },
    }
}

fn digit_string(d: u32) -> (r: String)
    requires
        d < 10,
    ensures
        r@ == seq![digit_char(d as int)],
{
    let lit = if d == 0 {
        "0"
    } else if d == 1 {
        "1"
    } else if d == 2 {
        "2"
    } else if d == 3 {
        "3"
    } else if d == 4 {
        "4"
    } else if d == 5 {
        "5"
    } else if d == 6 {
        "6"
    } else if d == 7 {
        "7"
    } else if d == 8 {
        "8"
    } else {
        "9"
    };
    proof {
        reveal_strlit("0");
        reveal_strlit("1");
        reveal_strlit("2");
        reveal_strlit("3");
        reveal_strlit("4");
        reveal_strlit("5");
        reveal_strlit("6");
        reveal_strlit("7");
        reveal_strlit("8");
        reveal_strlit("9");
    }
    let r = lit.to_owned();
    proof {
        assert(r@ =~= seq![digit_char(d as int)]);
    }
    r
}

fn u_dec_exec(n: u32) -> (r: String)
    ensures
        r@ == u_dec(n as nat),
    decreases n,
{
    if n < 10 {
        digit_string(n)
    } else {
        let mut s = u_dec_exec(n / 10);
        let d = digit_string(n % 10);
        s.append(d.as_str());
        proof {
            assert(s@ =~= u_dec((n / 10) as nat).push(digit_char((n % 10) as int)));
        }
        s
    }
}

fn int_dec_exec(i: i32) -> (r: String)
    ensures
        r@ == int_dec(i as int),
{
    if i >= 0 {
        u_dec_exec(i as u32)
    } else {
        let mag: u32 = if i == i32::MIN {
            0x8000_0000
        } else {
            (-i) as u32
        };
        let mut s = String::from_str("-");
        let rest = u_dec_exec(mag);
        s.append(rest.as_str());
        proof {
            reveal_strlit("-");
            assert(s@ =~= seq!['-'] + u_dec(mag as nat));
        }
        s
    }
}

/// Relies on char::to_string: the one-character string holding `c`.
#[verifier::external_body]
fn char_to_string(c: char) -> (r: String)
    ensures
        r@ == seq![c],
{
    c.to_string()
}

impl RispExp {
    /// The textual rendering of the value, as the REPL prints it.  Floats
    /// are rendered by the table; a missing rendering reports its query.
    pub fn to_display_string(&self, floats: &FloatTable) -> (r: Result<String, RispError>)
        ensures
            match r {
                Ok(t) => render_exp(self@, floats@) == Ok::<Seq<char>, crate::error::ErrorV>(t@),
                Err(e) => render_exp(self@, floats@) == Err::<Seq<char>, crate::error::ErrorV>(
                    e@,
                ),
            },
        decreases self, 0int,
    {
        match self {
            RispExp::Empty => Ok(String::new()),
            RispExp::Nil => Ok(String::from_str("nil")),
            RispExp::Symbol(sy) => {
                let mut s = String::from_str("'");
                s.append(sy.as_str());
                proof {
                    reveal_strlit("'");
                    assert(s@ =~= seq!['\''] + sy@);
                }
                Ok(s)
            },
            RispExp::Bool(b) => {
                if *b {
                    Ok(String::from_str("#t"))
                } else {
                    Ok(String::from_str("#f"))
                }
            },
            RispExp::Integer(i) => Ok(int_dec_exec(*i)),
            RispExp::Float(bits) => {
                let q = FloatQuery::Render(*bits);
                match floats.lookup(&q) {
                    Some(FloatAnswer::Text(t)) => Ok(t.clone()),
                    _ => Err(RispError::MissingFloatAnswer(q)),
                }
            },
            RispExp::Char(c) => Ok(char_to_string(*c)),
            RispExp::String(st) => Ok(st.clone()),
            RispExp::List(l) => {
                match render_items_exec(l, 0, floats) {
                    Err(e) => Err(e),
                    Ok(t) => {
                        let mut s = String::from_str("(");
                        s.append(t.as_str());
                        s.append(")");
                        proof {
                            reveal_strlit("(");
                            reveal_strlit(")");
                            assert(s@ =~= seq!['('] + t@ + seq![')']);
                        }
                        Ok(s)
                    },
                }
            },
            RispExp::Func(f) => {
                match f.to_display_string(floats) {
                    Err(e) => Err(e),
                    Ok(t) => {
                        let mut s = String::from_str("f@");
                        s.append(t.as_str());
                        Ok(s)
                    },
                }
            },
        }
    }
}

#[verifier::loop_isolation(false)]
fn render_items_exec(l: &Vec<RispExp>, i: usize, floats: &FloatTable) -> (r: Result<
    String,
    RispError,
>)
    requires
        i <= l@.len(),
    ensures
        match r {
            Ok(t) => render_items(exps_view(l@), i as int, floats@) == Ok::<
                Seq<char>,
                crate::error::ErrorV,
            >(t@),
            Err(e) => render_items(exps_view(l@), i as int, floats@) == Err::<
                Seq<char>,
                crate::error::ErrorV,
            >(e@),
        },
    decreases l@, l@.len() - i,
{
    proof {
        lemma_exps_view(l@);
    }
    let ghost lv = exps_view(l@);
    if i >= l.len() {
        return Ok(String::new());
    }
    proof {
        assert(decreases_to!(l@ => l@[i as int]));
    }
    match l[i].to_display_string(floats) {
        Err(e) => Err(e),
        Ok(t) => match render_items_exec(l, i + 1, floats) {
            Err(e) => Err(e),
            Ok(rest) => {
                let mut s = t;
                if i + 1 < l.len() {
                    s.append(", ");
                    proof {
                        reveal_strlit(", ");
                    }
                }
                s.append(rest.as_str());
                Ok(s)
            },
        },
    }
}

impl RispFunction {
    /// A builtin renders as its operator name; a user-defined function
    /// shows its parameter list and body.
    pub fn to_display_string(&self, floats: &FloatTable) -> (r: Result<String, RispError>)
        ensures
            match r {
                Ok(t) => render_func(self@, floats@) == Ok::<Seq<char>, crate::error::ErrorV>(
                    t@,
                ),
                Err(e) => render_func(self@, floats@) == Err::<Seq<char>, crate::error::ErrorV>(
                    e@,
                ),
            },
        decreases self, 1int,
    {
        match self {
            RispFunction::Builtin(b) => {
                let s = match b {
                    RispBuiltinFunction::Plus => String::from_str("+"),
                    RispBuiltinFunction::Minus => String::from_str("-"),
                    RispBuiltinFunction::Multiply => String::from_str("*"),
                    RispBuiltinFunction::Divide => String::from_str("/"),
                    RispBuiltinFunction::Not => String::from_str("not"),
                    RispBuiltinFunction::Xor => String::from_str("xor"),
                    RispBuiltinFunction::Or => String::from_str("or"),
                    RispBuiltinFunction::And => String::from_str("and"),
                    RispBuiltinFunction::LT => String::from_str("<"),
                    RispBuiltinFunction::LTE => String::from_str("<="),
                    RispBuiltinFunction::GT => String::from_str(">"),
                    RispBuiltinFunction::GTE => String::from_str(">="),
                    RispBuiltinFunction::EQ => String::from_str("="),
                    RispBuiltinFunction::Def => String::from_str("def"),
                    RispBuiltinFunction::If => String::from_str("if"),
                };
                Ok(s)
            },
            RispFunction::Function { params, body } => {
                match (**params).to_display_string(floats) {
                    Err(e) => Err(e),
                    Ok(p) => match (**body).to_display_string(floats) {
                        Err(e) => Err(e),
                        Ok(bo) => {
                            let mut s = String::from_str("lambda args: ");
                            s.append(p.as_str());
                            s.append(" body: ");
                            s.append(bo.as_str());
                            proof {
                                assert(s@ =~= "lambda args: "@ + p@ + " body: "@ + bo@);
                            }
                            Ok(s)
                        },
                    },
                }
            },
        }
    }
}

} // verus!
