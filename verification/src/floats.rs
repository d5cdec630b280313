//! Floating-point work delegated to the caller.
//!
//! The verifier has no floating-point arithmetic, so every operation on a
//! float value (parsing a literal, arithmetic, ordering, rendering) is
//! phrased as a [`FloatQuery`] over IEEE-754 bit patterns (`u64`).  The
//! caller computes the answer with real `f64` arithmetic and records it in a
//! [`FloatTable`]; the interpreter only ever reads the table.  When an
//! answer is missing, the interpreter reports which query it needs and the
//! caller runs it again with the table extended (the environment is left
//! unchanged in that case, so a retry is sound).

use vstd::prelude::*;

verus! {

/// One unit of floating-point work: each variant maps a few plain values to
/// one answer.  Arithmetic and ordering take operands as IEEE-754 bit
/// patterns.
#[derive(Debug)]
pub enum FloatQuery {
    /// Parse a normalized float literal (sign, digits, optional `.digits`).
    Parse(String),
    /// The value of an `i32`, converted to a float.
    FromInt(i32),
    Add(u64, u64),
    Sub(u64, u64),
    Mul(u64, u64),
    Div(u64, u64),
    Lt(u64, u64),
    Lte(u64, u64),
    Gt(u64, u64),
    Gte(u64, u64),
    Eq(u64, u64),
    /// The decimal rendering of a float value.
    Render(u64),
}

/// The caller's answer to one query.
#[derive(Debug)]
pub enum FloatAnswer {
    Bits(u64),
    Truth(bool),
    Text(String),
    /// The literal handed to [`FloatQuery::Parse`] was not a number.
    NoParse,
}

/// Mathematical image of a query.
pub enum QueryV {
    Parse(Seq<char>),
    FromInt(i32),
    Add(u64, u64),
    Sub(u64, u64),
    Mul(u64, u64),
    Div(u64, u64),
    Lt(u64, u64),
    Lte(u64, u64),
    Gt(u64, u64),
    Gte(u64, u64),
    Eq(u64, u64),
    Render(u64),
}

/// Mathematical image of an answer.
pub enum AnswerV {
    Bits(u64),
    Truth(bool),
    Text(Seq<char>),
    NoParse,
}

impl View for FloatQuery {
    type V = QueryV;

    open spec fn view(&self) -> QueryV {
        match self {
            FloatQuery::Parse(s) => QueryV::Parse(s@),
            FloatQuery::FromInt(i) => QueryV::FromInt(*i),
            FloatQuery::Add(a, b) => QueryV::Add(*a, *b),
            FloatQuery::Sub(a, b) => QueryV::Sub(*a, *b),
            FloatQuery::Mul(a, b) => QueryV::Mul(*a, *b),
            FloatQuery::Div(a, b) => QueryV::Div(*a, *b),
            FloatQuery::Lt(a, b) => QueryV::Lt(*a, *b),
            FloatQuery::Lte(a, b) => QueryV::Lte(*a, *b),
            FloatQuery::Gt(a, b) => QueryV::Gt(*a, *b),
            FloatQuery::Gte(a, b) => QueryV::Gte(*a, *b),
            FloatQuery::Eq(a, b) => QueryV::Eq(*a, *b),
            FloatQuery::Render(b) => QueryV::Render(*b),
        }
    }
}

impl View for FloatAnswer {
    type V = AnswerV;

    open spec fn view(&self) -> AnswerV {
        match self {
            FloatAnswer::Bits(b) => AnswerV::Bits(*b),
            FloatAnswer::Truth(t) => AnswerV::Truth(*t),
            FloatAnswer::Text(s) => AnswerV::Text(s@),
            FloatAnswer::NoParse => AnswerV::NoParse,
        }
    }
}

fn query_eq(x: &FloatQuery, y: &FloatQuery) -> (r: bool)
    ensures
        r == (x@ == y@),
{
    match (x, y) {
        (FloatQuery::Parse(a), FloatQuery::Parse(b)) => *a == *b,
        (FloatQuery::FromInt(a), FloatQuery::FromInt(b)) => *a == *b,
        (FloatQuery::Add(a, b), FloatQuery::Add(c, d)) => *a == *c && *b == *d,
        (FloatQuery::Sub(a, b), FloatQuery::Sub(c, d)) => *a == *c && *b == *d,
        (FloatQuery::Mul(a, b), FloatQuery::Mul(c, d)) => *a == *c && *b == *d,
        (FloatQuery::Div(a, b), FloatQuery::Div(c, d)) => *a == *c && *b == *d,
        (FloatQuery::Lt(a, b), FloatQuery::Lt(c, d)) => *a == *c && *b == *d,
        (FloatQuery::Lte(a, b), FloatQuery::Lte(c, d)) => *a == *c && *b == *d,
        (FloatQuery::Gt(a, b), FloatQuery::Gt(c, d)) => *a == *c && *b == *d,
        (FloatQuery::Gte(a, b), FloatQuery::Gte(c, d)) => *a == *c && *b == *d,
        (FloatQuery::Eq(a, b), FloatQuery::Eq(c, d)) => *a == *c && *b == *d,
        (FloatQuery::Render(a), FloatQuery::Render(b)) => *a == *b,
        _ => false,
    }
}

impl PartialEq for FloatQuery {
    fn eq(&self, other: &Self) -> (r: bool) {
        query_eq(self, other)
    }
}

impl vstd::std_specs::cmp::PartialEqSpecImpl for FloatQuery {
    open spec fn obeys_eq_spec() -> bool {
        true
    }

    open spec fn eq_spec(&self, other: &Self) -> bool {
        self@ == other@
    }
}

impl Clone for FloatQuery {
    fn clone(&self) -> (r: Self)
        ensures
            r@ == self@,
    {
        match self {
            FloatQuery::Parse(s) => FloatQuery::Parse(s.clone()),
            FloatQuery::FromInt(i) => FloatQuery::FromInt(*i),
            FloatQuery::Add(a, b) => FloatQuery::Add(*a, *b),
            FloatQuery::Sub(a, b) => FloatQuery::Sub(*a, *b),
            FloatQuery::Mul(a, b) => FloatQuery::Mul(*a, *b),
            FloatQuery::Div(a, b) => FloatQuery::Div(*a, *b),
            FloatQuery::Lt(a, b) => FloatQuery::Lt(*a, *b),
            FloatQuery::Lte(a, b) => FloatQuery::Lte(*a, *b),
            FloatQuery::Gt(a, b) => FloatQuery::Gt(*a, *b),
            FloatQuery::Gte(a, b) => FloatQuery::Gte(*a, *b),
            FloatQuery::Eq(a, b) => FloatQuery::Eq(*a, *b),
            FloatQuery::Render(b) => FloatQuery::Render(*b),
        }
    }
}

impl Clone for FloatAnswer {
    fn clone(&self) -> (r: Self)
        ensures
            r@ == self@,
    {
        match self {
            FloatAnswer::Bits(b) => FloatAnswer::Bits(*b),
            FloatAnswer::Truth(t) => FloatAnswer::Truth(*t),
            FloatAnswer::Text(s) => FloatAnswer::Text(s.clone()),
            FloatAnswer::NoParse => FloatAnswer::NoParse,
        }
    }
}

/// The answers recorded so far, queried front to back; the first entry with
/// a matching query wins.
pub struct FloatTable {
    entries: Vec<(FloatQuery, FloatAnswer)>,
}

impl View for FloatTable {
    type V = Seq<(QueryV, AnswerV)>;

    closed spec fn view(&self) -> Seq<(QueryV, AnswerV)> {
        Seq::new(self.entries@.len(), |i: int| (self.entries@[i].0@, self.entries@[i].1@))
    }
}

/// The first answer recorded for `q` at or after position `i`.
pub open spec fn first_answer_from(t: Seq<(QueryV, AnswerV)>, q: QueryV, i: int) -> Option<
    AnswerV,
>
    decreases t.len() - i,
{
    if i < 0 || i >= t.len() {
        None
    } else if t[i].0 == q {
        Some(t[i].1)
    } else {
        first_answer_from(t, q, i + 1)
    }
}

/// The answer the table holds for `q`, if any.
pub open spec fn table_answer(t: Seq<(QueryV, AnswerV)>, q: QueryV) -> Option<AnswerV> {
    first_answer_from(t, q, 0)
}

impl FloatTable {
    pub fn new() -> (r: FloatTable)
        ensures
            r@ == Seq::<(QueryV, AnswerV)>::empty(),
    {
        let r = FloatTable { entries: Vec::new() };
        proof {
            assert(r@ =~= Seq::<(QueryV, AnswerV)>::empty());
        }
        r
    }

    /// Record the caller's answer to one query.
    pub fn answer(&mut self, q: FloatQuery, a: FloatAnswer)
        ensures
            final(self)@ == old(self)@.push((q@, a@)),
    {
        let ghost old_view = self@;
        self.entries.push((q, a));
        proof {
            assert(self@ =~= old_view.push((self.entries@.last().0@, self.entries@.last().1@)));
        }
    }

    /// The recorded answer for `q`, if any.
    pub fn lookup(&self, q: &FloatQuery) -> (r: Option<&FloatAnswer>)
        ensures
            match r {
                Some(a) => table_answer(self@, q@) == Some(a@),
                None => table_answer(self@, q@) is None,
            },
    {
        let n = self.entries.len();
        let mut i: usize = 0;
        while i < n
            invariant
                n == self.entries@.len(),
                0 <= i <= n,
                first_answer_from(self@, q@, 0) == first_answer_from(self@, q@, i as int),
            decreases n - i,
        {
            if query_eq(&self.entries[i].0, q) {
                return Some(&self.entries[i].1);
            }
            i = i + 1;
        }
        None
    }
}

} // verus!
