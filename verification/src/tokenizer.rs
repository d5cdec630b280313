//! The tokenizer: classifies whitespace-delimited fragments of a line into
//! lexical tokens, joining quoted fragments into single string literals.

use crate::error::{RispError, RispResult};
use crate::floats::{AnswerV, FloatAnswer, FloatQuery, FloatTable, QueryV};
use vstd::prelude::*;

verus! {

/// A bare comparison operator.
#[derive(Clone, Copy, Debug, PartialEq, Eq, Structural)]
pub enum ComparisonOp {
    GT,
    GTE,
    LT,
    LTE,
    EQ,
}

/// One lexical token.  A float literal is carried as the bit pattern of an
/// IEEE-754 double.
#[derive(Debug)]
pub enum RispToken {
    Nil,
    LParen,
    RParen,
    Symbol(String),
    StringLiteral(String),
    Bool(bool),
    Float(u64),
    Integer(i32),
    Char(char),
    Comparison(ComparisonOp),
    Def,
    If,
    Fn,
}

/// Mathematical image of [`RispToken`].
pub enum TokenV {
    Nil,
    LParen,
    RParen,
    Symbol(Seq<char>),
    StringLiteral(Seq<char>),
    Bool(bool),
    Float(u64),
    Integer(i32),
    Char(char),
    Comparison(ComparisonOp),
    Def,
    If,
    Fn,
}

impl View for RispToken {
    type V = TokenV;

    open spec fn view(&self) -> TokenV {
        match self {
            RispToken::Nil => TokenV::Nil,
            RispToken::LParen => TokenV::LParen,
            RispToken::RParen => TokenV::RParen,
            RispToken::Symbol(s) => TokenV::Symbol(s@),
            RispToken::StringLiteral(s) => TokenV::StringLiteral(s@),
            RispToken::Bool(b) => TokenV::Bool(*b),
            RispToken::Float(bits) => TokenV::Float(*bits),
            RispToken::Integer(i) => TokenV::Integer(*i),
            RispToken::Char(c) => TokenV::Char(*c),
            RispToken::Comparison(op) => TokenV::Comparison(*op),
            RispToken::Def => TokenV::Def,
            RispToken::If => TokenV::If,
            RispToken::Fn => TokenV::Fn,
        }
    }
}

pub(crate) fn token_eq(x: &RispToken, y: &RispToken) -> (r: bool)
    ensures
        r == (x@ == y@),
{
    match (x, y) {
        (RispToken::Nil, RispToken::Nil) => true,
        (RispToken::LParen, RispToken::LParen) => true,
        (RispToken::RParen, RispToken::RParen) => true,
        (RispToken::Symbol(a), RispToken::Symbol(b)) => *a == *b,
        (RispToken::StringLiteral(a), RispToken::StringLiteral(b)) => *a == *b,
        (RispToken::Bool(a), RispToken::Bool(b)) => *a == *b,
        (RispToken::Float(a), RispToken::Float(b)) => *a == *b,
        (RispToken::Integer(a), RispToken::Integer(b)) => *a == *b,
        (RispToken::Char(a), RispToken::Char(b)) => *a == *b,
        (RispToken::Comparison(a), RispToken::Comparison(b)) => *a == *b,
        (RispToken::Def, RispToken::Def) => true,
        (RispToken::If, RispToken::If) => true,
        (RispToken::Fn, RispToken::Fn) => true,
        _ => false,
    }
}

impl PartialEq for RispToken {
    fn eq(&self, other: &Self) -> (r: bool) {
        token_eq(self, other)
    }
}

impl vstd::std_specs::cmp::PartialEqSpecImpl for RispToken {
    open spec fn obeys_eq_spec() -> bool {
        true
    }

    open spec fn eq_spec(&self, other: &Self) -> bool {
        self@ == other@
    }
}

impl Clone for RispToken {
    fn clone(&self) -> (r: Self)
        ensures
            r@ == self@,
    {
        match self {
            RispToken::Nil => RispToken::Nil,
            RispToken::LParen => RispToken::LParen,
            RispToken::RParen => RispToken::RParen,
            RispToken::Symbol(s) => RispToken::Symbol(s.clone()),
            RispToken::StringLiteral(s) => RispToken::StringLiteral(s.clone()),
            RispToken::Bool(b) => RispToken::Bool(*b),
            RispToken::Float(bits) => RispToken::Float(*bits),
            RispToken::Integer(i) => RispToken::Integer(*i),
            RispToken::Char(c) => RispToken::Char(*c),
            RispToken::Comparison(op) => RispToken::Comparison(*op),
            RispToken::Def => RispToken::Def,
            RispToken::If => RispToken::If,
            RispToken::Fn => RispToken::Fn,
        }
    }
}

/// View of a token vector.
pub open spec fn tokens_view(s: Seq<RispToken>) -> Seq<TokenV> {
    Seq::new(s.len(), |i: int| s[i]@)
}

/// View of a fragment vector.
pub open spec fn frags_view(fs: Seq<String>) -> Seq<Seq<char>> {
    Seq::new(fs.len(), |i: int| fs[i]@)
}

/// The whitespace that separates fragments.
pub open spec fn is_ws(c: char) -> bool {
    c == ' ' || c == '\t' || c == '\n' || c == '\r' || c == '\u{b}' || c == '\u{c}'
}

/// Characters that form one-character fragments of their own.
pub open spec fn is_delim(c: char) -> bool {
    c == '(' || c == ')' || c == '"'
}

pub open spec fn is_frag_char(c: char) -> bool {
    !is_ws(c) && !is_delim(c)
}

/// Length of the run of fragment characters starting at `j`.
pub open spec fn run_len(s: Seq<char>, j: int) -> nat
    decreases s.len() - j,
{
    if j < 0 || j >= s.len() || !is_frag_char(s[j]) {
        0
    } else {
        1 + run_len(s, j + 1)
    }
}

/// The whitespace-delimited fragments of the line from position `i` on:
/// parentheses and quotes stand alone, every other maximal run of
/// non-whitespace characters is one fragment.
pub open spec fn raw_frags(s: Seq<char>, i: int) -> Seq<Seq<char>>
    decreases s.len() - i,
{
    if i < 0 || i >= s.len() {
        Seq::empty()
    } else if is_ws(s[i]) {
        raw_frags(s, i + 1)
    } else if is_delim(s[i]) {
        seq![seq![s[i]]] + raw_frags(s, i + 1)
    } else {
        let n = run_len(s, i) as int;
        let j = if i + n > s.len() {
            s.len() as int
        } else {
            i + n
        };
        seq![s.subrange(i, j)] + raw_frags(s, j)
    }
}

pub open spec fn is_quote_frag(f: Seq<char>) -> bool {
    f == "\""@
}

/// The first quote fragment at or after `k`.
pub open spec fn find_quote(fr: Seq<Seq<char>>, k: int) -> Option<int>
    decreases fr.len() - k,
{
    if k < 0 || k >= fr.len() {
        None
    } else if is_quote_frag(fr[k]) {
        Some(k)
    } else {
        find_quote(fr, k + 1)
    }
}

/// The fragments `a .. b` joined with single spaces.
pub open spec fn join_inner(fr: Seq<Seq<char>>, a: int, b: int) -> Seq<char>
    decreases b - a,
{
    if a >= b {
        Seq::empty()
    } else if a == b - 1 {
        fr[a]
    } else {
        join_inner(fr, a, b - 1) + seq![' '] + fr[b - 1]
    }
}

/// Second pass over the fragments: each pair of quote fragments, in source
/// order, swallows the fragments between them into one string-literal
/// fragment (quotes kept, content joined with single spaces).  A quote
/// without a closing partner passes through unchanged and fails
/// classification later.
pub open spec fn join_quotes(fr: Seq<Seq<char>>, k: int) -> Seq<Seq<char>>
    decreases fr.len() - k,
{
    if k < 0 || k >= fr.len() {
        Seq::empty()
    } else if is_quote_frag(fr[k]) {
        match find_quote(fr, k + 1) {
            Some(m) => {
                let m2 = if m <= k || m >= fr.len() {
                    k + 1
                } else {
                    m
                };
                seq![seq!['"'] + join_inner(fr, k + 1, m2) + seq!['"']] + join_quotes(fr, m2 + 1)
            },
            None => seq![fr[k]] + join_quotes(fr, k + 1),
        }
    } else {
        seq![fr[k]] + join_quotes(fr, k + 1)
    }
}

pub open spec fn is_digit(c: char) -> bool {
    '0' <= c && c <= '9'
}

pub open spec fn digit_val(c: char) -> int {
    c as int - '0' as int
}

pub open spec fn has_sign(f: Seq<char>) -> bool {
    f.len() > 0 && (f[0] == '-' || f[0] == '+')
}

pub open spec fn strip_sign(f: Seq<char>) -> Seq<char> {
    if has_sign(f) {
        f.drop_first()
    } else {
        f
    }
}

/// The integer-literal pattern: an optional sign, a digit, then digits or
/// underscores.
pub open spec fn is_int_frag(f: Seq<char>) -> bool {
    let t = strip_sign(f);
    &&& t.len() > 0
    &&& is_digit(t[0])
    &&& forall|j: int| 0 < j < t.len() ==> is_digit(#[trigger] t[j]) || t[j] == '_'
}

/// The value of a digit-and-underscore sequence, underscores ignored.
pub open spec fn digits_val(t: Seq<char>) -> int
    decreases t.len(),
{
    if t.len() == 0 {
        0
    } else if t.last() == '_' {
        digits_val(t.drop_last())
    } else {
        digits_val(t.drop_last()) * 10 + digit_val(t.last())
    }
}

/// The value of an integer literal.
pub open spec fn int_frag_val(f: Seq<char>) -> int {
    if f.len() > 0 && f[0] == '-' {
        -digits_val(strip_sign(f))
    } else {
        digits_val(strip_sign(f))
    }
}

/// The float-literal pattern after the sign is stripped: digits, then
/// either `.` digits, a bare `f`, or `.` digits `f`.
pub open spec fn float_tail_ok(t: Seq<char>) -> bool {
    ||| (exists|k: int|
        0 <= k < t.len() && #[trigger] t[k] == '.' && t.len() > k + 1 && (forall|j: int|
            0 <= j < k ==> is_digit(#[trigger] t[j])) && (forall|j: int|
            k < j < t.len() ==> is_digit(#[trigger] t[j])))
    ||| (t.len() >= 1 && t.last() == 'f' && (forall|j: int|
        0 <= j < t.len() - 1 ==> is_digit(#[trigger] t[j])))
    ||| (t.len() >= 2 && t.last() == 'f' && (exists|k: int|
        0 <= k < t.len() - 1 && #[trigger] t[k] == '.' && t.len() - 1 > k + 1 && (forall|j: int|
            0 <= j < k ==> is_digit(#[trigger] t[j])) && (forall|j: int|
            k < j < t.len() - 1 ==> is_digit(#[trigger] t[j]))))
}

pub open spec fn is_float_frag(f: Seq<char>) -> bool {
    float_tail_ok(strip_sign(f))
}

/// The text handed to the float parser: the fragment without its trailing
/// `f` marker.
pub open spec fn float_norm(f: Seq<char>) -> Seq<char> {
    if f.len() > 0 && f.last() == 'f' {
        f.drop_last()
    } else {
        f
    }
}

pub open spec fn count_digits(f: Seq<char>) -> int
    decreases f.len(),
{
    if f.len() == 0 {
        0
    } else {
        count_digits(f.drop_last()) + if is_digit(f.last()) {
            1int
        } else {
            0int
        }
    }
}

pub open spec fn is_ident_char(c: char) -> bool {
    ('A' <= c && c <= 'Z') || ('a' <= c && c <= 'z') || c == '_'
}

pub open spec fn is_ident_tail_char(c: char) -> bool {
    is_ident_char(c) || is_digit(c)
}

/// The symbol pattern: an identifier, or one of the four arithmetic
/// operator characters.
pub open spec fn is_symbol_frag(f: Seq<char>) -> bool {
    ||| (f.len() > 0 && is_ident_char(f[0]) && forall|j: int|
        0 < j < f.len() ==> is_ident_tail_char(#[trigger] f[j]))
    ||| f == "+"@
    ||| f == "-"@
    ||| f == "*"@
    ||| f == "/"@
}

/// The string-literal pattern: quote-delimited.
pub open spec fn is_string_frag(f: Seq<char>) -> bool {
    f.len() >= 2 && f[0] == '"' && f[f.len() - 1] == '"'
}

/// The escaped-character pattern: a backslash followed by a character in
/// the first 256 code points, anywhere in the fragment.
pub open spec fn has_escape(f: Seq<char>) -> bool {
    exists|j: int| 0 <= j < f.len() - 1 && #[trigger] f[j] == '\\' && f[j + 1] as u32 <= 255
}

pub open spec fn comparison_of(f: Seq<char>) -> Option<ComparisonOp> {
    if f == "<"@ {
        Some(ComparisonOp::LT)
    } else if f == "<="@ {
        Some(ComparisonOp::LTE)
    } else if f == ">"@ {
        Some(ComparisonOp::GT)
    } else if f == ">="@ {
        Some(ComparisonOp::GTE)
    } else if f == "="@ {
        Some(ComparisonOp::EQ)
    } else {
        None
    }
}

/// Classification of one fragment, in priority order: parenthesis, keyword,
/// escaped character, boolean, integer, float, symbol, string literal,
/// comparison operator; anything else is unrecognized.
pub open spec fn classify_spec(f: Seq<char>, tbl: Seq<(QueryV, AnswerV)>) -> Result<
    TokenV,
    crate::error::ErrorV,
> {
    if f == "("@ {
        Ok(TokenV::LParen)
    } else if f == ")"@ {
        Ok(TokenV::RParen)
    } else if f == "nil"@ {
        Ok(TokenV::Nil)
    } else if f == "def"@ {
        Ok(TokenV::Def)
    } else if f == "if"@ {
        Ok(TokenV::If)
    } else if f == "fn"@ {
        Ok(TokenV::Fn)
    } else if has_escape(f) {
        Ok(TokenV::Char(f[0]))
    } else if f == "true"@ {
        Ok(TokenV::Bool(true))
    } else if f == "false"@ {
        Ok(TokenV::Bool(false))
    } else if is_int_frag(f) {
        if -0x8000_0000 <= int_frag_val(f) <= 0x7fff_ffff {
            Ok(TokenV::Integer(int_frag_val(f) as i32))
        } else {
            Err(crate::error::ErrorV::ParseIntError(f))
        }
    } else if is_float_frag(f) {
        let norm = float_norm(f);
        if count_digits(norm) == 0 {
            Err(crate::error::ErrorV::ParseFloatError(f))
        } else {
            match crate::floats::table_answer(tbl, QueryV::Parse(norm)) {
                Some(AnswerV::Bits(b)) => Ok(TokenV::Float(b)),
                Some(AnswerV::NoParse) => Err(crate::error::ErrorV::ParseFloatError(f)),
                _ => Err(crate::error::ErrorV::MissingFloatAnswer(QueryV::Parse(norm))),
            }
        }
    } else if is_symbol_frag(f) {
        Ok(TokenV::Symbol(f))
    } else if is_string_frag(f) {
        Ok(TokenV::StringLiteral(f.subrange(1, f.len() - 1)))
    } else {
        match comparison_of(f) {
            Some(op) => Ok(TokenV::Comparison(op)),
            None => Err(crate::error::ErrorV::UnrecognizedToken(f)),
        }
    }
}

/// Classification of all fragments from `i` on; the first error wins.
pub open spec fn classify_all(
    frs: Seq<Seq<char>>,
    i: int,
    tbl: Seq<(QueryV, AnswerV)>,
) -> Result<Seq<TokenV>, crate::error::ErrorV>
    decreases frs.len() - i,
{
    if i < 0 || i >= frs.len() {
        Ok(Seq::empty())
    } else {
        match classify_spec(frs[i], tbl) {
            Err(e) => Err(e),
            Ok(t) => match classify_all(frs, i + 1, tbl) {
                Err(e) => Err(e),
                Ok(rest) => Ok(seq![t] + rest),
            },
        }
    }
}

/// What tokenizing a line yields, for a given float table.
pub open spec fn tokenize_spec(line: Seq<char>, tbl: Seq<(QueryV, AnswerV)>) -> Result<
    Seq<TokenV>,
    crate::error::ErrorV,
> {
    classify_all(join_quotes(raw_frags(line, 0), 0), 0, tbl)
}

fn ws_c(c: char) -> (r: bool)
    ensures
        r == is_ws(c),
{
    c == ' ' || c == '\t' || c == '\n' || c == '\r' || c == '\u{b}' || c == '\u{c}'
}

fn delim_c(c: char) -> (r: bool)
    ensures
        r == is_delim(c),
{
    c == '(' || c == ')' || c == '"'
}

fn digit_c(c: char) -> (r: bool)
    ensures
        r == is_digit(c),
{
    '0' <= c && c <= '9'
}

fn ident_c(c: char) -> (r: bool)
    ensures
        r == is_ident_char(c),
{
    ('A' <= c && c <= 'Z') || ('a' <= c && c <= 'z') || c == '_'
}

proof fn lemma_run_len(s: Seq<char>, i: int, j: int)
    requires
        0 <= i <= j <= s.len(),
        forall|t: int| i <= t < j ==> is_frag_char(#[trigger] s[t]),
        j == s.len() || !is_frag_char(s[j]),
    ensures
        run_len(s, i) == j - i,
    decreases j - i,
{
    if i < j {
        lemma_run_len(s, i + 1, j);
    }
}

fn split_fragments(line: &str) -> (r: Vec<String>)
    ensures
        frags_view(r@) == raw_frags(line@, 0),
{
    let n = line.unicode_len();
    let mut out: Vec<String> = Vec::new();
    let mut i: usize = 0;
    while i < n
        invariant
            n == line@.len(),
            0 <= i <= n,
            raw_frags(line@, 0) == frags_view(out@) + raw_frags(line@, i as int),
        decreases n - i,
    {
        let ghost out0 = out@;
        let c = line.get_char(i);
        if ws_c(c) {
            i = i + 1;
        } else if delim_c(c) {
            let f = line.substring_char(i, i + 1).to_owned();
            proof {
                assert(f@ =~= seq![line@[i as int]]);
            }
            out.push(f);
            proof {
                assert(frags_view(out@) =~= frags_view(out0).push(seq![line@[i as int]]));
                assert(frags_view(out0) + raw_frags(line@, i as int) =~= frags_view(out@)
                    + raw_frags(line@, i as int + 1));
            }
            i = i + 1;
        } else {
            let mut j = i + 1;
            loop
                invariant
                    n == line@.len(),
                    i < j <= n,
                    forall|t: int| i <= t < j ==> is_frag_char(#[trigger] line@[t]),
                ensures
                    i < j <= n,
                    forall|t: int| i <= t < j ==> is_frag_char(#[trigger] line@[t]),
                    j == n || !is_frag_char(line@[j as int]),
                decreases n - j,
            {
                if j >= n {
                    break ;
                }
                let cj = line.get_char(j);
                if ws_c(cj) || delim_c(cj) {
                    break ;
                }
                j = j + 1;
            }
            let f = line.substring_char(i, j).to_owned();
            out.push(f);
            proof {
                lemma_run_len(line@, i as int, j as int);
                assert(frags_view(out@) =~= frags_view(out0).push(
                    line@.subrange(i as int, j as int),
                ));
                assert(frags_view(out0) + raw_frags(line@, i as int) =~= frags_view(out@)
                    + raw_frags(line@, j as int));
            }
            i = j;
        }
    }
    proof {
        assert(frags_view(out@) + raw_frags(line@, n as int) =~= frags_view(out@));
    }
    out
}

proof fn lemma_find_quote_none(fr: Seq<Seq<char>>, a: int)
    requires
        0 <= a,
        forall|t: int| a <= t < fr.len() ==> !is_quote_frag(#[trigger] fr[t]),
    ensures
        find_quote(fr, a) is None,
    decreases fr.len() - a,
{
    if a < fr.len() {
        lemma_find_quote_none(fr, a + 1);
    }
}

proof fn lemma_find_quote_some(fr: Seq<Seq<char>>, a: int, m: int)
    requires
        0 <= a <= m < fr.len(),
        forall|t: int| a <= t < m ==> !is_quote_frag(#[trigger] fr[t]),
        is_quote_frag(fr[m]),
    ensures
        find_quote(fr, a) == Some(m),
    decreases m - a,
{
    if a < m {
        lemma_find_quote_some(fr, a + 1, m);
    }
}

fn is_quote_fragment(f: &String) -> (r: bool)
    ensures
        r == is_quote_frag(f@),
{
    *f == String::from_str("\"")
}

/// The second tokenizer pass: pair up quote fragments and fuse what lies
/// between each pair into one quote-delimited fragment.
fn join_string_fragments(raw: &Vec<String>) -> (r: Vec<String>)
    ensures
        frags_view(r@) == join_quotes(frags_view(raw@), 0),
{
    let ghost rv = frags_view(raw@);
    let n = raw.len();
    let mut out: Vec<String> = Vec::new();
    let mut k: usize = 0;
    while k < n
        invariant
            n == raw@.len(),
            rv == frags_view(raw@),
            0 <= k <= n,
            join_quotes(rv, 0) == frags_view(out@) + join_quotes(rv, k as int),
        decreases n - k,
    {
        let ghost out0 = out@;
        if is_quote_fragment(&raw[k]) {
            let mut m = k + 1;
            let mut found = false;
            while m < n && !found
                invariant
                    n == raw@.len(),
                    rv == frags_view(raw@),
                    k < m <= n || (found && k < m < n),
                    !found ==> forall|t: int| k < t < m ==> !is_quote_frag(#[trigger] rv[t]),
                    found ==> k < m < n && is_quote_frag(rv[m as int]) && forall|t: int|
                        k < t < m ==> !is_quote_frag(#[trigger] rv[t]),
                decreases n - m + if found {
                    0int
                } else {
                    1int
                },
            {
                if is_quote_fragment(&raw[m]) {
                    found = true;
                } else {
                    m = m + 1;
                }
            }
            if found {
                proof {
                    lemma_find_quote_some(rv, k as int + 1, m as int);
                }
                let mut s = String::from_str("\"");
                proof {
                    reveal_strlit("\"");
                    assert(s@ =~= seq!['"'] + join_inner(rv, k as int + 1, k as int + 1));
                }
                let mut t = k + 1;
                while t < m
                    invariant
                        n == raw@.len(),
                        rv == frags_view(raw@),
                        k + 1 <= t <= m < n,
                        s@ == seq!['"'] + join_inner(rv, k as int + 1, t as int),
                    decreases m - t,
                {
                    if t > k + 1 {
                        s.append(" ");
                    }
                    s.append(raw[t].as_str());
                    proof {
                        reveal_strlit(" ");
                        assert(" "@ =~= seq![' ']);
                        assert(s@ =~= seq!['"'] + join_inner(rv, k as int + 1, t as int + 1));
                    }
                    t = t + 1;
                }
                s.append("\"");
                proof {
                    reveal_strlit("\"");
                    assert("\""@ =~= seq!['"']);
                    assert(s@ =~= seq!['"'] + join_inner(rv, k as int + 1, m as int)
                        + seq!['"']);
                }
                out.push(s);
                proof {
                    assert(frags_view(out@) =~= frags_view(out0).push(
                        seq!['"'] + join_inner(rv, k as int + 1, m as int) + seq!['"'],
                    ));
                    assert(frags_view(out0) + join_quotes(rv, k as int) =~= frags_view(out@)
                        + join_quotes(rv, m as int + 1));
                }
                k = m + 1;
            } else {
                proof {
                    lemma_find_quote_none(rv, k as int + 1);
                }
                out.push(raw[k].clone());
                proof {
                    assert(frags_view(out@) =~= frags_view(out0).push(rv[k as int]));
                    assert(frags_view(out0) + join_quotes(rv, k as int) =~= frags_view(out@)
                        + join_quotes(rv, k as int + 1));
                }
                k = k + 1;
            }
        } else {
            out.push(raw[k].clone());
            proof {
                assert(frags_view(out@) =~= frags_view(out0).push(rv[k as int]));
                assert(frags_view(out0) + join_quotes(rv, k as int) =~= frags_view(out@)
                    + join_quotes(rv, k as int + 1));
            }
            k = k + 1;
        }
    }
    proof {
        assert(frags_view(out@) + join_quotes(rv, n as int) =~= frags_view(out@));
    }
    out
}

proof fn lemma_digits_val_nonneg(t: Seq<char>)
    requires
        forall|j: int| 0 <= j < t.len() ==> is_digit(#[trigger] t[j]) || t[j] == '_',
    ensures
        digits_val(t) >= 0,
    decreases t.len(),
{
    if t.len() > 0 {
        lemma_digits_val_nonneg(t.drop_last());
    }
}

#[verifier::loop_isolation(false)]
fn check_int_frag(s: &str) -> (r: bool)
    ensures
        r == is_int_frag(s@),
{
    let n = s.unicode_len();
    if n == 0 {
        return false;
    }
    let c0 = s.get_char(0);
    let b: usize = if c0 == '-' || c0 == '+' {
        1
    } else {
        0
    };
    proof {
        assert(strip_sign(s@) =~= s@.subrange(b as int, n as int));
    }
    if n == b {
        return false;
    }
    if !digit_c(s.get_char(b)) {
        return false;
    }
    let mut p = b + 1;
    while p < n
        invariant
            n == s@.len(),
            b + 1 <= p <= n,
            b < n,
            forall|q: int| b < q < p ==> is_digit(#[trigger] s@[q]) || s@[q] == '_',
        decreases n - p,
    {
        let c = s.get_char(p);
        if !(digit_c(c) || c == '_') {
            proof {
                let t = strip_sign(s@);
                assert(t =~= s@.subrange(b as int, n as int));
                assert(t[p - b as int] == s@[p as int]);
            }
            return false;
        }
        p = p + 1;
    }
    proof {
        let t = strip_sign(s@);
        assert(t =~= s@.subrange(b as int, n as int));
        assert(t.len() > 0);
        assert(t[0] == s@[b as int]);
        assert(forall|j: int| 0 < j < t.len() ==> #[trigger] t[j] == s@[j + b]);
    }
    true
}

/// Parse a checked integer literal; `None` means the value does not fit in
/// 32 bits.
#[verifier::loop_isolation(false)]
fn parse_int_value(s: &str) -> (r: Option<i32>)
    requires
        is_int_frag(s@),
    ensures
        match r {
            Some(v) => -0x8000_0000 <= int_frag_val(s@) <= 0x7fff_ffff && v as int == int_frag_val(
                s@,
            ),
            None => int_frag_val(s@) < -0x8000_0000 || int_frag_val(s@) > 0x7fff_ffff,
        },
{
    let n = s.unicode_len();
    let c0 = s.get_char(0);
    let neg = c0 == '-';
    let b: usize = if c0 == '-' || c0 == '+' {
        1
    } else {
        0
    };
    let ghost t = s@.subrange(b as int, n as int);
    proof {
        assert(strip_sign(s@) =~= t);
    }
    let mut acc: u64 = 0;
    let mut p = b;
    while p < n
        invariant
            n == s@.len(),
            is_int_frag(s@),
            b <= p <= n,
            b < n,
            b == 0 || b == 1,
            t == s@.subrange(b as int, n as int),
            t =~= strip_sign(s@),
            acc <= 10_000_000_000,
            digits_val(t.subrange(0, p - b)) < 10_000_000_000 ==> acc as int == digits_val(
                t.subrange(0, p - b),
            ),
            digits_val(t.subrange(0, p - b)) >= 10_000_000_000 ==> acc == 10_000_000_000,
        decreases n - p,
    {
        let c = s.get_char(p);
        let ghost pre = t.subrange(0, p - b);
        let ghost post = t.subrange(0, p - b + 1);
        proof {
            lemma_digits_val_nonneg(pre);
            assert(post.drop_last() =~= pre);
            assert(post.last() == s@[p as int]);
        }
        if c == '_' {
        } else {
            proof {
                if p > b {
                    assert(is_digit(s@[p as int]) || s@[p as int] == '_') by {
                        assert(strip_sign(s@)[p - b as int] == s@[p as int]);
                    }
                }
            }
            let d = (c as u32) - ('0' as u32);
            if acc >= 10_000_000_000 {
            } else {
                let newv = acc * 10 + (d as u64);
                if newv >= 10_000_000_000 {
                    acc = 10_000_000_000;
                } else {
                    acc = newv;
                }
            }
        }
        p = p + 1;
    }
    proof {
        assert(t.subrange(0, n - b) =~= t);
        lemma_digits_val_nonneg(t);
    }
    if neg {
        if acc > 2_147_483_648 {
            None
        } else if acc == 2_147_483_648 {
            Some(i32::MIN)
        } else {
            Some(-(acc as i32))
        }
    } else {
        if acc > 2_147_483_647 {
            None
        } else {
            Some(acc as i32)
        }
    }
}

#[verifier::loop_isolation(false)]
fn check_float_frag(s: &str) -> (r: bool)
    ensures
        r == is_float_frag(s@),
{
    let n = s.unicode_len();
    if n == 0 {
        return false;
    }
    let c0 = s.get_char(0);
    let b: usize = if c0 == '-' || c0 == '+' {
        1
    } else {
        0
    };
    let ghost t = strip_sign(s@);
    proof {
        assert(t =~= s@.subrange(b as int, n as int));
    }
    if n == b {
        return false;
    }
    let has_f = s.get_char(n - 1) == 'f';
    let end = if has_f {
        n - 1
    } else {
        n
    };
    let mut p = b;
    while p < end && digit_c(s.get_char(p))
        invariant
            n == s@.len(),
            b <= p <= end <= n,
            forall|q: int| b <= q < p ==> is_digit(#[trigger] s@[q]),
        decreases end - p,
    {
        p = p + 1;
    }
    proof {
        assert(forall|j: int| 0 <= j < t.len() ==> #[trigger] t[j] == s@[j + b]);
    }
    if p == end {
        if has_f {
            proof {
                assert(t.last() == s@[n - 1]);
                assert(forall|j: int| 0 <= j < t.len() - 1 ==> is_digit(#[trigger] t[j]));
            }
            return true;
        } else {
            proof {
                assert(t.last() == s@[n - 1]);
                assert(forall|j: int| 0 <= j < t.len() ==> is_digit(#[trigger] t[j]));
                assert(!float_tail_ok(t)) by {
                    if exists|k: int|
                        0 <= k < t.len() && #[trigger] t[k] == '.' && t.len() > k + 1 && (
                        forall|j: int| 0 <= j < k ==> is_digit(#[trigger] t[j])) && (forall|
                            j: int,
                        |
                            k < j < t.len() ==> is_digit(#[trigger] t[j])) {
                        let k = choose|k: int|
                            0 <= k < t.len() && #[trigger] t[k] == '.' && t.len() > k + 1 && (
                            forall|j: int| 0 <= j < k ==> is_digit(#[trigger] t[j])) && (
                            forall|j: int| k < j < t.len() ==> is_digit(#[trigger] t[j]));
                        assert(is_digit(t[k]));
                    }
                }
            }
            return false;
        }
    } else {
        let cp = s.get_char(p);
        proof {
            assert(t[p - b as int] == s@[p as int]);
            assert(!is_digit(s@[p as int]));
        }
        if cp != '.' {
            proof {
                let body_end: int = if has_f {
                    t.len() - 1
                } else {
                    t.len() as int
                };
                assert(!float_tail_ok(t)) by {
                    assert(t[p - b as int] != '.' && !is_digit(t[p - b as int]));
                    assert(p - b < body_end);
                    if has_f {
                        assert(t.last() == s@[n - 1] && s@[n - 1] == 'f');
                    } else {
                        assert(t.len() >= 1 ==> t.last() == s@[n - 1] && s@[n - 1] != 'f');
                    }
                }
            }
            return false;
        }
        if p + 1 >= end {
            proof {
                assert(t[p - b as int] == '.');
                assert(!float_tail_ok(t)) by {
                    if has_f {
                        assert(t.last() == s@[n - 1] && s@[n - 1] == 'f');
                    } else {
                        assert(t.last() == s@[n - 1] && s@[n - 1] != 'f');
                    }
                }
            }
            return false;
        }
        let mut q = p + 1;
        while q < end
            invariant
                n == s@.len(),
                b <= p < p + 1 <= q <= end <= n,
                end == if has_f {
                    n - 1
                } else {
                    n as int
                },
                t =~= s@.subrange(b as int, n as int),
                forall|u: int| b <= u < p ==> is_digit(#[trigger] s@[u]),
                s@[p as int] == '.',
                forall|u: int| p < u < q ==> is_digit(#[trigger] s@[u]),
            decreases end - q,
        {
            let cq = s.get_char(q);
            if !digit_c(cq) {
                proof {
                    assert(forall|j: int| 0 <= j < t.len() ==> #[trigger] t[j] == s@[j + b]);
                    let kp = p - b as int;
                    let kq = q - b as int;
                    let body_end: int = if has_f {
                        t.len() - 1
                    } else {
                        t.len() as int
                    };
                    assert(t[kp] == '.');
                    assert(!is_digit(t[kq]));
                    assert(kq < body_end);
                    assert(!float_tail_ok(t)) by {
                        if has_f {
                            assert(t.last() == s@[n - 1] && s@[n - 1] == 'f');
                        } else {
                            assert(t.last() == s@[n - 1] && s@[n - 1] != 'f');
                        }
                        if exists|k: int|
                            0 <= k < t.len() && #[trigger] t[k] == '.' && t.len() > k + 1 && (
                            forall|j: int| 0 <= j < k ==> is_digit(#[trigger] t[j])) && (
                            forall|j: int| k < j < t.len() ==> is_digit(#[trigger] t[j])) {
                            let k = choose|k: int|
                                0 <= k < t.len() && #[trigger] t[k] == '.' && t.len() > k + 1
                                    && (forall|j: int| 0 <= j < k ==> is_digit(
                                    #[trigger] t[j],
                                )) && (forall|j: int|
                                    k < j < t.len() ==> is_digit(#[trigger] t[j]));
                            if k < kp {
                                assert(is_digit(t[k]));
                            } else if k == kp {
                                assert(is_digit(t[kq]));
                            } else {
                                assert(is_digit(t[kp]));
                            }
                        }
                        if t.len() >= 1 && t.last() == 'f' && (forall|j: int|
                            0 <= j < t.len() - 1 ==> is_digit(#[trigger] t[j])) {
                            assert(is_digit(t[kp]));
                        }
                        if has_f && (exists|k: int|
                            0 <= k < t.len() - 1 && #[trigger] t[k] == '.' && t.len() - 1 > k
                                + 1 && (forall|j: int|
                                0 <= j < k ==> is_digit(#[trigger] t[j])) && (forall|j: int|
                                k < j < t.len() - 1 ==> is_digit(#[trigger] t[j]))) {
                            let k = choose|k: int|
                                0 <= k < t.len() - 1 && #[trigger] t[k] == '.' && t.len() - 1
                                    > k + 1 && (forall|j: int|
                                    0 <= j < k ==> is_digit(#[trigger] t[j])) && (forall|
                                    j: int,
                                |
                                    k < j < t.len() - 1 ==> is_digit(#[trigger] t[j]));
                            if k < kp {
                                assert(is_digit(t[k]));
                            } else if k == kp {
                                assert(is_digit(t[kq]));
                            } else {
                                assert(is_digit(t[kp]));
                            }
                        }
                    }
                }
                return false;
            }
            q = q + 1;
        }
        proof {
            assert(forall|j: int| 0 <= j < t.len() ==> #[trigger] t[j] == s@[j + b]);
            let k = p - b as int;
            let body_end: int = if has_f {
                t.len() - 1
            } else {
                t.len() as int
            };
            assert(t[k] == '.');
            assert(forall|j: int| 0 <= j < k ==> is_digit(#[trigger] t[j]));
            assert(forall|j: int| k < j < body_end ==> is_digit(#[trigger] t[j]));
            if has_f {
                assert(t.last() == s@[n - 1]);
            }
            assert(float_tail_ok(t));
        }
        return true;
    }
}

#[verifier::loop_isolation(false)]
fn check_symbol_frag(s: &str) -> (r: bool)
    ensures
        r == is_symbol_frag(s@),
{
    let n = s.unicode_len();
    if n == 0 {
        proof {
            reveal_strlit("+");
            reveal_strlit("-");
            reveal_strlit("*");
            reveal_strlit("/");
        }
        return false;
    }
    let c0 = s.get_char(0);
    if ident_c(c0) {
        let mut p: usize = 1;
        while p < n
            invariant
                1 <= p <= n,
                forall|q: int| 0 < q < p ==> is_ident_tail_char(#[trigger] s@[q]),
            decreases n - p,
        {
            let c = s.get_char(p);
            if !(ident_c(c) || digit_c(c)) {
                proof {
                    reveal_strlit("+");
                    reveal_strlit("-");
                    reveal_strlit("*");
                    reveal_strlit("/");
                }
                return false;
            }
            p = p + 1;
        }
        return true;
    }
    proof {
        reveal_strlit("+");
        reveal_strlit("-");
        reveal_strlit("*");
        reveal_strlit("/");
    }
    if n == 1 && (c0 == '+' || c0 == '-' || c0 == '*' || c0 == '/') {
        proof {
            if c0 == '+' {
                assert(s@ =~= "+"@);
            } else if c0 == '-' {
                assert(s@ =~= "-"@);
            } else if c0 == '*' {
                assert(s@ =~= "*"@);
            } else {
                assert(s@ =~= "/"@);
            }
        }
        return true;
    }
    false
}

#[verifier::loop_isolation(false)]
fn check_escape(s: &str) -> (r: Option<usize>)
    ensures
        match r {
            Some(j) => 0 <= j < s@.len() - 1 && s@[j as int] == '\\' && s@[j + 1] as u32 <= 255
                && has_escape(s@),
            None => !has_escape(s@),
        },
{
    let n = s.unicode_len();
    if n < 2 {
        return None;
    }
    let mut j: usize = 0;
    while j + 1 < n
        invariant
            0 <= j <= n - 1,
            forall|q: int|
                0 <= q < j ==> !(#[trigger] s@[q] == '\\' && s@[q + 1] as u32 <= 255),
        decreases n - j,
    {
        let c = s.get_char(j);
        if c == '\\' {
            let c2 = s.get_char(j + 1);
            if (c2 as u32) <= 255 {
                return Some(j);
            }
        }
        j = j + 1;
    }
    None
}

#[verifier::loop_isolation(false)]
fn check_comparison(s: &str) -> (r: Option<ComparisonOp>)
    ensures
        r == comparison_of(s@),
{
    proof {
        reveal_strlit("<");
        reveal_strlit("<=");
        reveal_strlit(">");
        reveal_strlit(">=");
        reveal_strlit("=");
    }
    let n = s.unicode_len();
    if n == 1 {
        let c0 = s.get_char(0);
        if c0 == '<' {
            proof {
                assert(s@ =~= "<"@);
            }
            return Some(ComparisonOp::LT);
        }
        if c0 == '>' {
            proof {
                assert(s@ =~= ">"@);
            }
            return Some(ComparisonOp::GT);
        }
        if c0 == '=' {
            proof {
                assert(s@ =~= "="@);
            }
            return Some(ComparisonOp::EQ);
        }
        return None;
    }
    if n == 2 {
        let c0 = s.get_char(0);
        let c1 = s.get_char(1);
        if c0 == '<' && c1 == '=' {
            proof {
                assert(s@ =~= "<="@);
            }
            return Some(ComparisonOp::LTE);
        }
        if c0 == '>' && c1 == '=' {
            proof {
                assert(s@ =~= ">="@);
            }
            return Some(ComparisonOp::GTE);
        }
        return None;
    }
    None
}

proof fn lemma_count_digits_nonneg(f: Seq<char>)
    ensures
        count_digits(f) >= 0,
    decreases f.len(),
{
    if f.len() > 0 {
        lemma_count_digits_nonneg(f.drop_last());
    }
}

#[verifier::loop_isolation(false)]
fn count_digit_chars(s: &str) -> (r: usize)
    ensures
        r as int == count_digits(s@),
{
    let n = s.unicode_len();
    let mut cnt: usize = 0;
    let mut p: usize = 0;
    while p < n
        invariant
            0 <= p <= n,
            cnt as int == count_digits(s@.subrange(0, p as int)),
            cnt <= p,
        decreases n - p,
    {
        let ghost pre = s@.subrange(0, p as int);
        let ghost post = s@.subrange(0, p as int + 1);
        proof {
            assert(post.drop_last() =~= pre);
            assert(post.last() == s@[p as int]);
        }
        if digit_c(s.get_char(p)) {
            cnt = cnt + 1;
        }
        p = p + 1;
    }
    proof {
        assert(s@.subrange(0, n as int) =~= s@);
    }
    cnt
}

/// Classify one fragment, in the priority order of [`classify_spec`].
#[verifier::loop_isolation(false)]
fn classify_fragment(f: &String, floats: &FloatTable) -> (r: Result<RispToken, RispError>)
    ensures
        match r {
            Ok(t) => classify_spec(f@, floats@) == Ok::<TokenV, crate::error::ErrorV>(t@),
            Err(e) => classify_spec(f@, floats@) == Err::<TokenV, crate::error::ErrorV>(e@),
        },
{
    let s = f.as_str();
    if *f == String::from_str("(") {
        return Ok(RispToken::LParen);
    }
    if *f == String::from_str(")") {
        return Ok(RispToken::RParen);
    }
    if *f == String::from_str("nil") {
        return Ok(RispToken::Nil);
    }
    if *f == String::from_str("def") {
        return Ok(RispToken::Def);
    }
    if *f == String::from_str("if") {
        return Ok(RispToken::If);
    }
    if *f == String::from_str("fn") {
        return Ok(RispToken::Fn);
    }
    if let Some(_) = check_escape(s) {
        return Ok(RispToken::Char(s.get_char(0)));
    }
    if *f == String::from_str("true") {
        return Ok(RispToken::Bool(true));
    }
    if *f == String::from_str("false") {
        return Ok(RispToken::Bool(false));
    }
    if check_int_frag(s) {
        match parse_int_value(s) {
            Some(v) => {
                return Ok(RispToken::Integer(v));
            },
            None => {
                return Err(RispError::ParseIntError(f.clone()));
            },
        }
    }
    if check_float_frag(s) {
        let n = s.unicode_len();
        let has_f = n > 0 && s.get_char(n - 1) == 'f';
        let norm: String = if has_f {
            s.substring_char(0, n - 1).to_owned()
        } else {
            f.clone()
        };
        proof {
            assert(norm@ =~= float_norm(f@));
        }
        if count_digit_chars(norm.as_str()) == 0 {
            proof {
                lemma_count_digits_nonneg(norm@);
            }
            return Err(RispError::ParseFloatError(f.clone()));
        }
        let q = FloatQuery::Parse(norm);
        match floats.lookup(&q) {
            Some(a) => match a {
                FloatAnswer::Bits(b) => Ok(RispToken::Float(*b)),
                FloatAnswer::NoParse => Err(RispError::ParseFloatError(f.clone())),
                _ => Err(RispError::MissingFloatAnswer(q)),
            },
            None => Err(RispError::MissingFloatAnswer(q)),
        }
    } else if check_symbol_frag(s) {
        Ok(RispToken::Symbol(f.clone()))
    } else {
        let n = s.unicode_len();
        if n >= 2 && s.get_char(0) == '"' && s.get_char(n - 1) == '"' {
            let content = s.substring_char(1, n - 1).to_owned();
            return Ok(RispToken::StringLiteral(content));
        }
        proof {
            assert(!is_string_frag(f@));
        }
        match check_comparison(s) {
            Some(op) => Ok(RispToken::Comparison(op)),
            None => Err(RispError::UnrecognizedToken(f.clone())),
        }
    }
}

/// Tokenize a line against the given float table.
#[verifier::loop_isolation(false)]
pub fn tokenize_with(line: &str, floats: &FloatTable) -> (r: RispResult<Vec<RispToken>>)
    ensures
        match r {
            Ok(v) => tokenize_spec(line@, floats@) == Ok::<Seq<TokenV>, crate::error::ErrorV>(
                tokens_view(v@),
            ),
            Err(e) => tokenize_spec(line@, floats@) == Err::<Seq<TokenV>, crate::error::ErrorV>(
                e@,
            ),
        },
{
    let raw = split_fragments(line);
    let frags = join_string_fragments(&raw);
    let ghost fv = frags_view(frags@);
    let n = frags.len();
    let mut out: Vec<RispToken> = Vec::new();
    let mut i: usize = 0;
    while i < n
        invariant
            n == frags@.len(),
            0 <= i <= n,
            fv == frags_view(frags@),
            fv == join_quotes(raw_frags(line@, 0), 0),
            classify_all(fv, i as int, floats@) is Ok ==> classify_all(fv, 0, floats@)
                == Ok::<Seq<TokenV>, crate::error::ErrorV>(
                tokens_view(out@) + classify_all(fv, i as int, floats@)->Ok_0,
            ),
            classify_all(fv, i as int, floats@) is Err ==> classify_all(fv, 0, floats@)
                == classify_all(fv, i as int, floats@),
        decreases n - i,
    {
        let ghost out0 = out@;
        match classify_fragment(&frags[i], floats) {
            Ok(t) => {
                out.push(t);
                proof {
                    assert(tokens_view(out@) =~= tokens_view(out0).push(out@.last()@));
                    if classify_all(fv, i as int + 1, floats@) is Ok {
                        assert(tokens_view(out0) + classify_all(fv, i as int, floats@)->Ok_0
                            =~= tokens_view(out@) + classify_all(
                            fv,
                            i as int + 1,
                            floats@,
                        )->Ok_0);
                    }
                }
                i = i + 1;
            },
            Err(e) => {
                return Err(e);
            },
        }
    }
    proof {
        assert(tokens_view(out@) + classify_all(fv, n as int, floats@)->Ok_0 =~= tokens_view(
            out@,
        ));
    }
    Ok(out)
}

/// Tokenize a line.  Lines without float literals behave exactly as with
/// [`tokenize_with`]; a float literal reports the parse it needs.
pub fn tokenize(line: &str) -> (r: RispResult<Vec<RispToken>>)
    ensures
        match r {
            Ok(v) => tokenize_spec(line@, Seq::empty()) == Ok::<
                Seq<TokenV>,
                crate::error::ErrorV,
            >(tokens_view(v@)),
            Err(e) => tokenize_spec(line@, Seq::empty()) == Err::<
                Seq<TokenV>,
                crate::error::ErrorV,
            >(e@),
        },
{
    let empty = FloatTable::new();
    tokenize_with(line, &empty)
}

} // verus!
