use vstd::prelude::*;
use vstd::string::*;

use crate::expression::{bracket, binary, leaf, ArithmeticExpression, BinaryOperation, Bracket, Expression, Number, Operation};
use crate::number_value::NumberValue;

verus! {

/// Why a formula could not be read.
#[derive(PartialEq, Eq, Structural, Clone, Copy, Debug)]
pub enum ParseErrorKind {
    /// The input ended where a number, `-`, `{` or `}` was expected.
    UnexpectedEnd,
    /// A character that cannot stand where it was found.
    UnexpectedCharacter,
    /// An integer literal that does not fit in 32 signed bits.
    IntegerOutOfRange,
}

/// A failed parse: what went wrong, at which character (counted from 0).
#[derive(PartialEq, Eq, Structural, Clone, Copy, Debug)]
pub struct ParseError {
    pub position: usize,
    pub kind: ParseErrorKind,
}

/// What parsing yields from a position: the tree and the position after it
/// (and after the whitespace that follows), or the failure.
pub type SpecParse = Result<(Expression, nat), (nat, ParseErrorKind)>;

/// Whitespace as Unicode's White_Space property defines it.
pub open spec fn is_space(c: char) -> bool {
    let u = c as u32;
    (0x09 <= u && u <= 0x0d) || u == 0x20 || u == 0x85 || u == 0xa0 || u == 0x1680 || (0x2000
        <= u && u <= 0x200a) || u == 0x2028 || u == 0x2029 || u == 0x202f || u == 0x205f || u
        == 0x3000
}

pub open spec fn is_digit(c: char) -> bool {
    '0' <= c && c <= '9'
}

pub open spec fn digit_value(c: char) -> nat {
    (c as int - '0' as int) as nat
}

/// The number of whitespace characters from position `i` on.
pub open spec fn ws_len(s: Seq<char>, i: nat) -> nat
    decreases s.len() - i,
{
    if i < s.len() && is_space(s[i as int]) {
        1 + ws_len(s, i + 1)
    } else {
        0
    }
}

/// The number of decimal digits from position `i` on.
pub open spec fn digit_len(s: Seq<char>, i: nat) -> nat
    decreases s.len() - i,
{
    if i < s.len() && is_digit(s[i as int]) {
        1 + digit_len(s, i + 1)
    } else {
        0
    }
}

/// The value of a run of decimal digits.
pub open spec fn digits_value(d: Seq<char>) -> nat
    decreases d.len(),
{
    if d.len() == 0 {
        0
    } else {
        digits_value(d.drop_last()) * 10 + digit_value(d.last())
    }
}

pub open spec fn after_ws(s: Seq<char>, i: nat) -> nat {
    i + ws_len(s, i)
}

/// The failure for a missing token at `i`.
pub open spec fn unexpected(s: Seq<char>, i: nat) -> ParseErrorKind {
    if i >= s.len() {
        ParseErrorKind::UnexpectedEnd
    } else {
        ParseErrorKind::UnexpectedCharacter
    }
}

/// An integer literal whose digits start at `d`; it started at `start`
/// (with a `-` there when `negative`).
pub open spec fn number_literal(s: Seq<char>, start: nat, d: nat, negative: bool) -> SpecParse {
    let n = digit_len(s, d);
    let v = digits_value(s.subrange(d as int, (d + n) as int));
    if (negative && v > 0x8000_0000) || (!negative && v > 0x7fff_ffff) {
        Err((start, ParseErrorKind::IntegerOutOfRange))
    } else {
        Ok(
            (
                leaf(
                    (if negative {
                        -(v as int)
                    } else {
                        v as int
                    }) as i32,
                ),
                after_ws(s, d + n),
            ),
        )
    }
}

pub open spec fn multiplicative(c: char) -> Option<Operation> {
    if c == '*' {
        Some(Operation::Mul)
    } else if c == '/' {
        Some(Operation::Div)
    } else {
        None
    }
}

pub open spec fn additive(c: char) -> Option<Operation> {
    if c == '+' {
        Some(Operation::Add)
    } else if c == '-' {
        Some(Operation::Sub)
    } else {
        None
    }
}

/// `primary = integer | '-' integer | '{' additive '}'`
pub open spec fn parse_primary(s: Seq<char>, i: nat) -> SpecParse
    decreases s.len() - i, 0nat,
    via primary_decreases
{
    if i >= s.len() {
        Err((i, ParseErrorKind::UnexpectedEnd))
    } else if s[i as int] == '-' {
        if i + 1 < s.len() && is_digit(s[i + 1 as int]) {
            number_literal(s, i, i + 1, true)
        } else {
            Err((i + 1, unexpected(s, i + 1)))
        }
    } else if is_digit(s[i as int]) {
        number_literal(s, i, i, false)
    } else if s[i as int] == '{' {
        match parse_additive(s, after_ws(s, i + 1)) {
            Err(f) => Err(f),
            Ok(p) => if p.1 < s.len() && s[p.1 as int] == '}' {
                Ok((bracket(p.0), after_ws(s, p.1 + 1)))
            } else {
                Err((p.1, unexpected(s, p.1)))
            },
        }
    } else {
        Err((i, ParseErrorKind::UnexpectedCharacter))
    }
}

/// `(('*' | '/') primary)*` after the left operand `acc`, grouping to the left.
/// (Every successful read ends past where it started; the test `i < p.1`
/// below only makes that visible to the termination measure.)
pub open spec fn multitive_rest(s: Seq<char>, acc: Expression, i: nat) -> SpecParse
    decreases s.len() - i, 0nat,
    via multitive_rest_decreases
{
    if i < s.len() && multiplicative(s[i as int]) is Some {
        let op = multiplicative(s[i as int])->Some_0;
        match parse_primary(s, after_ws(s, i + 1)) {
            Err(f) => Err(f),
            Ok(p) => if i < p.1 <= s.len() {
                multitive_rest(s, binary(acc, p.0, op), p.1)
            } else {
                Ok((acc, i))
            },
        }
    } else {
        Ok((acc, i))
    }
}

/// `multitive = primary (('*' | '/') primary)*`
pub open spec fn parse_multitive(s: Seq<char>, i: nat) -> SpecParse
    decreases s.len() - i, 1nat,
{
    match parse_primary(s, i) {
        Err(f) => Err(f),
        Ok(p) => if i < p.1 <= s.len() {
            multitive_rest(s, p.0, p.1)
        } else {
            Ok(p)
        },
    }
}

/// `(('+' | '-') multitive)*` after the left operand `acc`, grouping to the left.
pub open spec fn additive_rest(s: Seq<char>, acc: Expression, i: nat) -> SpecParse
    decreases s.len() - i, 2nat,
    via additive_rest_decreases
{
    if i < s.len() && additive(s[i as int]) is Some {
        let op = additive(s[i as int])->Some_0;
        match parse_multitive(s, after_ws(s, i + 1)) {
            Err(f) => Err(f),
            Ok(p) => if i < p.1 <= s.len() {
                additive_rest(s, binary(acc, p.0, op), p.1)
            } else {
                Ok((acc, i))
            },
        }
    } else {
        Ok((acc, i))
    }
}

/// `additive = multitive (('+' | '-') multitive)*`
pub open spec fn parse_additive(s: Seq<char>, i: nat) -> SpecParse
    decreases s.len() - i, 3nat,
{
    match parse_multitive(s, i) {
        Err(f) => Err(f),
        Ok(p) => if i < p.1 <= s.len() {
            additive_rest(s, p.0, p.1)
        } else {
            Ok(p)
        },
    }
}

/// A whole formula: leading whitespace, then an additive expression.
pub open spec fn parse_text(s: Seq<char>) -> SpecParse {
    parse_additive(s, ws_len(s, 0))
}

proof fn lemma_ws_len_bound(s: Seq<char>, i: nat)
    requires
        i <= s.len(),
    ensures
        i + ws_len(s, i) <= s.len(),
    decreases s.len() - i,
{
    if i < s.len() && is_space(s[i as int]) {
        lemma_ws_len_bound(s, i + 1);
    }
}

#[via_fn]
proof fn primary_decreases(s: Seq<char>, i: nat) {
    if i < s.len() {
        lemma_ws_len_bound(s, i + 1);
    }
}

#[via_fn]
proof fn multitive_rest_decreases(s: Seq<char>, acc: Expression, i: nat) {
    if i < s.len() {
        lemma_ws_len_bound(s, i + 1);
    }
}

#[via_fn]
proof fn additive_rest_decreases(s: Seq<char>, acc: Expression, i: nat) {
    if i < s.len() {
        lemma_ws_len_bound(s, i + 1);
    }
}

/// The plain-value reading of an exec parse result.
pub open spec fn parsed(r: Result<(Expression, usize), ParseError>) -> SpecParse {
    match r {
        Ok(p) => Ok((p.0, p.1 as nat)),
        Err(f) => Err((f.position as nat, f.kind)),
    }
}

pub(crate) fn is_space_char(c: char) -> (r: bool)
    ensures
        r == is_space(c),
{
    let u = c as u32;
    (0x09 <= u && u <= 0x0d) || u == 0x20 || u == 0x85 || u == 0xa0 || u == 0x1680 || (0x2000
        <= u && u <= 0x200a) || u == 0x2028 || u == 0x2029 || u == 0x202f || u == 0x205f || u
        == 0x3000
}

fn is_digit_char(c: char) -> (r: bool)
    ensures
        r == is_digit(c),
{
    '0' <= c && c <= '9'
}

pub(crate) fn char_vec(text: &str) -> (r: Vec<char>)
    ensures
        r@ == text@,
{
    let n = text.unicode_len();
    let mut v: Vec<char> = Vec::new();
    let mut i: usize = 0;
    while i < n
        invariant
            n == text@.len(),
            i <= n,
            v@ == text@.subrange(0, i as int),
        decreases n - i,
    {
        v.push(text.get_char(i));
        i = i + 1;
        assert(v@ =~= text@.subrange(0, i as int));
    }
    assert(v@ =~= text@);
    v
}

fn skip_spaces(s: &Vec<char>, i: usize) -> (k: usize)
    requires
        i <= s.len(),
    ensures
        k == after_ws(s@, i as nat),
        k <= s.len(),
{
    let mut k = i;
    while k < s.len() && is_space_char(s[k])
        invariant
            i <= k <= s.len(),
            i + ws_len(s@, i as nat) == k + ws_len(s@, k as nat),
        decreases s.len() - k,
    {
        k = k + 1;
    }
    k
}

fn scan_number(s: &Vec<char>, start: usize, d: usize, negative: bool) -> (r: Result<
    (Expression, usize),
    ParseError,
>)
    requires
        start <= d < s.len(),
        is_digit(s@[d as int]),
    ensures
        parsed(r) == number_literal(s@, start as nat, d as nat, negative),
        r is Ok ==> d < r->Ok_0.1 <= s.len(),
{
    let limit: u64 = if negative { 0x8000_0000 } else { 0x7fff_ffff };
    let mut acc: u64 = 0;
    let mut over = false;
    let mut k = d;
    while k < s.len() && is_digit_char(s[k])
        invariant
            d <= k <= s.len(),
            d + digit_len(s@, d as nat) == k + digit_len(s@, k as nat),
            limit <= 0x8000_0000,
            over == (digits_value(s@.subrange(d as int, k as int)) > limit),
            !over ==> acc == digits_value(s@.subrange(d as int, k as int)),
        decreases s.len() - k,
    {
        assert(s@.subrange(d as int, k + 1).drop_last() =~= s@.subrange(d as int, k as int));
        let digit = (s[k] as u32 - '0' as u32) as u64;
        if !over {
            acc = acc * 10 + digit;
            if acc > limit {
                over = true;
            }
        }
        k = k + 1;
    }
    assert(d + digit_len(s@, d as nat) == k);
    if over {
        return Err(ParseError { position: start, kind: ParseErrorKind::IntegerOutOfRange });
    }
    let value: i32 = if negative { (-(acc as i64)) as i32 } else { acc as i32 };
    let next = skip_spaces(s, k);
    Ok((Expression::Number(Number(NumberValue::Integer(value))), next))
}

fn unexpected_at(s: &Vec<char>, i: usize) -> (r: ParseError)
    ensures
        r.position == i,
        r.kind == unexpected(s@, i as nat),
{
    if i >= s.len() {
        ParseError { position: i, kind: ParseErrorKind::UnexpectedEnd }
    } else {
        ParseError { position: i, kind: ParseErrorKind::UnexpectedCharacter }
    }
}

fn primary(s: &Vec<char>, i: usize) -> (r: Result<(Expression, usize), ParseError>)
    requires
        i <= s.len(),
    ensures
        parsed(r) == parse_primary(s@, i as nat),
        r is Ok ==> i < r->Ok_0.1 <= s.len(),
    decreases s.len() - i, 0nat,
{
    if i >= s.len() {
        return Err(ParseError { position: i, kind: ParseErrorKind::UnexpectedEnd });
    }
    let c = s[i];
    if c == '-' {
        if i + 1 < s.len() && is_digit_char(s[i + 1]) {
            scan_number(s, i, i + 1, true)
        } else {
            Err(unexpected_at(s, i + 1))
        }
    } else if is_digit_char(c) {
        scan_number(s, i, i, false)
    } else if c == '{' {
        let k = skip_spaces(s, i + 1);
        match additive_expression(s, k) {
            Err(f) => Err(f),
            Ok((inner, j)) => {
                if j < s.len() && s[j] == '}' {
                    let next = skip_spaces(s, j + 1);
                    Ok((Bracket::from(inner).to_expression(), next))
                } else {
                    Err(unexpected_at(s, j))
                }
            },
        }
    } else {
        Err(ParseError { position: i, kind: ParseErrorKind::UnexpectedCharacter })
    }
}

fn multiplicative_at(s: &Vec<char>, i: usize) -> (r: Option<Operation>)
    requires
        i < s.len(),
    ensures
        r == multiplicative(s@[i as int]),
{
    if s[i] == '*' {
        Some(Operation::Mul)
    } else if s[i] == '/' {
        Some(Operation::Div)
    } else {
        None
    }
}

fn additive_at(s: &Vec<char>, i: usize) -> (r: Option<Operation>)
    requires
        i < s.len(),
    ensures
        r == additive(s@[i as int]),
{
    if s[i] == '+' {
        Some(Operation::Add)
    } else if s[i] == '-' {
        Some(Operation::Sub)
    } else {
        None
    }
}

fn multitive_expression(s: &Vec<char>, i: usize) -> (r: Result<(Expression, usize), ParseError>)
    requires
        i <= s.len(),
    ensures
        parsed(r) == parse_multitive(s@, i as nat),
        r is Ok ==> i < r->Ok_0.1 <= s.len(),
    decreases s.len() - i, 1nat,
{
    let (mut acc, mut pos) = match primary(s, i) {
        Err(f) => return Err(f),
        Ok(p) => p,
    };
    loop
        invariant
            i < pos <= s.len(),
            multitive_rest(s@, acc, pos as nat) == parse_multitive(s@, i as nat),
        decreases s.len() - pos,
    {
        if pos >= s.len() {
            return Ok((acc, pos));
        }
        let op = match multiplicative_at(s, pos) {
            None => return Ok((acc, pos)),
            Some(op) => op,
        };
        let k = skip_spaces(s, pos + 1);
        match primary(s, k) {
            Err(f) => return Err(f),
            Ok((right, j)) => {
                acc = BinaryOperation::new(acc, right, op).to_expression();
                pos = j;
            },
        }
    }
}

fn additive_expression(s: &Vec<char>, i: usize) -> (r: Result<(Expression, usize), ParseError>)
    requires
        i <= s.len(),
    ensures
        parsed(r) == parse_additive(s@, i as nat),
        r is Ok ==> i < r->Ok_0.1 <= s.len(),
    decreases s.len() - i, 3nat,
{
    let (mut acc, mut pos) = match multitive_expression(s, i) {
        Err(f) => return Err(f),
        Ok(p) => p,
    };
    loop
        invariant
            i < pos <= s.len(),
            additive_rest(s@, acc, pos as nat) == parse_additive(s@, i as nat),
        decreases s.len() - pos,
    {
        if pos >= s.len() {
            return Ok((acc, pos));
        }
        let op = match additive_at(s, pos) {
            None => return Ok((acc, pos)),
            Some(op) => op,
        };
        let k = skip_spaces(s, pos + 1);
        match multitive_expression(s, k) {
            Err(f) => return Err(f),
            Ok((right, j)) => {
                acc = BinaryOperation::new(acc, right, op).to_expression();
                pos = j;
            },
        }
    }
}

/// Reads an infix formula. On success it returns the tree and the text that
/// follows it (empty when the whole formula was read); whitespace may stand
/// before and after every token.
pub fn parse(formula: &str) -> (r: Result<(Expression, &str), ParseError>)
    ensures
        match parse_text(formula@) {
            Ok(p) => r is Ok && r->Ok_0.0 == p.0 && r->Ok_0.1@ == formula@.subrange(
                p.1 as int,
                formula@.len() as int,
            ),
            Err(f) => r is Err && r->Err_0.position == f.0 && r->Err_0.kind == f.1,
        },
{
    let chars = char_vec(formula);
    proof {
        lemma_ws_len_bound(chars@, 0);
    }
    let start = skip_spaces(&chars, 0);
    match additive_expression(&chars, start) {
        Err(f) => Err(f),
        Ok((e, j)) => Ok((e, formula.substring_char(j, chars.len()))),
    }
}

} // verus!
