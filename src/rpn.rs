use vstd::prelude::*;
use vstd::string::*;
use std::collections::VecDeque;

use crate::expression::{binary, leaf, ArithmeticExpression, BinaryOperation, Expression, Number, Operation};
use crate::infix_parser::{
    after_ws, char_vec, digit_len, digits_value, is_digit, is_space, is_space_char, ws_len,
};
use crate::number_value::NumberValue;
use crate::text::{int_text, push_int};
use crate::dot_writer::operator_label;

verus! {

/// Relies on std's `FromIterator<&char>` for `String`: the string holds the
/// given characters in order.
#[verifier::external_body]
fn string_from_chars(chars: &Vec<char>) -> (r: String)
    ensures
        r@ == chars@,
{
    String::from_iter(chars.iter())
}

fn chars_between(v: &Vec<char>, from: usize, to: usize) -> (r: String)
    requires
        from <= to <= v.len(),
    ensures
        r@ == v@.subrange(from as int, to as int),
{
    let mut part: Vec<char> = Vec::new();
    let mut k = from;
    while k < to
        invariant
            from <= k <= to <= v.len(),
            part@ == v@.subrange(from as int, k as int),
        decreases to - k,
    {
        part.push(v[k]);
        k = k + 1;
        assert(part@ =~= v@.subrange(from as int, k as int));
    }
    string_from_chars(&part)
}

/// A position in a sequence of characters that can move both ways.
pub struct CharCursor {
    pub vec: Vec<char>,
    pub pos: usize,
}

impl CharCursor {
    /// The cursor stands within the characters or just after the last.
    pub open spec fn well_formed(&self) -> bool {
        self.pos <= self.vec.len()
    }

    /// Returns the character at the cursor and moves past it; `None` at the end.
    pub fn next(&mut self) -> (r: Option<char>)
        ensures
            final(self).vec == old(self).vec,
            old(self).pos < old(self).vec.len() ==> r == Some(old(self).vec@[old(self).pos as int])
                && final(self).pos == old(self).pos + 1,
            old(self).pos >= old(self).vec.len() ==> r is None && final(self).pos == old(self).pos,
    {
        if self.vec.len() <= self.pos {
            None
        } else {
            let ret = self.vec[self.pos];
            self.pos = self.pos + 1;
            Some(ret)
        }
    }

    /// Moves back one character and returns it; `None` at the start.
    pub fn previous(&mut self) -> (r: Option<char>)
        requires
            old(self).well_formed(),
        ensures
            final(self).vec == old(self).vec,
            old(self).pos > 0 ==> r == Some(old(self).vec@[old(self).pos - 1])
                && final(self).pos == old(self).pos - 1,
            old(self).pos == 0 ==> r is None && final(self).pos == 0,
    {
        if self.pos == 0 {
            None
        } else {
            self.pos = self.pos - 1;
            Some(self.vec[self.pos])
        }
    }

    /// The characters from the cursor on.
    pub fn remainder_to_string(&self) -> (r: String)
        requires
            self.well_formed(),
        ensures
            r@ == self.vec@.subrange(self.pos as int, self.vec@.len() as int),
    {
        chars_between(&self.vec, self.pos, self.vec.len())
    }

    /// The characters before the cursor.
    pub fn consumed_to_string(&self) -> (r: String)
        requires
            self.well_formed(),
        ensures
            r@ == self.vec@.subrange(0, self.pos as int),
    {
        chars_between(&self.vec, 0, self.pos)
    }

    /// A cursor at the first character of `value`.
    pub fn from(value: &str) -> (r: CharCursor)
        ensures
            r.vec@ == value@,
            r.pos == 0,
    {
        CharCursor { vec: char_vec(value), pos: 0 }
    }

    fn peek(&self) -> (r: Option<char>)
        ensures
            self.pos < self.vec.len() ==> r == Some(self.vec@[self.pos as int]),
            self.pos >= self.vec.len() ==> r is None,
    {
        if self.pos < self.vec.len() {
            Some(self.vec[self.pos])
        } else {
            None
        }
    }
}

/// A token of reverse Polish notation.
#[derive(PartialEq, Eq, Structural, Clone, Copy, Debug)]
pub enum Token {
    Number(NumberValue),
    Operator(Operation),
}

pub open spec fn operator_of(c: char) -> Option<Operation> {
    if c == '+' {
        Some(Operation::Add)
    } else if c == '-' {
        Some(Operation::Sub)
    } else if c == '*' {
        Some(Operation::Mul)
    } else if c == '/' {
        Some(Operation::Div)
    } else {
        None
    }
}

/// The token that starts exactly at `k` and the position after it: an
/// operator character, or a run of digits whose value fits in `i32`.
pub open spec fn token_here(s: Seq<char>, k: nat) -> Option<(Token, nat)> {
    if k < s.len() && operator_of(s[k as int]) is Some {
        Some((Token::Operator(operator_of(s[k as int])->Some_0), k + 1))
    } else if k < s.len() && is_digit(s[k as int]) {
        let n = digit_len(s, k);
        let v = digits_value(s.subrange(k as int, (k + n) as int));
        if v <= i32::MAX {
            Some((Token::Number(NumberValue::Integer(v as i32)), k + n))
        } else {
            None
        }
    } else {
        None
    }
}

/// The token that starts at `i` once whitespace is skipped.
pub open spec fn token_at(s: Seq<char>, i: nat) -> Option<(Token, nat)> {
    token_here(s, after_ws(s, i))
}

/// The tokens read one after another from `i`, and where reading stopped.
pub open spec fn tokens_from(s: Seq<char>, i: nat) -> (Seq<Token>, nat)
    decreases s.len() - i,
{
    match token_at(s, i) {
        Some(t) => if i < t.1 <= s.len() {
            let rest = tokens_from(s, t.1);
            (seq![t.0] + rest.0, rest.1)
        } else {
            (Seq::empty(), i)
        },
        None => (Seq::empty(), i),
    }
}

/// Moves the cursor past whitespace.
pub fn skip_whitespace(cursor: &mut CharCursor)
    requires
        old(cursor).well_formed(),
    ensures
        final(cursor).vec == old(cursor).vec,
        final(cursor).pos == after_ws(old(cursor).vec@, old(cursor).pos as nat),
        final(cursor).well_formed(),
{
    let ghost start = cursor.pos;
    while cursor.pos < cursor.vec.len() && is_space_char(cursor.vec[cursor.pos])
        invariant
            cursor.vec == old(cursor).vec,
            start <= cursor.pos <= cursor.vec.len(),
            start + ws_len(cursor.vec@, start as nat) == cursor.pos + ws_len(
                cursor.vec@,
                cursor.pos as nat,
            ),
        decreases cursor.vec.len() - cursor.pos,
    {
        cursor.pos = cursor.pos + 1;
    }
}

/// Reads the run of digits at the cursor: its value when it fits in `i32`.
pub fn get_number(cursor: &mut CharCursor) -> (r: Option<Token>)
    requires
        old(cursor).well_formed(),
    ensures
        final(cursor).vec == old(cursor).vec,
        final(cursor).pos == old(cursor).pos + digit_len(old(cursor).vec@, old(cursor).pos as nat),
        final(cursor).well_formed(),
        ({
            let v = digits_value(old(cursor).vec@.subrange(old(cursor).pos as int, final(cursor).pos as int));
            r == if v <= i32::MAX {
                Some(Token::Number(NumberValue::Integer(v as i32)))
            } else {
                None::<Token>
            }
        }),
{
    let ghost s = cursor.vec@;
    let d = cursor.pos;
    let mut acc: u64 = 0;
    let mut over = false;
    while cursor.pos < cursor.vec.len() && '0' <= cursor.vec[cursor.pos] && cursor.vec[cursor.pos]
        <= '9'
        invariant
            cursor.vec@ == s,
            cursor.vec == old(cursor).vec,
            d == old(cursor).pos,
            d <= cursor.pos <= s.len(),
            d + digit_len(s, d as nat) == cursor.pos + digit_len(s, cursor.pos as nat),
            over == (digits_value(s.subrange(d as int, cursor.pos as int)) > i32::MAX),
            !over ==> acc == digits_value(s.subrange(d as int, cursor.pos as int)),
        decreases s.len() - cursor.pos,
    {
        let k = cursor.pos;
        assert(s.subrange(d as int, k + 1).drop_last() =~= s.subrange(d as int, k as int));
        let digit = (cursor.vec[k] as u32 - '0' as u32) as u64;
        if !over {
            acc = acc * 10 + digit;
            if acc > 0x7fff_ffff {
                over = true;
            }
        }
        cursor.pos = k + 1;
    }
    if over {
        None
    } else {
        Some(Token::Number(NumberValue::Integer(acc as i32)))
    }
}

/// Reads the operator character at the cursor.
pub fn get_operator(cursor: &mut CharCursor) -> (r: Token)
    requires
        old(cursor).pos < old(cursor).vec.len(),
        operator_of(old(cursor).vec@[old(cursor).pos as int]) is Some,
    ensures
        final(cursor).vec == old(cursor).vec,
        final(cursor).pos == old(cursor).pos + 1,
        r == Token::Operator(operator_of(old(cursor).vec@[old(cursor).pos as int])->Some_0),
{
    let c = cursor.vec[cursor.pos];
    cursor.pos = cursor.pos + 1;
    if c == '+' {
        Token::Operator(Operation::Add)
    } else if c == '-' {
        Token::Operator(Operation::Sub)
    } else if c == '*' {
        Token::Operator(Operation::Mul)
    } else {
        Token::Operator(Operation::Div)
    }
}

fn operator_char(c: char) -> (r: bool)
    ensures
        r == (operator_of(c) is Some),
{
    c == '+' || c == '-' || c == '*' || c == '/'
}

/// Reads the token at the cursor, if one starts there.
pub fn try_get_token(cursor: &mut CharCursor) -> (r: Option<Token>)
    requires
        old(cursor).well_formed(),
    ensures
        final(cursor).vec == old(cursor).vec,
        final(cursor).well_formed(),
        ({
            let s = old(cursor).vec@;
            let k = old(cursor).pos as nat;
            match token_here(s, k) {
                Some(t) => r == Some(t.0) && final(cursor).pos == t.1,
                None => r is None && final(cursor).pos == if k < s.len() && is_digit(s[k as int]) {
                    k + digit_len(s, k)
                } else {
                    k
                },
            }
        }),
{
    match cursor.peek() {
        Some(c) => {
            if operator_char(c) {
                Some(get_operator(cursor))
            } else if '0' <= c && c <= '9' {
                get_number(cursor)
            } else {
                None
            }
        },
        None => None,
    }
}

proof fn lemma_ws_settled(s: Seq<char>, i: nat)
    ensures
        ws_len(s, after_ws(s, i)) == 0,
    decreases s.len() - i,
{
    if i < s.len() && is_space(s[i as int]) {
        lemma_ws_settled(s, i + 1);
    }
}

/// Reads one token after optional whitespace. Returns it with the text
/// after it, or `None` with the whole input when no token starts there.
pub fn single_tokenize(scr: &str) -> (r: (Option<Token>, &str))
    ensures
        match token_at(scr@, 0) {
            Some(t) => r.0 == Some(t.0) && r.1@ == scr@.subrange(t.1 as int, scr@.len() as int),
            None => r.0 is None && r.1@ == scr@,
        },
{
    let mut cursor = CharCursor::from(scr);
    skip_whitespace(&mut cursor);
    proof {
        lemma_ws_settled(cursor.vec@, 0);
    }
    let token = try_get_token(&mut cursor);
    match token {
        Some(t) => (Some(t), scr.substring_char(cursor.pos, cursor.vec.len())),
        None => (None, scr),
    }
}

/// Reads tokens until none follows. The tokens come out last first (the
/// first token read is at the back); the text where reading stopped is
/// returned with them.
pub fn tokenize(scr: &str) -> (r: (VecDeque<Token>, &str))
    ensures
        ({
            let t = tokens_from(scr@, 0);
            &&& r.0@.len() == t.0.len()
            &&& forall|i: int| 0 <= i < t.0.len() ==> r.0@[i] == #[trigger] t.0[t.0.len() - 1 - i]
            &&& r.1@ == scr@.subrange(t.1 as int, scr@.len() as int)
        }),
{
    let mut cursor = CharCursor::from(scr);
    let mut ret: VecDeque<Token> = VecDeque::new();
    let ghost s = cursor.vec@;
    let ghost mut read: Seq<Token> = Seq::empty();
    loop
        invariant
            cursor.vec@ == s,
            s == scr@,
            cursor.well_formed(),
            tokens_from(s, 0).0 == read + tokens_from(s, cursor.pos as nat).0,
            tokens_from(s, 0).1 == tokens_from(s, cursor.pos as nat).1,
            ret@.len() == read.len(),
            forall|i: int| 0 <= i < read.len() ==> ret@[i] == #[trigger] read[read.len() - 1 - i],
        decreases s.len() - cursor.pos,
    {
        let save = cursor.pos;
        skip_whitespace(&mut cursor);
        proof {
            lemma_ws_settled(s, save as nat);
        }
        match try_get_token(&mut cursor) {
            Some(t) => {
                let ghost prev = ret@;
                let ghost prev_read = read;
                proof {
                    assert(token_at(s, save as nat) == Some((t, cursor.pos as nat)));
                    assert(tokens_from(s, save as nat).0 == seq![t] + tokens_from(
                        s,
                        cursor.pos as nat,
                    ).0);
                    assert(read + tokens_from(s, save as nat).0 =~= read.push(t) + tokens_from(
                        s,
                        cursor.pos as nat,
                    ).0);
                    read = read.push(t);
                }
                ret.push_front(t);
                assert forall|i: int| 0 <= i < read.len() implies ret@[i] == #[trigger] read[read.len()
                    - 1 - i] by {
                    if i > 0 {
                        assert(ret@[i] == prev[i - 1]);
                        assert(prev[i - 1] == prev_read[prev_read.len() - 1 - (i - 1)]);
                    }
                }
            },
            None => {
                cursor.pos = save;
                assert(read + tokens_from(s, save as nat).0 =~= read);
                let rest = scr.substring_char(save, cursor.vec.len());
                return (ret, rest);
            },
        }
    }
}

fn build_binary(operator: &Operation, stack: &mut Vec<Expression>) -> (r: bool)
    ensures
        r == (old(stack)@.len() >= 2),
        r ==> final(stack)@ == old(stack)@.subrange(0, old(stack)@.len() - 2).push(
            binary(
                old(stack)@[old(stack)@.len() - 2],
                old(stack)@[old(stack)@.len() - 1],
                *operator,
            ),
        ),
        !r ==> final(stack)@ == old(stack)@,
{
    if stack.len() >= 2 {
        let right = stack.pop().unwrap();
        let left = stack.pop().unwrap();
        let bin = BinaryOperation::new(left, right, *operator);
        stack.push(bin.to_expression());
        assert(stack@ =~= old(stack)@.subrange(0, old(stack)@.len() - 2).push(
            binary(
                old(stack)@[old(stack)@.len() - 2],
                old(stack)@[old(stack)@.len() - 1],
                *operator,
            ),
        ));
        true
    } else {
        false
    }
}

/// One step of evaluating reverse Polish notation. The next token is at the
/// back of `input`. A number is taken from the input and pushed onto the
/// stack as a leaf; an operator combines the two topmost trees of the stack
/// and stays in the input. Returns whether anything changed.
pub fn step_calc(input: &mut VecDeque<Token>, stack: &mut Vec<Expression>) -> (r: bool)
    ensures
        old(input)@.len() == 0 ==> !r && final(input)@ == old(input)@ && final(stack)@ == old(
            stack,
        )@,
        old(input)@.len() > 0 ==> match old(input)@.last() {
            Token::Number(n) => r && final(input)@ == old(input)@.drop_last() && final(stack)@
                == old(stack)@.push(Expression::Number(Number(n))),
            Token::Operator(op) => final(input)@ == old(input)@ && r == (old(stack)@.len() >= 2) && (
            r ==> final(stack)@ == old(stack)@.subrange(0, old(stack)@.len() - 2).push(
                binary(old(stack)@[old(stack)@.len() - 2], old(stack)@[old(stack)@.len() - 1], op),
            )) && (!r ==> final(stack)@ == old(stack)@),
        },
{
    if input.len() > 0 {
        let current = input[input.len() - 1];
        match current {
            Token::Number(num) => {
                stack.push(Expression::Number(Number(num)));
                input.pop_back();
                assert(input@ =~= old(input)@.drop_last());
                true
            },
            Token::Operator(op) => build_binary(&op, stack),
        }
    } else {
        false
    }
}

/// How a token is written: a number in decimal, an operator as its symbol.
pub open spec fn token_text(t: Token) -> Seq<char> {
    match t {
        Token::Number(n) => int_text(n.value() as int),
        Token::Operator(op) => operator_label(op),
    }
}

/// The last `k` tokens written back to front (the last token first), one
/// space between two of them.
pub open spec fn joined_back(ts: Seq<Token>, k: nat) -> Seq<char>
    decreases k,
{
    if k == 0 {
        Seq::empty()
    } else if k == 1 {
        token_text(ts[ts.len() - 1])
    } else {
        joined_back(ts, (k - 1) as nat) + " "@ + token_text(ts[ts.len() - k])
    }
}

fn push_token(buffer: &mut String, token: &Token)
    ensures
        final(buffer)@ == old(buffer)@ + token_text(*token),
{
    match token {
        Token::Number(NumberValue::Integer(i)) => push_int(buffer, *i),
        Token::Operator(op) => match op {
            Operation::Add => buffer.append("+"),
            Operation::Sub => buffer.append("-"),
            Operation::Mul => buffer.append("*"),
            Operation::Div => buffer.append("/"),
        },
    }
}

/// Writes a token queue as reverse Polish text. The queue holds the first
/// token at its back (as `tokenize` leaves it), so the text starts there.
pub fn token_to_string(scr: &VecDeque<Token>) -> (r: String)
    ensures
        r@ == joined_back(scr@, scr@.len()),
{
    let mut buff = String::new();
    let n = scr.len();
    let mut k: usize = 0;
    while k < n
        invariant
            n == scr@.len(),
            k <= n,
            buff@ == joined_back(scr@, k as nat),
        decreases n - k,
    {
        if k > 0 {
            buff.append(" ");
        }
        push_token(&mut buff, &scr[n - 1 - k]);
        k = k + 1;
        assert(buff@ =~= joined_back(scr@, k as nat));
    }
    buff
}

} // verus!
