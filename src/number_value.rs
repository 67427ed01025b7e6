use vstd::prelude::*;
use vstd::string::*;

use crate::text::{int_text, push_int};

verus! {

/// The message carried by every division (or remainder) by zero.
pub open spec fn div_zero_message() -> Seq<char> {
    "DIV/0!"@
}

/// A signed 32-bit value. Addition, subtraction and multiplication wrap on
/// overflow; division and remainder truncate toward zero and fail on a zero
/// divisor.
#[derive(PartialEq, Eq, Structural, Clone, Copy, Debug)]
pub enum NumberValue {
    Integer(i32),
}

impl NumberValue {
    pub open spec fn value(self) -> i32 {
        match self {
            NumberValue::Integer(i) => i,
        }
    }
}

/// Quotient of `a / b` rounded toward zero (`b != 0`).
pub open spec fn trunc_div(a: int, b: int) -> int {
    let q: int = abs(a) as int / abs(b) as int;
    if (a < 0) == (b < 0) {
        q
    } else {
        -q
    }
}

/// Remainder that goes with `trunc_div`: it has the sign of `a`.
pub open spec fn trunc_rem(a: int, b: int) -> int {
    let m: int = abs(a) as int % abs(b) as int;
    if a < 0 {
        -m
    } else {
        m
    }
}

/// `i32` division as the hardware does it: toward zero, and the one
/// overflowing quotient (`i32::MIN / -1`) wraps back to `i32::MIN`.
pub open spec fn div_i32(a: i32, b: i32) -> i32 {
    if a == i32::MIN && b == -1 {
        i32::MIN
    } else {
        trunc_div(a as int, b as int) as i32
    }
}

pub open spec fn abs(x: int) -> nat {
    if x < 0 {
        (-x) as nat
    } else {
        x as nat
    }
}

pub struct ArithmeticErrorView {
    pub lhs: NumberValue,
    pub rhs: NumberValue,
    pub message: Seq<char>,
}

/// A failed arithmetic operation, with both operands kept for display.
#[derive(Debug)]
pub struct ArithmeticError {
    rhs: NumberValue,
    lhs: NumberValue,
    message: String,
}

impl View for ArithmeticError {
    type V = ArithmeticErrorView;

    closed spec fn view(&self) -> ArithmeticErrorView {
        ArithmeticErrorView { lhs: self.lhs, rhs: self.rhs, message: self.message@ }
    }
}

pub type NumberResult = Result<NumberValue, ArithmeticError>;

/// What a `NumberResult` says, as plain values: the number, or the operands
/// of the failed operation.
pub open spec fn outcome(r: NumberResult) -> Result<i32, (i32, i32)> {
    match r {
        Ok(v) => Ok(v.value()),
        Err(e) => Err((e@.lhs.value(), e@.rhs.value())),
    }
}

/// Every failure that arithmetic produces carries the division-by-zero message.
pub open spec fn div_zero_failure(r: NumberResult) -> bool {
    r is Err ==> r->Err_0@.message == div_zero_message()
}

impl ArithmeticError {
    pub fn new(lhs: &NumberValue, rhs: &NumberValue, message: &str) -> (r: Self)
        ensures
            r@.lhs == *lhs,
            r@.rhs == *rhs,
            r@.message == message@,
    {
        ArithmeticError { rhs: *rhs, lhs: *lhs, message: String::from_str(message) }
    }

    pub fn rhs(&self) -> (r: &NumberValue)
        ensures
            *r == self@.rhs,
    {
        &self.rhs
    }

    pub fn lhs(&self) -> (r: &NumberValue)
        ensures
            *r == self@.lhs,
    {
        &self.lhs
    }

    pub fn message(&self) -> (r: &str)
        ensures
            r@ == self@.message,
    {
        self.message.as_str()
    }
}

impl NumberValue {
    pub(crate) fn integer(self) -> (r: i32)
        ensures
            r == self.value(),
    {
        match self {
            NumberValue::Integer(i) => i,
        }
    }

    pub fn add(self, rhs: NumberValue) -> (r: NumberResult)
        ensures
            outcome(r) == Ok::<i32, (i32, i32)>(self.value().wrapping_add(rhs.value())),
    {
        Ok(NumberValue::Integer(self.integer().wrapping_add(rhs.integer())))
    }

    pub fn sub(self, rhs: NumberValue) -> (r: NumberResult)
        ensures
            outcome(r) == Ok::<i32, (i32, i32)>(self.value().wrapping_sub(rhs.value())),
    {
        Ok(NumberValue::Integer(self.integer().wrapping_sub(rhs.integer())))
    }

    pub fn mul(self, rhs: NumberValue) -> (r: NumberResult)
        ensures
            outcome(r) == Ok::<i32, (i32, i32)>(self.value().wrapping_mul(rhs.value())),
    {
        Ok(NumberValue::Integer(self.integer().wrapping_mul(rhs.integer())))
    }

    pub fn div(self, rhs: NumberValue) -> (r: NumberResult)
        ensures
            rhs.value() == 0 ==> outcome(r) == Err::<i32, (i32, i32)>((self.value(), 0i32)),
            rhs.value() != 0 ==> outcome(r) == Ok::<i32, (i32, i32)>(
                div_i32(self.value(), rhs.value()),
            ),
            div_zero_failure(r),
    {
        let l = self.integer();
        let d = rhs.integer();
        if d == 0 {
            return Err(ArithmeticError::new(&self, &rhs, "DIV/0!"));
        }
        if l == i32::MIN && d == -1 {
            return Ok(NumberValue::Integer(i32::MIN));
        }
        let a: i64 = l as i64;
        let b: i64 = d as i64;
        let ua: i64 = if a < 0 { -a } else { a };
        let ub: i64 = if b < 0 { -b } else { b };
        let q: i64 = ua / ub;
        assert(q <= ua && (ub == 1 ==> q == ua) && (ub >= 2 ==> 2 * q <= ua)) by (nonlinear_arith)
            requires ua >= 0, ub >= 1, q == ua / ub;
        let s: i64 = if (a < 0) == (b < 0) { q } else { -q };
        assert(s == trunc_div(l as int, d as int));
        assert(i32::MIN <= s <= i32::MAX);
        Ok(NumberValue::Integer(s as i32))
    }

    pub fn rem(self, rhs: NumberValue) -> (r: NumberResult)
        ensures
            rhs.value() == 0 ==> outcome(r) == Err::<i32, (i32, i32)>((self.value(), 0i32)),
            rhs.value() != 0 ==> outcome(r) == Ok::<i32, (i32, i32)>(
                trunc_rem(self.value() as int, rhs.value() as int) as i32,
            ),
            div_zero_failure(r),
    {
        let l = self.integer();
        let d = rhs.integer();
        if d == 0 {
            return Err(ArithmeticError::new(&self, &rhs, "DIV/0!"));
        }
        let a: i64 = l as i64;
        let b: i64 = d as i64;
        let ua: i64 = if a < 0 { -a } else { a };
        let ub: i64 = if b < 0 { -b } else { b };
        let m: i64 = ua % ub;
        assert(0 <= m < ub) by (nonlinear_arith)
            requires ua >= 0, ub >= 1, m == ua % ub;
        let s: i64 = if a < 0 { -m } else { m };
        assert(s == trunc_rem(l as int, d as int));
        Ok(NumberValue::Integer(s as i32))
    }
}

/// How a value is shown: its decimal text followed by its type, `100i32`.
pub open spec fn value_text(v: NumberValue) -> Seq<char> {
    int_text(v.value() as int) + "i32"@
}

/// How a failure is shown: `lhs:<L> rhs:<R> msg:<M>`.
pub open spec fn error_text(e: ArithmeticErrorView) -> Seq<char> {
    "lhs:"@ + value_text(e.lhs) + " rhs:"@ + value_text(e.rhs) + " msg:"@ + e.message
}

impl NumberValue {
    fn push_text(&self, buffer: &mut String)
        ensures
            final(buffer)@ == old(buffer)@ + value_text(*self),
    {
        push_int(buffer, self.integer());
        buffer.append("i32");
        assert(final(buffer)@ =~= old(buffer)@ + value_text(*self));
    }

    /// The value as text, `100i32`.
    pub fn to_string(&self) -> (r: String)
        ensures
            r@ == value_text(*self),
    {
        let mut buffer = String::new();
        self.push_text(&mut buffer);
        assert(buffer@ =~= value_text(*self));
        buffer
    }
}

impl ArithmeticError {
    /// The failure as text, `lhs:100i32 rhs:0i32 msg:DIV/0!`.
    pub fn to_string(&self) -> (r: String)
        ensures
            r@ == error_text(self@),
    {
        let mut buffer = String::new();
        buffer.append("lhs:");
        self.lhs.push_text(&mut buffer);
        buffer.append(" rhs:");
        self.rhs.push_text(&mut buffer);
        buffer.append(" msg:");
        buffer.append(self.message.as_str());
        assert(buffer@ =~= error_text(self@));
        buffer
    }
}

impl From<i32> for NumberValue {
    fn from(value: i32) -> (r: Self)
        ensures
            r == NumberValue::Integer(value),
    {
        NumberValue::Integer(value)
    }
}

impl vstd::std_specs::convert::FromSpecImpl<i32> for NumberValue {
    open spec fn obeys_from_spec() -> bool {
        true
    }

    open spec fn from_spec(v: i32) -> Self {
        NumberValue::Integer(v)
    }
}

} // verus!
