use vstd::prelude::*;

use crate::number_value::{
    div_i32, div_zero_failure, div_zero_message, outcome, ArithmeticError, NumberResult, NumberValue,
};

verus! {

/// The four binary operators. `Add` and `Sub` are additive (they bind
/// loosest); `Mul` and `Div` are multiplicative.
#[derive(Clone, Copy, PartialEq, Eq, Structural, Debug)]
pub enum Operation {
    Add,
    Sub,
    Mul,
    Div,
}

/// A leaf of the tree: a number.
pub struct Number(pub NumberValue);

/// A grouping node. It changes how the tree is shown, never its value.
pub struct Bracket(pub Box<Expression>);

/// An operator applied to two sub-trees.
pub struct BinaryOperation {
    pub left: Box<Expression>,
    pub right: Box<Expression>,
    pub operation: Operation,
}

/// An expression tree. Each node owns its children.
pub enum Expression {
    Number(Number),
    Bracket(Bracket),
    BinaryOperation(BinaryOperation),
}

/// A number leaf holding `v`.
pub open spec fn leaf(v: i32) -> Expression {
    Expression::Number(Number(NumberValue::Integer(v)))
}

pub open spec fn binary(l: Expression, r: Expression, op: Operation) -> Expression {
    Expression::BinaryOperation(BinaryOperation { left: Box::new(l), right: Box::new(r), operation: op })
}

pub open spec fn bracket(inner: Expression) -> Expression {
    Expression::Bracket(Bracket(Box::new(inner)))
}

/// Applies `op` to two values: wrapping `+ - *`, truncating `/`, which fails
/// with both operands when the divisor is zero.
pub open spec fn apply(op: Operation, l: i32, r: i32) -> Result<i32, (i32, i32)> {
    match op {
        Operation::Add => Ok(l.wrapping_add(r)),
        Operation::Sub => Ok(l.wrapping_sub(r)),
        Operation::Mul => Ok(l.wrapping_mul(r)),
        Operation::Div => if r == 0 {
            Err((l, r))
        } else {
            Ok(div_i32(l, r))
        },
    }
}

/// The value of a tree: brackets are transparent, the left operand is
/// evaluated before the right one, and the first failure is the result.
pub open spec fn eval(e: Expression) -> Result<i32, (i32, i32)>
    decreases e,
{
    match e {
        Expression::Number(n) => Ok(n.0.value()),
        Expression::Bracket(b) => eval(*b.0),
        Expression::BinaryOperation(b) => match eval(*b.left) {
            Err(f) => Err(f),
            Ok(l) => match eval(*b.right) {
                Err(f) => Err(f),
                Ok(r) => apply(b.operation, l, r),
            },
        },
    }
}

/// The tree with every bracket node replaced by what it holds.
pub open spec fn erase(e: Expression) -> Expression
    decreases e,
{
    match e {
        Expression::Number(n) => e,
        Expression::Bracket(b) => erase(*b.0),
        Expression::BinaryOperation(b) => binary(erase(*b.left), erase(*b.right), b.operation),
    }
}

/// One reduction step: a number cannot progress; a bracket is popped; an
/// operation steps its left operand if it can, else its right operand, else
/// it is replaced by its value. A failure of that value (a division by zero)
/// is the step's failure.
pub open spec fn step(e: Expression) -> Result<(Expression, bool), (i32, i32)>
    decreases e,
{
    match e {
        Expression::Number(n) => Ok((e, false)),
        Expression::Bracket(b) => Ok((*b.0, true)),
        Expression::BinaryOperation(b) => match step(*b.left) {
            Err(f) => Err(f),
            Ok(sl) => if sl.1 {
                Ok((binary(sl.0, *b.right, b.operation), true))
            } else {
                match step(*b.right) {
                    Err(f) => Err(f),
                    Ok(sr) => if sr.1 {
                        Ok((binary(*b.left, sr.0, b.operation), true))
                    } else {
                        match eval(e) {
                            Ok(v) => Ok((leaf(v), true)),
                            Err(f) => Err(f),
                        }
                    },
                }
            },
        },
    }
}

/// What a step result says, as plain values.
pub open spec fn step_outcome(r: StepResult) -> Result<(Expression, bool), (i32, i32)> {
    match r {
        Ok(x) => Ok(x),
        Err(f) => Err((f@.lhs.value(), f@.rhs.value())),
    }
}

pub type StepResult = Result<(Expression, bool), ArithmeticError>;

/// The number of nodes of a tree.
pub open spec fn size(e: Expression) -> nat
    decreases e,
{
    match e {
        Expression::Number(_) => 1,
        Expression::Bracket(b) => 1 + size(*b.0),
        Expression::BinaryOperation(b) => 1 + size(*b.left) + size(*b.right),
    }
}

/// The tree that repeated reduction steps lead to: steps are taken while
/// they make progress (each one shrinks the tree).
pub open spec fn reduce(e: Expression) -> Expression
    decreases size(e),
{
    match step(e) {
        Ok(s) => if s.1 && size(s.0) < size(e) {
            reduce(s.0)
        } else {
            e
        },
        Err(_) => e,
    }
}

/// On a tree whose evaluation succeeds, a step is always defined, keeps the
/// value, and makes progress exactly when the tree is not a number; a
/// progressing step removes at least one node, and a tree that cannot
/// progress is the number leaf holding its value.
pub proof fn lemma_step_progress(e: Expression)
    requires
        eval(e) is Ok,
    ensures
        step(e) is Ok,
        eval(step(e)->Ok_0.0) == eval(e),
        step(e)->Ok_0.1 <==> !(e is Number),
        step(e)->Ok_0.1 ==> size(step(e)->Ok_0.0) < size(e),
        !step(e)->Ok_0.1 ==> e == leaf(eval(e)->Ok_0),
    decreases e,
{
    match e {
        Expression::Number(_) => {},
        Expression::Bracket(b) => {},
        Expression::BinaryOperation(b) => {
            lemma_step_progress(*b.left);
            lemma_step_progress(*b.right);
        },
    }
}

/// Stepping a tree whose evaluation succeeds until no step makes progress
/// ends in the number leaf holding the tree's value, on which a further step
/// makes no progress.
pub proof fn lemma_step_reduction_terminates(e: Expression)
    requires
        eval(e) is Ok,
    ensures
        reduce(e) == leaf(eval(e)->Ok_0),
        step(reduce(e)) == Ok::<(Expression, bool), (i32, i32)>((reduce(e), false)),
    decreases size(e),
{
    lemma_step_progress(e);
    let s = step(e)->Ok_0;
    if s.1 {
        lemma_step_reduction_terminates(s.0);
    }
}

/// What the nodes of an expression tree have in common.
pub trait ArithmeticExpression: Sized {
    /// The tree that this node stands for.
    spec fn as_expression(&self) -> Expression;

    /// Evaluates the tree.
    fn calc(&self) -> (r: NumberResult)
        ensures
            outcome(r) == eval(self.as_expression()),
            div_zero_failure(r),
    ;

    /// The node as an `Expression`.
    fn to_expression(self) -> (r: Expression)
        ensures
            r == self.as_expression(),
    ;

    /// A copy of the tree as an `Expression`.
    fn clone_expression(&self) -> (r: Expression)
        ensures
            r == self.as_expression(),
    ;

    /// The tree with every bracket removed.
    fn simplify(&self) -> (r: Expression)
        ensures
            r == erase(self.as_expression()),
    ;

    /// Performs one reduction step and says whether it made progress; fails
    /// when the value that the step computes is a division by zero.
    fn step_calc(&self) -> (r: StepResult)
        ensures
            step_outcome(r) == step(self.as_expression()),
            r is Err ==> r->Err_0@.message == div_zero_message(),
    ;
}

fn copy_expression(e: &Expression) -> (r: Expression)
    ensures
        r == *e,
    decreases e,
{
    match e {
        Expression::Number(n) => Expression::Number(Number(n.0)),
        Expression::Bracket(b) => Expression::Bracket(Bracket(Box::new(copy_expression(&b.0)))),
        Expression::BinaryOperation(b) => Expression::BinaryOperation(
            BinaryOperation {
                left: Box::new(copy_expression(&b.left)),
                right: Box::new(copy_expression(&b.right)),
                operation: b.operation,
            },
        ),
    }
}

fn apply_operation(op: Operation, left: NumberValue, right: NumberValue) -> (r: NumberResult)
    ensures
        outcome(r) == apply(op, left.value(), right.value()),
        div_zero_failure(r),
{
    match op {
        Operation::Add => left.add(right),
        Operation::Sub => left.sub(right),
        Operation::Mul => left.mul(right),
        Operation::Div => left.div(right),
    }
}

fn calc_expression(e: &Expression) -> (r: NumberResult)
    ensures
        outcome(r) == eval(*e),
        div_zero_failure(r),
    decreases e,
{
    match e {
        Expression::Number(n) => Ok(n.0),
        Expression::Bracket(b) => calc_expression(&b.0),
        Expression::BinaryOperation(b) => {
            let left = match calc_expression(&b.left) {
                Ok(v) => v,
                Err(f) => return Err(f),
            };
            let right = match calc_expression(&b.right) {
                Ok(v) => v,
                Err(f) => return Err(f),
            };
            apply_operation(b.operation, left, right)
        },
    }
}

fn simplify_expression(e: &Expression) -> (r: Expression)
    ensures
        r == erase(*e),
    decreases e,
{
    match e {
        Expression::Number(n) => Expression::Number(Number(n.0)),
        Expression::Bracket(b) => simplify_expression(&b.0),
        Expression::BinaryOperation(b) => Expression::BinaryOperation(
            BinaryOperation {
                left: Box::new(simplify_expression(&b.left)),
                right: Box::new(simplify_expression(&b.right)),
                operation: b.operation,
            },
        ),
    }
}

fn step_expression(e: &Expression) -> (r: StepResult)
    ensures
        step_outcome(r) == step(*e),
        r is Err ==> r->Err_0@.message == div_zero_message(),
    decreases e,
{
    match e {
        Expression::Number(n) => Ok((Expression::Number(Number(n.0)), false)),
        Expression::Bracket(b) => Ok((copy_expression(&b.0), true)),
        Expression::BinaryOperation(b) => {
            let sl = match step_expression(&b.left) {
                Ok(x) => x,
                Err(f) => return Err(f),
            };
            if sl.1 {
                return Ok(
                    (
                        Expression::BinaryOperation(
                            BinaryOperation {
                                left: Box::new(sl.0),
                                right: Box::new(copy_expression(&b.right)),
                                operation: b.operation,
                            },
                        ),
                        true,
                    ),
                );
            }
            let sr = match step_expression(&b.right) {
                Ok(x) => x,
                Err(f) => return Err(f),
            };
            if sr.1 {
                return Ok(
                    (
                        Expression::BinaryOperation(
                            BinaryOperation {
                                left: Box::new(copy_expression(&b.left)),
                                right: Box::new(sr.0),
                                operation: b.operation,
                            },
                        ),
                        true,
                    ),
                );
            }
            match calc_expression(e) {
                Ok(v) => Ok((Expression::Number(Number(v)), true)),
                Err(f) => Err(f),
            }
        },
    }
}

impl Clone for Expression {
    fn clone(&self) -> (r: Self)
        ensures
            r == *self,
    {
        copy_expression(self)
    }
}

impl Clone for Number {
    fn clone(&self) -> (r: Self)
        ensures
            r == *self,
    {
        Number(self.0)
    }
}

impl Clone for Bracket {
    fn clone(&self) -> (r: Self)
        ensures
            r == *self,
    {
        Bracket(Box::new(copy_expression(&self.0)))
    }
}

impl Clone for BinaryOperation {
    fn clone(&self) -> (r: Self)
        ensures
            r == *self,
    {
        BinaryOperation {
            left: Box::new(copy_expression(&self.left)),
            right: Box::new(copy_expression(&self.right)),
            operation: self.operation,
        }
    }
}

impl ArithmeticExpression for Expression {
    open spec fn as_expression(&self) -> Expression {
        *self
    }

    fn calc(&self) -> (r: NumberResult) {
        calc_expression(self)
    }

    fn to_expression(self) -> (r: Expression) {
        self
    }

    fn clone_expression(&self) -> (r: Expression) {
        copy_expression(self)
    }

    fn simplify(&self) -> (r: Expression) {
        simplify_expression(self)
    }

    fn step_calc(&self) -> (r: StepResult) {
        step_expression(self)
    }
}

impl ArithmeticExpression for Number {
    open spec fn as_expression(&self) -> Expression {
        Expression::Number(*self)
    }

    fn calc(&self) -> (r: NumberResult) {
        Ok(self.0)
    }

    fn to_expression(self) -> (r: Expression) {
        Expression::Number(self)
    }

    fn clone_expression(&self) -> (r: Expression) {
        Expression::Number(Number(self.0))
    }

    fn simplify(&self) -> (r: Expression) {
        Expression::Number(Number(self.0))
    }

    fn step_calc(&self) -> (r: StepResult) {
        Ok((Expression::Number(Number(self.0)), false))
    }
}

impl ArithmeticExpression for Bracket {
    open spec fn as_expression(&self) -> Expression {
        Expression::Bracket(*self)
    }

    fn calc(&self) -> (r: NumberResult) {
        calc_expression(&self.0)
    }

    fn to_expression(self) -> (r: Expression) {
        Expression::Bracket(self)
    }

    fn clone_expression(&self) -> (r: Expression) {
        Expression::Bracket(Bracket(Box::new(copy_expression(&self.0))))
    }

    fn simplify(&self) -> (r: Expression) {
        simplify_expression(&self.0)
    }

    fn step_calc(&self) -> (r: StepResult) {
        Ok((copy_expression(&self.0), true))
    }
}

impl ArithmeticExpression for BinaryOperation {
    open spec fn as_expression(&self) -> Expression {
        Expression::BinaryOperation(*self)
    }

    fn calc(&self) -> (r: NumberResult) {
        let left = match calc_expression(&self.left) {
            Ok(v) => v,
            Err(f) => return Err(f),
        };
        let right = match calc_expression(&self.right) {
            Ok(v) => v,
            Err(f) => return Err(f),
        };
        apply_operation(self.operation, left, right)
    }

    fn to_expression(self) -> (r: Expression) {
        Expression::BinaryOperation(self)
    }

    fn clone_expression(&self) -> (r: Expression) {
        Expression::BinaryOperation(self.clone())
    }

    fn simplify(&self) -> (r: Expression) {
        let left = simplify_expression(&self.left);
        let right = simplify_expression(&self.right);
        BinaryOperation::new(left, right, self.operation).to_expression()
    }

    fn step_calc(&self) -> (r: StepResult) {
        let e = Expression::BinaryOperation(self.clone());
        step_expression(&e)
    }
}

impl BinaryOperation {
    pub fn new<L: ArithmeticExpression, R: ArithmeticExpression>(
        left: L,
        right: R,
        operation: Operation,
    ) -> (r: Self)
        ensures
            *r.left == left.as_expression(),
            *r.right == right.as_expression(),
            r.operation == operation,
    {
        BinaryOperation {
            left: Box::new(left.to_expression()),
            right: Box::new(right.to_expression()),
            operation,
        }
    }

    pub fn left(&self) -> (r: &Expression)
        ensures
            *r == *self.left,
    {
        &self.left
    }

    pub fn right(&self) -> (r: &Expression)
        ensures
            *r == *self.right,
    {
        &self.right
    }

    pub fn operation(&self) -> (r: &Operation)
        ensures
            *r == self.operation,
    {
        &self.operation
    }
}

impl Bracket {
    pub fn expression(&self) -> (r: &Expression)
        ensures
            *r == *self.0,
    {
        &self.0
    }
}

impl Number {
    pub fn number(&self) -> (r: &NumberValue)
        ensures
            *r == self.0,
    {
        &self.0
    }
}

impl From<NumberValue> for Number {
    fn from(value: NumberValue) -> (r: Self)
        ensures
            r == Number(value),
    {
        Number(value)
    }
}

impl vstd::std_specs::convert::FromSpecImpl<NumberValue> for Number {
    open spec fn obeys_from_spec() -> bool {
        true
    }

    open spec fn from_spec(v: NumberValue) -> Self {
        Number(v)
    }
}

impl From<Expression> for Bracket {
    fn from(value: Expression) -> (r: Self)
        ensures
            *r.0 == value,
    {
        Bracket(Box::new(value))
    }
}

impl vstd::std_specs::convert::FromSpecImpl<Expression> for Bracket {
    open spec fn obeys_from_spec() -> bool {
        true
    }

    open spec fn from_spec(v: Expression) -> Self {
        Bracket(Box::new(v))
    }
}

impl From<Number> for Expression {
    fn from(value: Number) -> (r: Self)
        ensures
            r == Expression::Number(value),
    {
        Expression::Number(value)
    }
}

impl vstd::std_specs::convert::FromSpecImpl<Number> for Expression {
    open spec fn obeys_from_spec() -> bool {
        true
    }

    open spec fn from_spec(v: Number) -> Self {
        Expression::Number(v)
    }
}

impl From<Bracket> for Expression {
    fn from(value: Bracket) -> (r: Self)
        ensures
            r == Expression::Bracket(value),
    {
        Expression::Bracket(value)
    }
}

impl vstd::std_specs::convert::FromSpecImpl<Bracket> for Expression {
    open spec fn obeys_from_spec() -> bool {
        true
    }

    open spec fn from_spec(v: Bracket) -> Self {
        Expression::Bracket(v)
    }
}

impl From<BinaryOperation> for Expression {
    fn from(value: BinaryOperation) -> (r: Self)
        ensures
            r == Expression::BinaryOperation(value),
    {
        Expression::BinaryOperation(value)
    }
}

impl vstd::std_specs::convert::FromSpecImpl<BinaryOperation> for Expression {
    open spec fn obeys_from_spec() -> bool {
        true
    }

    open spec fn from_spec(v: BinaryOperation) -> Self {
        Expression::BinaryOperation(v)
    }
}

} // verus!
