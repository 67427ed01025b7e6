use vstd::prelude::*;
use vstd::string::*;

use crate::expression::{size, BinaryOperation, Bracket, Expression, Number, Operation};
use crate::text::{int_text, push_int};

verus! {

/// An operator with one space on each side, ` + `.
pub open spec fn operator_text(op: Operation) -> Seq<char> {
    match op {
        Operation::Add => " + "@,
        Operation::Sub => " - "@,
        Operation::Mul => " * "@,
        Operation::Div => " / "@,
    }
}

pub open spec fn is_additive_op(op: Operation) -> bool {
    op == Operation::Add || op == Operation::Sub
}

/// Whether an operation under `parent` needs braces in the minimal form:
/// never at the root or under an additive parent, always under a division,
/// and under a multiplication only when the operation is additive.
pub open spec fn needs_braces(op: Operation, parent: Option<Operation>) -> bool {
    match parent {
        None => false,
        Some(p) => if p == Operation::Div {
            true
        } else if is_additive_op(p) {
            false
        } else {
            is_additive_op(op)
        },
    }
}

/// Fully braced text: every operation and every bracket node is wrapped in
/// `{` `}`, numbers are written as they are.
pub open spec fn strict_text(e: Expression) -> Seq<char>
    decreases e,
{
    match e {
        Expression::Number(n) => int_text(n.0.value() as int),
        Expression::Bracket(b) => "{"@ + strict_text(*b.0) + "}"@,
        Expression::BinaryOperation(b) => "{"@ + strict_text(*b.left) + operator_text(b.operation)
            + strict_text(*b.right) + "}"@,
    }
}

/// Text with braces only where `needs_braces` asks for them; bracket nodes
/// are transparent and pass the parent operator on.
pub open spec fn minimal_text(e: Expression, parent: Option<Operation>) -> Seq<char>
    decreases e,
{
    match e {
        Expression::Number(n) => int_text(n.0.value() as int),
        Expression::Bracket(b) => minimal_text(*b.0, parent),
        Expression::BinaryOperation(b) => {
            let body = minimal_text(*b.left, Some(b.operation)) + operator_text(b.operation)
                + minimal_text(*b.right, Some(b.operation));
            if needs_braces(b.operation, parent) {
                "{"@ + body + "}"@
            } else {
                body
            }
        },
    }
}

fn write_operator(operator: &Operation, buffer: &mut String)
    ensures
        final(buffer)@ == old(buffer)@ + operator_text(*operator),
{
    match operator {
        Operation::Add => buffer.append(" + "),
        Operation::Sub => buffer.append(" - "),
        Operation::Mul => buffer.append(" * "),
        Operation::Div => buffer.append(" / "),
    }
}

fn is_additive(operator: &Operation) -> (r: bool)
    ensures
        r == is_additive_op(*operator),
{
    match operator {
        Operation::Add => true,
        Operation::Sub => true,
        Operation::Mul => false,
        Operation::Div => false,
    }
}

/// Whether `expr` needs braces in the minimal form when its parent operator
/// is `parent`.
pub fn require(expr: &BinaryOperation, parent: &Option<&Operation>) -> (r: bool)
    ensures
        r == needs_braces(
            expr.operation,
            match *parent {
                Some(p) => Some(*p),
                None => None,
            },
        ),
{
    match parent {
        None => false,
        Some(p) => {
            if let Operation::Div = p {
                true
            } else if is_additive(p) {
                false
            } else {
                is_additive(expr.operation())
            }
        },
    }
}

fn minimal_expression(expr: &Expression, parent: &Option<&Operation>, buffer: &mut String)
    ensures
        final(buffer)@ == old(buffer)@ + minimal_text(
            *expr,
            match *parent {
                Some(p) => Some(*p),
                None => None,
            },
        ),
    decreases size(*expr), 1nat,
{
    match expr {
        Expression::Number(num) => minimal_number(num, buffer),
        Expression::Bracket(bracket) => minimal_bracket(bracket, parent, buffer),
        Expression::BinaryOperation(bin) => minimal_binary_op(bin, parent, buffer),
    }
}

fn minimal_binary_op(expr: &BinaryOperation, parent: &Option<&Operation>, buffer: &mut String)
    ensures
        final(buffer)@ == old(buffer)@ + minimal_text(
            Expression::BinaryOperation(*expr),
            match *parent {
                Some(p) => Some(*p),
                None => None,
            },
        ),
    decreases size(Expression::BinaryOperation(*expr)), 0nat,
{
    let braces = require(expr, parent);
    if braces {
        buffer.append("{");
    }
    let ghost before = buffer@;
    minimal_expression(expr.left(), &Some(expr.operation()), buffer);
    write_operator(expr.operation(), buffer);
    minimal_expression(expr.right(), &Some(expr.operation()), buffer);
    let ghost body = minimal_text(*expr.left, Some(expr.operation)) + operator_text(expr.operation)
        + minimal_text(*expr.right, Some(expr.operation));
    assert(buffer@ =~= before + body);
    if braces {
        buffer.append("}");
    }
    assert(final(buffer)@ =~= old(buffer)@ + minimal_text(
        Expression::BinaryOperation(*expr),
        match *parent {
            Some(p) => Some(*p),
            None => None,
        },
    ));
}

fn minimal_bracket(expr: &Bracket, parent: &Option<&Operation>, buffer: &mut String)
    ensures
        final(buffer)@ == old(buffer)@ + minimal_text(
            Expression::Bracket(*expr),
            match *parent {
                Some(p) => Some(*p),
                None => None,
            },
        ),
    decreases size(Expression::Bracket(*expr)), 0nat,
{
    minimal_expression(expr.expression(), parent, buffer)
}

fn minimal_number(expr: &Number, buffer: &mut String)
    ensures
        final(buffer)@ == old(buffer)@ + int_text(expr.0.value() as int),
{
    match expr.number() {
        crate::number_value::NumberValue::Integer(value) => push_int(buffer, *value),
    }
}

/// The tree as text with as few braces as its shape allows.
pub fn minimal_infix_notation(expr: &Expression) -> (r: String)
    ensures
        r@ == minimal_text(*expr, None),
{
    let mut buff = String::new();
    minimal_expression(expr, &None, &mut buff);
    assert(buff@ =~= minimal_text(*expr, None));
    buff
}

fn strict_expression(expr: &Expression, buffer: &mut String)
    ensures
        final(buffer)@ == old(buffer)@ + strict_text(*expr),
    decreases expr,
{
    match expr {
        Expression::Number(num) => minimal_number(num, buffer),
        Expression::Bracket(bracket) => {
            buffer.append("{");
            strict_expression(bracket.expression(), buffer);
            buffer.append("}");
            assert(final(buffer)@ =~= old(buffer)@ + strict_text(*expr));
        },
        Expression::BinaryOperation(bin) => {
            buffer.append("{");
            strict_expression(bin.left(), buffer);
            write_operator(bin.operation(), buffer);
            strict_expression(bin.right(), buffer);
            buffer.append("}");
            assert(final(buffer)@ =~= old(buffer)@ + strict_text(*expr));
        },
    }
}

/// The tree as fully braced text.
pub fn strict_infix_expression(expr: &Expression) -> (r: String)
    ensures
        r@ == strict_text(*expr),
{
    let mut buff = String::new();
    strict_expression(expr, &mut buff);
    assert(buff@ =~= strict_text(*expr));
    buff
}

} // verus!
