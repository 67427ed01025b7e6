use vstd::prelude::*;
use vstd::string::*;

use crate::expression::{Expression, Operation};
use crate::text::{int_text, push_int};

verus! {

pub open spec fn operator_char_text(op: Operation) -> Seq<char> {
    match op {
        Operation::Add => "+"@,
        Operation::Sub => "-"@,
        Operation::Mul => "*"@,
        Operation::Div => "/"@,
    }
}

/// Spaced-out text in which each token is preceded by a space, operations
/// are wrapped in `(` `)` and bracket nodes in `{` `}`.
pub open spec fn spaced_text(e: Expression) -> Seq<char>
    decreases e,
{
    match e {
        Expression::Number(n) => " "@ + int_text(n.0.value() as int),
        Expression::Bracket(b) => " {"@ + spaced_text(*b.0) + " }"@,
        Expression::BinaryOperation(b) => " ("@ + spaced_text(*b.left) + " "@ + operator_char_text(
            b.operation,
        ) + " "@ + spaced_text(*b.right) + ")"@,
    }
}

fn spaced_expression(expr: &Expression, buffer: &mut String)
    ensures
        final(buffer)@ == old(buffer)@ + spaced_text(*expr),
    decreases expr,
{
    match expr {
        Expression::Number(num) => {
            buffer.append(" ");
            push_int(buffer, num.0.integer());
            assert(final(buffer)@ =~= old(buffer)@ + spaced_text(*expr));
        },
        Expression::Bracket(bracket) => {
            buffer.append(" {");
            spaced_expression(&bracket.0, buffer);
            buffer.append(" }");
            assert(final(buffer)@ =~= old(buffer)@ + spaced_text(*expr));
        },
        Expression::BinaryOperation(bin) => {
            buffer.append(" (");
            spaced_expression(&bin.left, buffer);
            buffer.append(" ");
            match bin.operation {
                Operation::Add => buffer.append("+"),
                Operation::Sub => buffer.append("-"),
                Operation::Mul => buffer.append("*"),
                Operation::Div => buffer.append("/"),
            }
            buffer.append(" ");
            spaced_expression(&bin.right, buffer);
            buffer.append(")");
            assert(final(buffer)@ =~= old(buffer)@ + spaced_text(*expr));
        },
    }
}

/// The tree as spaced-out text, operations in parentheses.
pub fn strict_infix_expression(expr: &Expression) -> (r: String)
    ensures
        r@ == spaced_text(*expr),
{
    let mut buff = String::new();
    spaced_expression(expr, &mut buff);
    assert(buff@ =~= spaced_text(*expr));
    buff
}

} // verus!
