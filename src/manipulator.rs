use vstd::prelude::*;

use crate::expression::{
    binary, erase, eval, ArithmeticExpression, BinaryOperation, Expression,
};

verus! {

fn erase_bracket(node: Expression) -> (r: Expression)
    ensures
        r == erase(node),
    decreases node,
{
    match node {
        Expression::Number(num) => Expression::Number(num),
        Expression::Bracket(bracket) => erase_bracket(*bracket.0),
        Expression::BinaryOperation(bin) => {
            let left = erase_bracket(*bin.left);
            let right = erase_bracket(*bin.right);
            BinaryOperation::new(left, right, bin.operation).to_expression()
        },
    }
}

/// A copy of the tree with every bracket node removed.
pub fn simplify<E: ArithmeticExpression>(root: &E) -> (r: Expression)
    ensures
        r == erase(root.as_expression()),
{
    erase_bracket(root.clone_expression())
}

/// Removing brackets twice gives what removing them once gives, and removing
/// them never changes the value of a tree (nor which failure it ends in).
pub proof fn lemma_simplify_idempotent(e: Expression)
    ensures
        erase(erase(e)) == erase(e),
        eval(erase(e)) == eval(e),
    decreases e,
{
    match e {
        Expression::Number(_) => {},
        Expression::Bracket(b) => {
            lemma_simplify_idempotent(*b.0);
        },
        Expression::BinaryOperation(b) => {
            lemma_simplify_idempotent(*b.left);
            lemma_simplify_idempotent(*b.right);
            let s = binary(erase(*b.left), erase(*b.right), b.operation);
            assert(erase(s) == s);
        },
    }
}

} // verus!
