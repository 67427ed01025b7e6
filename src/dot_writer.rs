use vstd::prelude::*;
use vstd::string::*;

use crate::expression::{size, ArithmeticExpression, BinaryOperation, Bracket, Expression, Number, Operation};
use crate::id_dispatcher::{parent_of, DispatcherView, IdDispatcher, IdDispatcherError};
use crate::number_value::NumberValue;
use crate::text::{int_text, push_int, push_nat};

verus! {

/// Why a graph description could not be produced.
#[derive(PartialEq, Eq, Structural, Clone, Copy, Debug)]
pub enum WriterError {
    IdDispatcherError(IdDispatcherError),
}

pub type WriterResult = Result<(), WriterError>;

pub open spec fn header_text() -> Seq<char> {
    "digraph arithmetic_tree{\n   node [fontname = \"Cascadia Code Regular\"];\n\n"@
}

pub open spec fn footer_text() -> Seq<char> {
    "}\n"@
}

pub open spec fn operator_label(op: Operation) -> Seq<char> {
    match op {
        Operation::Add => "+"@,
        Operation::Sub => "-"@,
        Operation::Mul => "*"@,
        Operation::Div => "/"@,
    }
}

/// The edge from `parent` (if there is one) to `id`.
pub open spec fn edge_text(parent: Option<int>, id: int) -> Seq<char> {
    match parent {
        None => Seq::empty(),
        Some(p) => "\t"@ + int_text(p) + " -> "@ + int_text(id) + "\n"@,
    }
}

/// The node declarations and edges of a tree whose root gets id `last + 1`
/// and hangs under `parent`. Ids are given in pre-order. A number declares
/// itself and its edge; a bracket declares itself, its content, then its
/// edge; an operation declares itself and its edge, then its left and its
/// right operand.
pub open spec fn graph_body(e: Expression, parent: Option<int>, last: int) -> Seq<char>
    decreases e,
{
    let id = last + 1;
    match e {
        Expression::Number(n) => "\t"@ + int_text(id) + " [label=\""@ + int_text(n.0.value() as int)
            + "\",shape=\"box\"]\n"@ + edge_text(parent, id),
        Expression::Bracket(b) => "\t"@ + int_text(id) + " [label=\"{...}\",shape = \"house\"]\n"@
            + graph_body(*b.0, Some(id), id) + edge_text(parent, id),
        Expression::BinaryOperation(b) => "\t"@ + int_text(id) + " [label=\""@ + operator_label(
            b.operation,
        ) + "\",shape = \"hexagon\"]\n"@ + edge_text(parent, id) + graph_body(
            *b.left,
            Some(id),
            id,
        ) + graph_body(*b.right, Some(id), id + size(*b.left)),
    }
}

/// The whole graph description of a tree.
pub open spec fn graph_text(e: Expression) -> Seq<char> {
    header_text() + graph_body(e, None, 0) + footer_text()
}

/// The top of the open-id stack: the parent of the next node.
pub open spec fn open_parent(d: DispatcherView) -> Option<int> {
    if d.0.len() == 0 {
        None
    } else {
        Some(d.0.last() as int)
    }
}

/// Whether ids remain for all nodes of `e`.
pub open spec fn ids_suffice(d: DispatcherView, e: Expression) -> bool {
    d.1 is Some && d.1->Some_0 + size(e) <= usize::MAX
}

/// What writing a tree with dispatcher `d` does: with enough ids it appends
/// the tree's declarations, leaves the open-id stack as it was and advances
/// the counter by the tree's size; otherwise it fails with `Wraparound`.
pub open spec fn writes_tree(
    e: Expression,
    d: DispatcherView,
    d2: DispatcherView,
    before: Seq<char>,
    after: Seq<char>,
    r: WriterResult,
) -> bool {
    if ids_suffice(d, e) {
        &&& r is Ok
        &&& after == before + graph_body(e, open_parent(d), d.1->Some_0 as int)
        &&& d2.0 == d.0
        &&& d2.1 == Some((d.1->Some_0 + size(e)) as usize)
    } else {
        r == Err::<(), WriterError>(WriterError::IdDispatcherError(IdDispatcherError::Wraparound))
    }
}

pub fn write_header(writer: &mut String)
    ensures
        final(writer)@ == old(writer)@ + header_text(),
{
    writer.append("digraph arithmetic_tree{\n   node [fontname = \"Cascadia Code Regular\"];\n\n");
}

pub fn write_footer(writer: &mut String)
    ensures
        final(writer)@ == old(writer)@ + footer_text(),
{
    writer.append("}\n");
}

fn write_direction(writer: &mut String, dispatcher: &IdDispatcher)
    requires
        dispatcher.0.len() >= 1,
    ensures
        final(writer)@ == old(writer)@ + edge_text(
            match parent_of(dispatcher@) {
                Ok(p) => Some(p as int),
                Err(_) => None,
            },
            dispatcher@.0.last() as int,
        ),
{
    if let Ok(p) = dispatcher.parent() {
        let id = dispatcher.0[dispatcher.0.len() - 1];
        writer.append("\t");
        push_nat(writer, p as u64);
        writer.append(" -> ");
        push_nat(writer, id as u64);
        writer.append("\n");
        assert(final(writer)@ =~= old(writer)@ + edge_text(Some(p as int), id as int));
    }
}

fn open_node(dispatcher: &mut IdDispatcher) -> (r: Result<usize, WriterError>)
    ensures
        match old(dispatcher)@.1 {
            Some(last) => if last < usize::MAX {
                &&& r == Ok::<usize, WriterError>((last + 1) as usize)
                &&& final(dispatcher)@.0 == old(dispatcher)@.0.push((last + 1) as usize)
                &&& final(dispatcher)@.1 == Some((last + 1) as usize)
            } else {
                r == Err::<usize, WriterError>(
                    WriterError::IdDispatcherError(IdDispatcherError::Wraparound),
                )
            },
            None => r == Err::<usize, WriterError>(
                WriterError::IdDispatcherError(IdDispatcherError::Wraparound),
            ),
        },
{
    match dispatcher.get() {
        Ok(id) => Ok(id),
        Err(e) => Err(WriterError::IdDispatcherError(e)),
    }
}

pub fn write_number(writer: &mut String, dispatcher: &mut IdDispatcher, number: &Number) -> (r:
    WriterResult)
    ensures
        writes_tree(
            Expression::Number(*number),
            old(dispatcher)@,
            final(dispatcher)@,
            old(writer)@,
            final(writer)@,
            r,
        ),
{
    let id = match open_node(dispatcher) {
        Ok(id) => id,
        Err(e) => return Err(e),
    };
    let NumberValue::Integer(value) = *number.number();
    writer.append("\t");
    push_nat(writer, id as u64);
    writer.append(" [label=\"");
    push_int(writer, value);
    writer.append("\",shape=\"box\"]\n");
    write_direction(writer, dispatcher);
    let _ = dispatcher.pop();
    assert(dispatcher@.0 =~= old(dispatcher)@.0);
    assert(final(writer)@ =~= old(writer)@ + graph_body(
        Expression::Number(*number),
        open_parent(old(dispatcher)@),
        old(dispatcher)@.1->Some_0 as int,
    ));
    Ok(())
}

pub fn write_bracket(writer: &mut String, dispatcher: &mut IdDispatcher, bracket: &Bracket) -> (r:
    WriterResult)
    ensures
        writes_tree(
            Expression::Bracket(*bracket),
            old(dispatcher)@,
            final(dispatcher)@,
            old(writer)@,
            final(writer)@,
            r,
        ),
    decreases size(Expression::Bracket(*bracket)), 0nat,
{
    let id = match open_node(dispatcher) {
        Ok(id) => id,
        Err(e) => return Err(e),
    };
    writer.append("\t");
    push_nat(writer, id as u64);
    writer.append(" [label=\"{...}\",shape = \"house\"]\n");
    match write_expression(writer, dispatcher, bracket.expression()) {
        Ok(()) => {},
        Err(e) => return Err(e),
    }
    assert(dispatcher@.0.last() == id);
    write_direction(writer, dispatcher);
    let _ = dispatcher.pop();
    assert(dispatcher@.0 =~= old(dispatcher)@.0);
    assert(final(writer)@ =~= old(writer)@ + graph_body(
        Expression::Bracket(*bracket),
        open_parent(old(dispatcher)@),
        old(dispatcher)@.1->Some_0 as int,
    ));
    Ok(())
}

pub fn write_binary_operation(
    writer: &mut String,
    dispatcher: &mut IdDispatcher,
    binary_operation: &BinaryOperation,
) -> (r: WriterResult)
    ensures
        writes_tree(
            Expression::BinaryOperation(*binary_operation),
            old(dispatcher)@,
            final(dispatcher)@,
            old(writer)@,
            final(writer)@,
            r,
        ),
    decreases size(Expression::BinaryOperation(*binary_operation)), 0nat,
{
    let ghost d0 = dispatcher@;
    let ghost w0 = writer@;
    let ghost e = Expression::BinaryOperation(*binary_operation);
    let id = match open_node(dispatcher) {
        Ok(id) => id,
        Err(e) => return Err(e),
    };
    writer.append("\t");
    push_nat(writer, id as u64);
    writer.append(" [label=\"");
    match binary_operation.operation() {
        Operation::Add => writer.append("+"),
        Operation::Sub => writer.append("-"),
        Operation::Mul => writer.append("*"),
        Operation::Div => writer.append("/"),
    }
    writer.append("\",shape = \"hexagon\"]\n");
    write_direction(writer, dispatcher);
    let ghost head = "\t"@ + int_text(id as int) + " [label=\""@ + operator_label(
        binary_operation.operation,
    ) + "\",shape = \"hexagon\"]\n"@ + edge_text(open_parent(d0), id as int);
    assert(writer@ =~= w0 + head);
    let ghost w1 = writer@;
    let ghost d1 = dispatcher@;
    assert(open_parent(d1) == Some(id as int));
    match write_expression(writer, dispatcher, binary_operation.left()) {
        Ok(()) => {},
        Err(e) => return Err(e),
    }
    let ghost w2 = writer@;
    assert(w2 == w1 + graph_body(*binary_operation.left, Some(id as int), id as int));
    match write_expression(writer, dispatcher, binary_operation.right()) {
        Ok(()) => {},
        Err(e) => return Err(e),
    }
    assert(writer@ == w2 + graph_body(
        *binary_operation.right,
        Some(id as int),
        id + size(*binary_operation.left),
    ));
    let _ = dispatcher.pop();
    assert(dispatcher@.0 =~= d0.0);
    assert(graph_body(e, open_parent(d0), d0.1->Some_0 as int) == head + graph_body(
        *binary_operation.left,
        Some(id as int),
        id as int,
    ) + graph_body(*binary_operation.right, Some(id as int), id + size(*binary_operation.left)));
    assert(final(writer)@ =~= w0 + graph_body(e, open_parent(d0), d0.1->Some_0 as int));
    Ok(())
}

pub fn write_expression(writer: &mut String, dispatcher: &mut IdDispatcher, expression: &Expression) -> (r:
    WriterResult)
    ensures
        writes_tree(*expression, old(dispatcher)@, final(dispatcher)@, old(writer)@, final(writer)@, r),
    decreases size(*expression), 1nat,
{
    match expression {
        Expression::Number(num) => write_number(writer, dispatcher, num),
        Expression::Bracket(bracket) => write_bracket(writer, dispatcher, bracket),
        Expression::BinaryOperation(bin) => write_binary_operation(writer, dispatcher, bin),
    }
}

/// Appends the graph description of a tree to `writer`. When the ids run out
/// it fails with `Wraparound` and appends nothing.
pub fn write_dot<E: ArithmeticExpression>(writer: &mut String, expression: &E) -> (r: WriterResult)
    ensures
        size(expression.as_expression()) <= usize::MAX ==> r is Ok && final(writer)@ == old(
            writer,
        )@ + graph_text(expression.as_expression()),
        size(expression.as_expression()) > usize::MAX ==> r == Err::<(), WriterError>(
            WriterError::IdDispatcherError(IdDispatcherError::Wraparound),
        ) && final(writer)@ == old(writer)@,
{
    let mut text = String::new();
    write_header(&mut text);
    let mut dispatcher = IdDispatcher::new();
    let expr = expression.clone_expression();
    match write_expression(&mut text, &mut dispatcher, &expr) {
        Ok(()) => {},
        Err(e) => return Err(e),
    }
    write_footer(&mut text);
    writer.append(text.as_str());
    assert(final(writer)@ =~= old(writer)@ + graph_text(expression.as_expression()));
    Ok(())
}

} // verus!
