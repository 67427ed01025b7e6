use vstd::prelude::*;

use crate::expression::{binary, bracket, eval, size, Expression, Operation};
use crate::formatter::{is_additive_op, minimal_text, needs_braces, operator_text, strict_text};
use crate::infix_parser::{
    additive, after_ws, digit_len, digit_value, digits_value, is_digit, is_space, multiplicative,
    multitive_rest, additive_rest, parse_additive, parse_multitive, parse_primary,
    parse_text, ws_len,
};
use crate::text::{digit_char, nat_text};
use crate::infix_parser::SpecParse;

verus! {

/// The tree that reading the fully braced text of `e` gives back: each
/// operation comes back wrapped in a bracket node (its braces), each bracket
/// node as a bracket node.
pub open spec fn strict_tree(e: Expression) -> Expression
    decreases e,
{
    match e {
        Expression::Number(_) => e,
        Expression::Bracket(b) => bracket(strict_tree(*b.0)),
        Expression::BinaryOperation(b) => bracket(
            binary(strict_tree(*b.left), strict_tree(*b.right), b.operation),
        ),
    }
}

spec fn read_to(t: Expression, n: nat) -> SpecParse {
    Ok((t, n))
}

proof fn lemma_strict_tree_value(e: Expression)
    ensures
        eval(strict_tree(e)) == eval(e),
    decreases e,
{
    match e {
        Expression::Number(n) => {
            assert(strict_tree(e) == e);
            assert(eval(strict_tree(e)) == eval(e));
        },
        Expression::Bracket(b) => {
            lemma_strict_tree_value(*b.0);
            assert(eval(strict_tree(e)) == eval(strict_tree(*b.0)));
        },
        Expression::BinaryOperation(b) => {
            lemma_strict_tree_value(*b.left);
            lemma_strict_tree_value(*b.right);
            let inner = binary(strict_tree(*b.left), strict_tree(*b.right), b.operation);
            assert(eval(strict_tree(e)) == eval(inner));
        },
    }
}

proof fn lemma_digit_char(d: int)
    requires
        0 <= d < 10,
    ensures
        is_digit(digit_char(d)),
        digit_value(digit_char(d)) == d,
{
}

proof fn lemma_nat_text(n: nat)
    ensures
        nat_text(n).len() >= 1,
        forall|k: int| 0 <= k < nat_text(n).len() ==> is_digit(#[trigger] nat_text(n)[k]),
        digits_value(nat_text(n)) == n,
    decreases n,
{
    lemma_digit_char((n % 10) as int);
    let t = nat_text(n);
    if n >= 10 {
        lemma_nat_text(n / 10);
        assert(t.drop_last() =~= nat_text(n / 10));
        assert(t.last() == digit_char((n % 10) as int));
        assert(digits_value(t) == digits_value(t.drop_last()) * 10 + digit_value(t.last()));
        assert(n == (n / 10) * 10 + n % 10);
    } else {
        assert(t.drop_last() =~= Seq::<char>::empty());
        assert(t.last() == digit_char(n as int));
        assert(digits_value(t) == digits_value(t.drop_last()) * 10 + digit_value(t.last()));
    }
}

proof fn lemma_digit_run(s: Seq<char>, d: nat, m: nat)
    requires
        d + m <= s.len(),
        forall|k: int| d <= k < d + m ==> is_digit(#[trigger] s[k]),
        d + m < s.len() ==> !is_digit(s[d + m as int]),
    ensures
        digit_len(s, d) == m,
    decreases m,
{
    if m > 0 {
        lemma_digit_run(s, d + 1, (m - 1) as nat);
    }
}

proof fn lemma_ws_bound(s: Seq<char>, i: nat)
    requires
        i <= s.len(),
    ensures
        i + ws_len(s, i) <= s.len(),
    decreases s.len() - i,
{
    if i < s.len() && is_space(s[i as int]) {
        lemma_ws_bound(s, i + 1);
    }
}

/// The first character of a fully braced text: never whitespace.
proof fn lemma_strict_text_start(e: Expression)
    ensures
        strict_text(e).len() >= 1,
        !is_space(strict_text(e)[0]),
{
    reveal_strlit("{");
    reveal_strlit("-");
    match e {
        Expression::Number(n) => {
            let v = n.0.value() as int;
            if v < 0 {
                lemma_nat_text((-v) as nat);
            } else {
                lemma_nat_text(v as nat);
                assert(is_digit(nat_text(v as nat)[0]));
            }
        },
        _ => {},
    }
}

/// Reading a number's text back at position `i` of `s`.
proof fn lemma_primary_number(s: Seq<char>, i: nat, e: Expression)
    requires
        e is Number,
        i + strict_text(e).len() <= s.len(),
        s.subrange(i as int, i + strict_text(e).len() as int) == strict_text(e),
        i + strict_text(e).len() < s.len() ==> !is_digit(s[i + strict_text(e).len() as int]),
    ensures
        parse_primary(s, i) == read_to(e, after_ws(s, i + strict_text(e).len())),
{
    let st = strict_text(e);
    let m = i + st.len();
    let v = e->Number_0.0.value();
    reveal_strlit("-");
    if v < 0 {
        let t = nat_text((-(v as int)) as nat);
        lemma_nat_text((-(v as int)) as nat);
        assert(st == seq!['-'] + t);
        assert(s[i as int] == s.subrange(i as int, m as int)[0]);
        assert forall|k: int| 0 <= k < t.len() implies s[i + 1 + k] == #[trigger] t[k] by {
            assert(s.subrange(i as int, m as int)[k + 1] == s[i + 1 + k]);
            assert(st[k + 1] == t[k]);
        }
        assert forall|k: int| i + 1 <= k < i + 1 + t.len() implies is_digit(#[trigger] s[k]) by {
            assert(s[k] == t[k - i - 1]);
        }
        lemma_digit_run(s, i + 1, t.len());
        assert(s.subrange(i + 1 as int, i + 1 + t.len() as int) =~= t);
        assert(is_digit(s[i + 1 as int]));
    } else {
        let t = nat_text(v as nat);
        lemma_nat_text(v as nat);
        assert(st == t);
        assert forall|k: int| 0 <= k < t.len() implies s[i + k] == #[trigger] t[k] by {
            assert(s.subrange(i as int, m as int)[k] == s[i + k]);
        }
        assert forall|k: int| i <= k < i + t.len() implies is_digit(#[trigger] s[k]) by {
            assert(s[k] == t[k - i]);
        }
        lemma_digit_run(s, i, t.len());
        assert(s.subrange(i as int, i + t.len() as int) =~= t);
        assert(is_digit(s[i as int]));
        assert(s[i as int] != '-');
    }
}

/// Reading back, at position `j`, the fully braced text of `x` when a `}`
/// follows it.
proof fn lemma_additive_closed(s: Seq<char>, j: nat, x: Expression)
    requires
        j + strict_text(x).len() < s.len(),
        s.subrange(j as int, j + strict_text(x).len() as int) == strict_text(x),
        s[j + strict_text(x).len() as int] == '}',
    ensures
        parse_additive(s, j) == read_to(strict_tree(x), j + strict_text(x).len()),
    decreases x, 2nat,
{
    let k = j + strict_text(x).len();
    lemma_strict_text_start(x);
    lemma_primary_strict(s, j, x);
    assert(ws_len(s, k) == 0);
    assert(multiplicative(s[k as int]) is None);
    assert(additive(s[k as int]) is None);
    assert(multitive_rest(s, strict_tree(x), k) == read_to(strict_tree(x), k));
    assert(parse_multitive(s, j) == read_to(strict_tree(x), k));
    assert(additive_rest(s, strict_tree(x), k) == read_to(strict_tree(x), k));
}

/// Reading back, at position `i`, the fully braced text of `e` when no digit
/// follows it: the result is `strict_tree(e)`, and reading goes on after the
/// whitespace that follows the text.
proof fn lemma_primary_strict(s: Seq<char>, i: nat, e: Expression)
    requires
        i + strict_text(e).len() <= s.len(),
        s.subrange(i as int, i + strict_text(e).len() as int) == strict_text(e),
        i + strict_text(e).len() < s.len() ==> !is_digit(s[i + strict_text(e).len() as int]),
    ensures
        parse_primary(s, i) == read_to(strict_tree(e), after_ws(s, i + strict_text(e).len())),
    decreases e, 1nat,
{
    let st = strict_text(e);
    let m = i + st.len();
    assert forall|k: int| 0 <= k < st.len() implies s[i + k] == #[trigger] st[k] by {
        assert(s.subrange(i as int, m as int)[k] == s[i + k]);
    }
    reveal_strlit("{");
    reveal_strlit("}");
    match e {
        Expression::Number(_) => {
            lemma_primary_number(s, i, e);
        },
        Expression::Bracket(b) => {
            let x = *b.0;
            let sx = strict_text(x);
            assert(st == seq!['{'] + sx + seq!['}']);
            assert(st[0] == '{');
            assert(s[i + 0int] == st[0]);
            assert(s[i as int] == '{');
            let j = i + 1;
            assert forall|k: int| 0 <= k < sx.len() implies s[j + k] == #[trigger] sx[k] by {
                assert(s[i + (k + 1)] == st[k + 1]);
            }
            assert(s.subrange(j as int, j + sx.len() as int) =~= sx);
            assert(s[i + (sx.len() + 1) as int] == st[sx.len() + 1 as int]);
            assert(s[j + sx.len() as int] == '}');
            lemma_strict_text_start(x);
            assert(s[j as int] == sx[0]);
            assert(ws_len(s, j) == 0);
            lemma_additive_closed(s, j, x);
            let k = j + sx.len();
            assert(k + 1 == m);
        },
        Expression::BinaryOperation(_) => {
            lemma_primary_binary(s, i, e);
        },
    }
}

/// Where the parts of an operation's fully braced text stand in `s`.
proof fn lemma_binary_layout(s: Seq<char>, i: nat, e: Expression)
    requires
        e is BinaryOperation,
        i + strict_text(e).len() <= s.len(),
        s.subrange(i as int, i + strict_text(e).len() as int) == strict_text(e),
    ensures
        ({
            let b = e->BinaryOperation_0;
            let sl = strict_text(*b.left);
            let sr = strict_text(*b.right);
            let a = i + 1;
            let pl = a + sl.len();
            let c = pl + 3;
            let pr = c + sr.len();
            &&& pr + 1 == i + strict_text(e).len()
            &&& s[i as int] == '{'
            &&& s.subrange(a as int, a + sl.len() as int) == sl
            &&& s[pl as int] == ' '
            &&& s[pl + 1 as int] == operator_text(b.operation)[1]
            &&& s[pl + 2 as int] == ' '
            &&& s.subrange(c as int, c + sr.len() as int) == sr
            &&& s[pr as int] == '}'
        }),
{
    let st = strict_text(e);
    let m = i + st.len();
    assert forall|k: int| 0 <= k < st.len() implies s[i + k] == #[trigger] st[k] by {
        assert(s.subrange(i as int, m as int)[k] == s[i + k]);
    }
    reveal_strlit("{");
    reveal_strlit("}");
    reveal_strlit(" + ");
    reveal_strlit(" - ");
    reveal_strlit(" * ");
    reveal_strlit(" / ");
    let b = e->BinaryOperation_0;
    let sl = strict_text(*b.left);
    let sr = strict_text(*b.right);
    let ot = operator_text(b.operation);
    assert(ot.len() == 3 && ot[0] == ' ' && ot[2] == ' ');
    assert(st == seq!['{'] + sl + ot + sr + seq!['}']);
    let a = i + 1;
    let pl = a + sl.len();
    let c = pl + 3;
    assert(st[0] == '{');
    assert(s[i + 0int] == st[0]);
    assert forall|k: int| 0 <= k < sl.len() implies s[a + k] == #[trigger] sl[k] by {
        assert(s[i + (k + 1)] == st[k + 1]);
    }
    assert(s.subrange(a as int, a + sl.len() as int) =~= sl);
    assert(s[i + (1 + sl.len()) as int] == st[1 + sl.len() as int]);
    assert(s[i + (2 + sl.len()) as int] == st[2 + sl.len() as int]);
    assert(s[i + (3 + sl.len()) as int] == st[3 + sl.len() as int]);
    assert forall|k: int| 0 <= k < sr.len() implies s[c + k] == #[trigger] sr[k] by {
        assert(s[i + (k + 4 + sl.len())] == st[k + 4 + sl.len()]);
    }
    assert(s.subrange(c as int, c + sr.len() as int) =~= sr);
    assert(s[i + (4 + sl.len() + sr.len()) as int] == st[4 + sl.len() + sr.len() as int]);
}

/// The operation case of `lemma_primary_strict`.
proof fn lemma_primary_binary(s: Seq<char>, i: nat, e: Expression)
    requires
        e is BinaryOperation,
        i + strict_text(e).len() <= s.len(),
        s.subrange(i as int, i + strict_text(e).len() as int) == strict_text(e),
        i + strict_text(e).len() < s.len() ==> !is_digit(s[i + strict_text(e).len() as int]),
    ensures
        parse_primary(s, i) == read_to(strict_tree(e), after_ws(s, i + strict_text(e).len())),
    decreases e, 0nat,
{
    lemma_binary_layout(s, i, e);
    reveal_strlit(" + ");
    reveal_strlit(" - ");
    reveal_strlit(" * ");
    reveal_strlit(" / ");
    let b = e->BinaryOperation_0;
    let l = *b.left;
    let r = *b.right;
    let op = b.operation;
    let sl = strict_text(l);
    let sr = strict_text(r);
    let a = i + 1;
    let pl = a + sl.len();
    let c = pl + 3;
    let pr = c + sr.len();
    lemma_strict_text_start(l);
    lemma_strict_text_start(r);
    assert(s[a as int] == s.subrange(a as int, a + sl.len() as int)[0]);
    assert(s[c as int] == s.subrange(c as int, c + sr.len() as int)[0]);
    assert(ws_len(s, a) == 0);
    assert(ws_len(s, c) == 0);
    assert(ws_len(s, pl + 1) == 0);
    assert(ws_len(s, pl) == 1);
    assert(ws_len(s, pl + 2) == 1);
    assert(ws_len(s, pr) == 0);
    lemma_primary_strict(s, a, l);
    lemma_primary_strict(s, c, r);
    let tl = strict_tree(l);
    let tr = strict_tree(r);
    let t = binary(tl, tr, op);
    assert(parse_primary(s, a) == read_to(tl, pl + 1));
    assert(parse_primary(s, c) == read_to(tr, pr));
    assert(multiplicative(s[pr as int]) is None);
    assert(additive(s[pr as int]) is None);
    if op == Operation::Mul || op == Operation::Div {
        assert(multiplicative(s[pl + 1 as int]) == Some(op));
        assert(multitive_rest(s, t, pr) == read_to(t, pr));
        assert(multitive_rest(s, tl, pl + 1) == read_to(t, pr));
        assert(parse_multitive(s, a) == read_to(t, pr));
        assert(additive_rest(s, t, pr) == read_to(t, pr));
        assert(parse_additive(s, a) == read_to(t, pr));
    } else {
        assert(multiplicative(s[pl + 1 as int]) is None);
        assert(additive(s[pl + 1 as int]) == Some(op));
        assert(multitive_rest(s, tl, pl + 1) == read_to(tl, pl + 1));
        assert(parse_multitive(s, a) == read_to(tl, pl + 1));
        assert(multitive_rest(s, tr, pr) == read_to(tr, pr));
        assert(parse_multitive(s, c) == read_to(tr, pr));
        assert(additive_rest(s, t, pr) == read_to(t, pr));
        assert(additive_rest(s, tl, pl + 1) == read_to(t, pr));
        assert(parse_additive(s, a) == read_to(t, pr));
    }
    assert(ws_len(s, a) == 0);
}

/// Reading back the fully braced text of any tree gives, from the whole
/// text, a tree with the same value (the same failure, where evaluation
/// fails): the operations come back wrapped in bracket nodes.
pub proof fn lemma_strict_round_trip(e: Expression)
    ensures
        parse_text(strict_text(e)) is Ok,
        parse_text(strict_text(e))->Ok_0 == (strict_tree(e), strict_text(e).len()),
        eval(strict_tree(e)) == eval(e),
{
    let s = strict_text(e);
    let n = s.len();
    lemma_strict_tree_value(e);
    lemma_strict_text_start(e);
    assert(s.subrange(0, n as int) =~= s);
    lemma_primary_strict(s, 0, e);
    assert(ws_len(s, 0) == 0);
    assert(ws_len(s, n) == 0);
    let t = strict_tree(e);
    assert(parse_primary(s, 0) == read_to(t, n));
    assert(multitive_rest(s, t, n) == read_to(t, n));
    assert(parse_multitive(s, 0) == read_to(t, n));
    assert(additive_rest(s, t, n) == read_to(t, n));
}

/// The tree with bracket nodes looked through.
pub open spec fn unwrap_brackets(e: Expression) -> Expression
    decreases e,
{
    match e {
        Expression::Bracket(b) => unwrap_brackets(*b.0),
        _ => e,
    }
}

/// Whether a tree, seen through brackets, is a `+` or `-` operation.
pub open spec fn is_additive_node(e: Expression) -> bool {
    unwrap_brackets(e) is BinaryOperation && is_additive_op(
        unwrap_brackets(e)->BinaryOperation_0.operation,
    )
}

/// Whether a tree, seen through brackets, is a `*` or `/` operation.
pub open spec fn is_multiplicative_node(e: Expression) -> bool {
    unwrap_brackets(e) is BinaryOperation && is_multiplicative_op(
        unwrap_brackets(e)->BinaryOperation_0.operation,
    )
}

proof fn lemma_unwrap_brackets(e: Expression)
    ensures
        !(unwrap_brackets(e) is Bracket),
        unwrap_brackets(e) is BinaryOperation ==> is_additive_node(e) || is_multiplicative_node(e),
    decreases e,
{
    if let Expression::Bracket(b) = e {
        lemma_unwrap_brackets(*b.0);
    }
}

pub open spec fn is_multiplicative_op(op: Operation) -> bool {
    op == Operation::Mul || op == Operation::Div
}

/// No operation of the tree has, as its right operand, an operation that the
/// minimal text would regroup with it: an additive right operand under an
/// additive operator, or a multiplicative one under a multiplication.
pub open spec fn keeps_grouping(e: Expression) -> bool
    decreases e,
{
    match e {
        Expression::Number(_) => true,
        Expression::Bracket(b) => keeps_grouping(*b.0),
        Expression::BinaryOperation(b) => {
            &&& keeps_grouping(*b.left)
            &&& keeps_grouping(*b.right)
            &&& is_additive_op(b.operation) ==> !is_additive_node(*b.right)
            &&& b.operation == Operation::Mul ==> !is_multiplicative_node(*b.right)
        },
    }
}

/// The tree that reading the minimal text of `e` (under `parent`) gives
/// back: bracket nodes are gone, and braced operations come back wrapped in
/// a bracket node.
pub open spec fn minimal_tree(e: Expression, parent: Option<Operation>) -> Expression
    decreases e,
{
    match e {
        Expression::Number(_) => e,
        Expression::Bracket(b) => minimal_tree(*b.0, parent),
        Expression::BinaryOperation(b) => {
            let t = binary(
                minimal_tree(*b.left, Some(b.operation)),
                minimal_tree(*b.right, Some(b.operation)),
                b.operation,
            );
            if needs_braces(b.operation, parent) {
                bracket(t)
            } else {
                t
            }
        },
    }
}

/// Whether the minimal text of `e` under `parent` is wrapped in braces.
pub open spec fn braced(e: Expression, parent: Option<Operation>) -> bool {
    unwrap_brackets(e) is BinaryOperation && needs_braces(
        unwrap_brackets(e)->BinaryOperation_0.operation,
        parent,
    )
}

spec fn text_weight(e: Expression, parent: Option<Operation>) -> nat {
    2 * size(e) + if braced(e, parent) {
        1nat
    } else {
        0nat
    }
}

proof fn lemma_minimal_tree_value(e: Expression, parent: Option<Operation>)
    ensures
        eval(minimal_tree(e, parent)) == eval(e),
    decreases e,
{
    match e {
        Expression::Number(_) => {
            assert(minimal_tree(e, parent) == e);
        },
        Expression::Bracket(b) => {
            lemma_minimal_tree_value(*b.0, parent);
        },
        Expression::BinaryOperation(b) => {
            lemma_minimal_tree_value(*b.left, Some(b.operation));
            lemma_minimal_tree_value(*b.right, Some(b.operation));
            let t = binary(
                minimal_tree(*b.left, Some(b.operation)),
                minimal_tree(*b.right, Some(b.operation)),
                b.operation,
            );
            assert(eval(t) == eval(e));
            assert(eval(bracket(t)) == eval(t));
        },
    }
}

proof fn lemma_size_positive(e: Expression)
    ensures
        size(e) >= 1,
{
}

/// The first character of a minimal text: never whitespace.
proof fn lemma_minimal_text_start(e: Expression, parent: Option<Operation>)
    ensures
        minimal_text(e, parent).len() >= 1,
        !is_space(minimal_text(e, parent)[0]),
    decreases e,
{
    reveal_strlit("{");
    match e {
        Expression::Number(_) => {
            lemma_strict_text_start(e);
        },
        Expression::Bracket(b) => {
            lemma_minimal_text_start(*b.0, parent);
        },
        Expression::BinaryOperation(b) => {
            lemma_minimal_text_start(*b.left, Some(b.operation));
            let body = minimal_text(*b.left, Some(b.operation)) + operator_text(b.operation)
                + minimal_text(*b.right, Some(b.operation));
            assert(body[0] == minimal_text(*b.left, Some(b.operation))[0]);
        },
    }
}

/// A text made of three parts, found in `s` at `i`: each part is found
/// where it should be.
proof fn lemma_split3(s: Seq<char>, i: int, x: Seq<char>, y: Seq<char>, z: Seq<char>)
    requires
        0 <= i,
        i + x.len() + y.len() + z.len() <= s.len(),
        s.subrange(i, i + x.len() + y.len() + z.len()) == x + y + z,
    ensures
        s.subrange(i, i + x.len()) == x,
        s.subrange(i + x.len(), i + x.len() + y.len()) == y,
        s.subrange(i + x.len() + y.len(), i + x.len() + y.len() + z.len()) == z,
{
    let w = x + y + z;
    let n = x.len() + y.len() + z.len();
    assert forall|k: int| 0 <= k < n implies s[i + k] == #[trigger] w[k] by {
        assert(s.subrange(i, i + n)[k] == s[i + k]);
    }
    assert forall|k: int| 0 <= k < x.len() implies s[i + k] == #[trigger] x[k] by {
        assert(w[k] == x[k]);
    }
    assert forall|k: int| 0 <= k < y.len() implies s[i + x.len() + k] == #[trigger] y[k] by {
        assert(w[x.len() + k] == y[k]);
    }
    assert forall|k: int| 0 <= k < z.len() implies s[i + x.len() + y.len() + k] == #[trigger] z[k] by {
        assert(w[x.len() + y.len() + k] == z[k]);
    }
    assert(s.subrange(i, i + x.len()) =~= x);
    assert(s.subrange(i + x.len(), i + x.len() + y.len()) =~= y);
    assert(s.subrange(i + x.len() + y.len(), i + x.len() + y.len() + z.len()) =~= z);
}

proof fn lemma_operator_text(o: Operation)
    ensures
        operator_text(o).len() == 3,
        operator_text(o)[0] == ' ',
        operator_text(o)[2] == ' ',
        !is_space(operator_text(o)[1]),
        is_additive_op(o) ==> additive(operator_text(o)[1]) == Some(o) && multiplicative(
            operator_text(o)[1],
        ) is None,
        is_multiplicative_op(o) ==> multiplicative(operator_text(o)[1]) == Some(o),
{
    reveal_strlit(" + ");
    reveal_strlit(" - ");
    reveal_strlit(" * ");
    reveal_strlit(" / ");
}

/// Where the parts of `left op right` stand when that text is found in `s`
/// at `i`: the operator character is at `i + |left| + 1` and the right
/// operand starts two characters later; whitespace is skipped up to them.
proof fn lemma_body_layout(s: Seq<char>, i: nat, tl: Seq<char>, o: Operation, tr: Seq<char>)
    requires
        tl.len() >= 1,
        tr.len() >= 1,
        !is_space(tr[0]),
        i + (tl + operator_text(o) + tr).len() <= s.len(),
        s.subrange(i as int, i + (tl + operator_text(o) + tr).len() as int) == tl + operator_text(o)
            + tr,
    ensures
        s.subrange(i as int, i + tl.len() as int) == tl,
        s[i + tl.len() as int] == ' ',
        s[i + tl.len() + 1 as int] == operator_text(o)[1],
        s.subrange(i + tl.len() + 3 as int, i + tl.len() + 3 + tr.len() as int) == tr,
        after_ws(s, i + tl.len()) == i + tl.len() + 1,
        after_ws(s, i + tl.len() + 2) == i + tl.len() + 3,
        (tl + operator_text(o) + tr).len() == tl.len() + 3 + tr.len(),
{
    lemma_operator_text(o);
    let ot = operator_text(o);
    lemma_split3(s, i as int, tl, ot, tr);
    let pl = i + tl.len();
    assert(s.subrange(pl as int, pl + 3 as int)[0] == s[pl as int]);
    assert(s.subrange(pl as int, pl + 3 as int)[1] == s[pl + 1 as int]);
    assert(s.subrange(pl as int, pl + 3 as int)[2] == s[pl + 2 as int]);
    let c = pl + 3;
    assert(s.subrange(c as int, c + tr.len() as int)[0] == s[c as int]);
    assert(ws_len(s, pl + 1) == 0);
    assert(ws_len(s, c) == 0);
    assert(ws_len(s, pl) == 1);
    assert(ws_len(s, pl + 2) == 1);
}

/// Reading, at `i`, the minimal text of a number or of a braced operation
/// gives its tree; reading goes on after the whitespace that follows.
proof fn lemma_minimal_primary(s: Seq<char>, i: nat, e: Expression, p: Option<Operation>)
    requires
        keeps_grouping(e),
        unwrap_brackets(e) is Number || braced(e, p),
        i + minimal_text(e, p).len() <= s.len(),
        s.subrange(i as int, i + minimal_text(e, p).len() as int) == minimal_text(e, p),
        i + minimal_text(e, p).len() < s.len() ==> !is_digit(s[i + minimal_text(e, p).len() as int]),
    ensures
        parse_primary(s, i) == read_to(minimal_tree(e, p), after_ws(s, i + minimal_text(e, p).len())),
    decreases text_weight(e, p), 0nat,
{
    match e {
        Expression::Number(_) => {
            assert(minimal_text(e, p) == strict_text(e));
            lemma_primary_number(s, i, e);
        },
        Expression::Bracket(b) => {
            lemma_size_positive(*b.0);
            lemma_minimal_primary(s, i, *b.0, p);
        },
        Expression::BinaryOperation(b) => {
            let o = b.operation;
            let l = *b.left;
            let r = *b.right;
            let tl = minimal_text(l, Some(o));
            let tr = minimal_text(r, Some(o));
            let ot = operator_text(o);
            let body = tl + ot + tr;
            let e0 = e;
            reveal_strlit("{");
            reveal_strlit("}");
            assert(minimal_text(e, p) == seq!['{'] + body + seq!['}']);
            lemma_split3(s, i as int, seq!['{'], body, seq!['}']);
            let j = i + 1;
            let pr = j + body.len();
            assert(s.subrange(i as int, i + 1 as int)[0] == s[i as int]);
            assert(s.subrange(pr as int, pr + 1 as int)[0] == s[pr as int]);
            assert(s[i as int] == '{');
            assert(s[pr as int] == '}');
            lemma_minimal_text_start(e0, None);
            assert(minimal_text(e0, None) == body);
            assert(s.subrange(j as int, pr as int)[0] == s[j as int]);
            assert(ws_len(s, j) == 0);
            assert(ws_len(s, pr) == 0);
            lemma_size_positive(l);
            lemma_size_positive(r);
            lemma_minimal_additive(s, j, e0, None);
            assert(additive(s[pr as int]) is None);
            let t0 = minimal_tree(e0, None);
            assert(additive_rest(s, t0, pr) == read_to(t0, pr));
            assert(parse_additive(s, j) == read_to(t0, pr));
            assert(minimal_tree(e, p) == bracket(t0));
        },
    }
}

/// Reading, at `i`, the minimal text of a tree at the multiplicative level
/// (a number, a braced operation, or an unbraced `*` or `/` chain) leaves
/// the multiplicative loop holding its tree at the end of the text.
proof fn lemma_minimal_multitive(s: Seq<char>, i: nat, e: Expression, p: Option<Operation>)
    requires
        keeps_grouping(e),
        unwrap_brackets(e) is Number || braced(e, p) || is_multiplicative_node(e),
        i + minimal_text(e, p).len() <= s.len(),
        s.subrange(i as int, i + minimal_text(e, p).len() as int) == minimal_text(e, p),
        i + minimal_text(e, p).len() < s.len() ==> !is_digit(s[i + minimal_text(e, p).len() as int]),
    ensures
        parse_multitive(s, i) == multitive_rest(
            s,
            minimal_tree(e, p),
            after_ws(s, i + minimal_text(e, p).len()),
        ),
    decreases text_weight(e, p), 1nat,
{
    let m = i + minimal_text(e, p).len();
    lemma_minimal_text_start(e, p);
    lemma_ws_bound(s, m);
    if unwrap_brackets(e) is Number || braced(e, p) {
        lemma_minimal_primary(s, i, e, p);
    } else {
        match e {
            Expression::Number(_) => {},
            Expression::Bracket(b) => {
                lemma_size_positive(*b.0);
                lemma_minimal_multitive(s, i, *b.0, p);
            },
            Expression::BinaryOperation(b) => {
                let o = b.operation;
                let l = *b.left;
                let r = *b.right;
                let tl = minimal_text(l, Some(o));
                let tr = minimal_text(r, Some(o));
                lemma_minimal_text_start(l, Some(o));
                lemma_minimal_text_start(r, Some(o));
                lemma_operator_text(o);
                assert(minimal_text(e, p) == tl + operator_text(o) + tr);
                lemma_body_layout(s, i, tl, o, tr);
                let pl = i + tl.len();
                let c = pl + 3;
                lemma_size_positive(l);
                lemma_size_positive(r);
                lemma_unwrap_brackets(l);
                lemma_unwrap_brackets(r);
                lemma_minimal_multitive(s, i, l, Some(o));
                lemma_minimal_primary(s, c, r, Some(o));
                let tlt = minimal_tree(l, Some(o));
                let trt = minimal_tree(r, Some(o));
                assert(multiplicative(s[pl + 1 as int]) == Some(o));
                assert(minimal_tree(e, p) == binary(tlt, trt, o));
                assert(multitive_rest(s, tlt, pl + 1) == multitive_rest(
                    s,
                    binary(tlt, trt, o),
                    after_ws(s, m),
                ));
            },
        }
    }
}

/// Reading, at `i`, the minimal text of any tree that keeps its grouping,
/// where no `*` or `/` follows, leaves the additive loop holding its tree at
/// the end of the text.
proof fn lemma_minimal_additive(s: Seq<char>, i: nat, e: Expression, p: Option<Operation>)
    requires
        keeps_grouping(e),
        i + minimal_text(e, p).len() <= s.len(),
        s.subrange(i as int, i + minimal_text(e, p).len() as int) == minimal_text(e, p),
        i + minimal_text(e, p).len() < s.len() ==> !is_digit(s[i + minimal_text(e, p).len() as int]),
        after_ws(s, i + minimal_text(e, p).len()) < s.len() ==> multiplicative(
            s[after_ws(s, i + minimal_text(e, p).len()) as int],
        ) is None,
    ensures
        parse_additive(s, i) == additive_rest(
            s,
            minimal_tree(e, p),
            after_ws(s, i + minimal_text(e, p).len()),
        ),
    decreases text_weight(e, p), 2nat,
{
    let m = i + minimal_text(e, p).len();
    let end = after_ws(s, m);
    lemma_minimal_text_start(e, p);
    lemma_ws_bound(s, m);
    if unwrap_brackets(e) is Number || braced(e, p) || is_multiplicative_node(e) {
        lemma_minimal_multitive(s, i, e, p);
        assert(multitive_rest(s, minimal_tree(e, p), end) == read_to(minimal_tree(e, p), end));
    } else {
        match e {
            Expression::Number(_) => {},
            Expression::Bracket(b) => {
                lemma_size_positive(*b.0);
                lemma_minimal_additive(s, i, *b.0, p);
            },
            Expression::BinaryOperation(b) => {
                let o = b.operation;
                let l = *b.left;
                let r = *b.right;
                let tl = minimal_text(l, Some(o));
                let tr = minimal_text(r, Some(o));
                lemma_minimal_text_start(l, Some(o));
                lemma_minimal_text_start(r, Some(o));
                lemma_operator_text(o);
                assert(is_additive_op(o));
                assert(minimal_text(e, p) == tl + operator_text(o) + tr);
                lemma_body_layout(s, i, tl, o, tr);
                let pl = i + tl.len();
                let c = pl + 3;
                lemma_size_positive(l);
                lemma_size_positive(r);
                lemma_minimal_additive(s, i, l, Some(o));
                lemma_unwrap_brackets(r);
                lemma_minimal_multitive(s, c, r, Some(o));
                let tlt = minimal_tree(l, Some(o));
                let trt = minimal_tree(r, Some(o));
                assert(multitive_rest(s, trt, end) == read_to(trt, end));
                assert(parse_multitive(s, c) == read_to(trt, end));
                assert(additive(s[pl + 1 as int]) == Some(o));
                assert(minimal_tree(e, p) == binary(tlt, trt, o));
                assert(additive_rest(s, tlt, pl + 1) == additive_rest(s, binary(tlt, trt, o), end));
            },
        }
    }
}

/// Reading back the minimal text of a tree in which no operation has an
/// operand on its right that the text would regroup (see `keeps_grouping`)
/// gives, from the whole text, a tree with the same value (the same failure,
/// where evaluation fails).
pub proof fn lemma_minimal_round_trip(e: Expression)
    requires
        keeps_grouping(e),
    ensures
        parse_text(minimal_text(e, None)) is Ok,
        parse_text(minimal_text(e, None))->Ok_0 == (
            minimal_tree(e, None),
            minimal_text(e, None).len(),
        ),
        eval(minimal_tree(e, None)) == eval(e),
{
    let s = minimal_text(e, None);
    let n = s.len();
    lemma_minimal_tree_value(e, None);
    lemma_minimal_text_start(e, None);
    assert(s.subrange(0, n as int) =~= s);
    assert(ws_len(s, 0) == 0);
    assert(ws_len(s, n) == 0);
    lemma_minimal_additive(s, 0, e, None);
    let t = minimal_tree(e, None);
    assert(additive_rest(s, t, n) == read_to(t, n));
}

} // verus!
