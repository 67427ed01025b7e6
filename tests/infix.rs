use arith_expr::expression::{ArithmeticExpression, BinaryOperation, Expression, Number, Operation};
use arith_expr::formatter::{minimal_infix_notation, require, strict_infix_expression};
use arith_expr::infix_parser::{parse as parse_formula, ParseError, ParseErrorKind};
use arith_expr::manipulator::simplify;
use arith_expr::number_value::NumberValue;

fn num(v: i32) -> Number {
    Number::from(NumberValue::from(v))
}

fn value_of(e: &Expression) -> i32 {
    match e.calc().unwrap() {
        NumberValue::Integer(v) => v,
    }
}

#[test]
fn strict() {
    let expr = parse_formula("{30*{1+2}-25}/{10+20+15}").unwrap().0;
    let ret = strict_infix_expression(&expr);
    assert_eq!(ret, "{{{{30 * {{1 + 2}}} - 25}} / {{{10 + 20} + 15}}}");
}

#[test]
fn require_test() {
    fn make_fixture(operator: Operation) -> BinaryOperation {
        BinaryOperation::new(num(42), num(114514), operator)
    }

    let bin = make_fixture(Operation::Add);
    assert!(!require(&bin, &Some(&Operation::Add)));
    assert!(!require(&bin, &Some(&Operation::Sub)));
    assert!(!require(&bin, &None));
    assert!(require(&bin, &Some(&Operation::Mul)));
    assert!(require(&bin, &Some(&Operation::Div)));

    let bin = make_fixture(Operation::Sub);
    assert!(!require(&bin, &Some(&Operation::Add)));
    assert!(!require(&bin, &Some(&Operation::Sub)));
    assert!(!require(&bin, &None));
    assert!(require(&bin, &Some(&Operation::Mul)));
    assert!(require(&bin, &Some(&Operation::Div)));

    // Under a division every operation is braced.
    let bin = make_fixture(Operation::Mul);
    assert!(!require(&bin, &Some(&Operation::Add)));
    assert!(!require(&bin, &Some(&Operation::Sub)));
    assert!(!require(&bin, &None));
    assert!(!require(&bin, &Some(&Operation::Mul)));
    assert!(require(&bin, &Some(&Operation::Div)));

    let bin = make_fixture(Operation::Div);
    assert!(!require(&bin, &Some(&Operation::Add)));
    assert!(!require(&bin, &Some(&Operation::Sub)));
    assert!(!require(&bin, &None));
    assert!(!require(&bin, &Some(&Operation::Mul)));
    assert!(require(&bin, &Some(&Operation::Div)));
}

#[test]
fn minimal() {
    let expr = parse_formula("{{30*{1+2}-25}/{10+20+15}}").unwrap().0;
    let ret = minimal_infix_notation(&expr);
    assert_eq!(ret, "{30 * {1 + 2} - 25} / {10 + 20 + 15}");
}

#[test]
fn parse() {
    let expr = parse_formula("{ 30       *            {     10+200}-25}/{10+20+15       }").unwrap().0;
    assert_eq!(value_of(&expr), 139);
}

#[test]
fn hoge() {
    let mut cursor = String::new();

    let expr = parse_formula("{30*{1+2}-25}/{10+20+15}").unwrap();
    let expr = simplify(&expr.0);

    arith_expr::dot_writer::write_dot(&mut cursor, &expr).unwrap();

    assert!(cursor.starts_with("digraph arithmetic_tree{"));
    assert_eq!(value_of(&expr), 1);
}

#[test]
fn piyo() {
    let expr = parse_formula("{30*{1+2}-25}/{10+20+15}").unwrap().0;
    let ret = arith_expr::infix_notation::strict_infix_expression(&expr);
    assert_eq!(
        ret,
        " ( { ( ( 30 *  { ( 1 +  2) }) -  25) } /  { ( ( 10 +  20) +  15) })"
    );
}

#[test]
fn spaced_form_of_small_tree() {
    let bracket = arith_expr::expression::Bracket::from(num(2).to_expression());
    let e = BinaryOperation::new(num(1), bracket, Operation::Add).to_expression();
    assert_eq!(arith_expr::infix_notation::strict_infix_expression(&e), " ( 1 +  { 2 })");
}

#[test]
fn precedence() {
    let expr = parse_formula("20+40+30*20-{400/4}").unwrap();
    assert_eq!(expr.1, "");
    // 20 + 40 + 600 - 100
    assert_eq!(value_of(&expr.0), 560);
}

#[test]
fn minimal_braces_additive_under_multiplication() {
    let inner = BinaryOperation::new(num(1), num(2), Operation::Add);
    let outer = BinaryOperation::new(inner, num(3), Operation::Mul).to_expression();
    assert_eq!(minimal_infix_notation(&outer), "{1 + 2} * 3");

    let inner = BinaryOperation::new(num(1), num(2), Operation::Add);
    let outer = BinaryOperation::new(inner, num(3), Operation::Add).to_expression();
    assert_eq!(minimal_infix_notation(&outer), "1 + 2 + 3");
}

#[test]
fn strict_round_trip() {
    let left = BinaryOperation::new(num(-5), num(7), Operation::Mul);
    let right = BinaryOperation::new(num(9), num(-2), Operation::Sub);
    let e = BinaryOperation::new(left, right, Operation::Div).to_expression();
    let text = strict_infix_expression(&e);
    assert_eq!(text, "{{-5 * 7} / {9 - -2}}");
    let (back, rest) = parse_formula(&text).unwrap();
    assert_eq!(rest, "");
    assert_eq!(value_of(&back), value_of(&e));
    assert_eq!(value_of(&back), -3);
}

#[test]
fn minimal_round_trip() {
    let e = parse_formula("{1 + 2} * {3 - 4} / 2").unwrap().0;
    let text = minimal_infix_notation(&e);
    let back = parse_formula(&text).unwrap().0;
    assert_eq!(value_of(&back), value_of(&e));
}

#[test]
fn parse_keeps_the_remainder() {
    let (e, rest) = parse_formula("  1 + 2 } tail").unwrap();
    assert_eq!(rest, "} tail");
    assert_eq!(value_of(&e), 3);
}

#[test]
fn parse_negative_literals() {
    assert_eq!(value_of(&parse_formula("1 - -3").unwrap().0), 4);
    assert_eq!(value_of(&parse_formula("-2147483648").unwrap().0), i32::MIN);
    assert_eq!(value_of(&parse_formula("2*-3").unwrap().0), -6);
}

#[test]
fn parse_errors() {
    assert_eq!(
        parse_formula("").err().unwrap(),
        ParseError { position: 0, kind: ParseErrorKind::UnexpectedEnd }
    );
    assert_eq!(
        parse_formula("1 +").err().unwrap(),
        ParseError { position: 3, kind: ParseErrorKind::UnexpectedEnd }
    );
    assert_eq!(
        parse_formula("{1 + 2").err().unwrap(),
        ParseError { position: 6, kind: ParseErrorKind::UnexpectedEnd }
    );
    assert_eq!(
        parse_formula("1 + x").err().unwrap(),
        ParseError { position: 4, kind: ParseErrorKind::UnexpectedCharacter }
    );
    assert_eq!(
        parse_formula("- 3").err().unwrap(),
        ParseError { position: 1, kind: ParseErrorKind::UnexpectedCharacter }
    );
    assert_eq!(
        parse_formula("2147483648").err().unwrap(),
        ParseError { position: 0, kind: ParseErrorKind::IntegerOutOfRange }
    );
    assert_eq!(
        parse_formula("1 + -2147483649").err().unwrap(),
        ParseError { position: 4, kind: ParseErrorKind::IntegerOutOfRange }
    );
}

#[test]
fn parse_tree_shape_is_left_associative() {
    let e = parse_formula("8 - 3 - 2").unwrap().0;
    assert_eq!(strict_infix_expression(&e), "{{8 - 3} - 2}");
    let e = parse_formula("8 / 4 * 2").unwrap().0;
    assert_eq!(strict_infix_expression(&e), "{{8 / 4} * 2}");
}
