use arith_expr::expression::{
    ArithmeticExpression, BinaryOperation, Bracket, Expression, Number, Operation,
};
use arith_expr::manipulator::simplify;
use arith_expr::number_value::NumberValue;

fn eq_i32(value: &NumberValue, expected: &i32) {
    match value {
        NumberValue::Integer(actual) => assert_eq!(actual, expected),
    }
}

fn extract_as_number(e: &Expression) -> &Number {
    match e {
        Expression::Number(number) => number,
        _ => panic!("Cannot extract as number"),
    }
}

fn extract_as_binary_operation(e: &Expression) -> &BinaryOperation {
    match e {
        Expression::BinaryOperation(op) => op,
        _ => unreachable!(),
    }
}

fn extract_as_bracket(e: &Expression) -> &Bracket {
    match e {
        Expression::Bracket(x) => x,
        _ => unreachable!(),
    }
}

fn num(v: i32) -> Number {
    Number::from(NumberValue::from(v))
}

// ---- BinaryOperation ----

#[test]
fn binary_operation_step_calc() {
    let left = BinaryOperation::new(num(2), num(3), Operation::Mul);
    let right = BinaryOperation::new(num(4), num(2), Operation::Sub);

    let fixture = BinaryOperation::new(left, right, Operation::Mul);

    let fixture = fixture.step_calc().unwrap();
    assert!(fixture.1);

    let fixture = extract_as_binary_operation(&fixture.0);
    eq_i32(extract_as_number(&fixture.left).number(), &6);

    let _ = extract_as_binary_operation(fixture.right());

    let fixture = fixture.step_calc().unwrap();
    assert!(fixture.1);

    let fixture = extract_as_binary_operation(&fixture.0);
    eq_i32(extract_as_number(&fixture.left).number(), &6);
    eq_i32(extract_as_number(&fixture.right).number(), &2);

    let fixture = fixture.step_calc().unwrap();
    assert!(fixture.1);
    let fixture = extract_as_number(&fixture.0);
    eq_i32(fixture.number(), &12);

    let fixture = fixture.step_calc().unwrap();
    assert!(!fixture.1);
    let fixture = extract_as_number(&fixture.0);
    eq_i32(fixture.number(), &12);
}

#[test]
fn binary_operation_simplify() {
    let left = Bracket::from(num(20).to_expression());
    let right = num(2);

    let bin = BinaryOperation::new(left.to_expression(), right.to_expression(), Operation::Mul);
    let act = bin.simplify();
    let act = extract_as_binary_operation(&act);

    eq_i32(extract_as_number(act.left()).number(), &20);
}

#[test]
fn binary_operation_new() {
    let fixture = BinaryOperation::new(num(200), num(300), Operation::Add);

    eq_i32(extract_as_number(fixture.left()).number(), &200);
    eq_i32(extract_as_number(fixture.right()).number(), &300);
    assert!(matches!(fixture.operation(), &Operation::Add));
}

#[test]
fn add() {
    let fixture = BinaryOperation::new(num(200), num(300), Operation::Add);
    eq_i32(&fixture.calc().unwrap(), &500);
}

#[test]
fn mul() {
    let fixture = BinaryOperation::new(num(200), num(300), Operation::Mul);
    eq_i32(&fixture.calc().unwrap(), &60000);
}

#[test]
fn sub() {
    let fixture = BinaryOperation::new(num(200), num(300), Operation::Sub);
    eq_i32(&fixture.calc().unwrap(), &-100);
}

#[test]
fn div() {
    let fixture = BinaryOperation::new(num(600), num(300), Operation::Div);
    eq_i32(&fixture.calc().unwrap(), &2);
}

#[test]
fn binary_operation_to_expression() {
    let fixture = BinaryOperation::new(num(200), num(300), Operation::Add);
    let expr = fixture.to_expression();

    eq_i32(extract_as_number(extract_as_binary_operation(&expr).left()).number(), &200);
    eq_i32(extract_as_number(extract_as_binary_operation(&expr).right()).number(), &300);
    assert!(matches!(extract_as_binary_operation(&expr).operation(), &Operation::Add));
}

#[test]
fn left() {
    let fixture = BinaryOperation::new(num(200), num(300), Operation::Add);
    eq_i32(extract_as_number(fixture.left()).number(), &200);
}

#[test]
fn right() {
    let fixture = BinaryOperation::new(num(200), num(300), Operation::Add);
    eq_i32(extract_as_number(fixture.right()).number(), &300);
}

#[test]
fn operation() {
    let fixture = BinaryOperation::new(num(200), num(300), Operation::Add);
    assert!(matches!(fixture.operation(), &Operation::Add));

    let fixture = BinaryOperation::new(num(200), num(300), Operation::Sub);
    assert!(matches!(fixture.operation(), &Operation::Sub));

    let fixture = BinaryOperation::new(num(200), num(300), Operation::Mul);
    assert!(matches!(fixture.operation(), &Operation::Mul));

    let fixture = BinaryOperation::new(num(200), num(300), Operation::Div);
    assert!(matches!(fixture.operation(), &Operation::Div));
}

#[test]
fn binary_operation_calc() {
    let fixture = BinaryOperation::new(num(200), num(300), Operation::Add);
    eq_i32(&fixture.calc().unwrap(), &500);
}

#[test]
fn binary_operation_clone() {
    let mut fixture = BinaryOperation::new(num(200), num(300), Operation::Add);
    let act = fixture.clone();

    fixture.left = Box::new(num(2).to_expression());
    fixture.right = Box::new(num(3).to_expression());
    fixture.operation = Operation::Sub;

    eq_i32(&fixture.calc().unwrap(), &-1);

    eq_i32(extract_as_number(act.left()).number(), &200);
    eq_i32(extract_as_number(act.right()).number(), &300);
    assert!(matches!(act.operation(), &Operation::Add));
}

// ---- Bracket ----

#[test]
fn bracket_step_calc() {
    let fixture = Bracket::from(num(300).to_expression());
    let fixture = fixture.step_calc().unwrap();

    assert!(fixture.1);
    eq_i32(extract_as_number(&fixture.0).number(), &300);
}

#[test]
fn bracket_simplify() {
    let fixture = Bracket::from(num(300).to_expression());
    let act = fixture.simplify();

    eq_i32(extract_as_number(&act).number(), &300);

    let fixture = num(42);
    let fixture = Bracket::from(fixture.to_expression());
    let fixture = Bracket::from(fixture.to_expression());
    let fixture = Bracket::from(fixture.to_expression());
    let fixture = Bracket::from(fixture.to_expression());

    eq_i32(extract_as_number(&fixture.simplify()).number(), &42);
}

#[test]
fn from() {
    let fixture = Bracket::from(Expression::Number(num(300)));
    eq_i32(extract_as_number(&fixture.0).number(), &300)
}

#[test]
fn bracket_calc() {
    let bin = BinaryOperation::new(num(200), num(300), Operation::Mul);
    let bracket = Bracket::from(Expression::BinaryOperation(bin));

    let act = bracket.calc();
    eq_i32(&act.unwrap(), &60_000);
}

#[test]
fn bracket_clone() {
    let bin = BinaryOperation::new(num(200), num(300), Operation::Mul);
    let mut bracket = Bracket::from(Expression::BinaryOperation(bin));

    let cloned = bracket.clone();

    bracket = Bracket::from(Expression::Number(num(200)));

    eq_i32(extract_as_number(&bracket.0).number(), &200);

    let fixture = extract_as_binary_operation(&cloned.0);

    eq_i32(extract_as_number(fixture.left()).number(), &200);
    eq_i32(extract_as_number(fixture.right()).number(), &300);
    assert!(matches!(fixture.operation(), &Operation::Mul));
}

#[test]
fn expression() {
    let bin = BinaryOperation::new(num(200), num(300), Operation::Mul);
    let bracket = Bracket::from(Expression::BinaryOperation(bin));
    let expr = bracket.to_expression();

    let fixture = extract_as_binary_operation(extract_as_bracket(&expr).expression());
    eq_i32(extract_as_number(fixture.left()).number(), &200);
    eq_i32(extract_as_number(fixture.right()).number(), &300);
    assert!(matches!(fixture.operation(), &Operation::Mul));
}

// ---- Expression ----

fn create_binary_operation_fixture() -> BinaryOperation {
    BinaryOperation::new(num(100), num(200), Operation::Add)
}

fn create_bracket_fixture() -> Bracket {
    Bracket::from(Expression::Number(num(100)))
}

#[test]
fn extract_number() {
    let fixture = Expression::from(num(100));
    eq_i32(extract_as_number(&fixture).number(), &100);
}

#[test]
#[should_panic]
fn invalid_extract_number_bracket() {
    let fixture = Expression::from(create_bracket_fixture());
    extract_as_number(&fixture);
}

#[test]
#[should_panic]
fn invalid_extract_number_binary() {
    let fixture = Expression::from(create_binary_operation_fixture());
    extract_as_number(&fixture);
}

#[test]
fn extract_binary_operation() {
    let fixture = Expression::from(create_binary_operation_fixture());
    extract_as_binary_operation(&fixture);
}

#[test]
#[should_panic]
fn invalid_extract_binary_operation_number() {
    let fixture = Expression::from(num(100));
    extract_as_binary_operation(&fixture);
}

#[test]
#[should_panic]
fn invalid_extract_binary_operation_bracket() {
    let fixture = Expression::from(create_bracket_fixture());
    extract_as_binary_operation(&fixture);
}

#[test]
fn extract_bracket() {
    let fixture = Expression::from(create_bracket_fixture());
    extract_as_bracket(&fixture);
}

#[test]
#[should_panic]
fn invalid_extract_bracket_number() {
    let fixture = Expression::from(num(100));
    extract_as_bracket(&fixture);
}

#[test]
#[should_panic]
fn invalid_extract_bracket_binary() {
    let fixture = Expression::from(create_binary_operation_fixture());
    extract_as_bracket(&fixture);
}

#[test]
fn expression_step_calc() {
    let fixture = num(200).to_expression();
    let fixture = fixture.step_calc().unwrap();

    assert!(!fixture.1);
    eq_i32(extract_as_number(&fixture.0).number(), &200);

    let fixture = Bracket::from(num(42).to_expression()).to_expression();
    let fixture = fixture.step_calc().unwrap();
    assert!(fixture.1);
    eq_i32(extract_as_number(&fixture.0).number(), &42);

    let fixture = BinaryOperation::new(num(42), num(100), Operation::Add).to_expression();
    let fixture = fixture.step_calc().unwrap();
    assert!(fixture.1);
    eq_i32(extract_as_number(&fixture.0).number(), &142);
}

#[test]
fn expression_simplify() {
    let fixture = Expression::from(num(200));
    let fixture = fixture.simplify();

    eq_i32(extract_as_number(&fixture).number(), &200);

    let fixture = Expression::from(Bracket::from(num(400).to_expression()));
    let fixture = fixture.simplify();

    eq_i32(extract_as_number(&fixture).number(), &400);

    let fixture = Expression::from(BinaryOperation::new(num(10), num(30), Operation::Add));

    let fixture = fixture.simplify();
    let fixture = extract_as_binary_operation(&fixture);

    eq_i32(extract_as_number(fixture.left()).number(), &10);
    eq_i32(extract_as_number(fixture.right()).number(), &30);

    assert!(matches!(fixture.operation(), Operation::Add));
}

#[test]
fn from_number() {
    let fixture = Expression::from(num(300));
    eq_i32(extract_as_number(&fixture).number(), &300);
}

#[test]
fn from_binary_operation() {
    let bin = BinaryOperation::new(num(200), num(300), Operation::Add);
    let fixture = Expression::from(bin);
    let fixture = extract_as_binary_operation(&fixture);

    eq_i32(extract_as_number(fixture.left()).number(), &200);
    eq_i32(extract_as_number(fixture.right()).number(), &300);
    assert!(matches!(fixture.operation(), &Operation::Add));
}

#[test]
fn from_bracket() {
    let fixture = Expression::from(Bracket::from(Expression::Number(num(300))));
    eq_i32(extract_as_number(extract_as_bracket(&fixture).expression()).number(), &300);
}

#[test]
fn expression_to_expression() {
    let fixture = Expression::from(num(300));
    let expr = fixture.to_expression();
    eq_i32(extract_as_number(&expr).number(), &300);

    let fixture = Expression::from(Bracket::from(Expression::Number(num(300))));
    let expr = fixture.to_expression();
    eq_i32(extract_as_number(extract_as_bracket(&expr).expression()).number(), &300);

    let bin = BinaryOperation::new(num(200), num(300), Operation::Add);
    let fixture = Expression::from(bin);
    let expr = fixture.to_expression();

    let fixture = extract_as_binary_operation(&expr);

    eq_i32(extract_as_number(fixture.left()).number(), &200);
    eq_i32(extract_as_number(fixture.right()).number(), &300);
    assert!(matches!(fixture.operation(), &Operation::Add));
}

#[test]
fn expression_calc() {
    let bin = BinaryOperation::new(num(200), num(300), Operation::Add);
    let fixture = Expression::from(bin);
    eq_i32(&fixture.calc().unwrap(), &500);
}

#[test]
fn expression_clone() {
    let bin = BinaryOperation::new(num(200), num(300), Operation::Mul);
    let mut fixture = Expression::from(bin);

    let cloned = fixture.clone();

    fixture = Expression::from(num(200));

    eq_i32(extract_as_number(&fixture).number(), &200);

    let fixture = extract_as_binary_operation(&cloned);

    eq_i32(extract_as_number(fixture.left()).number(), &200);
    eq_i32(extract_as_number(fixture.right()).number(), &300);
    assert!(matches!(fixture.operation(), &Operation::Mul));
}

// ---- simplify ----

#[test]
fn simple_simplify() {
    let tmp = num(42);
    let tmp = Bracket::from(tmp.to_expression());

    let fixture = simplify(&tmp);

    eq_i32(extract_as_number(tmp.expression()).number(), &42);
    eq_i32(extract_as_number(&fixture).number(), &42);
}

// ---- Number ----

#[test]
fn number_simplify() {
    let fixture = num(42);
    let act = fixture.simplify();

    eq_i32(extract_as_number(&act).number(), &42);
}

#[test]
fn number_to_expression() {
    let fixture = num(42);
    let expr = fixture.to_expression();

    eq_i32(&extract_as_number(&expr).0, &42);
}

#[test]
fn from_number_test() {
    for exp in -100i32..=100i32 {
        let n = NumberValue::from(exp);
        let fixture = Number::from(n);

        eq_i32(&fixture.0, &exp)
    }
}

#[test]
fn number_test() {
    let fixture = num(42);
    eq_i32(fixture.number(), &42)
}

#[test]
fn calc_test() {
    for exp in -100..=100 {
        let fixture = num(exp);
        eq_i32(&fixture.calc().unwrap(), &exp)
    }
}

#[test]
fn number_clone_test() {
    let mut fixture = num(42);

    let clone = fixture.clone();
    eq_i32(&clone.0, &42);

    fixture = num(100);
    eq_i32(&fixture.0, &100);

    eq_i32(&clone.0, &42)
}

// ---- properties on concrete values ----

#[test]
fn division_by_zero_reports_operands() {
    let fixture = BinaryOperation::new(num(5), num(0), Operation::Div);
    let err = fixture.calc().err().unwrap();
    eq_i32(err.lhs(), &5);
    eq_i32(err.rhs(), &0);
    assert_eq!(err.message(), "DIV/0!");
}

#[test]
fn first_failure_is_the_left_one() {
    let left = BinaryOperation::new(num(1), num(0), Operation::Div);
    let right = BinaryOperation::new(num(2), num(0), Operation::Div);
    let fixture = BinaryOperation::new(left, right, Operation::Add);
    let err = fixture.calc().err().unwrap();
    eq_i32(err.lhs(), &1);
}

#[test]
fn simplify_twice_equals_simplify_once() {
    let inner = BinaryOperation::new(Bracket::from(num(3).to_expression()), num(4), Operation::Sub);
    let fixture = Bracket::from(BinaryOperation::new(Bracket::from(inner.to_expression()), num(2), Operation::Mul).to_expression());
    let once = simplify(&fixture);
    let twice = simplify(&once);
    assert_eq!(
        arith_expr::formatter::strict_infix_expression(&once),
        arith_expr::formatter::strict_infix_expression(&twice)
    );
    assert_eq!(arith_expr::formatter::strict_infix_expression(&once), "{{3 - 4} * 2}");
    eq_i32(&once.calc().unwrap(), &-2);
    eq_i32(&fixture.calc().unwrap(), &-2);
}

#[test]
fn repeated_steps_end_in_the_value() {
    let left = Bracket::from(BinaryOperation::new(num(7), num(3), Operation::Sub).to_expression());
    let mut e = BinaryOperation::new(left, BinaryOperation::new(num(2), num(5), Operation::Mul), Operation::Add).to_expression();
    let expected = e.calc().unwrap();
    let mut steps = 0;
    loop {
        let (next, progressed) = e.step_calc().unwrap();
        e = next;
        if !progressed {
            break;
        }
        steps += 1;
        assert!(steps < 100);
    }
    assert_eq!(steps, 4);
    assert_eq!(*extract_as_number(&e).number(), expected);
    eq_i32(&expected, &14);
}

#[test]
fn step_into_division_by_zero_fails() {
    let inner = BinaryOperation::new(num(5), num(0), Operation::Div);
    let e = BinaryOperation::new(Bracket::from(inner.to_expression()), num(1), Operation::Add).to_expression();
    let (e, progressed) = e.step_calc().unwrap();
    assert!(progressed);
    let err = e.step_calc().err().unwrap();
    eq_i32(err.lhs(), &5);
    eq_i32(err.rhs(), &0);
    assert_eq!(err.message(), "DIV/0!");
}
