use arith_expr::number_value::{ArithmeticError, NumberValue};

fn eq_i32(value: &NumberValue, expected: &i32) {
    match value {
        NumberValue::Integer(actual) => assert_eq!(actual, expected),
    }
}

fn not_eq_i32(value: &NumberValue, expected: &i32) {
    match value {
        NumberValue::Integer(actual) => assert_ne!(actual, expected),
    }
}

fn eq_number(value: &NumberValue, expected: &NumberValue) {
    match expected {
        NumberValue::Integer(e) => eq_i32(value, e),
    }
}

fn not_eq_number(value: &NumberValue, expected: &NumberValue) {
    match expected {
        NumberValue::Integer(e) => not_eq_i32(value, e),
    }
}

#[test]
fn eq_true_test() {
    for expected in -100..=100 {
        let act = NumberValue::Integer(expected);
        let e = NumberValue::Integer(expected);

        eq_i32(&act, &expected);
        eq_number(&act, &e);
    }
}

#[test]
fn eq_false_test() {
    for exp in -100..=100 {
        let num = NumberValue::Integer(exp);
        not_eq_i32(&num, &(exp + 1));

        let num = NumberValue::Integer(exp);
        let num2 = NumberValue::Integer(exp + 1);
        not_eq_number(&num, &num2);
    }
}

#[test]
fn form_test() {
    for exp in -100..=100 {
        eq_i32(&NumberValue::from(exp), &exp)
    }
}

#[test]
fn add_test() {
    let a = NumberValue::Integer(10);
    let b = NumberValue::Integer(33);

    eq_i32(&a.add(b).unwrap(), &43)
}

#[test]
fn sub_test() {
    let a = NumberValue::Integer(10);
    let b = NumberValue::Integer(33);

    eq_i32(&a.sub(b).unwrap(), &-23)
}

#[test]
fn mul_test() {
    let a = NumberValue::Integer(10);
    let b = NumberValue::Integer(33);

    eq_i32(&a.mul(b).unwrap(), &330)
}

#[test]
fn div_test() {
    let a = NumberValue::Integer(88);
    let b = NumberValue::Integer(33);

    eq_i32(&a.div(b).unwrap(), &2)
}

#[test]
fn div_zero_test() {
    let a = NumberValue::Integer(100);
    let b = NumberValue::Integer(0);

    let act = a.div(b).err().unwrap();

    eq_i32(act.lhs(), &100);
    eq_i32(act.rhs(), &0);

    assert_eq!(act.message(), "DIV/0!");
    eq_i32(act.rhs(), &0);
    eq_i32(act.lhs(), &100);

    let txt = act.to_string();
    assert_eq!("lhs:100i32 rhs:0i32 msg:DIV/0!", txt);
}

#[test]
fn rem_test() {
    let a = NumberValue::Integer(88);
    let b = NumberValue::Integer(33);

    eq_i32(&a.rem(b).unwrap(), &22)
}

#[test]
fn number_value_clone_test() {
    let mut a = NumberValue::Integer(88);
    let b = a.clone();

    eq_number(&a, &b);

    a = NumberValue::Integer(33);
    not_eq_number(&a, &b);
}

#[test]
fn debug_test() {
    let num = NumberValue::Integer(100);
    let act = num.to_string();
    assert_eq!("100i32", act)
}

#[test]
fn display_test() {
    let num = NumberValue::Integer(100);
    let act = num.to_string();
    assert_eq!("100i32", act)
}

#[test]
fn negative_value_text() {
    assert_eq!(NumberValue::Integer(-2147483648).to_string(), "-2147483648i32");
    assert_eq!(NumberValue::Integer(0).to_string(), "0i32");
}

#[test]
fn rem_by_zero_fails() {
    let act = NumberValue::Integer(7).rem(NumberValue::Integer(0)).err().unwrap();
    eq_i32(act.lhs(), &7);
    eq_i32(act.rhs(), &0);
    assert_eq!(act.message(), "DIV/0!");
}

#[test]
fn division_truncates_toward_zero() {
    eq_i32(&NumberValue::Integer(-7).div(NumberValue::Integer(2)).unwrap(), &-3);
    eq_i32(&NumberValue::Integer(7).div(NumberValue::Integer(-2)).unwrap(), &-3);
    eq_i32(&NumberValue::Integer(-7).rem(NumberValue::Integer(2)).unwrap(), &-1);
    eq_i32(&NumberValue::Integer(7).rem(NumberValue::Integer(-2)).unwrap(), &1);
}

#[test]
fn overflow_wraps() {
    eq_i32(&NumberValue::Integer(i32::MAX).add(NumberValue::Integer(1)).unwrap(), &i32::MIN);
    eq_i32(&NumberValue::Integer(i32::MIN).sub(NumberValue::Integer(1)).unwrap(), &i32::MAX);
    eq_i32(&NumberValue::Integer(65536).mul(NumberValue::Integer(65536)).unwrap(), &0);
    eq_i32(&NumberValue::Integer(i32::MIN).div(NumberValue::Integer(-1)).unwrap(), &i32::MIN);
    eq_i32(&NumberValue::Integer(i32::MIN).rem(NumberValue::Integer(-1)).unwrap(), &0);
}

#[test]
fn error_constructor_keeps_operands() {
    let e = ArithmeticError::new(&NumberValue::Integer(3), &NumberValue::Integer(4), "msg");
    eq_i32(e.lhs(), &3);
    eq_i32(e.rhs(), &4);
    assert_eq!(e.message(), "msg");
    assert_eq!(e.to_string(), "lhs:3i32 rhs:4i32 msg:msg");
}
