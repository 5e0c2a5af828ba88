use lax::interpreter::Interpreter;
use lax::number::equal;
use lax::number::less;
use lax::number::less_or_equal;
use lax::number::nan;
use lax::number::negate;
use lax::token::TokenType;
use lax::token::Value;

fn samples() -> Vec<f64> {
    vec![
        0.0,
        -0.0,
        1.0,
        -1.0,
        2.0,
        3.0,
        0.1,
        0.2,
        0.3,
        1e-320,
        -1e-320,
        5e-324,
        1.7976931348623157e308,
        -1.7976931348623157e308,
        2.2250738585072014e-308,
        9007199254740992.0,
        9007199254740993.0,
        123456789.125,
        -7.75,
        1e100,
        1e-100,
        f64::INFINITY,
        f64::NEG_INFINITY,
        f64::NAN,
    ]
}

fn apply(operator: TokenType, a: f64, b: f64) -> Value {
    Interpreter::binary_value(operator, &Value::Num(a.to_bits()), &Value::Num(b.to_bits()))
        .expect("operator on numbers")
}

fn number(v: Value) -> f64 {
    match v {
        Value::Num(bits) => f64::from_bits(bits),
        other => panic!("not a number: {:?}", other),
    }
}

fn truth(v: Value) -> bool {
    match v {
        Value::Bool(b) => b,
        other => panic!("not a boolean: {:?}", other),
    }
}

fn same(a: f64, b: f64) -> bool {
    (a.is_nan() && b.is_nan()) || a.to_bits() == b.to_bits()
}

#[test]
fn arithmetic_agrees_with_the_machine() {
    for a in samples() {
        for b in samples() {
            assert!(same(number(apply(TokenType::Plus, a, b)), a + b), "{} + {}", a, b);
            assert!(same(number(apply(TokenType::Minus, a, b)), a - b), "{} - {}", a, b);
            assert!(same(number(apply(TokenType::Star, a, b)), a * b), "{} * {}", a, b);
            assert!(same(number(apply(TokenType::Slash, a, b)), a / b), "{} / {}", a, b);
        }
    }
}

#[test]
fn exact_sums_and_quotients() {
    assert_eq!(number(apply(TokenType::Plus, 1.0, 2.0)), 3.0);
    assert_eq!(number(apply(TokenType::Plus, 0.1, 0.2)).to_bits(), 0x3fd3333333333334);
    assert_eq!(number(apply(TokenType::Minus, 1.0, 2.0)), -1.0);
    assert_eq!(number(apply(TokenType::Star, 3.0, 4.0)), 12.0);
    assert_eq!(number(apply(TokenType::Slash, 1.0, 3.0)).to_bits(), 0x3fd5555555555555);
    assert_eq!(number(apply(TokenType::Slash, 1.0, 0.0)), f64::INFINITY);
    assert!(number(apply(TokenType::Slash, 0.0, 0.0)).is_nan());
}

#[test]
fn comparisons_agree_with_the_machine() {
    for a in samples() {
        for b in samples() {
            assert_eq!(truth(apply(TokenType::Less, a, b)), a < b, "{} < {}", a, b);
            assert_eq!(truth(apply(TokenType::LessEqual, a, b)), a <= b, "{} <= {}", a, b);
            assert_eq!(truth(apply(TokenType::Greater, a, b)), a > b, "{} > {}", a, b);
            assert_eq!(truth(apply(TokenType::GreaterEqual, a, b)), a >= b, "{} >= {}", a, b);
            assert_eq!(truth(apply(TokenType::EqualEqual, a, b)), a == b, "{} == {}", a, b);
            assert_eq!(less(a.to_bits(), b.to_bits()), a < b);
            assert_eq!(less_or_equal(a.to_bits(), b.to_bits()), a <= b);
            assert_eq!(equal(a.to_bits(), b.to_bits()), a == b);
        }
    }
}

#[test]
fn negation_flips_the_sign() {
    for a in samples() {
        assert!(same(f64::from_bits(negate(a.to_bits())), -a));
        assert_eq!(nan(a.to_bits()), a.is_nan());
    }
    assert_eq!(negate(0), 0x8000_0000_0000_0000);
    assert_eq!(negate(0x8000_0000_0000_0000), 0);
    match Interpreter::unary_value(TokenType::Minus, &Value::Num(2.5f64.to_bits())) {
        Some(Value::Num(bits)) => assert_eq!(f64::from_bits(bits), -2.5),
        other => panic!("{:?}", other),
    }
    assert!(Interpreter::unary_value(TokenType::Minus, &Value::Nil).is_none());
    assert!(matches!(Interpreter::unary_value(TokenType::Bang, &Value::Nil), Some(Value::Bool(true))));
    assert!(matches!(
        Interpreter::unary_value(TokenType::Bang, &Value::Num(0)),
        Some(Value::Bool(false))
    ));
}

#[test]
fn operators_on_strings_and_mixed_values() {
    let a = Value::new_string(b"ab".to_vec());
    let b = Value::new_string(b"cd".to_vec());
    match Interpreter::binary_value(TokenType::Plus, &a, &b) {
        Ok(Value::String(s)) => assert_eq!(*s, b"abcd".to_vec()),
        other => panic!("{:?}", other),
    }
    assert!(matches!(
        Interpreter::binary_value(TokenType::EqualEqual, &a, &b),
        Ok(Value::Bool(false))
    ));
    assert!(matches!(
        Interpreter::binary_value(TokenType::EqualEqual, &a, &Value::new_string(b"ab".to_vec())),
        Ok(Value::Bool(true))
    ));
    assert_eq!(
        Interpreter::binary_value(TokenType::Less, &a, &b).unwrap_err(),
        "Operator cannot be used on strings"
    );
    assert_eq!(
        Interpreter::binary_value(TokenType::BangEqual, &Value::Num(0), &Value::Num(0)).unwrap_err(),
        "Operator cannot be used on numbers"
    );
    assert_eq!(
        Interpreter::binary_value(TokenType::Plus, &a, &Value::Num(0)).unwrap_err(),
        "Operator cannot be used on values of this type"
    );
    assert!(matches!(
        Interpreter::binary_value(TokenType::EqualEqual, &Value::Nil, &Value::Nil),
        Ok(Value::Bool(true))
    ));
    assert!(matches!(
        Interpreter::binary_value(TokenType::BangEqual, &Value::Nil, &Value::Bool(false)),
        Ok(Value::Bool(true))
    ));
    assert!(matches!(
        Interpreter::binary_value(TokenType::EqualEqual, &Value::LaxObject(1), &Value::LaxObject(1)),
        Ok(Value::Bool(true))
    ));
    assert!(matches!(
        Interpreter::binary_value(TokenType::EqualEqual, &Value::LaxObject(1), &Value::LaxObject(2)),
        Ok(Value::Bool(false))
    ));
}
