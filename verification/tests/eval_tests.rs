use vibe_lox::ast::{BinaryOp, LogicalOp, UnaryOp};
use vibe_lox::interpreter::eval::{binary_outcome, short_circuits, unary_outcome, NumberOp, Outcome};
use vibe_lox::interpreter::value::Value;

fn num(x: f64) -> Value {
    Value::Number(x.to_bits())
}

#[test]
fn equality_is_decided_without_the_host() {
    assert!(matches!(binary_outcome(BinaryOp::Equal, &num(1.0), &num(1.0)), Outcome::Value(Value::Bool(true))));
    assert!(matches!(binary_outcome(BinaryOp::NotEqual, &num(1.0), &num(2.0)), Outcome::Value(Value::Bool(true))));
    assert!(matches!(binary_outcome(BinaryOp::Equal, &Value::Nil, &Value::Bool(false)), Outcome::Value(Value::Bool(false))));
    assert!(matches!(binary_outcome(BinaryOp::Equal, &num(f64::NAN), &num(f64::NAN)), Outcome::Value(Value::Bool(false))));
}

#[test]
fn plus_concatenates_strings_and_hands_out_numbers() {
    match binary_outcome(BinaryOp::Add, &Value::Str("ab".into()), &Value::Str("cd".into())) {
        Outcome::Value(Value::Str(s)) => assert_eq!(s, "abcd"),
        _ => panic!("expected a string"),
    }
    match binary_outcome(BinaryOp::Add, &num(1.0), &num(2.0)) {
        Outcome::Numbers { op, a, b } => {
            assert_eq!(op, NumberOp::Add);
            assert_eq!((f64::from_bits(a), f64::from_bits(b)), (1.0, 2.0));
        }
        _ => panic!("expected numbers"),
    }
    match binary_outcome(BinaryOp::Add, &num(1.0), &Value::Bool(true)) {
        Outcome::Error(m) => assert_eq!(m, "operands must be two numbers or two strings"),
        _ => panic!("expected an error"),
    }
}

#[test]
fn other_operators_take_two_numbers() {
    match binary_outcome(BinaryOp::LessEqual, &num(3.0), &num(4.0)) {
        Outcome::Numbers { op, .. } => assert_eq!(op, NumberOp::LessEqual),
        _ => panic!("expected numbers"),
    }
    match binary_outcome(BinaryOp::Subtract, &Value::Str("a".into()), &Value::Str("b".into())) {
        Outcome::Error(m) => assert_eq!(m, "operands must be numbers"),
        _ => panic!("expected an error"),
    }
}

#[test]
fn unary_operators() {
    assert!(matches!(unary_outcome(UnaryOp::Not, &Value::Nil), Outcome::Value(Value::Bool(true))));
    assert!(matches!(unary_outcome(UnaryOp::Not, &num(0.0)), Outcome::Value(Value::Bool(false))));
    match unary_outcome(UnaryOp::Negate, &num(5.0)) {
        Outcome::Negate(a) => assert_eq!(f64::from_bits(a), 5.0),
        _ => panic!("expected a negation"),
    }
    match unary_outcome(UnaryOp::Negate, &Value::Str("x".into())) {
        Outcome::Error(m) => assert_eq!(m, "operand must be a number"),
        _ => panic!("expected an error"),
    }
}

#[test]
fn logical_operators_short_circuit() {
    assert!(short_circuits(LogicalOp::Or, &Value::Bool(true)));
    assert!(!short_circuits(LogicalOp::Or, &Value::Nil));
    assert!(short_circuits(LogicalOp::And, &Value::Bool(false)));
    assert!(!short_circuits(LogicalOp::And, &num(0.0)));
}
