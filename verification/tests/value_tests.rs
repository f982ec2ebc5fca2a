use vibe_lox::interpreter::callable::NativeFunction;
use vibe_lox::interpreter::value::Value;

fn num(x: f64) -> Value {
    Value::Number(x.to_bits())
}

#[test]
fn truthiness() {
    assert!(!Value::Nil.is_truthy());
    assert!(!Value::Bool(false).is_truthy());
    assert!(Value::Bool(true).is_truthy());
    assert!(num(0.0).is_truthy());
    assert!(Value::Str(String::new()).is_truthy());
}

#[test]
fn equality_follows_ieee_numbers() {
    assert!(num(1.5).is_equal(&num(1.5)));
    assert!(num(0.0).is_equal(&num(-0.0)));
    assert!(!num(f64::NAN).is_equal(&num(f64::NAN)));
    assert!(!num(1.0).is_equal(&Value::Str("1".to_string())));
    assert!(Value::Nil.is_equal(&Value::Nil));
    assert!(!Value::Nil.is_equal(&Value::Bool(false)));
}

#[test]
fn equality_of_strings_by_contents() {
    assert!(Value::Str("ab".to_string()).is_equal(&Value::Str("ab".to_string())));
    assert!(!Value::Str("ab".to_string()).is_equal(&Value::Str("abc".to_string())));
}

#[test]
fn duplicate_is_equal() {
    let v = Value::Str("x".to_string());
    assert!(v.duplicate().is_equal(&v));
    assert!(matches!(Value::Native(NativeFunction::Clock).duplicate(), Value::Native(NativeFunction::Clock)));
}

#[test]
fn native_names_and_arities() {
    assert_eq!(NativeFunction::Clock.name(), "clock");
    assert_eq!(NativeFunction::ReadLine.name(), "readLine");
    assert_eq!(NativeFunction::ToNumber.name(), "toNumber");
    assert_eq!(NativeFunction::Clock.arity(), 0);
    assert_eq!(NativeFunction::ReadLine.arity(), 0);
    assert_eq!(NativeFunction::ToNumber.arity(), 1);
}
