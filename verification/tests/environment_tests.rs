use vibe_lox::interpreter::callable::NativeFunction;
use vibe_lox::interpreter::{Interpreter, VariableError};
use vibe_lox::interpreter::environment::Environment;
use vibe_lox::interpreter::value::Value;

fn num(x: f64) -> Value {
    Value::Number(x.to_bits())
}

fn is_num(v: Option<Value>, x: f64) -> bool {
    matches!(v, Some(Value::Number(n)) if f64::from_bits(n) == x)
}

#[test]
fn define_and_get() {
    let mut env = Environment::new();
    env.define("x".to_string(), num(42.0));
    assert!(is_num(env.get("x"), 42.0));
}

#[test]
fn get_undefined_returns_none() {
    let env = Environment::new();
    assert!(env.get("x").is_none());
}

#[test]
fn enclosing_scope() {
    let mut env = Environment::new();
    env.define("x".to_string(), num(1.0));
    let global = env.current();
    let inner = env.with_enclosing(global);
    env.set_current(inner);
    assert!(is_num(env.get("x"), 1.0));
}

#[test]
fn assign_updates_value() {
    let mut env = Environment::new();
    env.define("x".to_string(), num(1.0));
    assert!(env.assign("x", num(2.0)));
    assert!(is_num(env.get("x"), 2.0));
}

#[test]
fn assign_undefined_returns_false() {
    let mut env = Environment::new();
    assert!(!env.assign("x", num(1.0)));
}

#[test]
fn get_at_depth() {
    let mut env = Environment::new();
    env.define("x".to_string(), num(10.0));
    let global = env.current();
    let inner = env.with_enclosing(global);
    env.set_current(inner);
    assert!(is_num(env.get_at(1, "x"), 10.0));
}

#[test]
fn inner_definition_shadows_outer() {
    let mut env = Environment::new();
    env.define("x".to_string(), num(1.0));
    let global = env.current();
    let inner = env.with_enclosing(global);
    env.set_current(inner);
    env.define("x".to_string(), num(2.0));
    assert!(is_num(env.get("x"), 2.0));
    assert!(is_num(env.get_at(0, "x"), 2.0));
    assert!(is_num(env.get_at(1, "x"), 1.0));
    env.set_current(global);
    assert!(is_num(env.get("x"), 1.0));
}

#[test]
fn assign_reaches_enclosing_scope() {
    let mut env = Environment::new();
    env.define("x".to_string(), num(1.0));
    let global = env.current();
    let inner = env.with_enclosing(global);
    env.set_current(inner);
    assert!(env.assign("x", num(5.0)));
    env.set_current(global);
    assert!(is_num(env.get("x"), 5.0));
}

#[test]
fn assign_at_writes_the_named_depth() {
    let mut env = Environment::new();
    env.define("x".to_string(), num(1.0));
    let global = env.current();
    let inner = env.with_enclosing(global);
    env.set_current(inner);
    env.assign_at(1, "x", Value::Bool(true));
    assert!(matches!(env.get_at(1, "x"), Some(Value::Bool(true))));
    assert!(env.get_at(0, "x").is_none());
    assert!(matches!(env.get("x"), Some(Value::Bool(true))));
}

#[test]
fn define_then_get_returns_what_was_written() {
    let mut env = Environment::new();
    env.define("s".to_string(), Value::Str("hi".to_string()));
    env.define("s".to_string(), Value::Str("again".to_string()));
    assert!(matches!(env.get("s"), Some(Value::Str(ref t)) if t == "again"));
}

#[test]
fn default_environment_is_empty() {
    let env = Environment::default();
    assert!(env.get("x").is_none());
    assert_eq!(env.current(), 0);
    assert!(env.reaches(0));
    assert!(!env.reaches(1));
    assert_eq!(env.scope_total(), 1);
}

#[test]
fn interpreter_variables_follow_the_resolver() {
    let mut it = Interpreter::new();
    assert!(matches!(it.look_up_variable("clock", 1), Ok(Value::Native(NativeFunction::Clock))));
    assert!(matches!(it.look_up_variable("nope", 1), Err(VariableError::Undefined)));
    assert!(matches!(it.assign_variable("nope", 1, Value::Nil), Err(VariableError::Undefined)));
    it.environment.define("g".to_string(), Value::Bool(false));
    assert!(it.assign_variable("g", 2, Value::Bool(true)).is_ok());
    assert!(matches!(it.look_up_variable("g", 2), Ok(Value::Bool(true))));
    let inner = it.environment.with_enclosing(0);
    it.environment.set_current(inner);
    it.environment.define("x".to_string(), Value::Nil);
    it.locals.insert(7, 0);
    it.locals.insert(8, 3);
    assert!(matches!(it.look_up_variable("x", 7), Ok(Value::Nil)));
    assert!(matches!(it.look_up_variable("x", 8), Err(VariableError::Unresolved)));
    assert!(it.assign_variable("x", 7, Value::Bool(true)).is_ok());
    assert!(matches!(it.look_up_variable("x", 7), Ok(Value::Bool(true))));
}
