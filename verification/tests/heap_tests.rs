use vibe_lox::interpreter::callable::NativeFunction;
use vibe_lox::interpreter::environment::Environment;
use vibe_lox::interpreter::heap::{CallPlan, Heap, Property};
use vibe_lox::interpreter::value::Value;

#[test]
fn methods_are_found_through_superclasses_and_overridden() {
    let mut heap = Heap::new();
    let base_m = heap.add_function(0, "method".into(), 0, 0, false);
    let sub_m = heap.add_function(1, "method".into(), 0, 0, false);
    let only_base = heap.add_function(2, "other".into(), 0, 0, false);
    let base = heap.add_class("Base".into(), None, vec![("method".into(), base_m), ("other".into(), only_base)]);
    let sub = heap.add_class("Sub".into(), Some(base), vec![("method".into(), sub_m)]);
    assert_eq!(heap.find_method(sub, "method"), Some(sub_m));
    assert_eq!(heap.find_method(sub, "other"), Some(only_base));
    assert_eq!(heap.find_method(base, "method"), Some(base_m));
    assert_eq!(heap.find_method(sub, "missing"), None);
}

#[test]
fn later_methods_of_one_name_win() {
    let mut heap = Heap::new();
    let a = heap.add_function(0, "m".into(), 0, 0, false);
    let b = heap.add_function(1, "m".into(), 0, 0, false);
    let c = heap.add_class("C".into(), None, vec![("m".into(), a), ("m".into(), b)]);
    assert_eq!(heap.find_method(c, "m"), Some(b));
}

#[test]
fn properties_are_fields_first_then_methods() {
    let mut heap = Heap::new();
    let m = heap.add_function(0, "greet".into(), 0, 0, false);
    let c = heap.add_class("Foo".into(), None, vec![("greet".into(), m)]);
    let i = heap.instantiate(c);
    assert!(matches!(heap.get_property(i, "greet"), Property::Method(f) if f == m));
    assert!(matches!(heap.get_property(i, "x"), Property::Missing));
    heap.set_field(i, "greet".into(), Value::Bool(true));
    assert!(matches!(heap.get_property(i, "greet"), Property::Field(Value::Bool(true))));
}

#[test]
fn call_plans_check_arity() {
    let mut heap = Heap::new();
    let f = heap.add_function(0, "f".into(), 2, 0, false);
    match heap.call_plan(&Value::Function(f), 1) {
        CallPlan::Error(m) => assert_eq!(m, "expected 2 arguments but got 1"),
        _ => panic!("expected an arity error"),
    }
    assert!(matches!(heap.call_plan(&Value::Function(f), 2), CallPlan::Function(g) if g == f));
    assert!(matches!(heap.call_plan(&Value::Native(NativeFunction::Clock), 0), CallPlan::Native(NativeFunction::Clock)));
    match heap.call_plan(&Value::Native(NativeFunction::ToNumber), 0) {
        CallPlan::Error(m) => assert_eq!(m, "expected 1 arguments but got 0"),
        _ => panic!("expected an arity error"),
    }
    match heap.call_plan(&Value::Bool(true), 0) {
        CallPlan::Error(m) => assert_eq!(m, "can only call functions and classes"),
        _ => panic!("expected an error"),
    }
}

#[test]
fn calling_a_class_makes_an_instance_and_finds_init() {
    let mut heap = Heap::new();
    let init = heap.add_function(0, "init".into(), 1, 0, true);
    let with_init = heap.add_class("A".into(), None, vec![("init".into(), init)]);
    let plain = heap.add_class("B".into(), None, vec![]);
    assert!(matches!(
        heap.call_plan(&Value::Class(with_init), 1),
        CallPlan::Instantiate { instance: 0, init: Some(g) } if g == init
    ));
    assert!(matches!(heap.call_plan(&Value::Class(plain), 0), CallPlan::Instantiate { instance: 1, init: None }));
    match heap.call_plan(&Value::Class(plain), 2) {
        CallPlan::Error(m) => assert_eq!(m, "expected 0 arguments but got 2"),
        _ => panic!("expected an arity error"),
    }
}

#[test]
fn binding_puts_this_in_a_new_scope() {
    let mut heap = Heap::new();
    let mut env = Environment::new();
    let m = heap.add_function(7, "get".into(), 0, 0, false);
    let c = heap.add_class("Foo".into(), None, vec![("get".into(), m)]);
    let i = heap.instantiate(c);
    let bound = heap.bind(&mut env, m, i);
    let (decl, arity, closure, is_init) = heap.function_info(bound);
    assert_eq!((decl, arity, is_init), (7, 0, false));
    assert_eq!(closure, 1);
    env.set_current(closure);
    assert!(matches!(env.get("this"), Some(Value::Instance(x)) if x == i));
}

#[test]
fn display_of_objects() {
    let mut heap = Heap::new();
    let f = heap.add_function(0, "run".into(), 0, 0, false);
    let c = heap.add_class("Foo".into(), None, vec![]);
    let i = heap.instantiate(c);
    assert_eq!(heap.display(&Value::Function(f)), Some("<fn run>".to_string()));
    assert_eq!(heap.display(&Value::Class(c)), Some("Foo".to_string()));
    assert_eq!(heap.display(&Value::Instance(i)), Some("Foo instance".to_string()));
    assert_eq!(heap.display(&Value::Native(NativeFunction::Clock)), Some("<fn clock>".to_string()));
    assert_eq!(heap.display(&Value::Nil), Some("nil".to_string()));
    assert_eq!(heap.display(&Value::Number(1.5f64.to_bits())), None);
}
