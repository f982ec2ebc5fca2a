use vibe_lox::ast::Program;
use vibe_lox::error::CompileError;
use vibe_lox::interpreter::resolver::Resolver;
use vibe_lox::interpreter::callable::NativeFunction;
use vibe_lox::interpreter::value::Value;
use vibe_lox::interpreter::Interpreter;
use vibe_lox::parser::Parser;
use vibe_lox::scanner;
use std::collections::HashMap;

fn program(source: &str) -> Program {
    Parser::new(scanner::scan(source).expect("scan")).parse().expect("parse")
}

fn resolve(source: &str) -> Result<HashMap<usize, usize>, Vec<CompileError>> {
    Resolver::new().resolve(&program(source))
}

#[test]
fn globals_are_not_resolved() {
    let locals = resolve("var a = 1; print a;").expect("resolves");
    assert!(locals.is_empty());
}

#[test]
fn block_locals_get_their_depth() {
    let locals = resolve("{ var a = 1; { print a; } }").expect("resolves");
    assert_eq!(locals.len(), 1);
    assert_eq!(locals.values().copied().collect::<Vec<_>>(), vec![1]);
}

#[test]
fn reading_local_in_own_initializer_is_an_error() {
    let errors = resolve("{ var a = a; }").unwrap_err();
    assert_eq!(errors.len(), 1);
    assert!(matches!(errors[0], CompileError::Resolve { .. }));
}

#[test]
fn top_level_return_is_an_error() {
    let errors = resolve("return 1;").unwrap_err();
    assert_eq!(errors.len(), 1);
}

#[test]
fn this_outside_class_is_an_error() {
    assert!(resolve("print this;").is_err());
    assert!(resolve("class A { m() { return this; } }").is_ok());
}

#[test]
fn duplicate_local_is_an_error() {
    assert!(resolve("{ var a = 1; var a = 2; }").is_err());
    assert!(resolve("var a = 1; var a = 2;").is_ok());
}

#[test]
fn class_inheriting_from_itself_is_an_error() {
    assert!(resolve("class A < A {}").is_err());
}

#[test]
fn interpreter_merges_resolutions() {
    let mut interp = Interpreter::new();
    let first = resolve("{ var a = 1; print a; }").expect("resolves");
    let n = first.len();
    interp.merge_locals(first);
    assert_eq!(interp.locals.len(), n);
    let mut later = HashMap::new();
    later.insert(1000usize, 7usize);
    interp.merge_locals(later);
    assert_eq!(interp.locals.get(&1000), Some(&7));
    assert_eq!(interp.locals.len(), n + 1);
    interp.set_source("print 1;");
    assert_eq!(interp.source, "print 1;");
    assert!(interp.output().is_empty());
    assert!(interp.environment().get("clock").is_some());
    assert!(matches!(interp.environment().get("readLine"), Some(Value::Native(NativeFunction::ReadLine))));
    assert!(matches!(interp.environment().get("toNumber"), Some(Value::Native(NativeFunction::ToNumber))));
    assert!(interp.environment().get("print").is_none());
}

#[test]
fn default_resolver_and_interpreter() {
    let locals = Resolver::default().resolve(&program("{ var a; a = 1; }")).expect("resolves");
    assert_eq!(locals.len(), 1);
    let interp = Interpreter::default();
    assert!(interp.locals.is_empty());
    assert!(interp.call_stack.is_empty());
}
