use vibe_lox::ast::Program;
use vibe_lox::codegen::capture::{analyze_captures, CaptureInfo, CapturedVar};
use vibe_lox::parser::Parser;
use vibe_lox::scanner;

fn analyze(source: &str) -> CaptureInfo {
    let program: Program = Parser::new(scanner::scan(source).expect("scan")).parse().expect("parse");
    analyze_captures(&program)
}

fn var(name: &str, f: &str) -> CapturedVar {
    CapturedVar { var_name: name.to_string(), declaring_function: f.to_string() }
}

#[test]
fn closure_captures_enclosing_local() {
    let info = analyze("fun outer() { var x = 1; fun inner() { return x; } return inner; }");
    assert_eq!(info.captured_vars, vec![var("x", "outer")]);
    assert_eq!(info.function_captures, vec![("inner".to_string(), vec!["x".to_string()])]);
}

#[test]
fn globals_are_not_captured() {
    let info = analyze("var g = 1; fun f() { return g; } fun h() { g = 2; }");
    assert!(info.captured_vars.is_empty());
    assert!(info.function_captures.is_empty());
}

#[test]
fn own_locals_and_parameters_are_not_captured() {
    let info = analyze("fun f(a) { var b = a; return b; }");
    assert!(info.captured_vars.is_empty());
    assert!(info.function_captures.is_empty());
}

#[test]
fn intermediate_functions_carry_the_capture() {
    let info = analyze("fun a() { var x = 1; fun b() { fun c() { return x; } return c; } return b; }");
    assert_eq!(info.captured_vars, vec![var("x", "a")]);
    assert_eq!(
        info.function_captures,
        vec![("c".to_string(), vec!["x".to_string()]), ("b".to_string(), vec!["x".to_string()])]
    );
}

#[test]
fn captures_are_listed_once_in_first_use_order() {
    let info = analyze("fun o() { var x = 1; var y = 2; fun i() { x = y + x; return y; } }");
    assert_eq!(info.captured_vars, vec![var("y", "o"), var("x", "o")]);
    assert_eq!(info.function_captures, vec![("i".to_string(), vec!["y".to_string(), "x".to_string()])]);
}

#[test]
fn shadowing_parameter_stops_capture() {
    let info = analyze("fun o() { var x = 1; fun i(x) { return x; } }");
    assert!(info.captured_vars.is_empty());
}

#[test]
fn same_named_nested_function_still_captures() {
    let info = analyze("fun f() { var x; fun f() { print x; } }");
    assert_eq!(info.captured_vars, vec![var("x", "f")]);
    assert_eq!(info.function_captures, vec![("f".to_string(), vec!["x".to_string()])]);
}

#[test]
fn use_in_declaring_function_is_not_captured_even_when_names_repeat() {
    let info = analyze("fun g() { fun g() { var y = 1; print y; } }");
    assert!(info.captured_vars.is_empty());
}
