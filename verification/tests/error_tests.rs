use vibe_lox::error::{backtrace_requested, format_backtrace, offset_to_line, CompileError, ErrorPhase, RuntimeError, StackFrame};
use vibe_lox::interpreter::value::Value;
use vibe_lox::scanner::token::Span;

fn frames() -> Vec<StackFrame> {
    vec![
        StackFrame { function_name: "inner".to_string(), line: 6 },
        StackFrame { function_name: "outer".to_string(), line: 10 },
        StackFrame { function_name: "<script>".to_string(), line: 13 },
    ]
}

#[test]
fn compile_error_all_variants() {
    let scan = CompileError::scan("test".to_string(), 0, 1);
    let parse = CompileError::parse("test".to_string(), 0, 1);
    let resolve = CompileError::resolve("test".to_string(), 0, 1);
    assert!(matches!(scan, CompileError::Scan { .. }));
    assert!(matches!(parse, CompileError::Parse { .. }));
    assert!(matches!(resolve, CompileError::Resolve { .. }));
}

#[test]
fn runtime_error_simple() {
    let err = RuntimeError::new("undefined variable 'x'".to_string());
    assert!(matches!(err, RuntimeError::Error { .. }));
    assert!(!err.is_return());
}

#[test]
fn runtime_error_with_span() {
    let span = Span { offset: 10, len: 5 };
    let err = RuntimeError::with_span("type error".to_string(), span);
    assert!(matches!(err, RuntimeError::Error { span: Some(_), .. }));
}

#[test]
fn runtime_error_return() {
    let err = RuntimeError::Return { value: Value::Number(42.0f64.to_bits()) };
    assert!(err.is_return());
    let value = err.into_return_value();
    assert!(matches!(value, Some(Value::Number(n)) if f64::from_bits(n) == 42.0));
}

#[test]
fn offset_to_line_basic() {
    let source = "line 1\nline 2\nline 3";
    assert_eq!(offset_to_line(source, 0), 1);
    assert_eq!(offset_to_line(source, 7), 2);
    assert_eq!(offset_to_line(source, 14), 3);
}

#[test]
fn offset_to_line_middle() {
    let source = "var x = 1;\nvar y = x + z;\n";
    assert_eq!(offset_to_line(source, 5), 1);
    assert_eq!(offset_to_line(source, 21), 2);
}

#[test]
fn runtime_error_display_with_line() {
    let source = "var x = 1;\nvar y = x + z;\n";
    let span = Span { offset: 21, len: 1 };
    let err = RuntimeError::with_span("undefined variable 'z'".to_string(), span);
    let display = err.display_with_line(source);
    assert_eq!(display, "Error: line 2: undefined variable 'z'");
}

#[test]
fn runtime_error_display_no_span() {
    let err = RuntimeError::new("operands must be numbers".to_string());
    let display = err.display_with_line("dummy source");
    assert_eq!(display, "Error: operands must be numbers");
}

#[test]
fn offset_to_line_at_newline() {
    let source = "line1\nline2\n";
    assert_eq!(offset_to_line(source, 5), 1);
    assert_eq!(offset_to_line(source, 6), 2);
}

#[test]
fn offset_to_line_past_end() {
    let source = "short";
    assert_eq!(offset_to_line(source, 100), 1);
}

#[test]
fn runtime_error_with_backtrace() {
    let err = RuntimeError::new("operand must be a number".to_string()).with_backtrace(frames());
    let frames = err.backtrace_frames();
    assert_eq!(frames.len(), 3);
    assert_eq!(frames[0].function_name, "inner");
    assert_eq!(frames[0].line, 6);
    assert_eq!(frames[2].function_name, "<script>");
}

#[test]
fn runtime_error_empty_backtrace() {
    let err = RuntimeError::new("some error".to_string());
    assert!(err.backtrace_frames().is_empty());
}

#[test]
fn format_backtrace_renders_correctly() {
    let frames = frames();
    let output = format_backtrace(&frames);
    assert!(output.starts_with("stack backtrace:\n"));
    assert!(output.contains("0: inner()"));
    assert!(output.contains("[line 6]"));
    assert!(output.contains("1: outer()"));
    assert!(output.contains("2: <script>()"));
}

#[test]
fn format_backtrace_empty_returns_empty_string() {
    assert_eq!(format_backtrace(&[]), "");
}

#[test]
fn format_backtrace_exact_text() {
    let output = format_backtrace(&frames()[..1]);
    assert_eq!(output, "stack backtrace:\n  0: inner()\t\t[line 6]\n");
}

#[test]
fn runtime_error_to_string_forms() {
    assert_eq!(RuntimeError::new("boom".to_string()).to_string(), "Error: boom");
    let ret = RuntimeError::Return { value: Value::Nil };
    assert_eq!(ret.to_string(), "return");
    assert_eq!(ret.display_with_line("x"), "Error: unexpected return");
}

#[test]
fn return_value_by_reference() {
    let ret = RuntimeError::Return { value: Value::Bool(true) };
    assert!(matches!(ret.as_return_value(), Some(Value::Bool(true))));
    let err = RuntimeError::new("e".to_string());
    assert!(err.as_return_value().is_none());
    assert!(err.into_return_value().is_none());
}

#[test]
fn with_backtrace_keeps_message_and_span() {
    let err = RuntimeError::with_span("m".to_string(), Span::new(3, 1)).with_backtrace(frames());
    match err {
        RuntimeError::Error { message, span, backtrace } => {
            assert_eq!(message, "m");
            assert_eq!(span, Some(Span::new(3, 1)));
            assert_eq!(backtrace.len(), 3);
        }
        RuntimeError::Return { .. } => panic!("expected an error"),
    }
}

#[test]
fn compile_error_display_and_parts() {
    let e = CompileError::parse("expected ';'".to_string(), 4, 1);
    assert_eq!(e.message(), "expected ';'");
    assert_eq!(e.span(), Span::new(4, 1));
    let e = e.with_source_code("<repl>".to_string(), "var x".to_string());
    assert_eq!(e.source_name(), "<repl>");
    assert_eq!(e.source_code(), "var x");
    assert_eq!(CompileError::scan("bad".to_string(), 0, 1).to_string(), "scan error: bad");
    assert_eq!(CompileError::compile("too big".to_string(), 0, 0).to_string(), "compile error: too big");
    let _ = ErrorPhase::Resolve;
}

#[test]
fn compile_error_with_source() {
    let err = CompileError::parse("expected ';'".to_string(), 5, 1)
        .with_source_code("test.lox".to_string(), "var x = 1\n".to_string());
    assert!(matches!(err, CompileError::Parse { .. }));
    assert_eq!(err.source_name(), "test.lox");
    assert_eq!(err.span(), Span::new(5, 1));
}

#[test]
fn offset_lines_grow_with_the_offset_and_stay_in_range() {
    let source = "a\nbb\n\nccc";
    let newlines = source.matches('\n').count();
    let mut previous = 1;
    for offset in 0..=source.len() + 3 {
        let line = offset_to_line(source, offset);
        assert!(line >= previous);
        assert!(line >= 1 && line <= newlines + 1);
        previous = line;
    }
    assert_eq!(offset_to_line(source, source.len() + 3), 4);
}

#[test]
fn backtrace_switch_values() {
    assert!(backtrace_requested(Some("1")));
    assert!(backtrace_requested(Some("full")));
    assert!(!backtrace_requested(Some("0")));
    assert!(!backtrace_requested(Some("")));
    assert!(!backtrace_requested(None));
}
