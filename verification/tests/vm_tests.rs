use vibe_lox::interpreter::callable::NativeFunction;
use vibe_lox::parser::Parser;
use vibe_lox::scanner;
use vibe_lox::vm::compiler::Compiler;
use vibe_lox::vm::machine::{ArithOp, VmAction, VmEvent, VmState};

fn number_text(n: f64) -> String {
    if n.fract() == 0.0 {
        format!("{}", n as i64)
    } else {
        format!("{n}")
    }
}

fn number(n: f64) -> VmEvent {
    VmEvent::Number(n.to_bits())
}

/// Drive the machine to its end, doing the host's part; the printed lines,
/// or the first runtime error's message.
fn drive(source: &str) -> Result<Vec<String>, String> {
    let tokens = scanner::scan(source).expect("scan");
    let program = Parser::new(tokens).parse().expect("parse");
    let chunk = Compiler::new().compile(&program).expect("compile");
    let mut state = VmState::new(chunk);
    let mut output = Vec::new();
    let mut event = VmEvent::Resume;
    loop {
        event = match state.step(event) {
            VmAction::Continue => VmEvent::Resume,
            VmAction::Arithmetic { op, a, b } => {
                let (x, y) = (f64::from_bits(a), f64::from_bits(b));
                match op {
                    ArithOp::Add => number(x + y),
                    ArithOp::Subtract => number(x - y),
                    ArithOp::Multiply => number(x * y),
                    ArithOp::Divide => number(x / y),
                    ArithOp::Greater => VmEvent::Bool(x > y),
                    ArithOp::Less => VmEvent::Bool(x < y),
                }
            }
            VmAction::Negate { a } => number(-f64::from_bits(a)),
            VmAction::ParseNumber(t) => number(t.parse::<f64>().expect("number")),
            VmAction::Print(t) => {
                output.push(t);
                VmEvent::Resume
            }
            VmAction::PrintNumber(a) => {
                output.push(number_text(f64::from_bits(a)));
                VmEvent::Resume
            }
            VmAction::CallNative(NativeFunction::Clock) => number(1_700_000_000.5),
            VmAction::CallNative(_) => return Err("native".to_string()),
            VmAction::Halt => return Ok(output),
            VmAction::Fail(m) => return Err(m),
        };
    }
}

fn run_vm(source: &str) -> Vec<String> {
    drive(source).expect("interpret")
}

fn run_vm_err(source: &str) -> String {
    drive(source).unwrap_err()
}

#[test]
fn vm_arithmetic() {
    for (source, expected) in [
        ("print 1 + 2;", "3"),
        ("print 10 - 3;", "7"),
        ("print 2 * 3;", "6"),
        ("print 10 / 4;", "2.5"),
        ("print -5;", "-5"),
    ] {
        assert_eq!(run_vm(source), vec![expected]);
    }
}

#[test]
fn vm_string_concat() {
    assert_eq!(run_vm("print \"hello\" + \" world\";"), vec!["hello world"]);
}

#[test]
fn vm_variables() {
    assert_eq!(run_vm("var x = 10; print x;"), vec!["10"]);
}

#[test]
fn vm_blocks_scoping() {
    assert_eq!(
        run_vm("var x = 1; { var x = 2; print x; } print x;"),
        vec!["2", "1"]
    );
}

#[test]
fn vm_if_else() {
    assert_eq!(run_vm("if (true) print 1; else print 2;"), vec!["1"]);
}

#[test]
fn vm_while_loop() {
    assert_eq!(
        run_vm("var i = 0; while (i < 3) { print i; i = i + 1; }"),
        vec!["0", "1", "2"]
    );
}

#[test]
fn vm_for_loop() {
    assert_eq!(
        run_vm("for (var i = 0; i < 3; i = i + 1) print i;"),
        vec!["0", "1", "2"]
    );
}

#[test]
fn vm_functions() {
    assert_eq!(
        run_vm("fun add(a, b) { return a + b; } print add(1, 2);"),
        vec!["3"]
    );
}

#[test]
fn vm_closures() {
    assert_eq!(
        run_vm(
            "fun makeCounter() { var i = 0; fun count() { i = i + 1; return i; } return count; } var c = makeCounter(); print c(); print c();"
        ),
        vec!["1", "2"]
    );
}

#[test]
fn vm_classes() {
    assert_eq!(
        run_vm("class Foo { bar() { return 42; } } var foo = Foo(); print foo.bar();"),
        vec!["42"]
    );
}

#[test]
fn vm_class_fields() {
    assert_eq!(
        run_vm("class Foo {} var foo = Foo(); foo.x = 10; print foo.x;"),
        vec!["10"]
    );
}

#[test]
fn vm_fibonacci() {
    assert_eq!(
        run_vm(
            "fun fib(n) { if (n <= 1) return n; return fib(n - 1) + fib(n - 2); } for (var i = 0; i < 10; i = i + 1) { print fib(i); }"
        ),
        vec!["0", "1", "1", "2", "3", "5", "8", "13", "21", "34"]
    );
}

#[test]
fn vm_undefined_variable() {
    let err = run_vm_err("print x;");
    assert!(err.to_string().contains("undefined variable"));
}

// ========== Additional VM Execution Tests ==========

// ========== Boolean and Comparison Operations ==========

#[test]
fn vm_comparison_less() {
    assert_eq!(run_vm("print 1 < 2;"), vec!["true"]);
    assert_eq!(run_vm("print 2 < 1;"), vec!["false"]);
}

#[test]
fn vm_comparison_greater() {
    assert_eq!(run_vm("print 2 > 1;"), vec!["true"]);
    assert_eq!(run_vm("print 1 > 2;"), vec!["false"]);
}

#[test]
fn vm_comparison_equal() {
    assert_eq!(run_vm("print 1 == 1;"), vec!["true"]);
    assert_eq!(run_vm("print 1 == 2;"), vec!["false"]);
    assert_eq!(run_vm("print nil == nil;"), vec!["true"]);
}

#[test]
fn vm_comparison_not_equal() {
    assert_eq!(run_vm("print 1 != 2;"), vec!["true"]);
    assert_eq!(run_vm("print 1 != 1;"), vec!["false"]);
}

#[test]
fn vm_boolean_not() {
    assert_eq!(run_vm("print !true;"), vec!["false"]);
    assert_eq!(run_vm("print !false;"), vec!["true"]);
    assert_eq!(run_vm("print !nil;"), vec!["true"]);
}

#[test]
fn vm_truthiness() {
    assert_eq!(run_vm("if (false) print 1; else print 2;"), vec!["2"]);
    assert_eq!(run_vm("if (nil) print 1; else print 2;"), vec!["2"]);
    assert_eq!(run_vm("if (0) print 1; else print 2;"), vec!["1"]);
    assert_eq!(run_vm("if (\"\") print 1; else print 2;"), vec!["1"]);
}

// ========== Variable Scoping ==========

#[test]
fn vm_global_variables() {
    assert_eq!(
        run_vm("var a = 1; var b = 2; print a + b;"),
        vec!["3"]
    );
}

#[test]
fn vm_local_variables_in_block() {
    assert_eq!(run_vm("{ var x = 5; print x; }"), vec!["5"]);
}

#[test]
fn vm_variable_shadowing() {
    assert_eq!(
        run_vm("var x = 1; { var x = 2; { var x = 3; print x; } print x; } print x;"),
        vec!["3", "2", "1"]
    );
}

#[test]
fn vm_global_reassignment() {
    assert_eq!(run_vm("var x = 1; x = 2; print x;"), vec!["2"]);
}

#[test]
fn vm_local_reassignment() {
    assert_eq!(run_vm("{ var x = 1; x = 2; print x; }"), vec!["2"]);
}

// ========== Control Flow ==========

#[test]
fn vm_if_without_else() {
    assert_eq!(run_vm("if (true) print 1;"), vec!["1"]);
    assert_eq!(run_vm("if (false) print 1;"), Vec::<String>::new());
}

#[test]
fn vm_nested_if() {
    assert_eq!(
        run_vm("if (true) { if (true) print 1; }"),
        vec!["1"]
    );
}

#[test]
fn vm_while_with_break_simulation() {
    // Lox doesn't have break, but we can test loop exit via condition
    assert_eq!(
        run_vm("var i = 0; var done = false; while (!done) { print i; i = i + 1; if (i >= 3) done = true; }"),
        vec!["0", "1", "2"]
    );
}

#[test]
fn vm_nested_loops() {
    assert_eq!(
        run_vm("for (var i = 0; i < 2; i = i + 1) { for (var j = 0; j < 2; j = j + 1) { print i * 10 + j; } }"),
        vec!["0", "1", "10", "11"]
    );
}

// ========== Functions ==========

#[test]
fn vm_function_no_params() {
    assert_eq!(
        run_vm("fun greet() { return \"hello\"; } print greet();"),
        vec!["hello"]
    );
}

#[test]
fn vm_function_multiple_params() {
    assert_eq!(
        run_vm("fun add3(a, b, c) { return a + b + c; } print add3(1, 2, 3);"),
        vec!["6"]
    );
}

#[test]
fn vm_function_no_return() {
    assert_eq!(
        run_vm("fun test() { 42; } print test();"),
        vec!["nil"]
    );
}

#[test]
fn vm_function_early_return() {
    assert_eq!(
        run_vm("fun test() { return 1; return 2; } print test();"),
        vec!["1"]
    );
}

#[test]
fn vm_recursive_function() {
    assert_eq!(
        run_vm("fun countdown(n) { if (n <= 0) return; print n; countdown(n - 1); } countdown(3);"),
        vec!["3", "2", "1"]
    );
}

#[test]
fn vm_nested_function_calls() {
    assert_eq!(
        run_vm("fun double(x) { return x * 2; } print double(double(5));"),
        vec!["20"]
    );
}

#[test]
fn vm_function_as_value() {
    assert_eq!(
        run_vm("fun identity(x) { return x; } var f = identity; print f(42);"),
        vec!["42"]
    );
}

// ========== Closures ==========

#[test]
fn vm_simple_closure() {
    assert_eq!(
        run_vm("fun outer() { var x = 1; fun inner() { return x; } return inner; } var f = outer(); print f();"),
        vec!["1"]
    );
}

#[test]
fn vm_closure_mutates_captured_var() {
    assert_eq!(
        run_vm("fun outer() { var x = 0; fun inner() { x = x + 1; return x; } return inner; } var f = outer(); print f(); print f();"),
        vec!["1", "2"]
    );
}

#[test]
fn vm_multiple_closures_share_variable() {
    assert_eq!(
        run_vm(r#"
            fun outer() {
                var x = 0;
                fun inc() { x = x + 1; return x; }
                fun get() { return x; }
                inc();
                print get();
            }
            outer();
        "#),
        vec!["1"]
    );
}

// ========== Classes ==========

#[test]
fn vm_class_instantiation() {
    assert_eq!(
        run_vm("class Foo {} var foo = Foo(); print foo;"),
        vec!["Foo instance"]
    );
}

#[test]
fn vm_class_field_get_set() {
    assert_eq!(
        run_vm("class Foo {} var f = Foo(); f.bar = \"baz\"; print f.bar;"),
        vec!["baz"]
    );
}

#[test]
fn vm_class_method() {
    assert_eq!(
        run_vm("class Foo { greet() { return \"hello\"; } } var f = Foo(); print f.greet();"),
        vec!["hello"]
    );
}

#[test]
fn vm_class_this() {
    assert_eq!(
        run_vm("class Foo { getThis() { return this; } } var f = Foo(); print f.getThis();"),
        vec!["Foo instance"]
    );
}

#[test]
fn vm_class_initializer() {
    assert_eq!(
        run_vm("class Foo { init(x) { this.x = x; } } var f = Foo(42); print f.x;"),
        vec!["42"]
    );
}

#[test]
fn vm_class_initializer_returns_instance() {
    assert_eq!(
        run_vm("class Foo { init() { } } var f = Foo(); print f;"),
        vec!["Foo instance"]
    );
}

#[test]
fn vm_class_inheritance() {
    assert_eq!(
        run_vm("class Base { method() { return \"base\"; } } class Derived < Base {} var d = Derived(); print d.method();"),
        vec!["base"]
    );
}

#[test]
fn vm_class_method_override() {
    assert_eq!(
        run_vm("class Base { method() { return \"base\"; } } class Derived < Base { method() { return \"derived\"; } } var d = Derived(); print d.method();"),
        vec!["derived"]
    );
}

#[test]
fn vm_class_super_call() {
    assert_eq!(
        run_vm(r#"
            class Base { greet() { return "hello"; } }
            class Derived < Base {
                greet() { return super.greet(); }
            }
            var d = Derived();
            print d.greet();
        "#),
        vec!["hello"]
    );
}

// ========== Error Cases ==========

#[test]
fn vm_undefined_global_get() {
    let err = run_vm_err("print x;");
    assert!(err.to_string().contains("undefined variable"));
}

#[test]
fn vm_undefined_global_set() {
    let err = run_vm_err("x = 1;");
    assert!(err.to_string().contains("undefined variable"));
}

#[test]
fn vm_wrong_arity_too_few() {
    let err = run_vm_err("fun f(a, b) {} f(1);");
    assert!(err.to_string().contains("expected 2"));
}

#[test]
fn vm_wrong_arity_too_many() {
    let err = run_vm_err("fun f(a) {} f(1, 2);");
    assert!(err.to_string().contains("expected 1"));
}

#[test]
fn vm_call_non_function() {
    let err = run_vm_err("var x = 42; x();");
    assert!(err.to_string().contains("can only call"));
}

#[test]
fn vm_type_error_negate_string() {
    let err = run_vm_err("print -\"hello\";");
    assert!(err.to_string().contains("operand must be a number"));
}

#[test]
fn vm_type_error_add_number_bool() {
    let err = run_vm_err("print 1 + true;");
    assert!(err.to_string().contains("operands must be"));
}

#[test]
fn vm_type_error_subtract_strings() {
    let err = run_vm_err("print \"a\" - \"b\";");
    assert!(err.to_string().contains("operands must be numbers"));
}

#[test]
fn vm_undefined_property() {
    let err = run_vm_err("class Foo {} var f = Foo(); print f.bar;");
    assert!(err.to_string().contains("undefined property"));
}

#[test]
fn vm_property_on_non_instance() {
    let err = run_vm_err("var x = 42; print x.foo;");
    assert!(err.to_string().contains("only instances have properties"));
}

#[test]
fn vm_set_property_on_non_instance() {
    let err = run_vm_err("var x = 42; x.foo = 1;");
    assert!(err.to_string().contains("only instances have fields"));
}

#[test]
fn vm_inherit_from_non_class() {
    let err = run_vm_err("var NotAClass = 42; class Foo < NotAClass {}");
    assert!(err.to_string().contains("superclass must be a class"));
}

// ========== Native Functions ==========

#[test]
fn vm_clock_function() {
    let output = run_vm("print clock();");
    assert_eq!(output.len(), 1);
    // Clock should return a number (unix timestamp)
    assert!(output[0].parse::<f64>().is_ok());
}

// ========== Edge Cases ==========

#[test]
fn vm_string_equality() {
    assert_eq!(run_vm("print \"hello\" == \"hello\";"), vec!["true"]);
    assert_eq!(run_vm("print \"hello\" == \"world\";"), vec!["false"]);
}

#[test]
fn vm_nil_operations() {
    assert_eq!(run_vm("print nil == nil;"), vec!["true"]);
    assert_eq!(run_vm("print nil == false;"), vec!["false"]);
    assert_eq!(run_vm("print !nil;"), vec!["true"]);
}

#[test]
fn vm_zero_and_false_distinct() {
    assert_eq!(run_vm("print 0 == false;"), vec!["false"]);
    assert_eq!(run_vm("print 0 == 0;"), vec!["true"]);
}

#[test]
fn vm_empty_string_truthy() {
    assert_eq!(run_vm("if (\"\") print \"yes\"; else print \"no\";"), vec!["yes"]);
}

#[test]
fn vm_multiple_statements() {
    assert_eq!(
        run_vm("print 1; print 2; print 3;"),
        vec!["1", "2", "3"]
    );
}

#[test]
fn vm_expression_statements() {
    // Expression statements should not print
    assert_eq!(run_vm("1 + 2; \"hello\"; 3;"), Vec::<String>::new());
}

fn chunk_of(code: Vec<u8>) -> vibe_lox::vm::chunk::Chunk {
    let mut c = vibe_lox::vm::chunk::Chunk::new();
    c.code = code;
    c.lines = vec![1; c.code.len()];
    c
}

#[test]
fn machine_halts_at_the_end_of_the_code() {
    let mut state = VmState::new(chunk_of(vec![]));
    assert!(matches!(state.step(VmEvent::Resume), VmAction::Halt));
}

#[test]
fn machine_reports_unknown_opcodes() {
    let mut state = VmState::new(chunk_of(vec![200]));
    match state.step(VmEvent::Resume) {
        VmAction::Fail(m) => assert_eq!(m, "unknown opcode 200"),
        _ => panic!("expected a failure"),
    }
}

#[test]
fn machine_hands_out_number_work_and_takes_the_answer() {
    let mut c = chunk_of(vec![]);
    let one = c.add_constant(vibe_lox::vm::chunk::Constant::Number("1".into()));
    c.code = vec![0, one, 0, one, 18, 24];
    c.lines = vec![1; 6];
    let mut state = VmState::new(c);
    match state.step(VmEvent::Resume) {
        VmAction::ParseNumber(t) => assert_eq!(t, "1"),
        _ => panic!("expected a number literal to read"),
    }
    assert!(matches!(state.step(VmEvent::Number(1f64.to_bits())), VmAction::ParseNumber(_)));
    match state.step(VmEvent::Number(1f64.to_bits())) {
        VmAction::Arithmetic { op: ArithOp::Add, a, b } => {
            assert_eq!((f64::from_bits(a), f64::from_bits(b)), (1.0, 1.0));
        }
        _ => panic!("expected an addition"),
    }
    assert!(matches!(state.step(VmEvent::Number(2f64.to_bits())), VmAction::PrintNumber(n) if f64::from_bits(n) == 2.0));
    assert!(matches!(state.step(VmEvent::Resume), VmAction::Halt));
}

#[test]
fn operand_bytes_past_the_end_are_malformed() {
    let mut state = VmState::new(chunk_of(vec![5]));
    match state.step(VmEvent::Resume) {
        VmAction::Fail(m) => assert_eq!(m, "malformed bytecode"),
        _ => panic!("expected a failure"),
    }
}

#[test]
fn halted_machine_stays_halted() {
    let tokens = scanner::scan("print nil;").expect("scan");
    let program = Parser::new(tokens).parse().expect("parse");
    let chunk = Compiler::new().compile(&program).expect("compile");
    let mut state = VmState::new(chunk);
    let mut steps = 0;
    loop {
        steps += 1;
        match state.step(VmEvent::Resume) {
            VmAction::Halt => break,
            VmAction::Continue | VmAction::Print(_) => {}
            _ => panic!("unexpected action"),
        }
    }
    assert!(steps > 1);
    assert!(matches!(state.step(VmEvent::Resume), VmAction::Halt));
    assert!(matches!(state.step(VmEvent::Resume), VmAction::Halt));
}
