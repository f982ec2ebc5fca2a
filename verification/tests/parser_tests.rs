use vibe_lox::ast::printer::to_sexp;
use vibe_lox::ast::Program;
use vibe_lox::error::CompileError;
use vibe_lox::parser::Parser;
use vibe_lox::scanner;

fn parse_ok(source: &str) -> Program {
    let tokens = scanner::scan(source).expect("scan should succeed");
    Parser::new(tokens).parse().expect("parse should succeed")
}

fn parse_err(source: &str) -> Vec<CompileError> {
    let tokens = scanner::scan(source).expect("scan should succeed");
    Parser::new(tokens).parse().unwrap_err()
}

fn parse_sexp(source: &str) -> String {
    let program = parse_ok(source);
    to_sexp(&program).trim().to_string()
}

fn parse_errors(source: &str) -> Vec<String> {
    parse_err(source).into_iter().map(|e| e.to_string()).collect()
}

#[test]
fn precedence_add_mul() {
    assert_eq!(parse_sexp("1 + 2 * 3;"), "(+ 1 (* 2 3))");
}

#[test]
fn precedence_group() {
    assert_eq!(parse_sexp("(1 + 2) * 3;"), "(* (group (+ 1 2)) 3)");
}

#[test]
fn mod_unary_negate() {
    assert_eq!(parse_sexp("-1;"), "(- 1)");
}

#[test]
fn mod_unary_not() {
    assert_eq!(parse_sexp("!true;"), "(! true)");
}

#[test]
fn var_declaration() {
    assert_eq!(parse_sexp("var x = 42;"), "(var x 42)");
}

#[test]
fn var_no_init() {
    assert_eq!(parse_sexp("var x;"), "(var x)");
}

#[test]
fn mod_if_else() {
    assert_eq!(
        parse_sexp("if (true) print 1; else print 2;"),
        "(if true (print 1) (print 2))"
    );
}

#[test]
fn mod_while_loop() {
    assert_eq!(
        parse_sexp("while (true) print 1;"),
        "(while true (print 1))"
    );
}

#[test]
fn for_desugars_to_while() {
    let sexp = parse_sexp("for (var i = 0; i < 10; i = i + 1) print i;");
    assert!(sexp.contains("while"));
    assert!(sexp.contains("var i"));
}

#[test]
fn function_decl() {
    assert_eq!(
        parse_sexp("fun foo(a, b) { return a + b; }"),
        "(fun foo (a b) (return (+ a b)))"
    );
}

#[test]
fn class_with_methods() {
    let sexp = parse_sexp("class Foo { bar() { return 1; } }");
    assert!(sexp.starts_with("(class Foo"));
    assert!(sexp.contains("(fun bar ()"));
}

#[test]
fn class_with_superclass() {
    let sexp = parse_sexp("class Foo < Bar { }");
    assert!(sexp.contains("< Bar"));
}

#[test]
fn error_recovery() {
    let errors = parse_err("var x = ; var y = 1;");
    assert!(!errors.is_empty());
}

#[test]
fn mod_logical_operators() {
    assert_eq!(
        parse_sexp("true and false or true;"),
        "(or (and true false) true)"
    );
}

#[test]
fn function_call() {
    assert_eq!(parse_sexp("foo(1, 2);"), "(call foo 1 2)");
}

#[test]
fn property_access() {
    assert_eq!(parse_sexp("obj.field;"), "(. obj field)");
}

#[test]
fn assignment() {
    assert_eq!(parse_sexp("x = 42;"), "(= x 42)");
}

#[test]
fn set_property() {
    assert_eq!(parse_sexp("obj.field = 42;"), "(.= obj field 42)");
}


#[test]
fn valid_code_after_error_in_class_still_parses() {
    let source = r#"
        class Foo {
            broken() {
                var x = 1
                print x;
            }
            working() {
                return 42;
            }
        }
    "#;
    let errors = parse_errors(source);
    assert_eq!(errors.len(), 1, "only the broken method should produce an error, got: {errors:?}");
}

#[test]
fn multiple_independent_errors_all_reported() {
    let source = "var x = 1\nprint x;\nvar y = 2\nprint y;\n";
    let errors = parse_errors(source);
    assert_eq!(errors.len(), 2, "each missing semicolon should be reported independently: {errors:?}");
}

#[test]
fn sexp_of_literals_and_strings() {
    assert_eq!(parse_sexp("print \"hi\";"), "(print \"hi\")");
    assert_eq!(parse_sexp("nil;"), "nil");
    assert_eq!(parse_sexp("1.50;"), "1.5");
}

#[test]
fn sexp_of_block_and_return() {
    assert_eq!(parse_sexp("{ var a = 1; print a; }"), "(block (var a 1) (print a))");
    assert_eq!(parse_sexp("fun f() { return; }"), "(fun f () (return))");
}

#[test]
fn sexp_of_this_and_super() {
    let sexp = parse_sexp("class A < B { m() { return super.m(this); } }");
    assert!(sexp.contains("(super m)"), "{sexp}");
    assert!(sexp.contains("this"), "{sexp}");
}

#[test]
fn for_desugars_exactly() {
    assert_eq!(
        parse_sexp("for (var i = 0; i < 2; i = i + 1) print i;"),
        "(block (var i 0) (while (< i 2) (block (print i) (= i (+ i 1)))))"
    );
}

#[test]
fn parse_errors_name_the_missing_token() {
    let errors = parse_errors("print 1");
    assert_eq!(errors.len(), 1);
    assert!(errors[0].contains("';'"), "{}", errors[0]);
}

#[test]
fn expression_ids_are_distinct() {
    let (result, next) = Parser::new(scanner::scan("a + b;").expect("scan")).parse_counting();
    assert!(result.is_ok());
    assert_eq!(next, 3);
    let (_, next2) = Parser::starting_at(scanner::scan("c;").expect("scan"), next).parse_counting();
    assert_eq!(next2, 4);
}
