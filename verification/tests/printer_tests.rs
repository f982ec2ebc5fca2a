use vibe_lox::ast::printer::to_sexp;
use vibe_lox::ast::{BinaryExpr, BinaryOp, Decl, Expr, ExprStmt, LiteralExpr, LiteralValue, Program, Stmt, VarDecl};
use vibe_lox::scanner::token::Span;

fn number(id: usize, text: &str, offset: usize) -> Box<Expr> {
    Box::new(Expr::Literal(LiteralExpr {
        id,
        value: LiteralValue::Number(text.to_string()),
        span: Span::new(offset, 1),
    }))
}

#[test]
fn sexp_binary_expression() {
    let program = Program {
        declarations: vec![Decl::Statement(Stmt::Expression(ExprStmt {
            expression: Expr::Binary(BinaryExpr {
                id: 0,
                left: number(1, "1", 0),
                operator: BinaryOp::Add,
                right: Box::new(Expr::Binary(BinaryExpr {
                    id: 2,
                    left: number(3, "2", 4),
                    operator: BinaryOp::Multiply,
                    right: number(4, "3", 8),
                    span: Span::new(4, 5),
                })),
                span: Span::new(0, 9),
            }),
            span: Span::new(0, 10),
        }))],
    };
    let result = to_sexp(&program);
    assert_eq!(result.trim(), "(+ 1 (* 2 3))");
}

#[test]
fn sexp_each_declaration_on_its_own_line() {
    let program = Program {
        declarations: vec![
            Decl::Var(VarDecl {
                name: "x".to_string(),
                initializer: Some(*number(0, "42", 8)),
                span: Span::new(0, 11),
            }),
            Decl::Var(VarDecl { name: "y".to_string(), initializer: None, span: Span::new(12, 6) }),
        ],
    };
    assert_eq!(to_sexp(&program), "(var x 42)\n(var y)\n");
}

#[test]
fn sexp_numbers_in_shortest_form() {
    for (text, shown) in [("7", "7"), ("007", "7"), ("2.50", "2.5"), ("3.0", "3"), ("0.125", "0.125")] {
        let program = Program {
            declarations: vec![Decl::Statement(Stmt::Expression(ExprStmt {
                expression: *number(0, text, 0),
                span: Span::new(0, 1),
            }))],
        };
        assert_eq!(to_sexp(&program), format!("{shown}\n"));
    }
}

#[test]
fn sexp_empty_program() {
    assert_eq!(to_sexp(&Program { declarations: vec![] }), "");
}
