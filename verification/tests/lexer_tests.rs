use vibe_lox::scanner::lexer::scan_all;
use vibe_lox::scanner::token::{Span, Token, TokenKind};

fn scan_ok(source: &str) -> Vec<Token> {
    scan_all(source).expect("scan should succeed")
}

fn kinds(tokens: &[Token]) -> Vec<TokenKind> {
    tokens.iter().map(|t| t.kind).collect()
}

#[test]
fn single_char_tokens() {
    let tokens = scan_ok("(){},.-+;/*");
    assert_eq!(
        kinds(&tokens),
        vec![
            TokenKind::LeftParen,
            TokenKind::RightParen,
            TokenKind::LeftBrace,
            TokenKind::RightBrace,
            TokenKind::Comma,
            TokenKind::Dot,
            TokenKind::Minus,
            TokenKind::Plus,
            TokenKind::Semicolon,
            TokenKind::Slash,
            TokenKind::Star,
            TokenKind::Eof,
        ]
    );
}

#[test]
fn two_char_tokens() {
    let tokens = scan_ok("!= == >= <=");
    assert_eq!(
        kinds(&tokens),
        vec![
            TokenKind::BangEqual,
            TokenKind::EqualEqual,
            TokenKind::GreaterEqual,
            TokenKind::LessEqual,
            TokenKind::Eof,
        ]
    );
}

#[test]
fn single_then_equal() {
    let tokens = scan_ok("! = < >");
    assert_eq!(
        kinds(&tokens),
        vec![
            TokenKind::Bang,
            TokenKind::Equal,
            TokenKind::Less,
            TokenKind::Greater,
            TokenKind::Eof,
        ]
    );
}

#[test]
fn string_literal_test() {
    let tokens = scan_ok("\"hello world\"");
    assert_eq!(tokens[0].kind, TokenKind::String);
    assert_eq!(tokens[0].lexeme, "hello world");
}

#[test]
fn string_with_escapes() {
    let tokens = scan_ok("\"hello\\nworld\\t!\"");
    assert_eq!(tokens[0].lexeme, "hello\nworld\t!");
}

#[test]
fn number_integer() {
    let tokens = scan_ok("42");
    assert_eq!(tokens[0].kind, TokenKind::Number);
    assert_eq!(tokens[0].lexeme, "42");
}

#[test]
fn number_decimal() {
    let tokens = scan_ok("3.14");
    assert_eq!(tokens[0].kind, TokenKind::Number);
    assert_eq!(tokens[0].lexeme, "3.14");
}

#[test]
fn number_no_trailing_dot() {
    let tokens = scan_ok("42.foo");
    assert_eq!(tokens[0].kind, TokenKind::Number);
    assert_eq!(tokens[0].lexeme, "42");
    assert_eq!(tokens[1].kind, TokenKind::Dot);
    assert_eq!(tokens[2].kind, TokenKind::Identifier);
}

#[test]
fn identifiers_and_keywords() {
    let tokens = scan_ok("var x = true");
    assert_eq!(
        kinds(&tokens),
        vec![
            TokenKind::Var,
            TokenKind::Identifier,
            TokenKind::Equal,
            TokenKind::True,
            TokenKind::Eof,
        ]
    );
}

#[test]
fn all_keywords() {
    let source =
        "and class else false fun for if nil or print return super this true var while";
    let tokens = scan_ok(source);
    let expected = vec![
        TokenKind::And,
        TokenKind::Class,
        TokenKind::Else,
        TokenKind::False,
        TokenKind::Fun,
        TokenKind::For,
        TokenKind::If,
        TokenKind::Nil,
        TokenKind::Or,
        TokenKind::Print,
        TokenKind::Return,
        TokenKind::Super,
        TokenKind::This,
        TokenKind::True,
        TokenKind::Var,
        TokenKind::While,
        TokenKind::Eof,
    ];
    assert_eq!(kinds(&tokens), expected);
}

#[test]
fn comments_ignored() {
    let tokens = scan_ok("var x // this is a comment\nvar y");
    assert_eq!(
        kinds(&tokens),
        vec![
            TokenKind::Var,
            TokenKind::Identifier,
            TokenKind::Var,
            TokenKind::Identifier,
            TokenKind::Eof,
        ]
    );
}

#[test]
fn spans_are_correct() {
    let tokens = scan_ok("var x = 42;");
    assert_eq!(tokens[0].span, Span::new(0, 3)); // var
    assert_eq!(tokens[1].span, Span::new(4, 1)); // x
    assert_eq!(tokens[2].span, Span::new(6, 1)); // =
    assert_eq!(tokens[3].span, Span::new(8, 2)); // 42
    assert_eq!(tokens[4].span, Span::new(10, 1)); // ;
}

#[test]
fn unexpected_character_error() {
    let result = scan_all("var x = @;");
    assert!(result.is_err());
    let errors = result.unwrap_err();
    assert_eq!(errors.len(), 1);
    assert!(errors[0].to_string().contains('@'));
}

#[test]
fn unterminated_string_error() {
    let result = scan_all("\"unterminated");
    assert!(result.is_err());
}

#[test]
fn multiline_program() {
    let source = "var x = 1;\nvar y = 2;\nprint x + y;";
    let tokens = scan_ok(source);
    assert_eq!(tokens.len(), 16); // 15 tokens + EOF
}


#[test]
fn shebang_cases() {
    let cases: [(&str, &[TokenKind]); 4] = [
        ("#!/usr/bin/env lox", &[TokenKind::Eof]),
        (
            "#!/usr/bin/env lox\nprint 1;",
            &[TokenKind::Print, TokenKind::Number, TokenKind::Semicolon, TokenKind::Eof],
        ),
        ("print 1;", &[TokenKind::Print, TokenKind::Number, TokenKind::Semicolon, TokenKind::Eof]),
        ("#!/usr/bin/env lox", &[TokenKind::Eof]),
    ];
    for (source, expected) in cases {
        let tokens = scan_ok(source);
        assert_eq!(kinds(&tokens), expected);
    }
}

#[test]
fn shebang_code_spans_are_after_shebang_line() {
    let source = "#!/usr/bin/env lox\nprint 1;";
    let tokens = scan_ok(source);
    let print_span = tokens[0].span;
    assert_eq!(print_span.offset, 19, "print token should start after shebang line");
}

#[test]
fn scan_reports_every_bad_character() {
    let errors = scan_all("@ # $").unwrap_err();
    assert_eq!(errors.len(), 3);
}

#[test]
fn spans_count_utf8_bytes() {
    let tokens = scan_ok("\"\u{e9}\" x");
    assert_eq!(tokens[0].span, Span::new(0, 4));
    assert_eq!(tokens[1].span, Span::new(5, 1));
}

#[test]
fn eof_span_is_at_end() {
    let tokens = scan_ok("ab ");
    assert_eq!(tokens.last().map(|t| t.kind), Some(TokenKind::Eof));
    assert_eq!(tokens.last().map(|t| t.span.offset), Some(3));
}

#[test]
fn scanner_entry_point_matches_lexer() {
    let a = vibe_lox::scanner::scan("print 1 + 2;").expect("scan");
    let b = scan_ok("print 1 + 2;");
    assert_eq!(kinds(&a), kinds(&b));
}
