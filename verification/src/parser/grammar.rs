//! The Lox grammar, stated as spec functions over a token list.
//!
//! Each function takes the tokens, the position of the next token and the
//! next free expression id, and gives what the parser owes there: the tree or
//! the error, the position after it and the next free id.
use vstd::prelude::*;

use crate::ast::{BinaryOp, LogicalOp, SDecl, SExpr, SFun, SLit, SStmt, UnaryOp};
use crate::scanner::token::{Span, Token, TokenKind};

verus! {

/// A parse error: its message and the span it points at.
pub struct PErr {
    pub msg: Seq<char>,
    pub span: Span,
}

/// The outcome of a grammar rule: a value or an error, the position after
/// the tokens it read, the next free expression id, and the errors that
/// blocks inside it reported and recovered from, in order.
pub struct Parsed<T> {
    pub res: Result<T, PErr>,
    pub pos: int,
    pub id: int,
    pub rec: Seq<PErr>,
}

pub open spec fn fail<T>(e: PErr, pos: int, id: int) -> Parsed<T> {
    Parsed { res: Err(e), pos, id, rec: Seq::empty() }
}

pub open spec fn done<T>(v: T, pos: int, id: int) -> Parsed<T> {
    Parsed { res: Ok(v), pos, id, rec: Seq::empty() }
}

/// `p`, after the errors `rec` recovered from before it.
pub open spec fn prefixed<T>(rec: Seq<PErr>, p: Parsed<T>) -> Parsed<T> {
    Parsed { res: p.res, pos: p.pos, id: p.id, rec: rec + p.rec }
}

/// The kind of the token at `p`; past the end, the end of input.
pub open spec fn kind_at(t: Seq<Token>, p: int) -> TokenKind {
    if 0 <= p < t.len() {
        t[p].kind
    } else {
        TokenKind::Eof
    }
}

/// The span from the start of token `a` to the end of token `b - 1`.
pub open spec fn span_of(t: Seq<Token>, a: int, b: int) -> Span {
    Span {
        offset: t[a].span.offset,
        len: (t[b - 1].span.offset + t[b - 1].span.len - t[a].span.offset) as usize,
    }
}

/// The span of the token at `p`, at least one byte long.
pub open spec fn marker_span(t: Seq<Token>, p: int) -> Span {
    Span { offset: t[p].span.offset, len: if t[p].span.len == 0 { 1 } else { t[p].span.len } }
}

/// "expected <what>, found '<lexeme>'" at the token at `p`.
pub open spec fn found_err(t: Seq<Token>, p: int, what: Seq<char>) -> PErr {
    PErr { msg: "expected "@ + what + ", found '"@ + t[p].lexeme@ + "'"@, span: marker_span(t, p) }
}

/// "expected <what>" at the token at `p`.
pub open spec fn missing_err(t: Seq<Token>, p: int, what: Seq<char>) -> PErr {
    PErr { msg: "expected "@ + what, span: marker_span(t, p) }
}

/// The span an expression tree records.
pub open spec fn sexpr_span(e: SExpr) -> Span {
    match e {
        SExpr::Binary(_, _, _, _, s) => s,
        SExpr::Unary(_, _, _, s) => s,
        SExpr::Literal(_, _, s) => s,
        SExpr::Grouping(_, _, s) => s,
        SExpr::Variable(_, _, s) => s,
        SExpr::Assign(_, _, _, s) => s,
        SExpr::Logical(_, _, _, _, s) => s,
        SExpr::Call(_, _, _, s) => s,
        SExpr::Get(_, _, _, s) => s,
        SExpr::SetProperty(_, _, _, _, s) => s,
        SExpr::This(_, s) => s,
        SExpr::Super(_, _, s) => s,
    }
}

// ----- expressions -----

/// Whether a token is an operator of binary precedence level `lvl`
/// (0: `or`, 1: `and`, 2: equality, 3: comparison, 4: term, 5: factor).
pub open spec fn infix_at_level(lvl: nat, k: TokenKind) -> bool {
    ||| lvl == 0 && k == TokenKind::Or
    ||| lvl == 1 && k == TokenKind::And
    ||| lvl == 2 && (k == TokenKind::EqualEqual || k == TokenKind::BangEqual)
    ||| lvl == 3 && (k == TokenKind::Greater || k == TokenKind::GreaterEqual || k == TokenKind::Less
        || k == TokenKind::LessEqual)
    ||| lvl == 4 && (k == TokenKind::Plus || k == TokenKind::Minus)
    ||| lvl == 5 && (k == TokenKind::Star || k == TokenKind::Slash)
}

/// The arithmetic or comparison operator a token stands for.
pub open spec fn binary_op_of(k: TokenKind) -> BinaryOp {
    match k {
        TokenKind::Minus => BinaryOp::Subtract,
        TokenKind::Star => BinaryOp::Multiply,
        TokenKind::Slash => BinaryOp::Divide,
        TokenKind::EqualEqual => BinaryOp::Equal,
        TokenKind::BangEqual => BinaryOp::NotEqual,
        TokenKind::Less => BinaryOp::Less,
        TokenKind::LessEqual => BinaryOp::LessEqual,
        TokenKind::Greater => BinaryOp::Greater,
        TokenKind::GreaterEqual => BinaryOp::GreaterEqual,
        _ => BinaryOp::Add,
    }
}

/// The node an operator of level `lvl` builds from its two operands.
pub open spec fn infix_node(lvl: nat, k: TokenKind, id: int, l: SExpr, r: SExpr, span: Span) -> SExpr {
    if lvl == 0 {
        SExpr::Logical(id as nat, Box::new(l), LogicalOp::Or, Box::new(r), span)
    } else if lvl == 1 {
        SExpr::Logical(id as nat, Box::new(l), LogicalOp::And, Box::new(r), span)
    } else {
        SExpr::Binary(id as nat, Box::new(l), binary_op_of(k), Box::new(r), span)
    }
}

/// The literal a literal token stands for.
pub open spec fn literal_of(tok: Token) -> SLit {
    match tok.kind {
        TokenKind::Number => SLit::Number(tok.lexeme@),
        TokenKind::String => SLit::Str(tok.lexeme@),
        TokenKind::True => SLit::Bool(true),
        TokenKind::False => SLit::Bool(false),
        _ => SLit::Nil,
    }
}

pub open spec fn is_literal_kind(k: TokenKind) -> bool {
    k == TokenKind::Number || k == TokenKind::String || k == TokenKind::True || k == TokenKind::False
        || k == TokenKind::Nil
}

/// expression → assignment
pub open spec fn e_expression(t: Seq<Token>, p: int, id: int) -> Parsed<SExpr>
    decreases t.len() - p, 18int,
{
    e_assignment(t, p, id)
}

/// assignment → ( call "." )? IDENTIFIER "=" assignment | or
pub open spec fn e_assignment(t: Seq<Token>, p: int, id: int) -> Parsed<SExpr>
    decreases t.len() - p, 17int,
{
    let r = e_binary(t, p, id, 0);
    match r.res {
        Err(e) => fail(e, r.pos, r.id),
        Ok(target) => if kind_at(t, r.pos) == TokenKind::Equal && p <= r.pos {
            let v = e_assignment(t, r.pos + 1, r.id);
            match v.res {
                Err(e) => fail(e, v.pos, v.id),
                Ok(value) => {
                    let span = span_of(t, p, v.pos);
                    match target {
                        SExpr::Variable(_, name, _) => done(
                            SExpr::Assign(v.id as nat, name, Box::new(value), span),
                            v.pos,
                            v.id + 1,
                        ),
                        SExpr::Get(_, object, name, _) => done(
                            SExpr::SetProperty(v.id as nat, object, name, Box::new(value), span),
                            v.pos,
                            v.id + 1,
                        ),
                        _ => fail(PErr { msg: "invalid assignment target"@, span }, v.pos, v.id),
                    }
                },
            }
        } else {
            r
        },
    }
}

/// A left-associative chain of operators of level `lvl` over operands of
/// the next level.
pub open spec fn e_binary(t: Seq<Token>, p: int, id: int, lvl: nat) -> Parsed<SExpr>
    decreases t.len() - p, 16 - 2 * lvl,
{
    if lvl > 5 {
        fail(missing_err(t, p, "expression"@), p, id)
    } else {
        let r = if lvl == 5 {
            e_unary(t, p, id)
        } else {
            e_binary(t, p, id, lvl + 1)
        };
        match r.res {
            Err(e) => fail(e, r.pos, r.id),
            Ok(l) => if p <= r.pos <= t.len() {
                e_binary_rest(t, r.pos, r.id, lvl, l, p)
            } else {
                r
            },
        }
    }
}

/// The rest of an operator chain of level `lvl` whose left operand `left`
/// started at `start` and ended before `q`.
pub open spec fn e_binary_rest(t: Seq<Token>, q: int, id: int, lvl: nat, left: SExpr, start: int) -> Parsed<SExpr>
    decreases t.len() - q, 15 - 2 * lvl,
{
    let k = kind_at(t, q);
    if lvl > 5 || !infix_at_level(lvl, k) {
        done(left, q, id)
    } else {
        let r = if lvl == 5 {
            e_unary(t, q + 1, id)
        } else {
            e_binary(t, q + 1, id, lvl + 1)
        };
        match r.res {
            Err(e) => fail(e, r.pos, r.id),
            Ok(right) => {
                let node = infix_node(lvl, k, r.id, left, right, span_of(t, start, r.pos));
                if q < r.pos <= t.len() {
                    e_binary_rest(t, r.pos, r.id + 1, lvl, node, start)
                } else {
                    done(node, r.pos, r.id + 1)
                }
            },
        }
    }
}

/// unary → ( "!" | "-" ) unary | call
pub open spec fn e_unary(t: Seq<Token>, p: int, id: int) -> Parsed<SExpr>
    decreases t.len() - p, 4int,
{
    let k = kind_at(t, p);
    if k == TokenKind::Bang || k == TokenKind::Minus {
        let op = if k == TokenKind::Bang {
            UnaryOp::Not
        } else {
            UnaryOp::Negate
        };
        let r = e_unary(t, p + 1, id);
        match r.res {
            Err(e) => fail(e, r.pos, r.id),
            Ok(operand) => done(
                SExpr::Unary(r.id as nat, op, Box::new(operand), span_of(t, p, r.pos)),
                r.pos,
                r.id + 1,
            ),
        }
    } else {
        e_call(t, p, id)
    }
}

/// call → primary ( "(" arguments? ")" | "." IDENTIFIER )*
pub open spec fn e_call(t: Seq<Token>, p: int, id: int) -> Parsed<SExpr>
    decreases t.len() - p, 3int,
{
    let r = e_primary(t, p, id);
    match r.res {
        Err(e) => fail(e, r.pos, r.id),
        Ok(e) => if p <= r.pos <= t.len() {
            e_call_rest(t, r.pos, r.id, e, p)
        } else {
            r
        },
    }
}

/// The calls and property accesses that follow `callee`, which started at `start`.
pub open spec fn e_call_rest(t: Seq<Token>, q: int, id: int, callee: SExpr, start: int) -> Parsed<SExpr>
    decreases t.len() - q, 2int,
{
    let k = kind_at(t, q);
    if k == TokenKind::LeftParen {
        let f = e_finish_call(t, q + 1, id, callee, start);
        match f.res {
            Err(e) => fail(e, f.pos, f.id),
            Ok(c) => if q < f.pos <= t.len() {
                e_call_rest(t, f.pos, f.id, c, start)
            } else {
                f
            },
        }
    } else if k == TokenKind::Dot {
        if kind_at(t, q + 1) == TokenKind::Identifier {
            let g = SExpr::Get(id as nat, Box::new(callee), t[q + 1].lexeme@, span_of(t, start, q + 2));
            e_call_rest(t, q + 2, id + 1, g, start)
        } else {
            fail(missing_err(t, q + 1, "property name"@), q + 1, id)
        }
    } else {
        done(callee, q, id)
    }
}

/// The arguments and closing parenthesis of a call whose `(` ends before `a`.
pub open spec fn e_finish_call(t: Seq<Token>, a: int, id: int, callee: SExpr, start: int) -> Parsed<SExpr>
    decreases t.len() - a, 20int,
{
    let r = if kind_at(t, a) == TokenKind::RightParen {
        done(Seq::<SExpr>::empty(), a, id)
    } else {
        e_arguments(t, a, id, Seq::empty())
    };
    match r.res {
        Err(e) => fail(e, r.pos, r.id),
        Ok(args) => if kind_at(t, r.pos) == TokenKind::RightParen {
            done(
                SExpr::Call(r.id as nat, Box::new(callee), args, span_of(t, start, r.pos + 1)),
                r.pos + 1,
                r.id + 1,
            )
        } else {
            fail(found_err(t, r.pos, "')' after arguments"@), r.pos, r.id)
        },
    }
}

/// arguments → expression ( "," expression )*, after the arguments `acc`.
pub open spec fn e_arguments(t: Seq<Token>, a: int, id: int, acc: Seq<SExpr>) -> Parsed<Seq<SExpr>>
    decreases t.len() - a, 19int,
{
    if acc.len() >= 255 {
        fail(PErr { msg: "can't have more than 255 arguments"@, span: t[a].span }, a, id)
    } else {
        let r = e_expression(t, a, id);
        match r.res {
            Err(e) => fail(e, r.pos, r.id),
            Ok(x) => if kind_at(t, r.pos) == TokenKind::Comma && a <= r.pos {
                e_arguments(t, r.pos + 1, r.id, acc.push(x))
            } else {
                done(acc.push(x), r.pos, r.id)
            },
        }
    }
}

/// primary → literal | "this" | "super" "." IDENTIFIER | IDENTIFIER | "(" expression ")"
pub open spec fn e_primary(t: Seq<Token>, p: int, id: int) -> Parsed<SExpr>
    decreases t.len() - p, 1int,
{
    let k = kind_at(t, p);
    if is_literal_kind(k) {
        done(SExpr::Literal(id as nat, literal_of(t[p]), t[p].span), p + 1, id + 1)
    } else if k == TokenKind::This {
        done(SExpr::This(id as nat, t[p].span), p + 1, id + 1)
    } else if k == TokenKind::Identifier {
        done(SExpr::Variable(id as nat, t[p].lexeme@, t[p].span), p + 1, id + 1)
    } else if k == TokenKind::Super {
        if kind_at(t, p + 1) != TokenKind::Dot {
            fail(found_err(t, p + 1, "'.' after 'super'"@), p + 1, id)
        } else if kind_at(t, p + 2) != TokenKind::Identifier {
            fail(missing_err(t, p + 2, "superclass method name"@), p + 2, id)
        } else {
            done(SExpr::Super(id as nat, t[p + 2].lexeme@, span_of(t, p, p + 3)), p + 3, id + 1)
        }
    } else if k == TokenKind::LeftParen {
        let r = e_expression(t, p + 1, id);
        match r.res {
            Err(e) => fail(e, r.pos, r.id),
            Ok(inner) => if kind_at(t, r.pos) == TokenKind::RightParen {
                done(SExpr::Grouping(r.id as nat, Box::new(inner), span_of(t, p, r.pos + 1)), r.pos + 1, r.id + 1)
            } else {
                fail(found_err(t, r.pos, "')' after expression"@), r.pos, r.id)
            },
        }
    } else {
        fail(found_err(t, p, "expression"@), p, id)
    }
}

// ----- declarations and statements -----

/// The parameter names from `q` on, after the names `acc`, and the position after them.
pub open spec fn params_from(t: Seq<Token>, q: int, acc: Seq<Seq<char>>) -> Parsed<Seq<Seq<char>>>
    decreases t.len() - q,
{
    if acc.len() >= 255 {
        fail(PErr { msg: "can't have more than 255 parameters"@, span: t[q].span }, q, 0)
    } else if kind_at(t, q) != TokenKind::Identifier {
        fail(missing_err(t, q, "parameter name"@), q, 0)
    } else if kind_at(t, q + 1) == TokenKind::Comma {
        params_from(t, q + 2, acc.push(t[q].lexeme@))
    } else {
        done(acc.push(t[q].lexeme@), q + 1, 0)
    }
}

/// The parameter list of a function, without its parentheses.
pub open spec fn params_list(t: Seq<Token>, q: int) -> Parsed<Seq<Seq<char>>> {
    if kind_at(t, q) == TokenKind::RightParen {
        done(Seq::empty(), q, 0)
    } else {
        params_from(t, q, Seq::empty())
    }
}

/// declaration → classDecl | funDecl | varDecl | statement
pub open spec fn d_declaration(t: Seq<Token>, p: int, id: int) -> Parsed<SDecl>
    decreases t.len() - p, 3int,
{
    let k = kind_at(t, p);
    if k == TokenKind::Class {
        d_class(t, p, id)
    } else if k == TokenKind::Fun {
        d_fun(t, p, id)
    } else if k == TokenKind::Var {
        d_var(t, p, id)
    } else {
        let s = d_statement(t, p, id);
        prefixed(
            s.rec,
            match s.res {
                Err(e) => fail(e, s.pos, s.id),
                Ok(st) => done(SDecl::Statement(st), s.pos, s.id),
            },
        )
    }
}

/// The declarations of a block from `q` on, after `acc`, through the closing
/// brace. A declaration that fails is reported and skipped: the block goes on
/// at the next statement boundary.
pub open spec fn d_block(t: Seq<Token>, q: int, id: int, acc: Seq<SDecl>) -> Parsed<Seq<SDecl>>
    decreases t.len() - q, 4int,
{
    let k = kind_at(t, q);
    if k == TokenKind::RightBrace {
        done(acc, q + 1, id)
    } else if k == TokenKind::Eof {
        fail(found_err(t, q, "'}' after block"@), q, id)
    } else {
        let d = d_declaration(t, q, id);
        match d.res {
            Err(e) => {
                let r = synchronize(t, d.pos);
                if q < r <= t.len() {
                    prefixed(d.rec.push(e), d_block(t, r, d.id, acc))
                } else {
                    prefixed(d.rec.push(e), fail(found_err(t, q, "'}' after block"@), r, d.id))
                }
            },
            Ok(x) => if q < d.pos <= t.len() {
                prefixed(d.rec, d_block(t, d.pos, d.id, acc.push(x)))
            } else {
                prefixed(d.rec, fail(found_err(t, q, "'}' after block"@), d.pos, d.id))
            },
        }
    }
}

/// A function's name, parameters and body from `p`; `kind` is "function" or "method".
pub open spec fn d_function(t: Seq<Token>, p: int, id: int, kind: Seq<char>) -> Parsed<SFun>
    decreases t.len() - p, 1int,
{
    if kind_at(t, p) != TokenKind::Identifier {
        fail(missing_err(t, p, kind + " name"@), p, id)
    } else if kind_at(t, p + 1) != TokenKind::LeftParen {
        fail(found_err(t, p + 1, "'(' after "@ + kind + " name"@), p + 1, id)
    } else {
        let ps = params_list(t, p + 2);
        let q = ps.pos;
        match ps.res {
            Err(e) => fail(e, q, id),
            Ok(params) => if kind_at(t, q) != TokenKind::RightParen {
                fail(found_err(t, q, "')' after parameters"@), q, id)
            } else if kind_at(t, q + 1) != TokenKind::LeftBrace {
                fail(found_err(t, q + 1, "'{' before "@ + kind + " body"@), q + 1, id)
            } else if p < q + 2 <= t.len() {
                let b = d_block(t, q + 2, id, Seq::empty());
                prefixed(
                    b.rec,
                    match b.res {
                        Err(e) => fail(e, b.pos, b.id),
                        Ok(body) => done(
                            SFun { name: t[p].lexeme@, params, body, span: span_of(t, p, b.pos) },
                            b.pos,
                            b.id,
                        ),
                    },
                )
            } else {
                fail(found_err(t, q + 1, "'{' before "@ + kind + " body"@), q + 1, id)
            },
        }
    }
}

/// The methods of a class body from `q` on, after `acc`.
pub open spec fn d_methods(t: Seq<Token>, q: int, id: int, acc: Seq<SFun>) -> Parsed<Seq<SFun>>
    decreases t.len() - q, 2int,
{
    let k = kind_at(t, q);
    if k == TokenKind::RightBrace || k == TokenKind::Eof {
        done(acc, q, id)
    } else {
        let f = d_function(t, q, id, "method"@);
        prefixed(
            f.rec,
            match f.res {
                Err(e) => fail(e, f.pos, f.id),
                Ok(m) => if q < f.pos <= t.len() {
                    d_methods(t, f.pos, f.id, acc.push(m))
                } else {
                    done(acc.push(m), f.pos, f.id)
                },
            },
        )
    }
}

/// classDecl → "class" IDENTIFIER ( "<" IDENTIFIER )? "{" function* "}"
pub open spec fn d_class(t: Seq<Token>, p: int, id: int) -> Parsed<SDecl>
    decreases t.len() - p, 1int,
{
    let q = p + 1;
    if kind_at(t, q) != TokenKind::Identifier {
        fail(missing_err(t, q, "class name"@), q, id)
    } else {
        let sup: Parsed<Option<Seq<char>>> = if kind_at(t, q + 1) == TokenKind::Less {
            if kind_at(t, q + 2) == TokenKind::Identifier {
                done(Some(t[q + 2].lexeme@), q + 3, id)
            } else {
                fail(missing_err(t, q + 2, "superclass name"@), q + 2, id)
            }
        } else {
            done(None, q + 1, id)
        };
        let b = sup.pos;
        match sup.res {
            Err(e) => fail(e, b, id),
            Ok(superclass) => if kind_at(t, b) != TokenKind::LeftBrace {
                fail(found_err(t, b, "'{' before class body"@), b, id)
            } else if p < b + 1 <= t.len() {
                let m = d_methods(t, b + 1, id, Seq::empty());
                prefixed(
                    m.rec,
                    match m.res {
                        Err(e) => fail(e, m.pos, m.id),
                        Ok(methods) => if kind_at(t, m.pos) == TokenKind::RightBrace {
                            done(
                                SDecl::Class(t[q].lexeme@, superclass, methods, span_of(t, p, m.pos + 1)),
                                m.pos + 1,
                                m.id,
                            )
                        } else {
                            fail(found_err(t, m.pos, "'}' after class body"@), m.pos, m.id)
                        },
                    },
                )
            } else {
                fail(found_err(t, b, "'{' before class body"@), b, id)
            },
        }
    }
}

/// funDecl → "fun" function
pub open spec fn d_fun(t: Seq<Token>, p: int, id: int) -> Parsed<SDecl>
    decreases t.len() - p, 1int,
{
    if p < t.len() {
        let f = d_function(t, p + 1, id, "function"@);
        prefixed(
            f.rec,
            match f.res {
                Err(e) => fail(e, f.pos, f.id),
                Ok(fun) => done(SDecl::Fun(fun, span_of(t, p, f.pos)), f.pos, f.id),
            },
        )
    } else {
        fail(missing_err(t, p, "function name"@), p, id)
    }
}

/// varDecl → "var" IDENTIFIER ( "=" expression )? ";"
pub open spec fn d_var(t: Seq<Token>, p: int, id: int) -> Parsed<SDecl>
    decreases t.len() - p, 1int,
{
    let q = p + 1;
    if kind_at(t, q) != TokenKind::Identifier {
        fail(missing_err(t, q, "variable name"@), q, id)
    } else {
        let init: Parsed<Option<SExpr>> = if kind_at(t, q + 1) == TokenKind::Equal {
            let e = e_expression(t, q + 2, id);
            match e.res {
                Err(err) => fail(err, e.pos, e.id),
                Ok(x) => done(Some(x), e.pos, e.id),
            }
        } else {
            done(None, q + 1, id)
        };
        match init.res {
            Err(e) => fail(e, init.pos, init.id),
            Ok(initializer) => if kind_at(t, init.pos) == TokenKind::Semicolon {
                done(
                    SDecl::Var(t[q].lexeme@, initializer, span_of(t, p, init.pos + 1)),
                    init.pos + 1,
                    init.id,
                )
            } else {
                fail(found_err(t, init.pos, "';' after variable declaration"@), init.pos, init.id)
            },
        }
    }
}

/// statement → exprStmt | forStmt | ifStmt | printStmt | returnStmt | whileStmt | block
pub open spec fn d_statement(t: Seq<Token>, p: int, id: int) -> Parsed<SStmt>
    decreases t.len() - p, 2int,
{
    let k = kind_at(t, p);
    if k == TokenKind::Print {
        d_print(t, p, id)
    } else if k == TokenKind::Return {
        d_return(t, p, id)
    } else if k == TokenKind::LeftBrace {
        d_block_statement(t, p, id)
    } else if k == TokenKind::If {
        d_if(t, p, id)
    } else if k == TokenKind::While {
        d_while(t, p, id)
    } else if k == TokenKind::For {
        d_for(t, p, id)
    } else {
        d_expression_statement(t, p, id)
    }
}

/// block → "{" declaration* "}"
pub open spec fn d_block_statement(t: Seq<Token>, p: int, id: int) -> Parsed<SStmt>
    decreases t.len() - p, 1int,
{
    if p < t.len() {
        let b = d_block(t, p + 1, id, Seq::empty());
        prefixed(
            b.rec,
            match b.res {
                Err(e) => fail(e, b.pos, b.id),
                Ok(ds) => done(SStmt::Block(ds, span_of(t, p, b.pos)), b.pos, b.id),
            },
        )
    } else {
        fail(found_err(t, p, "'}' after block"@), p, id)
    }
}

/// An expression, then a `;` reported missing with `msg`; gives the expression.
pub open spec fn expr_then_semicolon(t: Seq<Token>, p: int, id: int, msg: Seq<char>) -> Parsed<SExpr> {
    let e = e_expression(t, p, id);
    match e.res {
        Err(err) => fail(err, e.pos, e.id),
        Ok(x) => if kind_at(t, e.pos) == TokenKind::Semicolon {
            done(x, e.pos + 1, e.id)
        } else {
            fail(found_err(t, e.pos, msg), e.pos, e.id)
        },
    }
}

/// printStmt → "print" expression ";"
pub open spec fn d_print(t: Seq<Token>, p: int, id: int) -> Parsed<SStmt>
    decreases t.len() - p, 1int,
{
    let e = expr_then_semicolon(t, p + 1, id, "';' after print value"@);
    match e.res {
        Err(err) => fail(err, e.pos, e.id),
        Ok(x) => done(SStmt::Print(x, span_of(t, p, e.pos)), e.pos, e.id),
    }
}

/// exprStmt → expression ";"
pub open spec fn d_expression_statement(t: Seq<Token>, p: int, id: int) -> Parsed<SStmt>
    decreases t.len() - p, 1int,
{
    let e = expr_then_semicolon(t, p, id, "';' after expression"@);
    match e.res {
        Err(err) => fail(err, e.pos, e.id),
        Ok(x) => done(SStmt::Expression(x, sexpr_span(x)), e.pos, e.id),
    }
}

/// returnStmt → "return" expression? ";"
pub open spec fn d_return(t: Seq<Token>, p: int, id: int) -> Parsed<SStmt>
    decreases t.len() - p, 1int,
{
    let v: Parsed<Option<SExpr>> = if kind_at(t, p + 1) != TokenKind::Semicolon {
        let e = e_expression(t, p + 1, id);
        match e.res {
            Err(err) => fail(err, e.pos, e.id),
            Ok(x) => done(Some(x), e.pos, e.id),
        }
    } else {
        done(None, p + 1, id)
    };
    match v.res {
        Err(err) => fail(err, v.pos, v.id),
        Ok(value) => if kind_at(t, v.pos) == TokenKind::Semicolon {
            done(SStmt::Return(value, span_of(t, p, v.pos + 1)), v.pos + 1, v.id)
        } else {
            fail(found_err(t, v.pos, "';' after return value"@), v.pos, v.id)
        },
    }
}

/// `"(" expression ")"` after a keyword at `p`, with the messages for a
/// missing `(` and `)`; the position after is that of the body.
pub open spec fn paren_condition(t: Seq<Token>, p: int, id: int, open_msg: Seq<char>, close_msg: Seq<char>) -> Parsed<SExpr> {
    if kind_at(t, p + 1) != TokenKind::LeftParen {
        fail(found_err(t, p + 1, open_msg), p + 1, id)
    } else {
        let c = e_expression(t, p + 2, id);
        match c.res {
            Err(e) => fail(e, c.pos, c.id),
            Ok(cond) => if kind_at(t, c.pos) == TokenKind::RightParen {
                done(cond, c.pos + 1, c.id)
            } else {
                fail(found_err(t, c.pos, close_msg), c.pos, c.id)
            },
        }
    }
}

/// ifStmt → "if" "(" expression ")" statement ( "else" statement )?
pub open spec fn d_if(t: Seq<Token>, p: int, id: int) -> Parsed<SStmt>
    decreases t.len() - p, 1int,
{
    let c = paren_condition(t, p, id, "'(' after 'if'"@, "')' after if condition"@);
    match c.res {
        Err(e) => fail(e, c.pos, c.id),
        Ok(cond) => if p < c.pos <= t.len() {
            let th = d_statement(t, c.pos, c.id);
            prefixed(
                th.rec,
                match th.res {
                    Err(e) => fail(e, th.pos, th.id),
                    Ok(then_branch) => if kind_at(t, th.pos) == TokenKind::Else && p <= th.pos {
                        let el = d_statement(t, th.pos + 1, th.id);
                        prefixed(
                            el.rec,
                            match el.res {
                                Err(e) => fail(e, el.pos, el.id),
                                Ok(else_branch) => done(
                                    SStmt::If(
                                        cond,
                                        Box::new(then_branch),
                                        Some(Box::new(else_branch)),
                                        span_of(t, p, el.pos),
                                    ),
                                    el.pos,
                                    el.id,
                                ),
                            },
                        )
                    } else {
                        done(SStmt::If(cond, Box::new(then_branch), None, span_of(t, p, th.pos)), th.pos, th.id)
                    },
                },
            )
        } else {
            fail(missing_err(t, p, "statement"@), c.pos, c.id)
        },
    }
}

/// whileStmt → "while" "(" expression ")" statement
pub open spec fn d_while(t: Seq<Token>, p: int, id: int) -> Parsed<SStmt>
    decreases t.len() - p, 1int,
{
    let c = paren_condition(t, p, id, "'(' after 'while'"@, "')' after while condition"@);
    match c.res {
        Err(e) => fail(e, c.pos, c.id),
        Ok(cond) => if p < c.pos <= t.len() {
            let b = d_statement(t, c.pos, c.id);
            prefixed(
                b.rec,
                match b.res {
                    Err(e) => fail(e, b.pos, b.id),
                    Ok(body) => done(SStmt::While(cond, Box::new(body), span_of(t, p, b.pos)), b.pos, b.id),
                },
            )
        } else {
            fail(missing_err(t, p, "statement"@), c.pos, c.id)
        },
    }
}

/// The initializer clause of a `for` at `q`: nothing, a variable
/// declaration, or an expression statement; the position after its `;`.
pub open spec fn for_initializer(t: Seq<Token>, q: int, id: int, p: int) -> Parsed<Option<SDecl>>
    decreases t.len() - p, 0int,
{
    let k = kind_at(t, q);
    if k == TokenKind::Semicolon {
        done(None, q + 1, id)
    } else if k == TokenKind::Var {
        if p < q {
            let v = d_var(t, q, id);
            match v.res {
                Err(e) => fail(e, v.pos, v.id),
                Ok(d) => done(Some(d), v.pos, v.id),
            }
        } else {
            fail(missing_err(t, q, "for initializer"@), q, id)
        }
    } else {
        let e = expr_then_semicolon(t, q, id, "';' after for initializer"@);
        match e.res {
            Err(err) => fail(err, e.pos, e.id),
            Ok(x) => done(Some(SDecl::Statement(SStmt::Expression(x, sexpr_span(x)))), e.pos, e.id),
        }
    }
}

/// The condition clause of a `for` at `c`, through its `;`: the expression,
/// or `true` spanning the `;` when it is left out.
pub open spec fn for_condition(t: Seq<Token>, c: int, id: int) -> Parsed<SExpr> {
    if kind_at(t, c) != TokenKind::Semicolon {
        expr_then_semicolon(t, c, id, "';' after for condition"@)
    } else {
        done(SExpr::Literal(id as nat, SLit::Bool(true), t[c].span), c + 1, id + 1)
    }
}

/// The increment clause of a `for` at `c`, through its `)`.
pub open spec fn for_increment(t: Seq<Token>, c: int, id: int) -> Parsed<Option<SExpr>> {
    let r: Parsed<Option<SExpr>> = if kind_at(t, c) != TokenKind::RightParen {
        let e = e_expression(t, c, id);
        match e.res {
            Err(err) => fail(err, e.pos, e.id),
            Ok(x) => done(Some(x), e.pos, e.id),
        }
    } else {
        done(None, c, id)
    };
    match r.res {
        Err(e) => fail(e, r.pos, r.id),
        Ok(x) => if kind_at(t, r.pos) == TokenKind::RightParen {
            done(x, r.pos + 1, r.id)
        } else {
            fail(found_err(t, r.pos, "')' after for clauses"@), r.pos, r.id)
        },
    }
}

/// The `while` loop (in a block with the initializer, if any) a `for`
/// statement stands for.
pub open spec fn desugar_for(init: Option<SDecl>, cond: SExpr, incr: Option<SExpr>, body: SStmt, span: Span) -> SStmt {
    let body2 = match incr {
        Some(inc) => SStmt::Block(
            seq![SDecl::Statement(body), SDecl::Statement(SStmt::Expression(inc, sexpr_span(inc)))],
            span,
        ),
        None => body,
    };
    let w = SStmt::While(cond, Box::new(body2), span);
    match init {
        Some(d) => SStmt::Block(seq![d, SDecl::Statement(w)], span),
        None => w,
    }
}

/// forStmt → "for" "(" ( varDecl | exprStmt | ";" ) expression? ";" expression? ")" statement
pub open spec fn d_for(t: Seq<Token>, p: int, id: int) -> Parsed<SStmt>
    decreases t.len() - p, 1int,
{
    if kind_at(t, p + 1) != TokenKind::LeftParen {
        fail(found_err(t, p + 1, "'(' after 'for'"@), p + 1, id)
    } else {
        let i = for_initializer(t, p + 2, id, p);
        match i.res {
            Err(e) => fail(e, i.pos, i.id),
            Ok(init) => {
                let c = for_condition(t, i.pos, i.id);
                match c.res {
                    Err(e) => fail(e, c.pos, c.id),
                    Ok(cond) => {
                        let n = for_increment(t, c.pos, c.id);
                        match n.res {
                            Err(e) => fail(e, n.pos, n.id),
                            Ok(incr) => if p < n.pos <= t.len() {
                                let b = d_statement(t, n.pos, n.id);
                                prefixed(
                                    b.rec,
                                    match b.res {
                                        Err(e) => fail(e, b.pos, b.id),
                                        Ok(body) => done(
                                            desugar_for(init, cond, incr, body, span_of(t, p, b.pos)),
                                            b.pos,
                                            b.id,
                                        ),
                                    },
                                )
                            } else {
                                fail(missing_err(t, p, "statement"@), n.pos, n.id)
                            },
                        }
                    },
                }
            },
        }
    }
}

// ----- the whole program -----

/// Whether the token at `q` starts a declaration or statement that error
/// recovery stops at.
pub open spec fn is_sync_start(k: TokenKind) -> bool {
    k == TokenKind::Class || k == TokenKind::Fun || k == TokenKind::Var || k == TokenKind::For
        || k == TokenKind::If || k == TokenKind::While || k == TokenKind::Print || k == TokenKind::Return
}

/// Skipping tokens from `q` until after a `;` or before a declaration keyword.
pub open spec fn sync_from(t: Seq<Token>, q: int) -> int
    decreases t.len() - q,
{
    if kind_at(t, q) == TokenKind::Eof {
        q
    } else if 1 <= q <= t.len() && t[q - 1].kind == TokenKind::Semicolon {
        q
    } else if is_sync_start(kind_at(t, q)) {
        q
    } else {
        sync_from(t, q + 1)
    }
}

/// Error recovery from `p`: skip one token, then on to the next statement boundary.
pub open spec fn synchronize(t: Seq<Token>, p: int) -> int {
    if kind_at(t, p) == TokenKind::Eof {
        p
    } else {
        sync_from(t, p + 1)
    }
}

/// The declarations and errors of a program from `p` on, after `decls` and
/// `errs`, with the next free id at the end.
pub open spec fn program_from(t: Seq<Token>, p: int, id: int, decls: Seq<SDecl>, errs: Seq<PErr>) -> (
    Seq<SDecl>,
    Seq<PErr>,
    int,
)
    decreases t.len() - p,
{
    if kind_at(t, p) == TokenKind::Eof {
        (decls, errs, id)
    } else {
        let d = d_declaration(t, p, id);
        match d.res {
            Ok(x) => if p < d.pos <= t.len() {
                program_from(t, d.pos, d.id, decls.push(x), errs + d.rec)
            } else {
                (decls.push(x), errs + d.rec, d.id)
            },
            Err(e) => {
                let q = synchronize(t, d.pos);
                if p < q <= t.len() {
                    program_from(t, q, d.id, decls, (errs + d.rec).push(e))
                } else {
                    (decls, (errs + d.rec).push(e), d.id)
                }
            },
        }
    }
}

/// The declarations and errors of a whole token list, with ids from `id`.
pub open spec fn program_spec(t: Seq<Token>, id: int) -> (Seq<SDecl>, Seq<PErr>, int) {
    program_from(t, 0, id, Seq::empty(), Seq::empty())
}

} // verus!
