//! The recursive-descent parser: tokens to a syntax tree.
//!
//! Every rule is proved to build exactly the tree (or report exactly the
//! error) that its counterpart in `grammar` describes, so the parse of a
//! token list is `grammar::program_spec`.
pub mod grammar;
mod statements;

use vstd::prelude::*;

use crate::ast::{
    decl_view, decls_seq, expr_view, exprs_seq, fun_view, funs_seq, lemma_decls_push, lemma_exprs_push,
    lemma_funs_push, names_view, program_view, stmt_view, AssignExpr, BinaryExpr, BinaryOp, BlockStmt, CallExpr,
    ClassDecl, Decl, Expr, ExprStmt, FunDecl, Function, GetExpr, GroupingExpr, IfStmt, LiteralExpr, LiteralValue,
    LogicalExpr, LogicalOp, PrintStmt, Program, ReturnStmt, SDecl, SExpr, SFun, SStmt, SetExpr, Stmt, SuperExpr,
    ThisExpr, UnaryExpr, UnaryOp, VarDecl, VariableExpr, WhileStmt,
};
use crate::error::{CompileError, ErrorPhase};
use crate::parser::grammar::{
    binary_op_of, d_block, d_class, d_declaration, d_for, d_fun, d_function, d_if, d_methods, d_print, d_return,
    d_block_statement, d_statement, d_var, d_while, d_expression_statement, desugar_for, e_arguments, e_assignment, e_binary,
    e_binary_rest, e_call, e_call_rest, e_expression, e_finish_call, e_primary, e_unary, found_err, infix_at_level,
    infix_node, is_literal_kind, is_sync_start, kind_at, literal_of, missing_err, params_from, params_list,
    program_from, program_spec, sexpr_span, done, span_of, sync_from, synchronize, PErr, Parsed,
};
use crate::scanner::token::{spans_in_order, tokens_wf, Span, Token, TokenKind};
use crate::text::{append_str, owned};

verus! {

/// A recursive-descent parser over a token list.
pub struct Parser {
    pub(crate) tokens: Vec<Token>,
    pub(crate) current: usize,
    pub(crate) next_id: usize,
    pub(crate) errors: Vec<CompileError>,
}

/// The error `e` is the parse error `pe`, with no source attached yet.
pub open spec fn is_parse_error(e: CompileError, pe: PErr) -> bool {
    &&& e.phase() == ErrorPhase::Parse
    &&& e.msg() == pe.msg
    &&& e.at() == pe.span
    &&& e.src_name() == "input"@
    &&& e.src_text() == Seq::<char>::empty()
}

/// `after` is the error list `before` followed by one error for each of the
/// parse errors `rec`, in order.
pub open spec fn extends(before: Seq<CompileError>, after: Seq<CompileError>, rec: Seq<PErr>) -> bool {
    &&& after.len() == before.len() + rec.len()
    &&& forall|i: int| 0 <= i < before.len() ==> #[trigger] after[i] == before[i]
    &&& forall|i: int| #![trigger rec[i]] 0 <= i < rec.len() ==> is_parse_error(after[before.len() + i], rec[i])
}

/// A list extends itself by no errors.
pub proof fn lemma_extends_same(es: Seq<CompileError>)
    ensures
        extends(es, es, Seq::empty()),
{
}

/// Extending by `r1` and then by `r2` extends by `r1 + r2`.
pub proof fn lemma_extends_trans(
    a: Seq<CompileError>,
    b: Seq<CompileError>,
    c: Seq<CompileError>,
    r1: Seq<PErr>,
    r2: Seq<PErr>,
)
    requires
        extends(a, b, r1),
        extends(b, c, r2),
    ensures
        extends(a, c, r1 + r2),
{
    assert forall|i: int| #![trigger (r1 + r2)[i]] 0 <= i < (r1 + r2).len() implies is_parse_error(
        c[a.len() + i],
        (r1 + r2)[i],
    ) by {
        if i < r1.len() {
            assert(r1[i] == (r1 + r2)[i]);
            assert(c[a.len() + i] == b[a.len() + i]);
        } else {
            let j = i - r1.len();
            assert(r2[j] == (r1 + r2)[i]);
            assert(a.len() + i == b.len() + j);
        }
    }
}

/// Pushing the error for `pe` extends by one more.
pub proof fn lemma_extends_push(a: Seq<CompileError>, b: Seq<CompileError>, r: Seq<PErr>, e: CompileError, pe: PErr)
    requires
        extends(a, b, r),
        is_parse_error(e, pe),
    ensures
        extends(a, b.push(e), r.push(pe)),
{
    assert forall|i: int| #![trigger r.push(pe)[i]] 0 <= i < r.push(pe).len() implies is_parse_error(
        b.push(e)[a.len() + i],
        r.push(pe)[i],
    ) by {
        if i < r.len() {
            assert(r[i] == r.push(pe)[i]);
        }
    }
}

/// The outcome `parse` owes for a token list whose ids start at `id`: the
/// program when no declaration failed, else one error per failed declaration
/// or block statement, in order.
pub open spec fn parse_outcome(t: Seq<Token>, id: int, r: Result<Program, Vec<CompileError>>) -> bool {
    let (decls, errs, _) = program_spec(t, id);
    match r {
        Ok(p) => errs.len() == 0 && program_view(p) == decls,
        Err(es) => {
            &&& errs.len() > 0
            &&& es@.len() == errs.len()
            &&& forall|i: int| 0 <= i < errs.len() ==> is_parse_error(#[trigger] es@[i], errs[i])
        },
    }
}

/// The node an operator of level `lvl` builds.
fn infix_node_exec(lvl: u8, k: TokenKind, id: usize, l: Expr, r: Expr, span: Span) -> (e: Expr)
    ensures
        expr_view(e) == infix_node(lvl as nat, k, id as int, expr_view(l), expr_view(r), span),
{
    if lvl == 0 {
        Expr::Logical(LogicalExpr { id, left: Box::new(l), operator: LogicalOp::Or, right: Box::new(r), span })
    } else if lvl == 1 {
        Expr::Logical(LogicalExpr { id, left: Box::new(l), operator: LogicalOp::And, right: Box::new(r), span })
    } else {
        Expr::Binary(BinaryExpr { id, left: Box::new(l), operator: token_to_binary_op(k), right: Box::new(r), span })
    }
}

/// The arithmetic or comparison operator of an operator token.
fn token_to_binary_op(kind: TokenKind) -> (op: BinaryOp)
    ensures
        op == binary_op_of(kind),
{
    match kind {
        TokenKind::Minus => BinaryOp::Subtract,
        TokenKind::Star => BinaryOp::Multiply,
        TokenKind::Slash => BinaryOp::Divide,
        TokenKind::EqualEqual => BinaryOp::Equal,
        TokenKind::BangEqual => BinaryOp::NotEqual,
        TokenKind::Less => BinaryOp::Less,
        TokenKind::LessEqual => BinaryOp::LessEqual,
        TokenKind::Greater => BinaryOp::Greater,
        TokenKind::GreaterEqual => BinaryOp::GreaterEqual,
        _ => BinaryOp::Add,
    }
}

fn is_infix_at_level(lvl: u8, k: TokenKind) -> (b: bool)
    ensures
        b == infix_at_level(lvl as nat, k),
{
    match lvl {
        0 => k == TokenKind::Or,
        1 => k == TokenKind::And,
        2 => k == TokenKind::EqualEqual || k == TokenKind::BangEqual,
        3 => k == TokenKind::Greater || k == TokenKind::GreaterEqual || k == TokenKind::Less || k
            == TokenKind::LessEqual,
        4 => k == TokenKind::Plus || k == TokenKind::Minus,
        5 => k == TokenKind::Star || k == TokenKind::Slash,
        _ => false,
    }
}

impl Parser {
    /// The tokens being parsed.
    pub closed spec fn token_list(self) -> Seq<Token> {
        self.tokens@
    }

    /// The position of the next token.
    pub closed spec fn cursor(self) -> int {
        self.current as int
    }

    /// The id the next expression node gets.
    pub closed spec fn id_counter(self) -> int {
        self.next_id as int
    }

    pub(crate) open spec fn inv(self) -> bool {
        &&& tokens_wf(self.tokens@)
        &&& self.tokens@.len() <= usize::MAX
        &&& self.current < self.tokens@.len()
        &&& self.next_id + self.tokens@.len() - self.current <= usize::MAX
    }

    /// `after` is this parser later on: the same tokens, the cursor not moved
    /// back, and no more ids taken than tokens read.
    pub(crate) open spec fn stepped_to(self, after: Parser) -> bool {
        &&& after.inv()
        &&& after.tokens@ == self.tokens@
        &&& self.current <= after.current
        &&& self.next_id <= after.next_id
        &&& after.next_id - self.next_id <= after.current - self.current
    }

    /// `stepped_to`, with no error recorded on the way.
    pub(crate) open spec fn moved_to(self, after: Parser) -> bool {
        &&& self.stepped_to(after)
        &&& after.errors@ == self.errors@
    }

    /// `after` is this parser after a rule whose outcome is `s`; `r` is what
    /// the rule returned, taken by `view`.
    pub(crate) open spec fn reached<T, V>(self, after: Parser, r: Result<T, CompileError>, s: Parsed<V>, view: spec_fn(T) -> V) -> bool {
        &&& self.moved_to(after)
        &&& after.current == s.pos
        &&& after.next_id == s.id
        &&& match r {
            Ok(x) => s.res == Ok::<V, PErr>(view(x)) && after.current > self.current,
            Err(e) => s.res is Err && is_parse_error(e, s.res->Err_0),
        }
    }

    /// `after` is this parser after a declaration or statement rule whose
    /// outcome is `s`: the errors its blocks recovered from were recorded.
    pub(crate) open spec fn reached_rec<T, V>(self, after: Parser, r: Result<T, CompileError>, s: Parsed<V>, view: spec_fn(T) -> V) -> bool {
        &&& self.stepped_to(after)
        &&& extends(self.errors@, after.errors@, s.rec)
        &&& after.current == s.pos
        &&& after.next_id == s.id
        &&& match r {
            Ok(x) => s.res == Ok::<V, PErr>(view(x)) && after.current > self.current,
            Err(e) => s.res is Err && is_parse_error(e, s.res->Err_0),
        }
    }

    /// A parser over `tokens`, with expression ids from zero.
    pub fn new(tokens: Vec<Token>) -> (p: Parser)
        ensures
            p.token_list() == tokens@,
            p.cursor() == 0,
            p.id_counter() == 0,
    {
        Parser { tokens, current: 0, next_id: 0, errors: Vec::new() }
    }

    /// A parser over `tokens` whose expression ids start at `first_id`, so that
    /// programs parsed one after another get distinct ids.
    pub fn starting_at(tokens: Vec<Token>, first_id: usize) -> (p: Parser)
        ensures
            p.token_list() == tokens@,
            p.cursor() == 0,
            p.id_counter() == first_id,
    {
        Parser { tokens, current: 0, next_id: first_id, errors: Vec::new() }
    }

    /// Parse the whole token list: the program, or every error found, after
    /// skipping to the next statement each time a declaration fails.
    pub fn parse(self) -> (r: Result<Program, Vec<CompileError>>)
        requires
            tokens_wf(self.token_list()),
            self.cursor() == 0,
            self.id_counter() + self.token_list().len() <= usize::MAX,
        ensures
            parse_outcome(self.token_list(), self.id_counter(), r),
    {
        self.parse_counting().0
    }

    /// `parse`, also giving the id the next expression node would get.
    pub fn parse_counting(self) -> (out: (Result<Program, Vec<CompileError>>, usize))
        requires
            tokens_wf(self.token_list()),
            self.cursor() == 0,
            self.id_counter() + self.token_list().len() <= usize::MAX,
        ensures
            parse_outcome(self.token_list(), self.id_counter(), out.0),
            out.1 == program_spec(self.token_list(), self.id_counter()).2,
    {
        let ghost t = self.tokens@;
        let ghost id0 = self.next_id as int;
        let mut p = self;
        p.errors = Vec::new();
        let mut declarations: Vec<Decl> = Vec::new();
        let ghost mut errs: Seq<PErr> = Seq::empty();
        while !p.is_at_end()
            invariant
                p.inv(),
                p.tokens@ == t,
                program_from(t, p.current as int, p.next_id as int, decls_seq(declarations@), errs)
                    == program_spec(t, id0),
                extends(Seq::empty(), p.errors@, errs),
            decreases t.len() - p.current,
        {
            let ghost before = p;
            let ghost d = d_declaration(t, before.current as int, before.next_id as int);
            match p.declaration() {
                Ok(decl) => {
                    proof {
                        lemma_decls_push(declarations@, decl);
                        lemma_extends_trans(Seq::empty(), before.errors@, p.errors@, errs, d.rec);
                        errs = errs + d.rec;
                    }
                    declarations.push(decl);
                },
                Err(e) => {
                    let ghost mid = p.errors@;
                    p.errors.push(e);
                    proof {
                        lemma_extends_trans(Seq::empty(), before.errors@, mid, errs, d.rec);
                        lemma_extends_push(Seq::empty(), mid, errs + d.rec, e, d.res->Err_0);
                        errs = (errs + d.rec).push(d.res->Err_0);
                    }
                    p.synchronize();
                },
            }
        }
        let next = p.next_id;
        if p.errors.len() == 0 {
            (Ok(Program { declarations }), next)
        } else {
            (Err(p.errors), next)
        }
    }

    // ----- token access -----

    fn is_at_end(&self) -> (b: bool)
        requires
            self.inv(),
        ensures
            b == (kind_at(self.tokens@, self.current as int) == TokenKind::Eof),
    {
        self.tokens[self.current].kind == TokenKind::Eof
    }

    fn peek_kind(&self) -> (k: TokenKind)
        requires
            self.inv(),
        ensures
            k == kind_at(self.tokens@, self.current as int),
    {
        self.tokens[self.current].kind
    }

    fn check(&self, kind: TokenKind) -> (b: bool)
        requires
            self.inv(),
        ensures
            b == (kind_at(self.tokens@, self.current as int) == kind),
    {
        self.tokens[self.current].kind == kind
    }

    /// Step past the current token, unless it is the end of input.
    fn advance(&mut self)
        requires
            old(self).inv(),
        ensures
            old(self).moved_to(*final(self)),
            final(self).next_id == old(self).next_id,
            final(self).current == if kind_at(old(self).tokens@, old(self).current as int) == TokenKind::Eof {
                old(self).current as int
            } else {
                old(self).current + 1
            },
    {
        if !self.is_at_end() {
            self.current = self.current + 1;
        }
    }

    /// Step past the current token if it has the given kind.
    fn match_token(&mut self, kind: TokenKind) -> (b: bool)
        requires
            old(self).inv(),
            kind != TokenKind::Eof,
        ensures
            old(self).moved_to(*final(self)),
            final(self).next_id == old(self).next_id,
            b == (kind_at(old(self).tokens@, old(self).current as int) == kind),
            final(self).current == if b {
                old(self).current + 1
            } else {
                old(self).current as int
            },
    {
        if self.check(kind) {
            self.advance();
            true
        } else {
            false
        }
    }

    /// A fresh expression id.
    fn fresh_id(&mut self) -> (id: usize)
        requires
            old(self).inv(),
            old(self).next_id + 1 + old(self).tokens@.len() - old(self).current <= usize::MAX,
        ensures
            id == old(self).next_id,
            final(self).next_id == old(self).next_id + 1,
            final(self).current == old(self).current,
            final(self).tokens@ == old(self).tokens@,
            final(self).errors@ == old(self).errors@,
            final(self).inv(),
    {
        let id = self.next_id;
        self.next_id = self.next_id + 1;
        id
    }

    /// The span from the token at `start` to the last token read.
    fn span_from(&self, start: usize) -> (s: Span)
        requires
            self.inv(),
            start < self.current,
        ensures
            s == span_of(self.tokens@, start as int, self.current as int),
    {
        let first = self.tokens[start].span;
        let last = self.tokens[self.current - 1].span;
        proof {
            reveal(spans_in_order);
            if start < self.current - 1 {
                assert(self.tokens@[start as int].span.offset + self.tokens@[start as int].span.len
                    <= self.tokens@[self.current - 1].span.offset);
            }
            assert(self.tokens@[self.current - 1].span.offset + self.tokens@[self.current - 1].span.len
                <= self.tokens@[self.tokens@.len() - 1].span.offset) by {
                if self.current - 1 < self.tokens@.len() - 1 {
                } else {
                }
            }
        }
        Span::new(first.offset, last.offset + last.len - first.offset)
    }

    /// "expected <what>, found '<lexeme>'" at the current token.
    fn found_error(&self, what: &str) -> (e: CompileError)
        requires
            self.inv(),
        ensures
            is_parse_error(e, found_err(self.tokens@, self.current as int, what@)),
    {
        let tok = &self.tokens[self.current];
        let mut m = owned("expected ");
        append_str(&mut m, what);
        append_str(&mut m, ", found '");
        append_str(&mut m, tok.lexeme.as_str());
        append_str(&mut m, "'");
        let len = if tok.span.len == 0 {
            1
        } else {
            tok.span.len
        };
        CompileError::parse(m, tok.span.offset, len)
    }

    /// "expected <what>" at the current token.
    fn missing_error(&self, what: &str) -> (e: CompileError)
        requires
            self.inv(),
        ensures
            is_parse_error(e, missing_err(self.tokens@, self.current as int, what@)),
    {
        let tok = &self.tokens[self.current];
        let mut m = owned("expected ");
        append_str(&mut m, what);
        let len = if tok.span.len == 0 {
            1
        } else {
            tok.span.len
        };
        CompileError::parse(m, tok.span.offset, len)
    }

    /// Step past a token of the given kind, or report it missing.
    fn consume(&mut self, kind: TokenKind, message: &str) -> (r: Result<(), CompileError>)
        requires
            old(self).inv(),
            kind != TokenKind::Eof,
        ensures
            old(self).moved_to(*final(self)),
            final(self).next_id == old(self).next_id,
            kind_at(old(self).tokens@, old(self).current as int) == kind ==> r is Ok && final(self).current
                == old(self).current + 1,
            kind_at(old(self).tokens@, old(self).current as int) != kind ==> r is Err && final(self).current
                == old(self).current && is_parse_error(
                r->Err_0,
                found_err(old(self).tokens@, old(self).current as int, message@),
            ),
    {
        if self.check(kind) {
            self.advance();
            Ok(())
        } else {
            Err(self.found_error(message))
        }
    }

    /// Read an identifier's name, or report it missing as "expected <context>".
    fn expect_identifier(&mut self, context: &str) -> (r: Result<String, CompileError>)
        requires
            old(self).inv(),
        ensures
            old(self).moved_to(*final(self)),
            final(self).next_id == old(self).next_id,
            kind_at(old(self).tokens@, old(self).current as int) == TokenKind::Identifier ==> r is Ok
                && r->Ok_0@ == old(self).tokens@[old(self).current as int].lexeme@ && final(self).current
                == old(self).current + 1,
            kind_at(old(self).tokens@, old(self).current as int) != TokenKind::Identifier ==> r is Err
                && final(self).current == old(self).current && is_parse_error(
                r->Err_0,
                missing_err(old(self).tokens@, old(self).current as int, context@),
            ),
    {
        if self.check(TokenKind::Identifier) {
            let name = self.tokens[self.current].lexeme.clone();
            self.advance();
            Ok(name)
        } else {
            Err(self.missing_error(context))
        }
    }

    /// Error recovery: skip tokens until after a `;` or before a keyword
    /// that starts a declaration or statement.
    fn synchronize(&mut self)
        requires
            old(self).inv(),
        ensures
            old(self).moved_to(*final(self)),
            final(self).next_id == old(self).next_id,
            final(self).current == synchronize(old(self).tokens@, old(self).current as int),
            kind_at(old(self).tokens@, old(self).current as int) != TokenKind::Eof ==> final(self).current
                > old(self).current,
    {
        let ghost t = self.tokens@;
        let ghost target = synchronize(t, self.current as int);
        let ghost start = *self;
        self.advance();
        while !self.is_at_end()
            invariant
                self.inv(),
                start == *old(self),
                target == synchronize(t, start.current as int),
                start.moved_to(*self),
                self.next_id == start.next_id,
                self.tokens@ == t,
                sync_from(t, self.current as int) == target,
                kind_at(t, start.current as int) != TokenKind::Eof ==> self.current > start.current,
                kind_at(t, self.current as int) != TokenKind::Eof ==> self.current >= 1,
            decreases t.len() - self.current,
        {
            if self.tokens[self.current - 1].kind == TokenKind::Semicolon {
                assert(sync_from(t, self.current as int) == self.current);
                return ;
            }
            let k = self.peek_kind();
            match k {
                TokenKind::Class | TokenKind::Fun | TokenKind::Var | TokenKind::For | TokenKind::If
                | TokenKind::While | TokenKind::Print | TokenKind::Return => {
                    return ;
                },
                _ => {
                    self.advance();
                },
            }
        }
    }

    // ----- expressions -----

    fn expression(&mut self) -> (r: Result<Expr, CompileError>)
        requires
            old(self).inv(),
        ensures
            old(self).reached(
                *final(self),
                r,
                e_expression(old(self).tokens@, old(self).current as int, old(self).next_id as int),
                |e: Expr| expr_view(e),
            ),
        decreases old(self).tokens@.len() - old(self).current, 18int,
    {
        self.assignment()
    }

    fn assignment(&mut self) -> (r: Result<Expr, CompileError>)
        requires
            old(self).inv(),
        ensures
            old(self).reached(
                *final(self),
                r,
                e_assignment(old(self).tokens@, old(self).current as int, old(self).next_id as int),
                |e: Expr| expr_view(e),
            ),
        decreases old(self).tokens@.len() - old(self).current, 17int,
    {
        let start = self.current;
        let expr = match self.binary(0) {
            Ok(e) => e,
            Err(e) => {
                return Err(e);
            },
        };
        if self.match_token(TokenKind::Equal) {
            let value = match self.assignment() {
                Ok(v) => v,
                Err(e) => {
                    return Err(e);
                },
            };
            let span = self.span_from(start);
            match expr {
                Expr::Variable(v) => {
                    let id = self.fresh_id();
                    Ok(Expr::Assign(AssignExpr { id, name: v.name, value: Box::new(value), span }))
                },
                Expr::Get(g) => {
                    let id = self.fresh_id();
                    Ok(
                        Expr::SetProperty(
                            SetExpr { id, object: g.object, name: g.name, value: Box::new(value), span },
                        ),
                    )
                },
                _ => Err(CompileError::parse(owned("invalid assignment target"), span.offset, span.len)),
            }
        } else {
            Ok(expr)
        }
    }

    /// A chain of binary operators of level `lvl`.
    fn binary(&mut self, lvl: u8) -> (r: Result<Expr, CompileError>)
        requires
            old(self).inv(),
            lvl <= 5,
        ensures
            old(self).reached(
                *final(self),
                r,
                e_binary(old(self).tokens@, old(self).current as int, old(self).next_id as int, lvl as nat),
                |e: Expr| expr_view(e),
            ),
        decreases old(self).tokens@.len() - old(self).current, 16 - 2 * lvl,
    {
        let ghost t = self.tokens@;
        let ghost id0 = self.next_id as int;
        let ghost s0 = *self;
        let start = self.current;
        let first = if lvl == 5 {
            self.unary()
        } else {
            self.binary(lvl + 1)
        };
        let mut expr = match first {
            Ok(e) => e,
            Err(e) => {
                return Err(e);
            },
        };
        loop
            invariant
                s0.moved_to(*self),
                s0 == *old(self),
                s0.current == start,
                s0.next_id == id0,
                t == s0.tokens@,
                lvl <= 5,
                start < self.current,
                e_binary_rest(t, self.current as int, self.next_id as int, lvl as nat, expr_view(expr), start as int)
                    == e_binary(t, start as int, id0, lvl as nat),
            decreases t.len() - self.current,
        {
            let k = self.peek_kind();
            if !is_infix_at_level(lvl, k) {
                return Ok(expr);
            }
            self.advance();
            let next = if lvl == 5 {
                self.unary()
            } else {
                self.binary(lvl + 1)
            };
            let right = match next {
                Ok(e) => e,
                Err(e) => {
                    return Err(e);
                },
            };
            let span = self.span_from(start);
            let id = self.fresh_id();
            expr = infix_node_exec(lvl, k, id, expr, right, span);
        }
    }

    fn unary(&mut self) -> (r: Result<Expr, CompileError>)
        requires
            old(self).inv(),
        ensures
            old(self).reached(
                *final(self),
                r,
                e_unary(old(self).tokens@, old(self).current as int, old(self).next_id as int),
                |e: Expr| expr_view(e),
            ),
        decreases old(self).tokens@.len() - old(self).current, 4int,
    {
        if self.check(TokenKind::Bang) || self.check(TokenKind::Minus) {
            let start = self.current;
            let op = if self.match_token(TokenKind::Bang) {
                UnaryOp::Not
            } else {
                self.advance();
                UnaryOp::Negate
            };
            let operand = match self.unary() {
                Ok(e) => e,
                Err(e) => {
                    return Err(e);
                },
            };
            let span = self.span_from(start);
            let id = self.fresh_id();
            return Ok(Expr::Unary(UnaryExpr { id, operator: op, operand: Box::new(operand), span }));
        }
        self.call()
    }

    fn call(&mut self) -> (r: Result<Expr, CompileError>)
        requires
            old(self).inv(),
        ensures
            old(self).reached(
                *final(self),
                r,
                e_call(old(self).tokens@, old(self).current as int, old(self).next_id as int),
                |e: Expr| expr_view(e),
            ),
        decreases old(self).tokens@.len() - old(self).current, 3int,
    {
        let ghost t = self.tokens@;
        let ghost id0 = self.next_id as int;
        let ghost s0 = *self;
        let start = self.current;
        let mut expr = match self.primary() {
            Ok(e) => e,
            Err(e) => {
                return Err(e);
            },
        };
        loop
            invariant
                s0.moved_to(*self),
                s0 == *old(self),
                s0.current == start,
                s0.next_id == id0,
                t == s0.tokens@,
                start < self.current,
                e_call_rest(t, self.current as int, self.next_id as int, expr_view(expr), start as int) == e_call(
                    t,
                    start as int,
                    id0,
                ),
            decreases t.len() - self.current,
        {
            if self.match_token(TokenKind::LeftParen) {
                expr = match self.finish_call(expr, start) {
                    Ok(e) => e,
                    Err(e) => {
                        return Err(e);
                    },
                };
            } else if self.match_token(TokenKind::Dot) {
                let name = match self.expect_identifier("property name") {
                    Ok(n) => n,
                    Err(e) => {
                        return Err(e);
                    },
                };
                let span = self.span_from(start);
                let id = self.fresh_id();
                expr = Expr::Get(GetExpr { id, object: Box::new(expr), name, span });
            } else {
                return Ok(expr);
            }
        }
    }

    /// The arguments and `)` of a call of `callee`, which started at `start`.
    #[verifier::rlimit(40)]
    fn finish_call(&mut self, callee: Expr, start: usize) -> (r: Result<Expr, CompileError>)
        requires
            old(self).inv(),
            start < old(self).current,
        ensures
            old(self).reached(
                *final(self),
                r,
                e_finish_call(
                    old(self).tokens@,
                    old(self).current as int,
                    old(self).next_id as int,
                    expr_view(callee),
                    start as int,
                ),
                |e: Expr| expr_view(e),
            ),
        decreases old(self).tokens@.len() - old(self).current, 20int,
    {
        let ghost t = self.tokens@;
        let ghost a = self.current as int;
        let ghost id0 = self.next_id as int;
        let ghost s0 = *self;
        let arguments = if self.check(TokenKind::RightParen) {
            Vec::new()
        } else {
            match self.arguments() {
                Ok(args) => args,
                Err(e) => {
                    return Err(e);
                },
            }
        };
        proof {
            assert(exprs_seq(Seq::<Expr>::empty()) =~= Seq::<SExpr>::empty());
        }
        match self.consume(TokenKind::RightParen, "')' after arguments") {
            Ok(()) => {},
            Err(e) => {
                return Err(e);
            },
        }
        let span = self.span_from(start);
        let id = self.fresh_id();
        Ok(Expr::Call(CallExpr { id, callee: Box::new(callee), arguments, span }))
    }

    /// The comma-separated arguments of a call, at most 255 of them.
    fn arguments(&mut self) -> (r: Result<Vec<Expr>, CompileError>)
        requires
            old(self).inv(),
        ensures
            old(self).reached(
                *final(self),
                r,
                e_arguments(old(self).tokens@, old(self).current as int, old(self).next_id as int, Seq::empty()),
                |v: Vec<Expr>| exprs_seq(v@),
            ),
        decreases old(self).tokens@.len() - old(self).current, 19int,
    {
        let ghost t = self.tokens@;
        let ghost target = e_arguments(t, self.current as int, self.next_id as int, Seq::empty());
        let ghost s0 = *self;
        let mut arguments: Vec<Expr> = Vec::new();
        let mut more = true;
        proof {
            assert(exprs_seq(arguments@) =~= Seq::<SExpr>::empty());
        }
        while more
            invariant
                s0.moved_to(*self),
                s0 == *old(self),
                t == s0.tokens@,
                target == e_arguments(t, s0.current as int, s0.next_id as int, Seq::empty()),
                arguments@.len() == 0 ==> self.current == s0.current && self.next_id == s0.next_id,
                arguments@.len() > 0 ==> self.current > s0.current,
                exprs_seq(arguments@).len() == arguments@.len(),
                more ==> e_arguments(t, self.current as int, self.next_id as int, exprs_seq(arguments@)) == target,
                !more ==> target == done(exprs_seq(arguments@), self.current as int, self.next_id as int),
                !more ==> arguments@.len() > 0,
            decreases t.len() - self.current, if more { 1int } else { 0int },
        {
            if arguments.len() >= 255 {
                let tok_span = self.tokens[self.current].span;
                return Err(
                    CompileError::parse(owned("can't have more than 255 arguments"), tok_span.offset, tok_span.len),
                );
            }
            let arg = match self.expression() {
                Ok(e) => e,
                Err(e) => {
                    return Err(e);
                },
            };
            proof {
                lemma_exprs_push(arguments@, arg);
            }
            arguments.push(arg);
            more = self.match_token(TokenKind::Comma);
        }
        Ok(arguments)
    }

    fn primary(&mut self) -> (r: Result<Expr, CompileError>)
        requires
            old(self).inv(),
        ensures
            old(self).reached(
                *final(self),
                r,
                e_primary(old(self).tokens@, old(self).current as int, old(self).next_id as int),
                |e: Expr| expr_view(e),
            ),
        decreases old(self).tokens@.len() - old(self).current, 1int,
    {
        let start = self.current;
        let k = self.peek_kind();
        let tok_span = self.tokens[start].span;
        match k {
            TokenKind::Number | TokenKind::String | TokenKind::True | TokenKind::False | TokenKind::Nil => {
                let value = match k {
                    TokenKind::Number => LiteralValue::Number(self.tokens[start].lexeme.clone()),
                    TokenKind::String => LiteralValue::String(self.tokens[start].lexeme.clone()),
                    TokenKind::True => LiteralValue::Bool(true),
                    TokenKind::False => LiteralValue::Bool(false),
                    _ => LiteralValue::Nil,
                };
                self.advance();
                let id = self.fresh_id();
                Ok(Expr::Literal(LiteralExpr { id, value, span: tok_span }))
            },
            TokenKind::This => {
                self.advance();
                let id = self.fresh_id();
                Ok(Expr::This(ThisExpr { id, span: tok_span }))
            },
            TokenKind::Identifier => {
                let name = self.tokens[start].lexeme.clone();
                self.advance();
                let id = self.fresh_id();
                Ok(Expr::Variable(VariableExpr { id, name, span: tok_span }))
            },
            TokenKind::Super => {
                self.advance();
                match self.consume(TokenKind::Dot, "'.' after 'super'") {
                    Ok(()) => {},
                    Err(e) => {
                        return Err(e);
                    },
                }
                let method = match self.expect_identifier("superclass method name") {
                    Ok(n) => n,
                    Err(e) => {
                        return Err(e);
                    },
                };
                let span = self.span_from(start);
                let id = self.fresh_id();
                Ok(Expr::Super(SuperExpr { id, method, span }))
            },
            TokenKind::LeftParen => {
                self.advance();
                let expr = match self.expression() {
                    Ok(e) => e,
                    Err(e) => {
                        return Err(e);
                    },
                };
                match self.consume(TokenKind::RightParen, "')' after expression") {
                    Ok(()) => {},
                    Err(e) => {
                        return Err(e);
                    },
                }
                let span = self.span_from(start);
                let id = self.fresh_id();
                Ok(Expr::Grouping(GroupingExpr { id, expression: Box::new(expr), span }))
            },
            _ => Err(self.found_error("expression")),
        }
    }
}

/// The span an expression records is the span of its value.
pub(crate) proof fn lemma_span_of_view(e: Expr)
    ensures
        sexpr_span(expr_view(e)) == e.spec_span(),
{
}

} // verus!
