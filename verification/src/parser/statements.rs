//! The declaration and statement rules of the parser.
use vstd::prelude::*;

use crate::ast::{
    decl_view, decls_seq, decls_view, expr_view, fun_view, funs_seq, lemma_decls_push, lemma_funs_push, names_view,
    opt_decl_view, opt_expr_view, stmt_view,
    BlockStmt, ClassDecl, Decl, Expr, ExprStmt, FunDecl, Function, IfStmt, LiteralExpr, LiteralValue, PrintStmt,
    ReturnStmt, SDecl, SExpr, SFun, SStmt, Stmt, VarDecl, WhileStmt,
};
use crate::error::CompileError;
use crate::parser::grammar::{
    d_block, d_block_statement, d_class, d_declaration, d_expression_statement, d_for, d_fun, d_function, d_if,
    d_methods, d_print, d_return, d_statement, d_var, d_while, done, for_condition, for_increment, for_initializer,
    desugar_for, kind_at, params_from, params_list, prefixed, sexpr_span, PErr, Parsed,
};
use crate::parser::{extends, is_parse_error, lemma_extends_push, lemma_extends_same, lemma_extends_trans, lemma_span_of_view, Parser};
use crate::scanner::token::{Span, TokenKind};
use crate::text::{append_str, owned};

verus! {

impl Parser {
    // ----- declarations and statements -----

    pub(crate) fn declaration(&mut self) -> (r: Result<Decl, CompileError>)
        requires
            old(self).inv(),
        ensures
            old(self).reached_rec(
                *final(self),
                r,
                d_declaration(old(self).tokens@, old(self).current as int, old(self).next_id as int),
                |d: Decl| decl_view(d),
            ),
        decreases old(self).tokens@.len() - old(self).current, 3int,
    {
        if self.check(TokenKind::Class) {
            self.class_declaration()
        } else if self.check(TokenKind::Fun) {
            self.fun_declaration()
        } else if self.check(TokenKind::Var) {
            self.var_declaration()
        } else {
            match self.statement() {
                Ok(s) => Ok(Decl::Statement(s)),
                Err(e) => Err(e),
            }
        }
    }

    #[verifier::rlimit(40)]
    fn class_declaration(&mut self) -> (r: Result<Decl, CompileError>)
        requires
            old(self).inv(),
            kind_at(old(self).tokens@, old(self).current as int) == TokenKind::Class,
        ensures
            old(self).reached_rec(
                *final(self),
                r,
                d_class(old(self).tokens@, old(self).current as int, old(self).next_id as int),
                |d: Decl| decl_view(d),
            ),
        decreases old(self).tokens@.len() - old(self).current, 1int,
    {
        let ghost t = self.tokens@;
        let ghost s0 = *self;
        let start = self.current;
        self.advance();
        let name = match self.expect_identifier("class name") {
            Ok(n) => n,
            Err(e) => {
                return Err(e);
            },
        };
        let superclass = if self.match_token(TokenKind::Less) {
            match self.expect_identifier("superclass name") {
                Ok(n) => Some(n),
                Err(e) => {
                    return Err(e);
                },
            }
        } else {
            None
        };
        match self.consume(TokenKind::LeftBrace, "'{' before class body") {
            Ok(()) => {},
            Err(e) => {
                return Err(e);
            },
        }
        let methods = match self.methods() {
            Ok(ms) => ms,
            Err(e) => {
                return Err(e);
            },
        };
        match self.consume(TokenKind::RightBrace, "'}' after class body") {
            Ok(()) => {},
            Err(e) => {
                return Err(e);
            },
        }
        let span = self.span_from(start);
        Ok(Decl::Class(ClassDecl { name, superclass, methods, span }))
    }

    fn fun_declaration(&mut self) -> (r: Result<Decl, CompileError>)
        requires
            old(self).inv(),
            kind_at(old(self).tokens@, old(self).current as int) == TokenKind::Fun,
        ensures
            old(self).reached_rec(
                *final(self),
                r,
                d_fun(old(self).tokens@, old(self).current as int, old(self).next_id as int),
                |d: Decl| decl_view(d),
            ),
        decreases old(self).tokens@.len() - old(self).current, 1int,
    {
        let start = self.current;
        self.advance();
        let function = match self.function("function") {
            Ok(f) => f,
            Err(e) => {
                return Err(e);
            },
        };
        let span = self.span_from(start);
        Ok(Decl::Fun(FunDecl { function, span }))
    }

    /// A function's name, parameters and body; `kind` is "function" or "method".
    #[verifier::rlimit(40)]
    fn function(&mut self, kind: &str) -> (r: Result<Function, CompileError>)
        requires
            old(self).inv(),
        ensures
            old(self).reached_rec(
                *final(self),
                r,
                d_function(old(self).tokens@, old(self).current as int, old(self).next_id as int, kind@),
                |f: Function| fun_view(f),
            ),
        decreases old(self).tokens@.len() - old(self).current, 1int,
    {
        let ghost t = self.tokens@;
        let ghost s0 = *self;
        let start = self.current;
        let mut what = owned(kind);
        append_str(&mut what, " name");
        let name = match self.expect_identifier(what.as_str()) {
            Ok(n) => n,
            Err(e) => {
                return Err(e);
            },
        };
        let mut open_msg = owned("'(' after ");
        append_str(&mut open_msg, kind);
        append_str(&mut open_msg, " name");
        match self.consume(TokenKind::LeftParen, open_msg.as_str()) {
            Ok(()) => {},
            Err(e) => {
                return Err(e);
            },
        }
        let params = match self.parameters() {
            Ok(ps) => ps,
            Err(e) => {
                return Err(e);
            },
        };
        match self.consume(TokenKind::RightParen, "')' after parameters") {
            Ok(()) => {},
            Err(e) => {
                return Err(e);
            },
        }
        let mut body_msg = owned("'{' before ");
        append_str(&mut body_msg, kind);
        append_str(&mut body_msg, " body");
        match self.consume(TokenKind::LeftBrace, body_msg.as_str()) {
            Ok(()) => {},
            Err(e) => {
                return Err(e);
            },
        }
        let body = match self.block_declarations() {
            Ok(b) => b,
            Err(e) => {
                return Err(e);
            },
        };
        let span = self.span_from(start);
        Ok(Function { name, params, body, span })
    }

    /// The methods of a class body, up to its closing brace or the end of input.
    fn methods(&mut self) -> (r: Result<Vec<Function>, CompileError>)
        requires
            old(self).inv(),
        ensures
            old(self).stepped_to(*final(self)),
            extends(
                old(self).errors@,
                final(self).errors@,
                d_methods(old(self).tokens@, old(self).current as int, old(self).next_id as int, Seq::empty()).rec,
            ),
            final(self).current == d_methods(old(self).tokens@, old(self).current as int, old(self).next_id as int, Seq::empty()).pos,
            final(self).next_id == d_methods(old(self).tokens@, old(self).current as int, old(self).next_id as int, Seq::empty()).id,
            match r {
                Ok(ms) => d_methods(old(self).tokens@, old(self).current as int, old(self).next_id as int, Seq::empty()).res
                    == Ok::<Seq<SFun>, PErr>(funs_seq(ms@)),
                Err(e) => d_methods(old(self).tokens@, old(self).current as int, old(self).next_id as int, Seq::empty()).res is Err
                    && is_parse_error(e, d_methods(old(self).tokens@, old(self).current as int, old(self).next_id as int, Seq::empty()).res->Err_0),
            },
        decreases old(self).tokens@.len() - old(self).current, 2int,
    {
        let ghost t = self.tokens@;
        let ghost s0 = *self;
        let ghost target = d_methods(t, self.current as int, self.next_id as int, Seq::empty());
        let ghost mut rec: Seq<PErr> = Seq::empty();
        let mut methods: Vec<Function> = Vec::new();
        proof {
            assert(funs_seq(methods@) =~= Seq::<SFun>::empty());
            lemma_extends_same(self.errors@);
            let x = d_methods(t, self.current as int, self.next_id as int, funs_seq(methods@));
            assert(rec + x.rec =~= x.rec);
        }
        while !self.check(TokenKind::RightBrace) && !self.is_at_end()
            invariant
                s0.stepped_to(*self),
                s0 == *old(self),
                t == s0.tokens@,
                target == d_methods(t, s0.current as int, s0.next_id as int, Seq::empty()),
                prefixed(rec, d_methods(t, self.current as int, self.next_id as int, funs_seq(methods@))) == target,
                extends(s0.errors@, self.errors@, rec),
            decreases t.len() - self.current,
        {
            let ghost before = *self;
            let ghost f = d_function(t, before.current as int, before.next_id as int, "method"@);
            let m = match self.function("method") {
                Ok(f) => f,
                Err(e) => {
                    proof {
                        lemma_extends_trans(s0.errors@, before.errors@, self.errors@, rec, f.rec);
                        assert(rec + (f.rec + Seq::empty()) =~= rec + f.rec);
                    }
                    return Err(e);
                },
            };
            proof {
                lemma_funs_push(methods@, m);
                lemma_extends_trans(s0.errors@, before.errors@, self.errors@, rec, f.rec);
            }
            methods.push(m);
            proof {
                let x = d_methods(t, self.current as int, self.next_id as int, funs_seq(methods@));
                assert(rec + (f.rec + x.rec) =~= (rec + f.rec) + x.rec);
                rec = rec + f.rec;
            }
        }
        proof {
            assert(rec + Seq::empty() =~= rec);
        }
        Ok(methods)
    }

    /// The parameter names of a function, up to its `)`.
    fn parameters(&mut self) -> (r: Result<Vec<String>, CompileError>)
        requires
            old(self).inv(),
        ensures
            old(self).moved_to(*final(self)),
            final(self).next_id == old(self).next_id,
            final(self).current == params_list(old(self).tokens@, old(self).current as int).pos,
            match r {
                Ok(ps) => params_list(old(self).tokens@, old(self).current as int).res
                    == Ok::<Seq<Seq<char>>, PErr>(names_view(ps@)),
                Err(e) => params_list(old(self).tokens@, old(self).current as int).res is Err
                    && is_parse_error(e, params_list(old(self).tokens@, old(self).current as int).res->Err_0),
            },
    {
        let ghost t = self.tokens@;
        let ghost s0 = *self;
        let ghost target = params_list(t, self.current as int);
        let mut params: Vec<String> = Vec::new();
        proof {
            assert(names_view(params@) =~= Seq::<Seq<char>>::empty());
        }
        if self.check(TokenKind::RightParen) {
            return Ok(params);
        }
        let mut more = true;
        while more
            invariant
                s0.moved_to(*self),
                s0 == *old(self),
                t == s0.tokens@,
                self.next_id == s0.next_id,
                target == params_list(t, s0.current as int),
                kind_at(t, s0.current as int) != TokenKind::RightParen,
                more ==> params_from(t, self.current as int, names_view(params@)) == target,
                !more ==> target == done(names_view(params@), self.current as int, 0),
            decreases t.len() - self.current,
        {
            if params.len() >= 255 {
                let tok_span = self.tokens[self.current].span;
                return Err(
                    CompileError::parse(owned("can't have more than 255 parameters"), tok_span.offset, tok_span.len),
                );
            }
            let pname = match self.expect_identifier("parameter name") {
                Ok(n) => n,
                Err(e) => {
                    return Err(e);
                },
            };
            proof {
                assert(names_view(params@.push(pname)) =~= names_view(params@).push(pname@));
            }
            params.push(pname);
            more = self.match_token(TokenKind::Comma);
        }
        Ok(params)
    }

    fn var_declaration(&mut self) -> (r: Result<Decl, CompileError>)
        requires
            old(self).inv(),
            kind_at(old(self).tokens@, old(self).current as int) == TokenKind::Var,
        ensures
            old(self).reached_rec(
                *final(self),
                r,
                d_var(old(self).tokens@, old(self).current as int, old(self).next_id as int),
                |d: Decl| decl_view(d),
            ),
            final(self).errors@ == old(self).errors@,
        decreases old(self).tokens@.len() - old(self).current, 1int,
    {
        let start = self.current;
        self.advance();
        let name = match self.expect_identifier("variable name") {
            Ok(n) => n,
            Err(e) => {
                return Err(e);
            },
        };
        let initializer = if self.match_token(TokenKind::Equal) {
            match self.expression() {
                Ok(e) => Some(e),
                Err(e) => {
                    return Err(e);
                },
            }
        } else {
            None
        };
        match self.consume(TokenKind::Semicolon, "';' after variable declaration") {
            Ok(()) => {},
            Err(e) => {
                return Err(e);
            },
        }
        let span = self.span_from(start);
        Ok(Decl::Var(VarDecl { name, initializer, span }))
    }

    fn statement(&mut self) -> (r: Result<Stmt, CompileError>)
        requires
            old(self).inv(),
        ensures
            old(self).reached_rec(
                *final(self),
                r,
                d_statement(old(self).tokens@, old(self).current as int, old(self).next_id as int),
                |s: Stmt| stmt_view(s),
            ),
        decreases old(self).tokens@.len() - old(self).current, 2int,
    {
        if self.check(TokenKind::Print) {
            self.print_statement()
        } else if self.check(TokenKind::Return) {
            self.return_statement()
        } else if self.check(TokenKind::LeftBrace) {
            self.block_statement()
        } else if self.check(TokenKind::If) {
            self.if_statement()
        } else if self.check(TokenKind::While) {
            self.while_statement()
        } else if self.check(TokenKind::For) {
            self.for_statement()
        } else {
            self.expression_statement()
        }
    }

    fn print_statement(&mut self) -> (r: Result<Stmt, CompileError>)
        requires
            old(self).inv(),
            kind_at(old(self).tokens@, old(self).current as int) == TokenKind::Print,
        ensures
            old(self).reached_rec(
                *final(self),
                r,
                d_print(old(self).tokens@, old(self).current as int, old(self).next_id as int),
                |s: Stmt| stmt_view(s),
            ),
        decreases old(self).tokens@.len() - old(self).current, 1int,
    {
        let start = self.current;
        self.advance();
        let expression = match self.expression() {
            Ok(e) => e,
            Err(e) => {
                return Err(e);
            },
        };
        match self.consume(TokenKind::Semicolon, "';' after print value") {
            Ok(()) => {},
            Err(e) => {
                return Err(e);
            },
        }
        let span = self.span_from(start);
        Ok(Stmt::Print(PrintStmt { expression, span }))
    }

    fn return_statement(&mut self) -> (r: Result<Stmt, CompileError>)
        requires
            old(self).inv(),
            kind_at(old(self).tokens@, old(self).current as int) == TokenKind::Return,
        ensures
            old(self).reached_rec(
                *final(self),
                r,
                d_return(old(self).tokens@, old(self).current as int, old(self).next_id as int),
                |s: Stmt| stmt_view(s),
            ),
        decreases old(self).tokens@.len() - old(self).current, 1int,
    {
        let start = self.current;
        self.advance();
        let value = if !self.check(TokenKind::Semicolon) {
            match self.expression() {
                Ok(e) => Some(e),
                Err(e) => {
                    return Err(e);
                },
            }
        } else {
            None
        };
        match self.consume(TokenKind::Semicolon, "';' after return value") {
            Ok(()) => {},
            Err(e) => {
                return Err(e);
            },
        }
        let span = self.span_from(start);
        Ok(Stmt::Return(ReturnStmt { value, span }))
    }

    fn block_statement(&mut self) -> (r: Result<Stmt, CompileError>)
        requires
            old(self).inv(),
            kind_at(old(self).tokens@, old(self).current as int) == TokenKind::LeftBrace,
        ensures
            old(self).reached_rec(
                *final(self),
                r,
                d_block_statement(old(self).tokens@, old(self).current as int, old(self).next_id as int),
                |s: Stmt| stmt_view(s),
            ),
        decreases old(self).tokens@.len() - old(self).current, 1int,
    {
        let start = self.current;
        self.advance();
        let declarations = match self.block_declarations() {
            Ok(ds) => ds,
            Err(e) => {
                return Err(e);
            },
        };
        let span = self.span_from(start);
        Ok(Stmt::Block(BlockStmt { declarations, span }))
    }

    /// The declarations of a block, through its closing brace. A declaration
    /// that fails is recorded, and the block goes on after the next
    /// statement boundary.
    #[verifier::rlimit(40)]
    fn block_declarations(&mut self) -> (r: Result<Vec<Decl>, CompileError>)
        requires
            old(self).inv(),
        ensures
            old(self).reached_rec(
                *final(self),
                r,
                d_block(old(self).tokens@, old(self).current as int, old(self).next_id as int, Seq::empty()),
                |ds: Vec<Decl>| decls_seq(ds@),
            ),
        decreases old(self).tokens@.len() - old(self).current, 4int,
    {
        let ghost t = self.tokens@;
        let ghost s0 = *self;
        let ghost target = d_block(t, s0.current as int, s0.next_id as int, Seq::empty());
        let ghost mut rec: Seq<PErr> = Seq::empty();
        let mut declarations: Vec<Decl> = Vec::new();
        proof {
            lemma_extends_same(self.errors@);
            let x = d_block(t, self.current as int, self.next_id as int, decls_seq(declarations@));
            assert(rec + x.rec =~= x.rec);
        }
        while !self.check(TokenKind::RightBrace) && !self.is_at_end()
            invariant
                s0.stepped_to(*self),
                s0 == *old(self),
                t == s0.tokens@,
                target == d_block(t, s0.current as int, s0.next_id as int, Seq::empty()),
                prefixed(rec, d_block(t, self.current as int, self.next_id as int, decls_seq(declarations@))) == target,
                extends(s0.errors@, self.errors@, rec),
            decreases t.len() - self.current,
        {
            let ghost before = *self;
            let ghost d = d_declaration(t, before.current as int, before.next_id as int);
            match self.declaration() {
                Ok(decl) => {
                    proof {
                        lemma_decls_push(declarations@, decl);
                        lemma_extends_trans(s0.errors@, before.errors@, self.errors@, rec, d.rec);
                    }
                    declarations.push(decl);
                    proof {
                        let x = d_block(t, self.current as int, self.next_id as int, decls_seq(declarations@));
                        assert(rec + (d.rec + x.rec) =~= (rec + d.rec) + x.rec);
                        rec = rec + d.rec;
                    }
                },
                Err(e) => {
                    let ghost mid = self.errors@;
                    self.errors.push(e);
                    proof {
                        lemma_extends_trans(s0.errors@, before.errors@, mid, rec, d.rec);
                        lemma_extends_push(s0.errors@, mid, rec + d.rec, e, d.res->Err_0);
                    }
                    self.synchronize();
                    proof {
                        let x = d_block(t, self.current as int, self.next_id as int, decls_seq(declarations@));
                        assert(rec + (d.rec.push(d.res->Err_0) + x.rec) =~= (rec + d.rec).push(d.res->Err_0) + x.rec);
                        rec = (rec + d.rec).push(d.res->Err_0);
                    }
                },
            }
        }
        proof {
            assert(rec + Seq::empty() =~= rec);
        }
        match self.consume(TokenKind::RightBrace, "'}' after block") {
            Ok(()) => {},
            Err(e) => {
                return Err(e);
            },
        }
        Ok(declarations)
    }

    #[verifier::rlimit(40)]
    fn if_statement(&mut self) -> (r: Result<Stmt, CompileError>)
        requires
            old(self).inv(),
            kind_at(old(self).tokens@, old(self).current as int) == TokenKind::If,
        ensures
            old(self).reached_rec(
                *final(self),
                r,
                d_if(old(self).tokens@, old(self).current as int, old(self).next_id as int),
                |s: Stmt| stmt_view(s),
            ),
        decreases old(self).tokens@.len() - old(self).current, 1int,
    {
        let start = self.current;
        self.advance();
        match self.consume(TokenKind::LeftParen, "'(' after 'if'") {
            Ok(()) => {},
            Err(e) => {
                return Err(e);
            },
        }
        let condition = match self.expression() {
            Ok(e) => e,
            Err(e) => {
                return Err(e);
            },
        };
        match self.consume(TokenKind::RightParen, "')' after if condition") {
            Ok(()) => {},
            Err(e) => {
                return Err(e);
            },
        }
        let ghost t = self.tokens@;
        let ghost s0 = *old(self);
        let ghost s1 = *self;
        let ghost th = d_statement(t, s1.current as int, s1.next_id as int);
        let then_branch = match self.statement() {
            Ok(s) => Box::new(s),
            Err(e) => {
                proof {
                    assert(th.rec + Seq::empty() =~= th.rec);
                }
                return Err(e);
            },
        };
        let ghost s2 = *self;
        let else_branch = if self.match_token(TokenKind::Else) {
            let ghost s3 = *self;
            let ghost el = d_statement(t, s3.current as int, s3.next_id as int);
            match self.statement() {
                Ok(s) => {
                    proof {
                        lemma_extends_trans(s0.errors@, s3.errors@, self.errors@, th.rec, el.rec);
                        assert(th.rec + (el.rec + Seq::empty()) =~= th.rec + el.rec);
                    }
                    Some(Box::new(s))
                },
                Err(e) => {
                    proof {
                        lemma_extends_trans(s0.errors@, s3.errors@, self.errors@, th.rec, el.rec);
                        assert(th.rec + (el.rec + Seq::empty()) =~= th.rec + el.rec);
                    }
                    return Err(e);
                },
            }
        } else {
            proof {
                assert(th.rec + Seq::empty() =~= th.rec);
            }
            None
        };
        let span = self.span_from(start);
        Ok(Stmt::If(IfStmt { condition, then_branch, else_branch, span }))
    }

    #[verifier::rlimit(40)]
    fn while_statement(&mut self) -> (r: Result<Stmt, CompileError>)
        requires
            old(self).inv(),
            kind_at(old(self).tokens@, old(self).current as int) == TokenKind::While,
        ensures
            old(self).reached_rec(
                *final(self),
                r,
                d_while(old(self).tokens@, old(self).current as int, old(self).next_id as int),
                |s: Stmt| stmt_view(s),
            ),
        decreases old(self).tokens@.len() - old(self).current, 1int,
    {
        let start = self.current;
        self.advance();
        match self.consume(TokenKind::LeftParen, "'(' after 'while'") {
            Ok(()) => {},
            Err(e) => {
                return Err(e);
            },
        }
        let condition = match self.expression() {
            Ok(e) => e,
            Err(e) => {
                return Err(e);
            },
        };
        match self.consume(TokenKind::RightParen, "')' after while condition") {
            Ok(()) => {},
            Err(e) => {
                return Err(e);
            },
        }
        let body = match self.statement() {
            Ok(s) => Box::new(s),
            Err(e) => {
                return Err(e);
            },
        };
        let span = self.span_from(start);
        Ok(Stmt::While(WhileStmt { condition, body, span }))
    }

    /// The initializer clause of a `for` statement whose keyword is at `for_start`.
    fn for_initializer(&mut self, for_start: usize) -> (r: Result<Option<Decl>, CompileError>)
        requires
            old(self).inv(),
            for_start < old(self).current,
        ensures
            old(self).reached(
                *final(self),
                r,
                for_initializer(old(self).tokens@, old(self).current as int, old(self).next_id as int, for_start as int),
                |d: Option<Decl>| opt_decl_view(d),
            ),
        decreases old(self).tokens@.len() - for_start, 0int,
    {
        if self.match_token(TokenKind::Semicolon) {
            Ok(None)
        } else if self.check(TokenKind::Var) {
            match self.var_declaration() {
                Ok(d) => Ok(Some(d)),
                Err(e) => Err(e),
            }
        } else {
            let expr = match self.expression() {
                Ok(e) => e,
                Err(e) => {
                    return Err(e);
                },
            };
            match self.consume(TokenKind::Semicolon, "';' after for initializer") {
                Ok(()) => {},
                Err(e) => {
                    return Err(e);
                },
            }
            let span = expr.span();
            proof {
                lemma_span_of_view(expr);
            }
            Ok(Some(Decl::Statement(Stmt::Expression(ExprStmt { expression: expr, span }))))
        }
    }

    /// The condition clause of a `for` statement, through its `;`.
    fn for_condition(&mut self) -> (r: Result<Expr, CompileError>)
        requires
            old(self).inv(),
        ensures
            old(self).reached(
                *final(self),
                r,
                for_condition(old(self).tokens@, old(self).current as int, old(self).next_id as int),
                |e: Expr| expr_view(e),
            ),
    {
        if !self.check(TokenKind::Semicolon) {
            let expr = match self.expression() {
                Ok(e) => e,
                Err(e) => {
                    return Err(e);
                },
            };
            match self.consume(TokenKind::Semicolon, "';' after for condition") {
                Ok(()) => Ok(expr),
                Err(e) => Err(e),
            }
        } else {
            let span = self.tokens[self.current].span;
            self.advance();
            let id = self.fresh_id();
            Ok(Expr::Literal(LiteralExpr { id, value: LiteralValue::Bool(true), span }))
        }
    }

    /// The increment clause of a `for` statement, through its `)`.
    fn for_increment(&mut self) -> (r: Result<Option<Expr>, CompileError>)
        requires
            old(self).inv(),
        ensures
            old(self).reached(
                *final(self),
                r,
                for_increment(old(self).tokens@, old(self).current as int, old(self).next_id as int),
                |e: Option<Expr>| opt_expr_view(e),
            ),
    {
        let increment = if !self.check(TokenKind::RightParen) {
            match self.expression() {
                Ok(e) => Some(e),
                Err(e) => {
                    return Err(e);
                },
            }
        } else {
            None
        };
        match self.consume(TokenKind::RightParen, "')' after for clauses") {
            Ok(()) => Ok(increment),
            Err(e) => Err(e),
        }
    }

    /// A `for` loop, read as the `while` loop it stands for.
    #[verifier::rlimit(40)]
    fn for_statement(&mut self) -> (r: Result<Stmt, CompileError>)
        requires
            old(self).inv(),
            kind_at(old(self).tokens@, old(self).current as int) == TokenKind::For,
        ensures
            old(self).reached_rec(
                *final(self),
                r,
                d_for(old(self).tokens@, old(self).current as int, old(self).next_id as int),
                |s: Stmt| stmt_view(s),
            ),
        decreases old(self).tokens@.len() - old(self).current, 1int,
    {
        let start = self.current;
        self.advance();
        match self.consume(TokenKind::LeftParen, "'(' after 'for'") {
            Ok(()) => {},
            Err(e) => {
                return Err(e);
            },
        }
        let initializer = match self.for_initializer(start) {
            Ok(i) => i,
            Err(e) => {
                return Err(e);
            },
        };
        let condition = match self.for_condition() {
            Ok(c) => c,
            Err(e) => {
                return Err(e);
            },
        };
        let increment = match self.for_increment() {
            Ok(i) => i,
            Err(e) => {
                return Err(e);
            },
        };
        let body = match self.statement() {
            Ok(s) => s,
            Err(e) => {
                return Err(e);
            },
        };
        let span = self.span_from(start);
        Ok(desugar_for_exec(initializer, condition, increment, body, span))
    }

    fn expression_statement(&mut self) -> (r: Result<Stmt, CompileError>)
        requires
            old(self).inv(),
        ensures
            old(self).reached_rec(
                *final(self),
                r,
                d_expression_statement(old(self).tokens@, old(self).current as int, old(self).next_id as int),
                |s: Stmt| stmt_view(s),
            ),
        decreases old(self).tokens@.len() - old(self).current, 1int,
    {
        let expression = match self.expression() {
            Ok(e) => e,
            Err(e) => {
                return Err(e);
            },
        };
        match self.consume(TokenKind::Semicolon, "';' after expression") {
            Ok(()) => {},
            Err(e) => {
                return Err(e);
            },
        }
        let span = expression.span();
        proof {
            lemma_span_of_view(expression);
        }
        Ok(Stmt::Expression(ExprStmt { expression, span }))
    }
}

/// The `while` loop (in a block with the initializer, if any) that a `for`
/// statement with these parts stands for.
fn desugar_for_exec(init: Option<Decl>, cond: Expr, incr: Option<Expr>, body: Stmt, span: Span) -> (s: Stmt)
    ensures
        stmt_view(s) == desugar_for(opt_decl_view(init), expr_view(cond), opt_expr_view(incr), stmt_view(body), span),
{
    let ghost expected = match opt_expr_view(incr) {
        Some(inc) => SStmt::Block(
            seq![SDecl::Statement(stmt_view(body)), SDecl::Statement(SStmt::Expression(inc, sexpr_span(inc)))],
            span,
        ),
        None => stmt_view(body),
    };
    let mut body = body;
    match incr {
        Some(inc) => {
            let inc_span = inc.span();
            proof {
                lemma_span_of_view(inc);
            }
            let ghost gb = body;
            let ghost gi = inc;
            let ds = vec![Decl::Statement(body), Decl::Statement(Stmt::Expression(ExprStmt { expression: inc, span: inc_span }))];
            proof {
                reveal_with_fuel(decls_view, 3);
                assert(decls_view(ds@, 2) =~= seq![
                    SDecl::Statement(stmt_view(gb)),
                    SDecl::Statement(SStmt::Expression(expr_view(gi), inc_span)),
                ]);
            }
            body = Stmt::Block(BlockStmt { declarations: ds, span });
        },
        None => {},
    }
    assert(stmt_view(body) == expected);
    body = Stmt::While(WhileStmt { condition: cond, body: Box::new(body), span });
    match init {
        Some(d) => {
            let ghost gd = d;
            let ghost gb = body;
            let ds = vec![d, Decl::Statement(body)];
            proof {
                assert(ds@ =~= seq![gd, Decl::Statement(gb)]);
                reveal_with_fuel(decls_view, 3);
                assert(decls_view(ds@, 2) =~= seq![decl_view(gd), SDecl::Statement(stmt_view(gb))]);
            }
            Stmt::Block(BlockStmt { declarations: ds, span })
        },
        None => body,
    }
}

} // verus!
