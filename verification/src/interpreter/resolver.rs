//! Static resolution: how many scopes out each local variable reference
//! reaches, and the errors the program's scoping rules forbid.
use std::collections::HashMap;

use vstd::prelude::*;

use crate::ast::{
    decl_view, decls_view, expr_view, exprs_view, fun_view, funs_view, lemma_decls_index, lemma_exprs_index,
    lemma_funs_index, names_view, program_view, stmt_view, Decl, Expr, Function, Program, SDecl, SExpr, SFun, SStmt,
    Stmt, ClassDecl,
};
use crate::bindings::Bindings;
use crate::error::{CompileError, ErrorPhase};
use crate::scanner::token::Span;
use crate::text::{append_str, owned, str_eq};

verus! {

broadcast use vstd::std_specs::hash::group_hash_axioms;

/// The kind of function whose body is being resolved.
#[derive(Debug, Clone, Copy, PartialEq, Eq, Structural)]
pub enum FunctionType {
    TopLevel,
    Function,
    Method,
    Initializer,
}

/// The kind of class whose body is being resolved.
#[derive(Debug, Clone, Copy, PartialEq, Eq, Structural)]
pub enum ClassType {
    NoClass,
    Class,
    Subclass,
}

/// A resolution error: message and span.
pub struct Issue {
    pub msg: Seq<char>,
    pub span: Span,
}

/// The resolver's state as values: the open scopes (innermost last, each
/// mapping a name to whether its initializer has finished), the depth found
/// for each resolved expression id, the enclosing function and class kinds,
/// and the errors so far.
pub struct RState {
    pub scopes: Seq<Map<Seq<char>, bool>>,
    pub locals: Map<usize, usize>,
    pub func: FunctionType,
    pub class: ClassType,
    pub errors: Seq<Issue>,
}

pub open spec fn initial_state() -> RState {
    RState {
        scopes: Seq::empty(),
        locals: Map::empty(),
        func: FunctionType::TopLevel,
        class: ClassType::NoClass,
        errors: Seq::empty(),
    }
}

pub open spec fn with_error(st: RState, msg: Seq<char>, span: Span) -> RState {
    RState { errors: st.errors.push(Issue { msg, span }), ..st }
}

pub open spec fn begin_scope(st: RState) -> RState {
    RState { scopes: st.scopes.push(Map::empty()), ..st }
}

pub open spec fn end_scope(st: RState) -> RState {
    if st.scopes.len() > 0 {
        RState { scopes: st.scopes.drop_last(), ..st }
    } else {
        st
    }
}

/// Bind `name` to `ready` in the innermost scope, if there is one.
pub open spec fn mark(st: RState, name: Seq<char>, ready: bool) -> RState {
    if st.scopes.len() > 0 {
        RState { scopes: st.scopes.update(st.scopes.len() - 1, st.scopes.last().insert(name, ready)), ..st }
    } else {
        st
    }
}

/// Declare `name` in the innermost scope, reporting it if it is already there.
pub open spec fn declare(st: RState, name: Seq<char>, span: Span) -> RState {
    if st.scopes.len() > 0 && st.scopes.last().contains_key(name) {
        mark(with_error(st, "variable '"@ + name + "' already declared in this scope"@, span), name, false)
    } else {
        mark(st, name, false)
    }
}

/// How many scopes out from the innermost the nearest one binding `name` is.
pub open spec fn depth_of(scopes: Seq<Map<Seq<char>, bool>>, name: Seq<char>) -> Option<nat>
    decreases scopes.len(),
{
    if scopes.len() == 0 {
        None
    } else if scopes.last().contains_key(name) {
        Some(0)
    } else {
        match depth_of(scopes.drop_last(), name) {
            Some(d) => Some(d + 1),
            None => None,
        }
    }
}

/// Record the depth of `name` for expression `id`; a name in no open scope is global.
pub open spec fn resolve_local(st: RState, id: usize, name: Seq<char>) -> RState {
    match depth_of(st.scopes, name) {
        Some(d) => RState { locals: st.locals.insert(id, d as usize), ..st },
        None => st,
    }
}

pub open spec fn r_expr(st: RState, e: SExpr) -> RState
    decreases e, 0nat,
{
    match e {
        SExpr::Variable(id, name, span) => {
            let st1 = if st.scopes.len() > 0 && st.scopes.last().contains_key(name) && !st.scopes.last()[name] {
                with_error(st, "can't read local variable in its own initializer"@, span)
            } else {
                st
            };
            resolve_local(st1, id as usize, name)
        },
        SExpr::Assign(id, name, value, _) => resolve_local(r_expr(st, *value), id as usize, name),
        SExpr::Binary(_, l, _, r, _) => r_expr(r_expr(st, *l), *r),
        SExpr::Unary(_, _, x, _) => r_expr(st, *x),
        SExpr::Logical(_, l, _, r, _) => r_expr(r_expr(st, *l), *r),
        SExpr::Call(_, callee, args, _) => r_args(r_expr(st, *callee), args, args.len()),
        SExpr::Get(_, o, _, _) => r_expr(st, *o),
        SExpr::SetProperty(_, o, _, v, _) => r_expr(r_expr(st, *v), *o),
        SExpr::Grouping(_, x, _) => r_expr(st, *x),
        SExpr::This(id, span) => {
            let st1 = if st.class == ClassType::NoClass {
                with_error(st, "can't use 'this' outside of a class"@, span)
            } else {
                st
            };
            resolve_local(st1, id as usize, "this"@)
        },
        SExpr::Super(id, _, span) => {
            let st1 = if st.class == ClassType::NoClass {
                with_error(st, "can't use 'super' outside of a class"@, span)
            } else if st.class == ClassType::Class {
                with_error(st, "can't use 'super' in a class with no superclass"@, span)
            } else {
                st
            };
            resolve_local(st1, id as usize, "super"@)
        },
        SExpr::Literal(_, _, _) => st,
    }
}

/// The first `n` arguments, resolved in order.
pub open spec fn r_args(st: RState, es: Seq<SExpr>, n: nat) -> RState
    decreases es, n,
{
    if n == 0 || n > es.len() {
        st
    } else {
        r_expr(r_args(st, es, (n - 1) as nat), es[n - 1])
    }
}

pub open spec fn r_stmt(st: RState, s: SStmt) -> RState
    decreases s, 0nat,
{
    match s {
        SStmt::Expression(e, _) => r_expr(st, e),
        SStmt::Print(e, _) => r_expr(st, e),
        SStmt::Return(v, span) => {
            let st1 = if st.func == FunctionType::TopLevel {
                with_error(st, "can't return from top-level code"@, span)
            } else {
                st
            };
            match v {
                Some(e) => {
                    let st2 = if st1.func == FunctionType::Initializer {
                        with_error(st1, "can't return a value from an initializer"@, span)
                    } else {
                        st1
                    };
                    r_expr(st2, e)
                },
                None => st1,
            }
        },
        SStmt::Block(ds, _) => end_scope(r_decls(begin_scope(st), ds, ds.len())),
        SStmt::If(c, th, el, _) => {
            let st1 = r_stmt(r_expr(st, c), *th);
            match el {
                Some(e) => r_stmt(st1, *e),
                None => st1,
            }
        },
        SStmt::While(c, b, _) => r_stmt(r_expr(st, c), *b),
    }
}

/// The first `n` declarations, resolved in order.
pub open spec fn r_decls(st: RState, ds: Seq<SDecl>, n: nat) -> RState
    decreases ds, n,
{
    if n == 0 || n > ds.len() {
        st
    } else {
        r_decl(r_decls(st, ds, (n - 1) as nat), ds[n - 1])
    }
}

/// The first `n` parameters, each declared and defined.
pub open spec fn r_params(st: RState, ps: Seq<Seq<char>>, n: nat, span: Span) -> RState
    decreases n,
{
    if n == 0 || n > ps.len() {
        st
    } else {
        mark(declare(r_params(st, ps, (n - 1) as nat, span), ps[n - 1], span), ps[n - 1], true)
    }
}

/// A function body in a scope of its own, with its parameters.
pub open spec fn r_function(st: RState, f: SFun, ft: FunctionType) -> RState
    decreases f, 0nat,
{
    let s1 = begin_scope(RState { func: ft, ..st });
    let s2 = r_params(s1, f.params, f.params.len(), f.span);
    let s3 = r_decls(s2, f.body, f.body.len());
    RState { func: st.func, ..end_scope(s3) }
}

/// The kind of a method: `init` is the initializer.
pub open spec fn method_type(name: Seq<char>) -> FunctionType {
    if name == "init"@ {
        FunctionType::Initializer
    } else {
        FunctionType::Method
    }
}

/// The first `n` methods, resolved in order.
pub open spec fn r_methods(st: RState, ms: Seq<SFun>, n: nat) -> RState
    decreases ms, n,
{
    if n == 0 || n > ms.len() {
        st
    } else {
        let m = ms[n - 1];
        r_function(r_methods(st, ms, (n - 1) as nat), m, method_type(m.name))
    }
}

/// A class declaration: the name, the superclass and `super` scope, the
/// `this` scope, and each method.
pub open spec fn r_class(st: RState, name: Seq<char>, sup: Option<Seq<char>>, methods: Seq<SFun>, span: Span) -> RState
    decreases methods, methods.len() + 1,
{
    let s1 = mark(declare(RState { class: ClassType::Class, ..st }, name, span), name, true);
    let s2 = match sup {
        Some(su) => {
            let a = if su == name {
                with_error(s1, "a class can't inherit from itself"@, span)
            } else {
                s1
            };
            mark(begin_scope(resolve_local(RState { class: ClassType::Subclass, ..a }, 0, su)), "super"@, true)
        },
        None => s1,
    };
    let s3 = mark(begin_scope(s2), "this"@, true);
    let s4 = end_scope(r_methods(s3, methods, methods.len()));
    let s5 = if sup is Some {
        end_scope(s4)
    } else {
        s4
    };
    RState { class: st.class, ..s5 }
}

pub open spec fn r_decl(st: RState, d: SDecl) -> RState
    decreases d, 0nat,
{
    match d {
        SDecl::Var(name, init, span) => {
            let s1 = declare(st, name, span);
            let s2 = match init {
                Some(e) => r_expr(s1, e),
                None => s1,
            };
            mark(s2, name, true)
        },
        SDecl::Fun(f, span) => r_function(mark(declare(st, f.name, span), f.name, true), f, FunctionType::Function),
        SDecl::Class(name, sup, methods, span) => r_class(st, name, sup, methods, span),
        SDecl::Statement(s) => r_stmt(st, s),
    }
}

/// The resolution of a whole program.
pub open spec fn resolution(ds: Seq<SDecl>) -> RState {
    r_decls(initial_state(), ds, ds.len())
}

/// The error `e` reports the issue `i`, with no source attached yet.
pub open spec fn is_resolve_error(e: CompileError, i: Issue) -> bool {
    &&& e.phase() == ErrorPhase::Resolve
    &&& e.msg() == i.msg
    &&& e.at() == i.span
    &&& e.src_name() == "input"@
    &&& e.src_text() == Seq::<char>::empty()
}

/// A static pass over a program that finds how far out each local variable
/// is bound, and the scoping errors.
pub struct Resolver {
    scopes: Vec<Bindings<bool>>,
    locals: HashMap<usize, usize>,
    current_function: FunctionType,
    current_class: ClassType,
    errors: Vec<CompileError>,
    issues: Ghost<Seq<Issue>>,
}

impl Default for Resolver {
    /// A resolver with no scope open and nothing resolved yet.
    fn default() -> (r: Resolver)
        ensures
            r.inv(),
            r.state() == initial_state(),
    {
        Resolver::new()
    }
}

impl Resolver {
    /// The resolver's state as values.
    pub closed spec fn state(self) -> RState {
        RState {
            scopes: self.scopes@.map_values(|b: Bindings<bool>| b@),
            locals: self.locals@,
            func: self.current_function,
            class: self.current_class,
            errors: self.issues@,
        }
    }

    /// The errors found match the issues recorded.
    pub closed spec fn inv(self) -> bool {
        &&& self.errors@.len() == self.issues@.len()
        &&& forall|i: int| 0 <= i < self.errors@.len() ==> is_resolve_error(#[trigger] self.errors@[i], self.issues@[i])
    }

    /// A resolver with no scope open, outside any function or class.
    pub fn new() -> (r: Resolver)
        ensures
            r.inv(),
            r.state() == initial_state(),
    {
        let r = Resolver {
            scopes: Vec::new(),
            locals: HashMap::new(),
            current_function: FunctionType::TopLevel,
            current_class: ClassType::NoClass,
            errors: Vec::new(),
            issues: Ghost(Seq::empty()),
        };
        assert(r.state().scopes =~= Seq::<Map<Seq<char>, bool>>::empty());
        r
    }

    /// Resolve a program: the depth of every local reference, or every error found.
    pub fn resolve(self, program: &Program) -> (r: Result<HashMap<usize, usize>, Vec<CompileError>>)
        requires
            self.inv(),
            self.state() == initial_state(),
        ensures
            ({
                let fin = resolution(program_view(*program));
                match r {
                    Ok(m) => fin.errors.len() == 0 && m@ == fin.locals,
                    Err(es) => fin.errors.len() > 0 && es@.len() == fin.errors.len() && forall|i: int|
                        0 <= i < es@.len() ==> is_resolve_error(#[trigger] es@[i], fin.errors[i]),
                }
            }),
    {
        let mut r = self;
        proof {
            lemma_decls_index(program.declarations@, program.declarations@.len());
        }
        r.resolve_decls(&program.declarations);
        if r.errors.len() == 0 {
            Ok(r.locals)
        } else {
            Err(r.errors)
        }
    }

    fn push_error(&mut self, msg: String, span: Span)
        requires
            old(self).inv(),
        ensures
            final(self).inv(),
            final(self).state() == with_error(old(self).state(), msg@, span),
    {
        let e = CompileError::resolve(msg, span.offset, span.len);
        self.errors.push(e);
        self.issues = Ghost(self.issues@.push(Issue { msg: msg@, span }));
    }

    fn begin_scope(&mut self)
        requires
            old(self).inv(),
        ensures
            final(self).inv(),
            final(self).state() == begin_scope(old(self).state()),
    {
        let ghost before = self.state();
        self.scopes.push(Bindings::new());
        assert(self.state().scopes =~= before.scopes.push(Map::empty()));
    }

    fn end_scope(&mut self)
        requires
            old(self).inv(),
        ensures
            final(self).inv(),
            final(self).state() == end_scope(old(self).state()),
    {
        let ghost before = self.state();
        if self.scopes.len() > 0 {
            self.scopes.pop();
            assert(self.state().scopes =~= before.scopes.drop_last());
        }
    }

    /// Bind `name` to `ready` in the innermost scope, if there is one.
    fn mark(&mut self, name: &str, ready: bool)
        requires
            old(self).inv(),
        ensures
            final(self).inv(),
            final(self).state() == mark(old(self).state(), name@, ready),
    {
        let ghost before = self.state();
        let n = self.scopes.len();
        if n > 0 {
            self.scopes[n - 1].insert(owned(name), ready);
            assert(self.state().scopes =~= before.scopes.update(n - 1, before.scopes.last().insert(name@, ready)));
        }
    }

    fn declare(&mut self, name: &str, span: Span)
        requires
            old(self).inv(),
        ensures
            final(self).inv(),
            final(self).state() == declare(old(self).state(), name@, span),
    {
        let n = self.scopes.len();
        if n > 0 && self.scopes[n - 1].contains_key(name) {
            let mut m = owned("variable '");
            append_str(&mut m, name);
            append_str(&mut m, "' already declared in this scope");
            self.push_error(m, span);
        }
        self.mark(name, false);
    }

    fn resolve_local(&mut self, id: usize, name: &str)
        requires
            old(self).inv(),
        ensures
            final(self).inv(),
            final(self).state() == resolve_local(old(self).state(), id, name@),
    {
        let ghost sc = self.state().scopes;
        let n = self.scopes.len();
        let mut i = n;
        assert(sc.subrange(0, n as int) =~= sc);
        while i > 0
            invariant
                i <= n,
                n == self.scopes@.len(),
                sc == self.state().scopes,
                *self == *old(self),
                self.inv(),
                match depth_of(sc.subrange(0, i as int), name@) {
                    Some(d) => depth_of(sc, name@) == Some((d + (n - i)) as nat),
                    None => depth_of(sc, name@) is None,
                },
            decreases i,
        {
            assert(sc.subrange(0, i as int).drop_last() =~= sc.subrange(0, i - 1));
            if self.scopes[i - 1].contains_key(name) {
                self.locals.insert(id, n - i);
                return ;
            }
            i = i - 1;
        }
        assert(sc.subrange(0, 0) =~= Seq::<Map<Seq<char>, bool>>::empty());
    }

    fn resolve_expr(&mut self, expr: &Expr)
        requires
            old(self).inv(),
        ensures
            final(self).inv(),
            final(self).state() == r_expr(old(self).state(), expr_view(*expr)),
        decreases expr,
    {
        match expr {
            Expr::Variable(v) => {
                let n = self.scopes.len();
                if n > 0 {
                    match self.scopes[n - 1].get(v.name.as_str()) {
                        Some(ready) => {
                            if !*ready {
                                self.push_error(owned("can't read local variable in its own initializer"), v.span);
                            }
                        },
                        None => {},
                    }
                }
                self.resolve_local(v.id, v.name.as_str());
            },
            Expr::Assign(a) => {
                self.resolve_expr(&a.value);
                self.resolve_local(a.id, a.name.as_str());
            },
            Expr::Binary(b) => {
                self.resolve_expr(&b.left);
                self.resolve_expr(&b.right);
            },
            Expr::Unary(u) => {
                self.resolve_expr(&u.operand);
            },
            Expr::Logical(l) => {
                self.resolve_expr(&l.left);
                self.resolve_expr(&l.right);
            },
            Expr::Call(c) => {
                self.resolve_expr(&c.callee);
                let args = &c.arguments;
                let ghost s0 = self.state();
                proof {
                    lemma_exprs_index(args@, args@.len());
                }
                let mut i: usize = 0;
                while i < args.len()
                    invariant
                        self.inv(),
                        i <= args@.len(),
                        *expr == Expr::Call(*c),
                        *args == c.arguments,
                        exprs_view(args@, args@.len()).len() == args@.len(),
                        forall|k: int| 0 <= k < args@.len() ==> #[trigger] exprs_view(args@, args@.len())[k] == expr_view(args@[k]),
                        self.state() == r_args(s0, exprs_view(args@, args@.len()), i as nat),
                    decreases args@.len() - i,
                {
                    proof {
                        assert(decreases_to!(*expr => (*expr)->Call_0));
                        assert(decreases_to!(*c => c.arguments));
                        assert(decreases_to!(c.arguments => c.arguments@));
                        assert(decreases_to!(c.arguments@ => c.arguments@[i as int]));
                    }
                    self.resolve_expr(&args[i]);
                    i = i + 1;
                }
            },
            Expr::Get(g) => {
                self.resolve_expr(&g.object);
            },
            Expr::SetProperty(s) => {
                self.resolve_expr(&s.value);
                self.resolve_expr(&s.object);
            },
            Expr::Grouping(g) => {
                self.resolve_expr(&g.expression);
            },
            Expr::This(t) => {
                if self.current_class == ClassType::NoClass {
                    self.push_error(owned("can't use 'this' outside of a class"), t.span);
                }
                self.resolve_local(t.id, "this");
            },
            Expr::Super(s) => {
                match self.current_class {
                    ClassType::NoClass => {
                        self.push_error(owned("can't use 'super' outside of a class"), s.span);
                    },
                    ClassType::Class => {
                        self.push_error(owned("can't use 'super' in a class with no superclass"), s.span);
                    },
                    ClassType::Subclass => {},
                }
                self.resolve_local(s.id, "super");
            },
            Expr::Literal(_) => {},
        }
    }

    #[verifier::rlimit(30)]
    fn resolve_stmt(&mut self, stmt: &Stmt)
        requires
            old(self).inv(),
        ensures
            final(self).inv(),
            final(self).state() == r_stmt(old(self).state(), stmt_view(*stmt)),
        decreases stmt, 1nat,
    {
        match stmt {
            Stmt::Expression(e) => self.resolve_expr(&e.expression),
            Stmt::Print(p) => self.resolve_expr(&p.expression),
            Stmt::Return(r) => {
                if self.current_function == FunctionType::TopLevel {
                    self.push_error(owned("can't return from top-level code"), r.span);
                }
                match &r.value {
                    Some(v) => {
                        if self.current_function == FunctionType::Initializer {
                            self.push_error(owned("can't return a value from an initializer"), r.span);
                        }
                        self.resolve_expr(v);
                    },
                    None => {},
                }
            },
            Stmt::Block(b) => {
                self.begin_scope();
                proof {
                    lemma_decls_index(b.declarations@, b.declarations@.len());
                }
                self.resolve_decls(&b.declarations);
                self.end_scope();
            },
            Stmt::If(i) => {
                self.resolve_expr(&i.condition);
                self.resolve_stmt(&i.then_branch);
                match &i.else_branch {
                    Some(e) => self.resolve_stmt(e),
                    None => {},
                }
            },
            Stmt::While(w) => {
                self.resolve_expr(&w.condition);
                self.resolve_stmt(&w.body);
            },
        }
    }

    /// Resolve declarations in order.
    fn resolve_decls(&mut self, ds: &Vec<Decl>)
        requires
            old(self).inv(),
        ensures
            final(self).inv(),
            final(self).state() == r_decls(old(self).state(), decls_view(ds@, ds@.len()), ds@.len()),
        decreases ds, 0nat,
    {
        let ghost s0 = self.state();
        proof {
            lemma_decls_index(ds@, ds@.len());
        }
        let mut i: usize = 0;
        while i < ds.len()
            invariant
                self.inv(),
                i <= ds@.len(),
                decls_view(ds@, ds@.len()).len() == ds@.len(),
                forall|k: int| 0 <= k < ds@.len() ==> #[trigger] decls_view(ds@, ds@.len())[k] == decl_view(ds@[k]),
                self.state() == r_decls(s0, decls_view(ds@, ds@.len()), i as nat),
            decreases ds@.len() - i,
        {
            proof {
                assert(decreases_to!(*ds => ds@));
                assert(decreases_to!(ds@ => ds@[i as int]));
            }
            self.resolve_decl(&ds[i]);
            i = i + 1;
        }
    }

    fn resolve_function(&mut self, f: &Function, ft: FunctionType)
        requires
            old(self).inv(),
        ensures
            final(self).inv(),
            final(self).state() == r_function(old(self).state(), fun_view(*f), ft),
        decreases f, 1nat,
    {
        let enclosing = self.current_function;
        let ghost st = self.state();
        self.current_function = ft;
        self.begin_scope();
        let ghost s1 = self.state();
        let ps = &f.params;
        let mut i: usize = 0;
        while i < ps.len()
            invariant
                self.inv(),
                i <= ps@.len(),
                self.state() == r_params(s1, names_view(ps@), i as nat, f.span),
            decreases ps@.len() - i,
        {
            self.declare(ps[i].as_str(), f.span);
            self.mark(ps[i].as_str(), true);
            i = i + 1;
        }
        assert(names_view(ps@).len() == ps@.len());
        proof {
            lemma_decls_index(f.body@, f.body@.len());
        }
        self.resolve_decls(&f.body);
        self.end_scope();
        self.current_function = enclosing;
        assert(self.state().scopes == end_scope(r_decls(
            r_params(s1, names_view(ps@), ps@.len() as nat, f.span),
            decls_view(f.body@, f.body@.len()),
            f.body@.len(),
        )).scopes);
    }

    #[verifier::rlimit(30)]
    fn resolve_decl(&mut self, decl: &Decl)
        requires
            old(self).inv(),
        ensures
            final(self).inv(),
            final(self).state() == r_decl(old(self).state(), decl_view(*decl)),
        decreases decl, 1nat,
    {
        match decl {
            Decl::Var(v) => {
                self.declare(v.name.as_str(), v.span);
                match &v.initializer {
                    Some(init) => self.resolve_expr(init),
                    None => {},
                }
                self.mark(v.name.as_str(), true);
            },
            Decl::Fun(f) => {
                self.declare(f.function.name.as_str(), f.span);
                self.mark(f.function.name.as_str(), true);
                self.resolve_function(&f.function, FunctionType::Function);
            },
            Decl::Class(c) => {
                proof {
                    assert(decreases_to!(*decl => (*decl)->Class_0));
                }
                self.resolve_class(c);
            },
            Decl::Statement(s) => self.resolve_stmt(s),
        }
    }

    fn resolve_class(&mut self, c: &ClassDecl)
        requires
            old(self).inv(),
        ensures
            final(self).inv(),
            final(self).state() == r_class(
                old(self).state(),
                c.name@,
                match c.superclass {
                    Some(n) => Some(n@),
                    None => None,
                },
                funs_view(c.methods@, c.methods@.len()),
                c.span,
            ),
        decreases c, 1nat,
    {
        let enclosing = self.current_class;
        self.current_class = ClassType::Class;
        self.declare(c.name.as_str(), c.span);
        self.mark(c.name.as_str(), true);
        match &c.superclass {
            Some(sup) => {
                if str_eq(sup.as_str(), c.name.as_str()) {
                    self.push_error(owned("a class can't inherit from itself"), c.span);
                }
                self.current_class = ClassType::Subclass;
                self.resolve_local(0, sup.as_str());
                self.begin_scope();
                self.mark("super", true);
            },
            None => {},
        }
        self.begin_scope();
        self.mark("this", true);
        let ms = &c.methods;
        let ghost s3 = self.state();
        proof {
            lemma_funs_index(ms@, ms@.len());
        }
        let mut i: usize = 0;
        while i < ms.len()
            invariant
                self.inv(),
                i <= ms@.len(),
                *ms == c.methods,
                funs_view(ms@, ms@.len()).len() == ms@.len(),
                forall|k: int| 0 <= k < ms@.len() ==> #[trigger] funs_view(ms@, ms@.len())[k] == fun_view(ms@[k]),
                self.state() == r_methods(s3, funs_view(ms@, ms@.len()), i as nat),
            decreases ms@.len() - i,
        {
            proof {
                assert(decreases_to!(*c => c.methods));
                assert(decreases_to!(c.methods => c.methods@));
                assert(decreases_to!(c.methods@ => c.methods@[i as int]));
            }
            let ft = if str_eq(ms[i].name.as_str(), "init") {
                FunctionType::Initializer
            } else {
                FunctionType::Method
            };
            self.resolve_function(&ms[i], ft);
            i = i + 1;
        }
        self.end_scope();
        if c.superclass.is_some() {
            self.end_scope();
        }
        self.current_class = enclosing;
    }
}

/// Law: a property access `o.name` is resolved exactly as its object `o`
/// alone would be.
pub proof fn property_access_resolves_its_object(st: RState, id: nat, o: SExpr, name: Seq<char>, span: Span)
    ensures
        r_expr(st, SExpr::Get(id, Box::new(o), name, span)) == r_expr(st, o),
{
}

/// Law: a variable read as the object of a property access, naming a
/// variable of an open scope, gets the depth of the nearest scope that
/// binds it recorded.
pub proof fn property_object_variable_gets_its_depth(
    st: RState,
    gid: nat,
    vid: nat,
    var: Seq<char>,
    vspan: Span,
    name: Seq<char>,
    span: Span,
)
    requires
        depth_of(st.scopes, var) is Some,
        st.scopes.len() <= usize::MAX,
    ensures
        r_expr(st, SExpr::Get(gid, Box::new(SExpr::Variable(vid, var, vspan)), name, span)).locals.contains_key(
            vid as usize,
        ),
        r_expr(st, SExpr::Get(gid, Box::new(SExpr::Variable(vid, var, vspan)), name, span)).locals[vid as usize]
            == depth_of(st.scopes, var)->Some_0,
{
    let o = SExpr::Variable(vid, var, vspan);
    assert(r_expr(st, SExpr::Get(gid, Box::new(o), name, span)) == r_expr(st, o));
    lemma_depth_below(st.scopes, var);
}

proof fn lemma_depth_below(scopes: Seq<Map<Seq<char>, bool>>, name: Seq<char>)
    ensures
        depth_of(scopes, name) matches Some(d) ==> d < scopes.len(),
    decreases scopes.len(),
{
    if scopes.len() > 0 && !scopes.last().contains_key(name) {
        lemma_depth_below(scopes.drop_last(), name);
    }
}

} // verus!
