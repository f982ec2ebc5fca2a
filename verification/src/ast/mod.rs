//! The Lox abstract syntax tree, and its mathematical view.
pub mod printer;

use vstd::prelude::*;

use crate::scanner::token::Span;

verus! {

/// A unique identifier for each expression node, used by the resolver
/// to store variable resolution depths.
pub type ExprId = usize;

/// Top-level program: a list of declarations.
#[derive(Debug)]
pub struct Program {
    pub declarations: Vec<Decl>,
}

#[derive(Debug)]
pub enum Decl {
    Class(ClassDecl),
    Fun(FunDecl),
    Var(VarDecl),
    Statement(Stmt),
}

#[derive(Debug)]
pub struct ClassDecl {
    pub name: String,
    pub superclass: Option<String>,
    pub methods: Vec<Function>,
    pub span: Span,
}

#[derive(Debug)]
pub struct FunDecl {
    pub function: Function,
    pub span: Span,
}

#[derive(Debug)]
pub struct VarDecl {
    pub name: String,
    pub initializer: Option<Expr>,
    pub span: Span,
}

#[derive(Debug)]
pub struct Function {
    pub name: String,
    pub params: Vec<String>,
    pub body: Vec<Decl>,
    pub span: Span,
}

#[derive(Debug)]
pub enum Stmt {
    Expression(ExprStmt),
    Print(PrintStmt),
    Return(ReturnStmt),
    Block(BlockStmt),
    If(IfStmt),
    While(WhileStmt),
}

#[derive(Debug)]
pub struct ExprStmt {
    pub expression: Expr,
    pub span: Span,
}

#[derive(Debug)]
pub struct PrintStmt {
    pub expression: Expr,
    pub span: Span,
}

#[derive(Debug)]
pub struct ReturnStmt {
    pub value: Option<Expr>,
    pub span: Span,
}

#[derive(Debug)]
pub struct BlockStmt {
    pub declarations: Vec<Decl>,
    pub span: Span,
}

#[derive(Debug)]
pub struct IfStmt {
    pub condition: Expr,
    pub then_branch: Box<Stmt>,
    pub else_branch: Option<Box<Stmt>>,
    pub span: Span,
}

#[derive(Debug)]
pub struct WhileStmt {
    pub condition: Expr,
    pub body: Box<Stmt>,
    pub span: Span,
}

#[derive(Debug)]
pub enum Expr {
    Binary(BinaryExpr),
    Unary(UnaryExpr),
    Literal(LiteralExpr),
    Grouping(GroupingExpr),
    Variable(VariableExpr),
    Assign(AssignExpr),
    Logical(LogicalExpr),
    Call(CallExpr),
    Get(GetExpr),
    SetProperty(SetExpr),
    This(ThisExpr),
    Super(SuperExpr),
}

impl Expr {
    pub open spec fn spec_id(self) -> ExprId {
        match self {
            Expr::Binary(e) => e.id,
            Expr::Unary(e) => e.id,
            Expr::Literal(e) => e.id,
            Expr::Grouping(e) => e.id,
            Expr::Variable(e) => e.id,
            Expr::Assign(e) => e.id,
            Expr::Logical(e) => e.id,
            Expr::Call(e) => e.id,
            Expr::Get(e) => e.id,
            Expr::SetProperty(e) => e.id,
            Expr::This(e) => e.id,
            Expr::Super(e) => e.id,
        }
    }

    pub open spec fn spec_span(self) -> Span {
        match self {
            Expr::Binary(e) => e.span,
            Expr::Unary(e) => e.span,
            Expr::Literal(e) => e.span,
            Expr::Grouping(e) => e.span,
            Expr::Variable(e) => e.span,
            Expr::Assign(e) => e.span,
            Expr::Logical(e) => e.span,
            Expr::Call(e) => e.span,
            Expr::Get(e) => e.span,
            Expr::SetProperty(e) => e.span,
            Expr::This(e) => e.span,
            Expr::Super(e) => e.span,
        }
    }

    /// The node's identifier.
    pub fn id(&self) -> (r: ExprId)
        ensures
            r == self.spec_id(),
    {
        match self {
            Expr::Binary(e) => e.id,
            Expr::Unary(e) => e.id,
            Expr::Literal(e) => e.id,
            Expr::Grouping(e) => e.id,
            Expr::Variable(e) => e.id,
            Expr::Assign(e) => e.id,
            Expr::Logical(e) => e.id,
            Expr::Call(e) => e.id,
            Expr::Get(e) => e.id,
            Expr::SetProperty(e) => e.id,
            Expr::This(e) => e.id,
            Expr::Super(e) => e.id,
        }
    }

    /// The node's source span.
    pub fn span(&self) -> (r: Span)
        ensures
            r == self.spec_span(),
    {
        match self {
            Expr::Binary(e) => e.span,
            Expr::Unary(e) => e.span,
            Expr::Literal(e) => e.span,
            Expr::Grouping(e) => e.span,
            Expr::Variable(e) => e.span,
            Expr::Assign(e) => e.span,
            Expr::Logical(e) => e.span,
            Expr::Call(e) => e.span,
            Expr::Get(e) => e.span,
            Expr::SetProperty(e) => e.span,
            Expr::This(e) => e.span,
            Expr::Super(e) => e.span,
        }
    }
}

#[derive(Debug)]
pub struct BinaryExpr {
    pub id: ExprId,
    pub left: Box<Expr>,
    pub operator: BinaryOp,
    pub right: Box<Expr>,
    pub span: Span,
}

#[derive(Debug, Clone, Copy, PartialEq, Eq, Structural)]
pub enum BinaryOp {
    Add,
    Subtract,
    Multiply,
    Divide,
    Equal,
    NotEqual,
    Less,
    LessEqual,
    Greater,
    GreaterEqual,
}

impl BinaryOp {
    pub open spec fn symbol(self) -> Seq<char> {
        match self {
            BinaryOp::Add => "+"@,
            BinaryOp::Subtract => "-"@,
            BinaryOp::Multiply => "*"@,
            BinaryOp::Divide => "/"@,
            BinaryOp::Equal => "=="@,
            BinaryOp::NotEqual => "!="@,
            BinaryOp::Less => "<"@,
            BinaryOp::LessEqual => "<="@,
            BinaryOp::Greater => ">"@,
            BinaryOp::GreaterEqual => ">="@,
        }
    }

    /// The operator as written in Lox source.
    pub fn as_str(&self) -> (s: &'static str)
        ensures
            s@ == self.symbol(),
    {
        match self {
            BinaryOp::Add => "+",
            BinaryOp::Subtract => "-",
            BinaryOp::Multiply => "*",
            BinaryOp::Divide => "/",
            BinaryOp::Equal => "==",
            BinaryOp::NotEqual => "!=",
            BinaryOp::Less => "<",
            BinaryOp::LessEqual => "<=",
            BinaryOp::Greater => ">",
            BinaryOp::GreaterEqual => ">=",
        }
    }
}

#[derive(Debug)]
pub struct UnaryExpr {
    pub id: ExprId,
    pub operator: UnaryOp,
    pub operand: Box<Expr>,
    pub span: Span,
}

#[derive(Debug, Clone, Copy, PartialEq, Eq, Structural)]
pub enum UnaryOp {
    Negate,
    Not,
}

impl UnaryOp {
    pub open spec fn symbol(self) -> Seq<char> {
        match self {
            UnaryOp::Negate => "-"@,
            UnaryOp::Not => "!"@,
        }
    }

    /// The operator as written in Lox source.
    pub fn as_str(&self) -> (s: &'static str)
        ensures
            s@ == self.symbol(),
    {
        match self {
            UnaryOp::Negate => "-",
            UnaryOp::Not => "!",
        }
    }
}

#[derive(Debug)]
pub struct LiteralExpr {
    pub id: ExprId,
    pub value: LiteralValue,
    pub span: Span,
}

/// A literal value. A number literal is held as its source text (digits with an
/// optional fraction), which determines the `f64` it denotes.
#[derive(Debug, Clone)]
pub enum LiteralValue {
    Number(String),
    String(String),
    Bool(bool),
    Nil,
}

#[derive(Debug)]
pub struct GroupingExpr {
    pub id: ExprId,
    pub expression: Box<Expr>,
    pub span: Span,
}

#[derive(Debug)]
pub struct VariableExpr {
    pub id: ExprId,
    pub name: String,
    pub span: Span,
}

#[derive(Debug)]
pub struct AssignExpr {
    pub id: ExprId,
    pub name: String,
    pub value: Box<Expr>,
    pub span: Span,
}

#[derive(Debug, Clone, Copy, PartialEq, Eq, Structural)]
pub enum LogicalOp {
    And,
    Or,
}

impl LogicalOp {
    pub open spec fn symbol(self) -> Seq<char> {
        match self {
            LogicalOp::And => "and"@,
            LogicalOp::Or => "or"@,
        }
    }

    /// The operator as written in Lox source.
    pub fn as_str(&self) -> (s: &'static str)
        ensures
            s@ == self.symbol(),
    {
        match self {
            LogicalOp::And => "and",
            LogicalOp::Or => "or",
        }
    }
}

#[derive(Debug)]
pub struct LogicalExpr {
    pub id: ExprId,
    pub left: Box<Expr>,
    pub operator: LogicalOp,
    pub right: Box<Expr>,
    pub span: Span,
}

#[derive(Debug)]
pub struct CallExpr {
    pub id: ExprId,
    pub callee: Box<Expr>,
    pub arguments: Vec<Expr>,
    pub span: Span,
}

#[derive(Debug)]
pub struct GetExpr {
    pub id: ExprId,
    pub object: Box<Expr>,
    pub name: String,
    pub span: Span,
}

#[derive(Debug)]
pub struct SetExpr {
    pub id: ExprId,
    pub object: Box<Expr>,
    pub name: String,
    pub value: Box<Expr>,
    pub span: Span,
}

#[derive(Debug)]
pub struct ThisExpr {
    pub id: ExprId,
    pub span: Span,
}

#[derive(Debug)]
pub struct SuperExpr {
    pub id: ExprId,
    pub method: String,
    pub span: Span,
}

// ----- the mathematical view of the tree -----

/// A literal as a mathematical value.
pub enum SLit {
    Number(Seq<char>),
    Str(Seq<char>),
    Bool(bool),
    Nil,
}

/// An expression as a mathematical value: ids, names and spans, with the
/// same shape as `Expr`.
pub enum SExpr {
    Binary(nat, Box<SExpr>, BinaryOp, Box<SExpr>, Span),
    Unary(nat, UnaryOp, Box<SExpr>, Span),
    Literal(nat, SLit, Span),
    Grouping(nat, Box<SExpr>, Span),
    Variable(nat, Seq<char>, Span),
    Assign(nat, Seq<char>, Box<SExpr>, Span),
    Logical(nat, Box<SExpr>, LogicalOp, Box<SExpr>, Span),
    Call(nat, Box<SExpr>, Seq<SExpr>, Span),
    Get(nat, Box<SExpr>, Seq<char>, Span),
    SetProperty(nat, Box<SExpr>, Seq<char>, Box<SExpr>, Span),
    This(nat, Span),
    Super(nat, Seq<char>, Span),
}

/// A statement as a mathematical value.
pub enum SStmt {
    Expression(SExpr, Span),
    Print(SExpr, Span),
    Return(Option<SExpr>, Span),
    Block(Seq<SDecl>, Span),
    If(SExpr, Box<SStmt>, Option<Box<SStmt>>, Span),
    While(SExpr, Box<SStmt>, Span),
}

/// A function as a mathematical value: name, parameters, body, span.
pub struct SFun {
    pub name: Seq<char>,
    pub params: Seq<Seq<char>>,
    pub body: Seq<SDecl>,
    pub span: Span,
}

/// A declaration as a mathematical value.
pub enum SDecl {
    Class(Seq<char>, Option<Seq<char>>, Seq<SFun>, Span),
    Fun(SFun, Span),
    Var(Seq<char>, Option<SExpr>, Span),
    Statement(SStmt),
}

pub open spec fn lit_view(v: LiteralValue) -> SLit {
    match v {
        LiteralValue::Number(s) => SLit::Number(s@),
        LiteralValue::String(s) => SLit::Str(s@),
        LiteralValue::Bool(b) => SLit::Bool(b),
        LiteralValue::Nil => SLit::Nil,
    }
}

pub open spec fn expr_view(e: Expr) -> SExpr
    decreases e, 0nat,
{
    match e {
        Expr::Binary(b) => SExpr::Binary(b.id as nat, Box::new(expr_view(*b.left)), b.operator, Box::new(expr_view(*b.right)), b.span),
        Expr::Unary(u) => SExpr::Unary(u.id as nat, u.operator, Box::new(expr_view(*u.operand)), u.span),
        Expr::Literal(l) => SExpr::Literal(l.id as nat, lit_view(l.value), l.span),
        Expr::Grouping(g) => SExpr::Grouping(g.id as nat, Box::new(expr_view(*g.expression)), g.span),
        Expr::Variable(v) => SExpr::Variable(v.id as nat, v.name@, v.span),
        Expr::Assign(a) => SExpr::Assign(a.id as nat, a.name@, Box::new(expr_view(*a.value)), a.span),
        Expr::Logical(l) => SExpr::Logical(l.id as nat, Box::new(expr_view(*l.left)), l.operator, Box::new(expr_view(*l.right)), l.span),
        Expr::Call(c) => SExpr::Call(c.id as nat, Box::new(expr_view(*c.callee)), exprs_view(c.arguments@, c.arguments@.len()), c.span),
        Expr::Get(g) => SExpr::Get(g.id as nat, Box::new(expr_view(*g.object)), g.name@, g.span),
        Expr::SetProperty(s) => SExpr::SetProperty(s.id as nat, Box::new(expr_view(*s.object)), s.name@, Box::new(expr_view(*s.value)), s.span),
        Expr::This(t) => SExpr::This(t.id as nat, t.span),
        Expr::Super(s) => SExpr::Super(s.id as nat, s.method@, s.span),
    }
}

pub open spec fn exprs_view(es: Seq<Expr>, n: nat) -> Seq<SExpr>
    decreases es, n,
{
    if n == 0 || n > es.len() {
        Seq::empty()
    } else {
        exprs_view(es, (n - 1) as nat).push(expr_view(es[n - 1]))
    }
}

pub open spec fn names_view(ns: Seq<String>) -> Seq<Seq<char>> {
    ns.map_values(|n: String| n@)
}

pub open spec fn decl_view(d: Decl) -> SDecl
    decreases d, 0nat,
{
    match d {
        Decl::Class(c) => SDecl::Class(
            c.name@,
            match c.superclass {
                Some(n) => Some(n@),
                None => None,
            },
            funs_view(c.methods@, c.methods@.len()),
            c.span,
        ),
        Decl::Fun(f) => SDecl::Fun(fun_view(f.function), f.span),
        Decl::Var(v) => SDecl::Var(
            v.name@,
            match v.initializer {
                Some(e) => Some(expr_view(e)),
                None => None,
            },
            v.span,
        ),
        Decl::Statement(s) => SDecl::Statement(stmt_view(s)),
    }
}

pub open spec fn stmt_view(s: Stmt) -> SStmt
    decreases s, 0nat,
{
    match s {
        Stmt::Expression(e) => SStmt::Expression(expr_view(e.expression), e.span),
        Stmt::Print(p) => SStmt::Print(expr_view(p.expression), p.span),
        Stmt::Return(r) => SStmt::Return(
            match r.value {
                Some(e) => Some(expr_view(e)),
                None => None,
            },
            r.span,
        ),
        Stmt::Block(b) => SStmt::Block(decls_view(b.declarations@, b.declarations@.len()), b.span),
        Stmt::If(i) => SStmt::If(
            expr_view(i.condition),
            Box::new(stmt_view(*i.then_branch)),
            match i.else_branch {
                Some(e) => Some(Box::new(stmt_view(*e))),
                None => None,
            },
            i.span,
        ),
        Stmt::While(w) => SStmt::While(expr_view(w.condition), Box::new(stmt_view(*w.body)), w.span),
    }
}

pub open spec fn fun_view(f: Function) -> SFun
    decreases f, 0nat,
{
    SFun { name: f.name@, params: names_view(f.params@), body: decls_view(f.body@, f.body@.len()), span: f.span }
}

pub open spec fn decls_view(ds: Seq<Decl>, n: nat) -> Seq<SDecl>
    decreases ds, n,
{
    if n == 0 || n > ds.len() {
        Seq::empty()
    } else {
        decls_view(ds, (n - 1) as nat).push(decl_view(ds[n - 1]))
    }
}

pub open spec fn funs_view(fs: Seq<Function>, n: nat) -> Seq<SFun>
    decreases fs, n,
{
    if n == 0 || n > fs.len() {
        Seq::empty()
    } else {
        funs_view(fs, (n - 1) as nat).push(fun_view(fs[n - 1]))
    }
}

/// An optional expression as an optional value.
pub open spec fn opt_expr_view(e: Option<Expr>) -> Option<SExpr> {
    match e {
        Some(x) => Some(expr_view(x)),
        None => None,
    }
}

/// An optional declaration as an optional value.
pub open spec fn opt_decl_view(d: Option<Decl>) -> Option<SDecl> {
    match d {
        Some(x) => Some(decl_view(x)),
        None => None,
    }
}

/// A list of expressions as mathematical values.
pub open spec fn exprs_seq(es: Seq<Expr>) -> Seq<SExpr> {
    exprs_view(es, es.len())
}

/// A list of declarations as mathematical values.
pub open spec fn decls_seq(ds: Seq<Decl>) -> Seq<SDecl> {
    decls_view(ds, ds.len())
}

/// A list of functions as mathematical values.
pub open spec fn funs_seq(fs: Seq<Function>) -> Seq<SFun> {
    funs_view(fs, fs.len())
}

/// A program as the sequence of its declarations' values.
pub open spec fn program_view(p: Program) -> Seq<SDecl> {
    decls_seq(p.declarations@)
}

proof fn lemma_exprs_same(a: Seq<Expr>, b: Seq<Expr>, n: nat)
    requires
        n <= a.len(),
        n <= b.len(),
        forall|i: int| 0 <= i < n ==> a[i] == b[i],
    ensures
        exprs_view(a, n) == exprs_view(b, n),
    decreases n,
{
    if n > 0 {
        lemma_exprs_same(a, b, (n - 1) as nat);
    }
}

proof fn lemma_decls_same(a: Seq<Decl>, b: Seq<Decl>, n: nat)
    requires
        n <= a.len(),
        n <= b.len(),
        forall|i: int| 0 <= i < n ==> a[i] == b[i],
    ensures
        decls_view(a, n) == decls_view(b, n),
    decreases n,
{
    if n > 0 {
        lemma_decls_same(a, b, (n - 1) as nat);
    }
}

proof fn lemma_funs_same(a: Seq<Function>, b: Seq<Function>, n: nat)
    requires
        n <= a.len(),
        n <= b.len(),
        forall|i: int| 0 <= i < n ==> a[i] == b[i],
    ensures
        funs_view(a, n) == funs_view(b, n),
    decreases n,
{
    if n > 0 {
        lemma_funs_same(a, b, (n - 1) as nat);
    }
}

/// Appending one declaration extends the list's value by its value.
pub proof fn lemma_decls_push(ds: Seq<Decl>, d: Decl)
    ensures
        decls_seq(ds.push(d)) == decls_seq(ds).push(decl_view(d)),
{
    lemma_decls_same(ds.push(d), ds, ds.len());
}

/// Appending one function extends the list's value by its value.
pub proof fn lemma_funs_push(fs: Seq<Function>, f: Function)
    ensures
        funs_seq(fs.push(f)) == funs_seq(fs).push(fun_view(f)),
{
    lemma_funs_same(fs.push(f), fs, fs.len());
}

/// Appending one expression extends the list's value by its value.
pub proof fn lemma_exprs_push(es: Seq<Expr>, e: Expr)
    ensures
        exprs_seq(es.push(e)) == exprs_seq(es).push(expr_view(e)),
{
    lemma_exprs_same(es.push(e), es, es.len());
}

/// Each element of a list's value is the value of the corresponding element.
pub proof fn lemma_exprs_index(es: Seq<Expr>, n: nat)
    requires
        n <= es.len(),
    ensures
        exprs_view(es, n).len() == n,
        forall|i: int| 0 <= i < n ==> #[trigger] exprs_view(es, n)[i] == expr_view(es[i]),
    decreases n,
{
    if n > 0 {
        lemma_exprs_index(es, (n - 1) as nat);
    }
}

/// Each element of a list's value is the value of the corresponding element.
pub proof fn lemma_decls_index(ds: Seq<Decl>, n: nat)
    requires
        n <= ds.len(),
    ensures
        decls_view(ds, n).len() == n,
        forall|i: int| 0 <= i < n ==> #[trigger] decls_view(ds, n)[i] == decl_view(ds[i]),
    decreases n,
{
    if n > 0 {
        lemma_decls_index(ds, (n - 1) as nat);
    }
}

/// Each element of a list's value is the value of the corresponding element.
pub proof fn lemma_funs_index(fs: Seq<Function>, n: nat)
    requires
        n <= fs.len(),
    ensures
        funs_view(fs, n).len() == n,
        forall|i: int| 0 <= i < n ==> #[trigger] funs_view(fs, n)[i] == fun_view(fs[i]),
    decreases n,
{
    if n > 0 {
        lemma_funs_index(fs, (n - 1) as nat);
    }
}

} // verus!
