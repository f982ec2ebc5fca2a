//! The S-expression form of a syntax tree.
use vstd::prelude::*;

use crate::ast::{
    decl_view, decls_view, expr_view, exprs_view, fun_view, funs_view, lemma_decls_index, lemma_exprs_index,
    lemma_funs_index, names_view, program_view, stmt_view, Decl, Expr, Function, LiteralValue, Program, SDecl, SExpr,
    SFun, SLit, SStmt, Stmt,
};
use crate::text::{append_str, chars_of, owned, string_from_range};

verus! {

// ----- number literals -----

/// The position of the first `.` at or after `i`, or the end.
pub open spec fn dot_at(s: Seq<char>, i: int) -> int
    decreases s.len() - i,
{
    if i < 0 || i >= s.len() || s[i] == '.' {
        i
    } else {
        dot_at(s, i + 1)
    }
}

/// The first position at or after `i` that is not a leading zero of the
/// digits before `end` (the last digit always stays).
pub open spec fn skip_zeros(s: Seq<char>, i: int, end: int) -> int
    decreases end - i,
{
    if i + 1 < end && s[i] == '0' {
        skip_zeros(s, i + 1, end)
    } else {
        i
    }
}

/// The end of the digits from `start` to `j` without their trailing zeros.
pub open spec fn trim_zeros(s: Seq<char>, start: int, j: int) -> int
    decreases j - start,
{
    if j > start && s[j - 1] == '0' {
        trim_zeros(s, start, j - 1)
    } else {
        j
    }
}

/// How a number literal is printed: its written digits trimmed, the integer
/// digits without leading zeros and the fraction digits without trailing
/// zeros, with a point only when fraction digits remain. The digits are not
/// rounded to the nearest floating-point value.
pub open spec fn number_text(s: Seq<char>) -> Seq<char> {
    let d = dot_at(s, 0);
    let a = skip_zeros(s, 0, d);
    if d >= s.len() {
        s.subrange(a, d)
    } else {
        let b = trim_zeros(s, d + 1, s.len() as int);
        if b <= d + 1 {
            s.subrange(a, d)
        } else {
            s.subrange(a, d) + "."@ + s.subrange(d + 1, b)
        }
    }
}

/// How a literal is printed.
pub open spec fn lit_text(l: SLit) -> Seq<char> {
    match l {
        SLit::Number(s) => number_text(s),
        SLit::Str(s) => "\""@ + s + "\""@,
        SLit::Bool(b) => if b {
            "true"@
        } else {
            "false"@
        },
        SLit::Nil => "nil"@,
    }
}

// ----- the tree -----

/// The S-expression of an expression.
pub open spec fn expr_text(e: SExpr) -> Seq<char>
    decreases e, 0nat,
{
    match e {
        SExpr::Binary(_, l, op, r, _) => "("@ + op.symbol() + " "@ + expr_text(*l) + " "@ + expr_text(*r) + ")"@,
        SExpr::Unary(_, op, x, _) => "("@ + op.symbol() + " "@ + expr_text(*x) + ")"@,
        SExpr::Literal(_, l, _) => lit_text(l),
        SExpr::Grouping(_, x, _) => "(group "@ + expr_text(*x) + ")"@,
        SExpr::Variable(_, n, _) => n,
        SExpr::Assign(_, n, v, _) => "(= "@ + n + " "@ + expr_text(*v) + ")"@,
        SExpr::Logical(_, l, op, r, _) => "("@ + op.symbol() + " "@ + expr_text(*l) + " "@ + expr_text(*r) + ")"@,
        SExpr::Call(_, c, args, _) => "(call "@ + expr_text(*c) + args_text(args, args.len()) + ")"@,
        SExpr::Get(_, o, n, _) => "(. "@ + expr_text(*o) + " "@ + n + ")"@,
        SExpr::SetProperty(_, o, n, v, _) => "(.= "@ + expr_text(*o) + " "@ + n + " "@ + expr_text(*v) + ")"@,
        SExpr::This(_, _) => "this"@,
        SExpr::Super(_, m, _) => "(super "@ + m + ")"@,
    }
}

/// The first `n` arguments, each after a space.
pub open spec fn args_text(es: Seq<SExpr>, n: nat) -> Seq<char>
    decreases es, n,
{
    if n == 0 || n > es.len() {
        Seq::empty()
    } else {
        args_text(es, (n - 1) as nat) + " "@ + expr_text(es[n - 1])
    }
}

/// The first `n` parameter names, separated by spaces.
pub open spec fn params_text(ps: Seq<Seq<char>>, n: nat) -> Seq<char>
    decreases n,
{
    if n == 0 || n > ps.len() {
        Seq::empty()
    } else if n == 1 {
        ps[0]
    } else {
        params_text(ps, (n - 1) as nat) + " "@ + ps[n - 1]
    }
}

/// The S-expression of a declaration.
pub open spec fn decl_text(d: SDecl) -> Seq<char>
    decreases d, 0nat,
{
    match d {
        SDecl::Class(name, sup, methods, _) => class_head(name, sup) + methods_text(methods, methods.len()) + ")"@,
        SDecl::Fun(f, _) => fun_text(f),
        SDecl::Var(name, init, _) => match init {
            Some(e) => "(var "@ + name + " "@ + expr_text(e) + ")"@,
            None => "(var "@ + name + ")"@,
        },
        SDecl::Statement(s) => stmt_text(s),
    }
}

/// "(class Name" or "(class Name < Super".
pub open spec fn class_head(name: Seq<char>, sup: Option<Seq<char>>) -> Seq<char> {
    match sup {
        Some(s) => "(class "@ + name + " < "@ + s,
        None => "(class "@ + name,
    }
}

/// The S-expression of a function.
pub open spec fn fun_text(f: SFun) -> Seq<char>
    decreases f, 0nat,
{
    "(fun "@ + f.name + " ("@ + params_text(f.params, f.params.len()) + ")"@ + decls_text(f.body, f.body.len()) + ")"@
}

/// The first `n` methods, each after a space.
pub open spec fn methods_text(ms: Seq<SFun>, n: nat) -> Seq<char>
    decreases ms, n,
{
    if n == 0 || n > ms.len() {
        Seq::empty()
    } else {
        methods_text(ms, (n - 1) as nat) + " "@ + fun_text(ms[n - 1])
    }
}

/// The first `n` declarations, each after a space.
pub open spec fn decls_text(ds: Seq<SDecl>, n: nat) -> Seq<char>
    decreases ds, n,
{
    if n == 0 || n > ds.len() {
        Seq::empty()
    } else {
        decls_text(ds, (n - 1) as nat) + " "@ + decl_text(ds[n - 1])
    }
}

/// The S-expression of a statement.
pub open spec fn stmt_text(s: SStmt) -> Seq<char>
    decreases s, 0nat,
{
    match s {
        SStmt::Expression(e, _) => expr_text(e),
        SStmt::Print(e, _) => "(print "@ + expr_text(e) + ")"@,
        SStmt::Return(v, _) => match v {
            Some(e) => "(return"@ + " "@ + expr_text(e) + ")"@,
            None => "(return"@ + ")"@,
        },
        SStmt::Block(ds, _) => "(block"@ + decls_text(ds, ds.len()) + ")"@,
        SStmt::If(c, th, el, _) => match el {
            Some(e) => "(if "@ + expr_text(c) + " "@ + stmt_text(*th) + " "@ + stmt_text(*e) + ")"@,
            None => "(if "@ + expr_text(c) + " "@ + stmt_text(*th) + ")"@,
        },
        SStmt::While(c, b, _) => "(while "@ + expr_text(c) + " "@ + stmt_text(*b) + ")"@,
    }
}

/// The first `n` declarations of a program, each on a line of its own.
pub open spec fn program_text(ds: Seq<SDecl>, n: nat) -> Seq<char>
    decreases n,
{
    if n == 0 || n > ds.len() {
        Seq::empty()
    } else {
        program_text(ds, (n - 1) as nat) + decl_text(ds[n - 1]) + "\n"@
    }
}

// ----- printing -----

/// The S-expression form of a program: one line per top-level declaration.
pub fn to_sexp(program: &Program) -> (s: String)
    ensures
        s@ == program_text(program_view(*program), program_view(*program).len()),
{
    let ds = &program.declarations;
    proof {
        lemma_decls_index(ds@, ds@.len());
    }
    let mut buf = String::new();
    let mut i: usize = 0;
    while i < ds.len()
        invariant
            i <= ds@.len(),
            decls_view(ds@, ds@.len()).len() == ds@.len(),
            forall|k: int| 0 <= k < ds@.len() ==> #[trigger] decls_view(ds@, ds@.len())[k] == decl_view(ds@[k]),
            buf@ == program_text(decls_view(ds@, ds@.len()), i as nat),
        decreases ds@.len() - i,
    {
        let line = decl_sexp(&ds[i]);
        append_str(&mut buf, line.as_str());
        append_str(&mut buf, "\n");
        i = i + 1;
    }
    buf
}

/// The printed form of a number literal's text.
pub(crate) fn number_sexp(lexeme: &str) -> (r: String)
    ensures
        r@ == number_text(lexeme@),
{
    let cs = chars_of(lexeme);
    let ghost s = cs@;
    let mut d: usize = 0;
    while d < cs.len() && cs[d] != '.'
        invariant
            s == cs@,
            d <= s.len(),
            dot_at(s, d as int) == dot_at(s, 0),
        decreases s.len() - d,
    {
        d = d + 1;
    }
    let mut a: usize = 0;
    while a + 1 < d && cs[a] == '0'
        invariant
            s == cs@,
            d <= s.len(),
            a <= d || d == 0,
            a == 0 || a < d,
            skip_zeros(s, a as int, d as int) == skip_zeros(s, 0, d as int),
        decreases d - a,
    {
        a = a + 1;
    }
    let mut r = string_from_range(&cs, a, d);
    if d < cs.len() {
        let mut b: usize = cs.len();
        while b > d + 1 && cs[b - 1] == '0'
            invariant
                s == cs@,
                d < s.len(),
                d + 1 <= b <= s.len(),
                trim_zeros(s, d + 1, b as int) == trim_zeros(s, d + 1, s.len() as int),
            decreases b,
        {
            b = b - 1;
        }
        if b > d + 1 {
            append_str(&mut r, ".");
            let frac = string_from_range(&cs, d + 1, b);
            append_str(&mut r, frac.as_str());
        }
    }
    r
}

fn lit_sexp(v: &LiteralValue) -> (r: String)
    ensures
        r@ == lit_text(crate::ast::lit_view(*v)),
{
    match v {
        LiteralValue::Number(n) => number_sexp(n.as_str()),
        LiteralValue::String(s) => {
            let mut r = owned("\"");
            append_str(&mut r, s.as_str());
            append_str(&mut r, "\"");
            r
        },
        LiteralValue::Bool(b) => if *b {
            owned("true")
        } else {
            owned("false")
        },
        LiteralValue::Nil => owned("nil"),
    }
}

/// The S-expression of an expression.
fn expr_sexp(expr: &Expr) -> (r: String)
    ensures
        r@ == expr_text(expr_view(*expr)),
    decreases expr,
{
    match expr {
        Expr::Binary(b) => {
            let mut r = owned("(");
            append_str(&mut r, b.operator.as_str());
            append_str(&mut r, " ");
            let l = expr_sexp(&b.left);
            append_str(&mut r, l.as_str());
            append_str(&mut r, " ");
            let x = expr_sexp(&b.right);
            append_str(&mut r, x.as_str());
            append_str(&mut r, ")");
            r
        },
        Expr::Unary(u) => {
            let mut r = owned("(");
            append_str(&mut r, u.operator.as_str());
            append_str(&mut r, " ");
            let x = expr_sexp(&u.operand);
            append_str(&mut r, x.as_str());
            append_str(&mut r, ")");
            r
        },
        Expr::Literal(l) => lit_sexp(&l.value),
        Expr::Grouping(g) => {
            let mut r = owned("(group ");
            let x = expr_sexp(&g.expression);
            append_str(&mut r, x.as_str());
            append_str(&mut r, ")");
            r
        },
        Expr::Variable(v) => v.name.clone(),
        Expr::Assign(a) => {
            let mut r = owned("(= ");
            append_str(&mut r, a.name.as_str());
            append_str(&mut r, " ");
            let x = expr_sexp(&a.value);
            append_str(&mut r, x.as_str());
            append_str(&mut r, ")");
            r
        },
        Expr::Logical(l) => {
            let mut r = owned("(");
            append_str(&mut r, l.operator.as_str());
            append_str(&mut r, " ");
            let x = expr_sexp(&l.left);
            append_str(&mut r, x.as_str());
            append_str(&mut r, " ");
            let y = expr_sexp(&l.right);
            append_str(&mut r, y.as_str());
            append_str(&mut r, ")");
            r
        },
        Expr::Call(c) => {
            let mut r = owned("(call ");
            let x = expr_sexp(&c.callee);
            append_str(&mut r, x.as_str());
            let ghost head = r@;
            let args = &c.arguments;
            proof {
                lemma_exprs_index(args@, args@.len());
            }
            let mut i: usize = 0;
            while i < args.len()
                invariant
                    i <= args@.len(),
                    exprs_view(args@, args@.len()).len() == args@.len(),
                    forall|k: int| 0 <= k < args@.len() ==> #[trigger] exprs_view(args@, args@.len())[k] == expr_view(args@[k]),
                    r@ == head + args_text(exprs_view(args@, args@.len()), i as nat),
                    *expr == Expr::Call(*c),
                    *args == c.arguments,
                decreases args@.len() - i,
            {
                append_str(&mut r, " ");
                proof {
                    assert(decreases_to!(*expr => (*expr)->Call_0));
                    assert(decreases_to!(*c => c.arguments));
                    assert(decreases_to!(c.arguments => c.arguments@));
                    assert(decreases_to!(c.arguments@ => c.arguments@[i as int]));
                }
                let a = expr_sexp(&args[i]);
                append_str(&mut r, a.as_str());
                i = i + 1;
                proof {
                    let es = exprs_view(args@, args@.len());
                    assert(args_text(es, i as nat) == args_text(es, (i - 1) as nat) + " "@ + expr_text(es[i - 1]));
                    assert(r@ =~= head + args_text(es, i as nat));
                }
            }
            append_str(&mut r, ")");
            r
        },
        Expr::Get(g) => {
            let mut r = owned("(. ");
            let x = expr_sexp(&g.object);
            append_str(&mut r, x.as_str());
            append_str(&mut r, " ");
            append_str(&mut r, g.name.as_str());
            append_str(&mut r, ")");
            r
        },
        Expr::SetProperty(s) => {
            let mut r = owned("(.= ");
            let x = expr_sexp(&s.object);
            append_str(&mut r, x.as_str());
            append_str(&mut r, " ");
            append_str(&mut r, s.name.as_str());
            append_str(&mut r, " ");
            let y = expr_sexp(&s.value);
            append_str(&mut r, y.as_str());
            append_str(&mut r, ")");
            r
        },
        Expr::This(_) => owned("this"),
        Expr::Super(s) => {
            let mut r = owned("(super ");
            append_str(&mut r, s.method.as_str());
            append_str(&mut r, ")");
            r
        },
    }
}

/// The S-expression of a declaration.
fn decl_sexp(decl: &Decl) -> (r: String)
    ensures
        r@ == decl_text(decl_view(*decl)),
    decreases decl, 1nat,
{
    match decl {
        Decl::Class(c) => {
            let mut r = owned("(class ");
            append_str(&mut r, c.name.as_str());
            match &c.superclass {
                Some(sup) => {
                    append_str(&mut r, " < ");
                    append_str(&mut r, sup.as_str());
                },
                None => {},
            }
            let ghost head = r@;
            let ms = &c.methods;
            proof {
                lemma_funs_index(ms@, ms@.len());
            }
            let mut i: usize = 0;
            while i < ms.len()
                invariant
                    i <= ms@.len(),
                    funs_view(ms@, ms@.len()).len() == ms@.len(),
                    forall|k: int| 0 <= k < ms@.len() ==> #[trigger] funs_view(ms@, ms@.len())[k] == fun_view(ms@[k]),
                    r@ == head + methods_text(funs_view(ms@, ms@.len()), i as nat),
                    *decl == Decl::Class(*c),
                    *ms == c.methods,
                decreases ms@.len() - i,
            {
                append_str(&mut r, " ");
                proof {
                    assert(decreases_to!(*decl => (*decl)->Class_0));
                    assert(decreases_to!(*c => c.methods));
                    assert(decreases_to!(c.methods => c.methods@));
                    assert(decreases_to!(c.methods@ => c.methods@[i as int]));
                }
                let m = function_sexp(&ms[i]);
                append_str(&mut r, m.as_str());
                i = i + 1;
                proof {
                    let fs = funs_view(ms@, ms@.len());
                    assert(methods_text(fs, i as nat) == methods_text(fs, (i - 1) as nat) + " "@ + fun_text(fs[i - 1]));
                    assert(r@ =~= head + methods_text(fs, i as nat));
                }
            }
            append_str(&mut r, ")");
            r
        },
        Decl::Fun(f) => function_sexp(&f.function),
        Decl::Var(v) => {
            let mut r = owned("(var ");
            append_str(&mut r, v.name.as_str());
            match &v.initializer {
                Some(init) => {
                    append_str(&mut r, " ");
                    let x = expr_sexp(init);
                    append_str(&mut r, x.as_str());
                },
                None => {},
            }
            append_str(&mut r, ")");
            r
        },
        Decl::Statement(s) => stmt_sexp(s),
    }
}

/// The S-expression of a function: name, parameters and body.
fn function_sexp(f: &Function) -> (r: String)
    ensures
        r@ == fun_text(fun_view(*f)),
    decreases f, 1nat,
{
    let mut r = owned("(fun ");
    append_str(&mut r, f.name.as_str());
    append_str(&mut r, " (");
    let ghost head = r@;
    let ps = &f.params;
    let mut i: usize = 0;
    while i < ps.len()
        invariant
            i <= ps@.len(),
            r@ == head + params_text(names_view(ps@), i as nat),
        decreases ps@.len() - i,
    {
        if i > 0 {
            append_str(&mut r, " ");
        }
        append_str(&mut r, ps[i].as_str());
        i = i + 1;
        proof {
            let ns = names_view(ps@);
            if i == 1 {
                assert(params_text(ns, 1) == ns[0]);
            } else {
                assert(params_text(ns, i as nat) == params_text(ns, (i - 1) as nat) + " "@ + ns[i - 1]);
            }
            assert(r@ =~= head + params_text(ns, i as nat));
        }
    }
    assert(names_view(ps@).len() == ps@.len());
    proof {
        lemma_decls_index(f.body@, f.body@.len());
    }
    append_str(&mut r, ")");
    let body = decls_sexp(&f.body);
    append_str(&mut r, body.as_str());
    append_str(&mut r, ")");
    r
}

/// The declarations of a body or block, each after a space.
fn decls_sexp(ds: &Vec<Decl>) -> (r: String)
    ensures
        r@ == decls_text(decls_view(ds@, ds@.len()), ds@.len()),
    decreases ds, 0nat,
{
    proof {
        lemma_decls_index(ds@, ds@.len());
    }
    let mut r = String::new();
    let mut i: usize = 0;
    while i < ds.len()
        invariant
            i <= ds@.len(),
            decls_view(ds@, ds@.len()).len() == ds@.len(),
            forall|k: int| 0 <= k < ds@.len() ==> #[trigger] decls_view(ds@, ds@.len())[k] == decl_view(ds@[k]),
            r@ == decls_text(decls_view(ds@, ds@.len()), i as nat),
        decreases ds@.len() - i,
    {
        append_str(&mut r, " ");
        let d = decl_sexp(&ds[i]);
        append_str(&mut r, d.as_str());
        i = i + 1;
    }
    r
}

/// The S-expression of a statement.
fn stmt_sexp(stmt: &Stmt) -> (r: String)
    ensures
        r@ == stmt_text(stmt_view(*stmt)),
    decreases stmt, 1nat,
{
    match stmt {
        Stmt::Expression(e) => {
            let r = expr_sexp(&e.expression);
            assert(stmt_view(*stmt) == SStmt::Expression(expr_view(e.expression), e.span));
            assert(stmt_text(SStmt::Expression(expr_view(e.expression), e.span)) == expr_text(expr_view(e.expression)));
            r
        },
        Stmt::Print(p) => {
            let mut r = owned("(print ");
            let x = expr_sexp(&p.expression);
            append_str(&mut r, x.as_str());
            append_str(&mut r, ")");
            r
        },
        Stmt::Return(rs) => {
            let mut r = owned("(return");
            match &rs.value {
                Some(v) => {
                    append_str(&mut r, " ");
                    let x = expr_sexp(v);
                    append_str(&mut r, x.as_str());
                },
                None => {},
            }
            append_str(&mut r, ")");
            r
        },
        Stmt::Block(b) => {
            let mut r = owned("(block");
            proof {
                lemma_decls_index(b.declarations@, b.declarations@.len());
            }
            let body = decls_sexp(&b.declarations);
            append_str(&mut r, body.as_str());
            append_str(&mut r, ")");
            r
        },
        Stmt::If(i) => {
            let mut r = owned("(if ");
            let c = expr_sexp(&i.condition);
            append_str(&mut r, c.as_str());
            append_str(&mut r, " ");
            let t = stmt_sexp(&i.then_branch);
            append_str(&mut r, t.as_str());
            match &i.else_branch {
                Some(e) => {
                    append_str(&mut r, " ");
                    let x = stmt_sexp(e);
                    append_str(&mut r, x.as_str());
                },
                None => {},
            }
            append_str(&mut r, ")");
            r
        },
        Stmt::While(w) => {
            let mut r = owned("(while ");
            let c = expr_sexp(&w.condition);
            append_str(&mut r, c.as_str());
            append_str(&mut r, " ");
            let b = stmt_sexp(&w.body);
            append_str(&mut r, b.as_str());
            append_str(&mut r, ")");
            r
        },
    }
}

} // verus!
