//! Which variables closures capture.
//!
//! Native code keeps a captured variable in a heap cell instead of a stack
//! slot, and each function needs the captured variables it reaches in its
//! environment. This pass walks the tree once and finds both.
use vstd::prelude::*;

use crate::ast::{
    decl_view, decls_view, expr_view, exprs_view, fun_view, lemma_decls_index, lemma_exprs_index, names_view,
    program_view, stmt_view, Decl, Expr, Function, Program, SDecl, SExpr, SFun, SStmt, Stmt,
};
use crate::text::{owned, str_eq};

verus! {

/// A variable that an inner function captures: its name and the function
/// that declares it.
#[derive(Debug, Clone, PartialEq, Eq, Hash)]
pub struct CapturedVar {
    pub var_name: String,
    pub declaring_function: String,
}

/// What capture analysis finds: every captured variable (each listed once),
/// and for each function that captures anything, the names it reaches in
/// enclosing functions, each once, in the order first met.
pub struct CaptureInfo {
    pub captured_vars: Vec<CapturedVar>,
    pub function_captures: Vec<(String, Vec<String>)>,
}

// ----- the analysis as values -----

/// `s` with `x` added at the end, unless `s` already holds it.
pub open spec fn add_once<A>(s: Seq<A>, x: A) -> Seq<A> {
    if s.contains(x) {
        s
    } else {
        s.push(x)
    }
}

/// The position of the entry for `f` in `fc`, searching from `i` on.
pub open spec fn entry_index(fc: Seq<(Seq<char>, Seq<Seq<char>>)>, f: Seq<char>, i: int) -> Option<int>
    decreases fc.len() - i,
{
    if i < 0 || i >= fc.len() {
        None
    } else if fc[i].0 == f {
        Some(i)
    } else {
        entry_index(fc, f, i + 1)
    }
}

/// `fc` with `name` recorded among the captures of function `f`.
pub open spec fn add_capture(fc: Seq<(Seq<char>, Seq<Seq<char>>)>, f: Seq<char>, name: Seq<char>) -> Seq<
    (Seq<char>, Seq<Seq<char>>),
> {
    match entry_index(fc, f, 0) {
        Some(i) => fc.update(i, (f, add_once(fc[i].1, name))),
        None => fc.push((f, seq![name])),
    }
}

/// The analysis state: the enclosing functions (outermost first, each with
/// the names declared in it; the top level has the empty name), the
/// captured variables as (name, declaring function), and the captures of
/// each function.
pub struct CState {
    pub scopes: Seq<(Seq<char>, Seq<Seq<char>>)>,
    pub captured: Seq<(Seq<char>, Seq<char>)>,
    pub captures: Seq<(Seq<char>, Seq<Seq<char>>)>,
}

pub open spec fn initial_cstate() -> CState {
    CState { scopes: seq![(Seq::empty(), Seq::empty())], captured: Seq::empty(), captures: Seq::empty() }
}

/// Declare `name` in the innermost function.
pub open spec fn declare_var(st: CState, name: Seq<char>) -> CState {
    if st.scopes.len() > 0 {
        let last = st.scopes.last();
        CState { scopes: st.scopes.update(st.scopes.len() - 1, (last.0, add_once(last.1, name))), ..st }
    } else {
        st
    }
}

/// The innermost of the first `i` scopes that declares `name`.
pub open spec fn holder(scopes: Seq<(Seq<char>, Seq<Seq<char>>)>, name: Seq<char>, i: int) -> Option<int>
    decreases i,
{
    if i <= 0 || i > scopes.len() {
        None
    } else if scopes[i - 1].1.contains(name) {
        Some(i - 1)
    } else {
        holder(scopes, name, i - 1)
    }
}

/// `fc` with `name` recorded as captured by the functions of scopes `k`
/// up to, not including, `hi`, in that order.
pub open spec fn mark_between(
    fc: Seq<(Seq<char>, Seq<Seq<char>>)>,
    scopes: Seq<(Seq<char>, Seq<Seq<char>>)>,
    k: int,
    hi: int,
    name: Seq<char>,
) -> Seq<(Seq<char>, Seq<Seq<char>>)>
    decreases hi - k,
{
    if k < 0 || k >= hi || hi > scopes.len() {
        fc
    } else {
        mark_between(add_capture(fc, scopes[k].0, name), scopes, k + 1, hi, name)
    }
}

/// A use of `name`: when the nearest declaration is in an enclosing function
/// (neither the top level, scope 0, nor the current function, the last
/// scope), the variable is captured: by the current function first, then by
/// every function between the two, outermost first.
pub open spec fn reference_var(st: CState, name: Seq<char>) -> CState {
    let k = st.scopes.len() - 1;
    match holder(st.scopes, name, st.scopes.len() as int) {
        None => st,
        Some(j) => {
            if j == 0 || j == k {
                st
            } else {
                let fc = add_capture(st.captures, st.scopes[k].0, name);
                CState {
                    scopes: st.scopes,
                    captured: add_once(st.captured, (name, st.scopes[j].0)),
                    captures: mark_between(fc, st.scopes, j + 1, k, name),
                }
            }
        },
    }
}

pub open spec fn c_expr(st: CState, e: SExpr) -> CState
    decreases e, 0nat,
{
    match e {
        SExpr::Variable(_, name, _) => reference_var(st, name),
        SExpr::Assign(_, name, value, _) => reference_var(c_expr(st, *value), name),
        SExpr::Binary(_, l, _, r, _) => c_expr(c_expr(st, *l), *r),
        SExpr::Unary(_, _, x, _) => c_expr(st, *x),
        SExpr::Logical(_, l, _, r, _) => c_expr(c_expr(st, *l), *r),
        SExpr::Call(_, callee, args, _) => c_args(c_expr(st, *callee), args, args.len()),
        SExpr::Grouping(_, x, _) => c_expr(st, *x),
        SExpr::Get(_, o, _, _) => c_expr(st, *o),
        SExpr::SetProperty(_, o, _, v, _) => c_expr(c_expr(st, *v), *o),
        SExpr::Literal(_, _, _) => st,
        SExpr::This(_, _) => st,
        SExpr::Super(_, _, _) => st,
    }
}

/// The first `n` arguments, in order.
pub open spec fn c_args(st: CState, es: Seq<SExpr>, n: nat) -> CState
    decreases es, n,
{
    if n == 0 || n > es.len() {
        st
    } else {
        c_expr(c_args(st, es, (n - 1) as nat), es[n - 1])
    }
}

pub open spec fn c_stmt(st: CState, s: SStmt) -> CState
    decreases s, 0nat,
{
    match s {
        SStmt::Expression(e, _) => c_expr(st, e),
        SStmt::Print(e, _) => c_expr(st, e),
        SStmt::Return(v, _) => match v {
            Some(e) => c_expr(st, e),
            None => st,
        },
        SStmt::Block(ds, _) => c_decls(st, ds, ds.len()),
        SStmt::If(c, th, el, _) => {
            let s1 = c_stmt(c_expr(st, c), *th);
            match el {
                Some(e) => c_stmt(s1, *e),
                None => s1,
            }
        },
        SStmt::While(c, b, _) => c_stmt(c_expr(st, c), *b),
    }
}

/// The first `n` declarations, in order.
pub open spec fn c_decls(st: CState, ds: Seq<SDecl>, n: nat) -> CState
    decreases ds, n,
{
    if n == 0 || n > ds.len() {
        st
    } else {
        c_decl(c_decls(st, ds, (n - 1) as nat), ds[n - 1])
    }
}

/// The first `n` parameters, each declared.
pub open spec fn c_params(st: CState, ps: Seq<Seq<char>>, n: nat) -> CState
    decreases n,
{
    if n == 0 || n > ps.len() {
        st
    } else {
        declare_var(c_params(st, ps, (n - 1) as nat), ps[n - 1])
    }
}

/// A function: its own scope, with its parameters, around its body.
pub open spec fn c_function(st: CState, f: SFun) -> CState
    decreases f, 0nat,
{
    let s1 = CState { scopes: st.scopes.push((f.name, Seq::empty())), ..st };
    let s3 = c_decls(c_params(s1, f.params, f.params.len()), f.body, f.body.len());
    CState { scopes: s3.scopes.drop_last(), ..s3 }
}

pub open spec fn c_decl(st: CState, d: SDecl) -> CState
    decreases d, 0nat,
{
    match d {
        SDecl::Var(name, init, _) => declare_var(
            match init {
                Some(e) => c_expr(st, e),
                None => st,
            },
            name,
        ),
        SDecl::Fun(f, _) => c_function(declare_var(st, f.name), f),
        SDecl::Statement(s) => c_stmt(st, s),
        SDecl::Class(_, _, _, _) => st,
    }
}

/// The analysis of a whole program.
pub open spec fn capture_analysis(ds: Seq<SDecl>) -> CState {
    c_decls(initial_cstate(), ds, ds.len())
}

// ----- views of the executable state -----

pub open spec fn entry_view(e: (String, Vec<String>)) -> (Seq<char>, Seq<Seq<char>>) {
    (e.0@, names_view(e.1@))
}

pub open spec fn entries_view(es: Seq<(String, Vec<String>)>) -> Seq<(Seq<char>, Seq<Seq<char>>)> {
    es.map_values(|e: (String, Vec<String>)| entry_view(e))
}

pub open spec fn var_view(c: CapturedVar) -> (Seq<char>, Seq<char>) {
    (c.var_name@, c.declaring_function@)
}

pub open spec fn vars_view(cs: Seq<CapturedVar>) -> Seq<(Seq<char>, Seq<char>)> {
    cs.map_values(|c: CapturedVar| var_view(c))
}

/// What `info` holds, as values: the captured variables and the captures of
/// each function.
pub open spec fn info_view(info: CaptureInfo) -> (Seq<(Seq<char>, Seq<char>)>, Seq<(Seq<char>, Seq<Seq<char>>)>) {
    (vars_view(info.captured_vars@), entries_view(info.function_captures@))
}

/// Whether `v` holds `name`.
fn contains_name(v: &Vec<String>, name: &str) -> (r: bool)
    ensures
        r == names_view(v@).contains(name@),
{
    let mut i: usize = 0;
    while i < v.len()
        invariant
            i <= v@.len(),
            forall|k: int| 0 <= k < i ==> v@[k]@ != name@,
        decreases v@.len() - i,
    {
        if str_eq(v[i].as_str(), name) {
            assert(names_view(v@)[i as int] == name@);
            return true;
        }
        i = i + 1;
    }
    assert forall|k: int| 0 <= k < names_view(v@).len() implies names_view(v@)[k] != name@ by {
        assert(names_view(v@)[k] == v@[k]@);
    }
    false
}

/// Adds `name` to `v` unless it is there.
fn add_name(v: &mut Vec<String>, name: &str)
    ensures
        names_view(final(v)@) == add_once(names_view(old(v)@), name@),
{
    if !contains_name(v, name) {
        let ghost before = v@;
        v.push(owned(name));
        assert(names_view(v@) =~= names_view(before).push(name@));
    }
}

/// The position of the entry for `f`, if there is one.
fn find_entry(fc: &Vec<(String, Vec<String>)>, f: &str) -> (r: Option<usize>)
    ensures
        match r {
            Some(i) => entry_index(entries_view(fc@), f@, 0) == Some(i as int) && i < fc@.len(),
            None => entry_index(entries_view(fc@), f@, 0) is None,
        },
{
    let ghost fv = entries_view(fc@);
    let mut i: usize = 0;
    while i < fc.len()
        invariant
            i <= fc@.len(),
            fv == entries_view(fc@),
            fv.len() == fc@.len(),
            entry_index(fv, f@, 0) == entry_index(fv, f@, i as int),
        decreases fc@.len() - i,
    {
        assert(fv[i as int] == entry_view(fc@[i as int]));
        if str_eq(fc[i].0.as_str(), f) {
            return Some(i);
        }
        i = i + 1;
    }
    None
}

/// Records that function `f` captures `name`.
fn add_capture_exec(fc: &mut Vec<(String, Vec<String>)>, f: &str, name: &str)
    ensures
        entries_view(final(fc)@) == add_capture(entries_view(old(fc)@), f@, name@),
{
    let ghost before = entries_view(fc@);
    match find_entry(fc, f) {
        Some(i) => {
            let ghost old_fc = fc@;
            let (key, mut names) = fc.remove(i);
            assert(entry_view((key, names)) == before[i as int]);
            add_name(&mut names, name);
            fc.insert(i, (owned(f), names));
            assert(entries_view(fc@) =~= before.update(i as int, (f@, add_once(before[i as int].1, name@))));
        },
        None => {
            let mut names: Vec<String> = Vec::new();
            names.push(owned(name));
            assert(names_view(names@) =~= seq![name@]);
            fc.push((owned(f), names));
            assert(entries_view(fc@) =~= before.push((f@, seq![name@])));
        },
    }
}

/// Walks a program, keeping the state of the analysis.
struct CaptureAnalyzer {
    function_scopes: Vec<(String, Vec<String>)>,
    captured_vars: Vec<CapturedVar>,
    function_captures: Vec<(String, Vec<String>)>,
}

impl CaptureAnalyzer {
    spec fn state(self) -> CState {
        CState {
            scopes: entries_view(self.function_scopes@),
            captured: vars_view(self.captured_vars@),
            captures: entries_view(self.function_captures@),
        }
    }

    spec fn inv(self) -> bool {
        self.function_scopes@.len() >= 1
    }

    /// The top level alone, nothing captured yet.
    fn new() -> (a: CaptureAnalyzer)
        ensures
            a.inv(),
            a.state() == initial_cstate(),
    {
        let mut function_scopes: Vec<(String, Vec<String>)> = Vec::new();
        function_scopes.push((String::new(), Vec::new()));
        let a = CaptureAnalyzer { function_scopes, captured_vars: Vec::new(), function_captures: Vec::new() };
        assert(names_view(Seq::<String>::empty()) =~= Seq::<Seq<char>>::empty());
        assert(a.state().scopes =~= initial_cstate().scopes);
        assert(a.state().captured =~= initial_cstate().captured);
        assert(a.state().captures =~= initial_cstate().captures);
        a
    }

    /// The name of the innermost function (empty at the top level).
    fn current_function(&self) -> (f: &String)
        requires
            self.inv(),
        ensures
            f@ == self.state().scopes.last().0,
    {
        let n = self.function_scopes.len();
        &self.function_scopes[n - 1].0
    }

    /// Declares `name` in the innermost function.
    fn declare_var(&mut self, name: &str)
        requires
            old(self).inv(),
        ensures
            final(self).inv(),
            final(self).state() == declare_var(old(self).state(), name@),
            final(self).function_scopes@.len() == old(self).function_scopes@.len(),
    {
        let ghost before = self.state();
        let n = self.function_scopes.len();
        let (f, mut names) = self.function_scopes.pop().unwrap();
        assert(entry_view((f, names)) == before.scopes.last());
        add_name(&mut names, name);
        self.function_scopes.push((f, names));
        assert(self.state().scopes =~= before.scopes.update(n - 1, (before.scopes.last().0, add_once(
            before.scopes.last().1,
            name@,
        ))));
    }

    /// Whether `name` and `f` are already listed as captured.
    fn is_captured(&self, name: &str, f: &str) -> (r: bool)
        ensures
            r == vars_view(self.captured_vars@).contains((name@, f@)),
    {
        let cv = &self.captured_vars;
        let mut i: usize = 0;
        while i < cv.len()
            invariant
                i <= cv@.len(),
                *cv == self.captured_vars,
                forall|k: int| 0 <= k < i ==> var_view(cv@[k]) != (name@, f@),
            decreases cv@.len() - i,
        {
            if str_eq(cv[i].var_name.as_str(), name) && str_eq(cv[i].declaring_function.as_str(), f) {
                assert(vars_view(cv@)[i as int] == (name@, f@));
                return true;
            }
            i = i + 1;
        }
        assert forall|k: int| 0 <= k < vars_view(cv@).len() implies vars_view(cv@)[k] != (name@, f@) by {
            assert(vars_view(cv@)[k] == var_view(cv@[k]));
        }
        false
    }

    /// A use of `name`: record the capture when it crosses functions.
    #[verifier::rlimit(30)]
    fn reference_var(&mut self, name: &str)
        requires
            old(self).inv(),
        ensures
            final(self).inv(),
            final(self).state() == reference_var(old(self).state(), name@),
            final(self).function_scopes == old(self).function_scopes,
    {
        let ghost st = self.state();
        let ghost sc = st.scopes;
        let n = self.function_scopes.len();
        let mut i = n;
        let mut found: Option<usize> = None;
        while found.is_none() && i > 0
            invariant
                i <= n,
                n == self.function_scopes@.len(),
                sc == entries_view(self.function_scopes@),
                sc.len() == n,
                *self == *old(self),
                found is None ==> holder(sc, name@, n as int) == holder(sc, name@, i as int),
                found matches Some(j) ==> holder(sc, name@, n as int) == Some(j as int) && j < n,
            decreases i,
        {
            assert(sc[i - 1] == entry_view(self.function_scopes@[i - 1]));
            if contains_name(&self.function_scopes[i - 1].1, name) {
                found = Some(i - 1);
            }
            i = i - 1;
        }
        let j = match found {
            None => {
                return;
            },
            Some(j) => j,
        };
        assert(holder(sc, name@, n as int) == Some(j as int));
        assert(sc[j as int] == entry_view(self.function_scopes@[j as int]));
        assert(sc.last() == entry_view(self.function_scopes@[n - 1]));
        if j == 0 || j == n - 1 {
            return;
        }
        let f = owned(self.function_scopes[j].0.as_str());
        let cur = owned(self.current_function().as_str());
        if !self.is_captured(name, f.as_str()) {
            let ghost before = self.captured_vars@;
            self.captured_vars.push(CapturedVar { var_name: owned(name), declaring_function: owned(f.as_str()) });
            assert(vars_view(self.captured_vars@) =~= vars_view(before).push((name@, f@)));
        }
        let ghost cap = vars_view(self.captured_vars@);
        assert(cap == add_once(st.captured, (name@, f@)));
        add_capture_exec(&mut self.function_captures, cur.as_str(), name);
        let ghost fc1 = entries_view(self.function_captures@);
        let mut m = j + 1;
        while m < n - 1
            invariant
                j < m <= n - 1,
                n == self.function_scopes@.len(),
                sc == entries_view(self.function_scopes@),
                sc.len() == n,
                self.function_scopes == old(self).function_scopes,
                vars_view(self.captured_vars@) == cap,
                mark_between(entries_view(self.function_captures@), sc, m as int, n - 1, name@) == mark_between(
                    fc1,
                    sc,
                    j + 1,
                    n - 1,
                    name@,
                ),
            decreases n - m,
        {
            assert(sc[m as int] == entry_view(self.function_scopes@[m as int]));
            add_capture_exec(&mut self.function_captures, self.function_scopes[m].0.as_str(), name);
            m = m + 1;
        }
    }

    #[verifier::rlimit(30)]
    fn visit_expr(&mut self, expr: &Expr)
        requires
            old(self).inv(),
        ensures
            final(self).inv(),
            final(self).state() == c_expr(old(self).state(), expr_view(*expr)),
            final(self).function_scopes@.len() == old(self).function_scopes@.len(),
        decreases expr,
    {
        match expr {
            Expr::Variable(v) => self.reference_var(v.name.as_str()),
            Expr::Assign(a) => {
                self.visit_expr(&a.value);
                self.reference_var(a.name.as_str());
            },
            Expr::Binary(b) => {
                self.visit_expr(&b.left);
                self.visit_expr(&b.right);
            },
            Expr::Unary(u) => self.visit_expr(&u.operand),
            Expr::Logical(l) => {
                self.visit_expr(&l.left);
                self.visit_expr(&l.right);
            },
            Expr::Call(c) => {
                self.visit_expr(&c.callee);
                let args = &c.arguments;
                let ghost s0 = self.state();
                let ghost n0 = self.function_scopes@.len();
                proof {
                    lemma_exprs_index(args@, args@.len());
                }
                let mut i: usize = 0;
                while i < args.len()
                    invariant
                        self.inv(),
                        self.function_scopes@.len() == n0,
                        i <= args@.len(),
                        *expr == Expr::Call(*c),
                        *args == c.arguments,
                        exprs_view(args@, args@.len()).len() == args@.len(),
                        forall|k: int| 0 <= k < args@.len() ==> #[trigger] exprs_view(args@, args@.len())[k] == expr_view(args@[k]),
                        self.state() == c_args(s0, exprs_view(args@, args@.len()), i as nat),
                    decreases args@.len() - i,
                {
                    proof {
                        assert(decreases_to!(*expr => (*expr)->Call_0));
                        assert(decreases_to!(*c => c.arguments));
                        assert(decreases_to!(c.arguments => c.arguments@));
                        assert(decreases_to!(c.arguments@ => c.arguments@[i as int]));
                    }
                    self.visit_expr(&args[i]);
                    i = i + 1;
                }
            },
            Expr::Grouping(g) => self.visit_expr(&g.expression),
            Expr::Get(g) => self.visit_expr(&g.object),
            Expr::SetProperty(s) => {
                self.visit_expr(&s.value);
                self.visit_expr(&s.object);
            },
            Expr::Literal(_) => {},
            Expr::This(_) => {},
            Expr::Super(_) => {},
        }
    }

    fn visit_stmt(&mut self, stmt: &Stmt)
        requires
            old(self).inv(),
        ensures
            final(self).inv(),
            final(self).state() == c_stmt(old(self).state(), stmt_view(*stmt)),
            final(self).function_scopes@.len() == old(self).function_scopes@.len(),
        decreases stmt, 1nat,
    {
        match stmt {
            Stmt::Expression(e) => self.visit_expr(&e.expression),
            Stmt::Print(p) => self.visit_expr(&p.expression),
            Stmt::Return(r) => match &r.value {
                Some(v) => self.visit_expr(v),
                None => {},
            },
            Stmt::Block(b) => {
                proof {
                    lemma_decls_index(b.declarations@, b.declarations@.len());
                }
                self.visit_decls(&b.declarations);
            },
            Stmt::If(i) => {
                self.visit_expr(&i.condition);
                self.visit_stmt(&i.then_branch);
                match &i.else_branch {
                    Some(e) => self.visit_stmt(e),
                    None => {},
                }
            },
            Stmt::While(w) => {
                self.visit_expr(&w.condition);
                self.visit_stmt(&w.body);
            },
        }
    }

    /// Visits declarations in order.
    fn visit_decls(&mut self, ds: &Vec<Decl>)
        requires
            old(self).inv(),
        ensures
            final(self).inv(),
            final(self).state() == c_decls(old(self).state(), decls_view(ds@, ds@.len()), ds@.len()),
            final(self).function_scopes@.len() == old(self).function_scopes@.len(),
        decreases ds, 0nat,
    {
        let ghost s0 = self.state();
        let ghost n0 = self.function_scopes@.len();
        proof {
            lemma_decls_index(ds@, ds@.len());
        }
        let mut i: usize = 0;
        while i < ds.len()
            invariant
                self.inv(),
                self.function_scopes@.len() == n0,
                i <= ds@.len(),
                decls_view(ds@, ds@.len()).len() == ds@.len(),
                forall|k: int| 0 <= k < ds@.len() ==> #[trigger] decls_view(ds@, ds@.len())[k] == decl_view(ds@[k]),
                self.state() == c_decls(s0, decls_view(ds@, ds@.len()), i as nat),
            decreases ds@.len() - i,
        {
            proof {
                assert(decreases_to!(*ds => ds@));
                assert(decreases_to!(ds@ => ds@[i as int]));
            }
            self.visit_decl(&ds[i]);
            i = i + 1;
        }
    }

    fn visit_function(&mut self, f: &Function)
        requires
            old(self).inv(),
        ensures
            final(self).inv(),
            final(self).state() == c_function(old(self).state(), fun_view(*f)),
            final(self).function_scopes@.len() == old(self).function_scopes@.len(),
        decreases f, 1nat,
    {
        let ghost st = self.state();
        let ghost n0 = self.function_scopes@.len();
        self.function_scopes.push((owned(f.name.as_str()), Vec::new()));
        let ghost s1 = self.state();
        proof {
            assert(names_view(Seq::<String>::empty()) =~= Seq::<Seq<char>>::empty());
            assert(s1.scopes =~= st.scopes.push((f.name@, Seq::empty())));
        }
        let ps = &f.params;
        let mut i: usize = 0;
        while i < ps.len()
            invariant
                self.inv(),
                self.function_scopes@.len() == n0 + 1,
                i <= ps@.len(),
                self.state() == c_params(s1, names_view(ps@), i as nat),
            decreases ps@.len() - i,
        {
            self.declare_var(ps[i].as_str());
            i = i + 1;
        }
        assert(names_view(ps@).len() == ps@.len());
        proof {
            lemma_decls_index(f.body@, f.body@.len());
        }
        self.visit_decls(&f.body);
        let ghost s3 = self.state();
        self.function_scopes.pop();
        assert(self.state().scopes =~= s3.scopes.drop_last());
    }

    fn visit_decl(&mut self, decl: &Decl)
        requires
            old(self).inv(),
        ensures
            final(self).inv(),
            final(self).state() == c_decl(old(self).state(), decl_view(*decl)),
            final(self).function_scopes@.len() == old(self).function_scopes@.len(),
        decreases decl, 1nat,
    {
        match decl {
            Decl::Var(v) => {
                match &v.initializer {
                    Some(init) => self.visit_expr(init),
                    None => {},
                }
                self.declare_var(v.name.as_str());
            },
            Decl::Fun(f) => {
                self.declare_var(f.function.name.as_str());
                self.visit_function(&f.function);
            },
            Decl::Statement(s) => self.visit_stmt(s),
            Decl::Class(_) => {},
        }
    }
}

/// Finds which variables closures capture in `program`: those declared in
/// one function and used in another nested inside it (top-level variables
/// are globals and never captured).
pub fn analyze_captures(program: &Program) -> (info: CaptureInfo)
    ensures
        info_view(info) == ({
            let st = capture_analysis(program_view(*program));
            (st.captured, st.captures)
        }),
{
    let mut a = CaptureAnalyzer::new();
    proof {
        lemma_decls_index(program.declarations@, program.declarations@.len());
    }
    a.visit_decls(&program.declarations);
    CaptureInfo { captured_vars: a.captured_vars, function_captures: a.function_captures }
}

// ----- top-level variables are globals -----

/// Every captured variable is declared in a function, not at the top level.
pub open spec fn only_function_vars(st: CState) -> bool {
    forall|i: int| 0 <= i < st.captured.len() ==> (#[trigger] st.captured[i]).1.len() > 0
}

/// Every scope but the top level belongs to a named function.
pub open spec fn named_scopes(st: CState) -> bool {
    forall|i: int| 1 <= i < st.scopes.len() ==> (#[trigger] st.scopes[i]).0.len() > 0
}

pub open spec fn globals_kept(st: CState) -> bool {
    only_function_vars(st) && named_scopes(st)
}

/// Every function declared in the statement has a name.
pub open spec fn stmt_funs_named(s: SStmt) -> bool
    decreases s, 0nat,
{
    match s {
        SStmt::Block(ds, _) => decls_funs_named(ds, ds.len()),
        SStmt::If(_, th, el, _) => stmt_funs_named(*th) && match el {
            Some(e) => stmt_funs_named(*e),
            None => true,
        },
        SStmt::While(_, b, _) => stmt_funs_named(*b),
        _ => true,
    }
}

/// Every function declared in the first `n` declarations has a name.
pub open spec fn decls_funs_named(ds: Seq<SDecl>, n: nat) -> bool
    decreases ds, n,
{
    if n == 0 || n > ds.len() {
        true
    } else {
        decls_funs_named(ds, (n - 1) as nat) && decl_funs_named(ds[n - 1])
    }
}

/// The function and every function declared in its body have names.
pub open spec fn fun_named(f: SFun) -> bool
    decreases f, 0nat,
{
    f.name.len() > 0 && decls_funs_named(f.body, f.body.len())
}

pub open spec fn decl_funs_named(d: SDecl) -> bool
    decreases d, 0nat,
{
    match d {
        SDecl::Fun(f, _) => fun_named(f),
        SDecl::Statement(s) => stmt_funs_named(s),
        _ => true,
    }
}

proof fn lemma_reference_keeps(st: CState, name: Seq<char>)
    requires
        globals_kept(st),
    ensures
        globals_kept(reference_var(st, name)),
        reference_var(st, name).scopes.len() == st.scopes.len(),
{
    lemma_holder_range(st.scopes, name, st.scopes.len() as int);
}

/// The scope `holder` finds is one of the first `i`.
proof fn lemma_holder_range(scopes: Seq<(Seq<char>, Seq<Seq<char>>)>, name: Seq<char>, i: int)
    ensures
        holder(scopes, name, i) matches Some(j) ==> 0 <= j < i && j < scopes.len(),
    decreases i,
{
    if 0 < i <= scopes.len() && !scopes[i - 1].1.contains(name) {
        lemma_holder_range(scopes, name, i - 1);
    }
}

proof fn lemma_expr_keeps(st: CState, e: SExpr)
    requires
        globals_kept(st),
    ensures
        globals_kept(c_expr(st, e)),
        c_expr(st, e).scopes.len() == st.scopes.len(),
    decreases e, 0nat,
{
    match e {
        SExpr::Variable(_, name, _) => lemma_reference_keeps(st, name),
        SExpr::Assign(_, name, value, _) => {
            lemma_expr_keeps(st, *value);
            lemma_reference_keeps(c_expr(st, *value), name);
        },
        SExpr::Binary(_, l, _, r, _) => {
            lemma_expr_keeps(st, *l);
            lemma_expr_keeps(c_expr(st, *l), *r);
        },
        SExpr::Unary(_, _, x, _) => lemma_expr_keeps(st, *x),
        SExpr::Logical(_, l, _, r, _) => {
            lemma_expr_keeps(st, *l);
            lemma_expr_keeps(c_expr(st, *l), *r);
        },
        SExpr::Call(_, callee, args, _) => {
            lemma_expr_keeps(st, *callee);
            lemma_args_keep(c_expr(st, *callee), args, args.len());
        },
        SExpr::Grouping(_, x, _) => lemma_expr_keeps(st, *x),
        SExpr::Get(_, o, _, _) => lemma_expr_keeps(st, *o),
        SExpr::SetProperty(_, o, _, v, _) => {
            lemma_expr_keeps(st, *v);
            lemma_expr_keeps(c_expr(st, *v), *o);
        },
        _ => {},
    }
}

proof fn lemma_args_keep(st: CState, es: Seq<SExpr>, n: nat)
    requires
        globals_kept(st),
    ensures
        globals_kept(c_args(st, es, n)),
        c_args(st, es, n).scopes.len() == st.scopes.len(),
    decreases es, n,
{
    if n > 0 && n <= es.len() {
        lemma_args_keep(st, es, (n - 1) as nat);
        lemma_expr_keeps(c_args(st, es, (n - 1) as nat), es[n - 1]);
    }
}

proof fn lemma_stmt_keeps(st: CState, s: SStmt)
    requires
        globals_kept(st),
        stmt_funs_named(s),
    ensures
        globals_kept(c_stmt(st, s)),
        c_stmt(st, s).scopes.len() == st.scopes.len(),
    decreases s, 0nat,
{
    match s {
        SStmt::Expression(e, _) => lemma_expr_keeps(st, e),
        SStmt::Print(e, _) => lemma_expr_keeps(st, e),
        SStmt::Return(v, _) => match v {
            Some(e) => lemma_expr_keeps(st, e),
            None => {},
        },
        SStmt::Block(ds, _) => lemma_decls_keep(st, ds, ds.len()),
        SStmt::If(c, th, el, _) => {
            lemma_expr_keeps(st, c);
            lemma_stmt_keeps(c_expr(st, c), *th);
            match el {
                Some(e) => lemma_stmt_keeps(c_stmt(c_expr(st, c), *th), *e),
                None => {},
            }
        },
        SStmt::While(c, b, _) => {
            lemma_expr_keeps(st, c);
            lemma_stmt_keeps(c_expr(st, c), *b);
        },
    }
}

proof fn lemma_decls_keep(st: CState, ds: Seq<SDecl>, n: nat)
    requires
        globals_kept(st),
        decls_funs_named(ds, n),
    ensures
        globals_kept(c_decls(st, ds, n)),
        c_decls(st, ds, n).scopes.len() == st.scopes.len(),
    decreases ds, n,
{
    if n > 0 && n <= ds.len() {
        lemma_decls_keep(st, ds, (n - 1) as nat);
        lemma_decl_keeps(c_decls(st, ds, (n - 1) as nat), ds[n - 1]);
    }
}

proof fn lemma_params_keep(st: CState, ps: Seq<Seq<char>>, n: nat)
    requires
        globals_kept(st),
    ensures
        globals_kept(c_params(st, ps, n)),
        c_params(st, ps, n).scopes.len() == st.scopes.len(),
    decreases n,
{
    if n > 0 && n <= ps.len() {
        lemma_params_keep(st, ps, (n - 1) as nat);
        let s1 = c_params(st, ps, (n - 1) as nat);
        assert forall|i: int| 1 <= i < declare_var(s1, ps[n - 1]).scopes.len() implies (#[trigger] declare_var(
            s1,
            ps[n - 1],
        ).scopes[i]).0.len() > 0 by {
            assert(s1.scopes[i].0.len() > 0);
        }
    }
}

proof fn lemma_function_keeps(st: CState, f: SFun)
    requires
        globals_kept(st),
        fun_named(f),
    ensures
        globals_kept(c_function(st, f)),
        c_function(st, f).scopes.len() == st.scopes.len(),
    decreases f, 0nat,
{
    let s1 = CState { scopes: st.scopes.push((f.name, Seq::empty())), ..st };
    assert(named_scopes(s1)) by {
        assert forall|i: int| 1 <= i < s1.scopes.len() implies (#[trigger] s1.scopes[i]).0.len() > 0 by {
            if i < st.scopes.len() {
                assert(s1.scopes[i] == st.scopes[i]);
            }
        }
    }
    lemma_params_keep(s1, f.params, f.params.len());
    lemma_decls_keep(c_params(s1, f.params, f.params.len()), f.body, f.body.len());
    let s3 = c_decls(c_params(s1, f.params, f.params.len()), f.body, f.body.len());
    assert forall|i: int| 1 <= i < s3.scopes.drop_last().len() implies (#[trigger] s3.scopes.drop_last()[i]).0.len()
        > 0 by {
        assert(s3.scopes.drop_last()[i] == s3.scopes[i]);
    }
}

proof fn lemma_decl_keeps(st: CState, d: SDecl)
    requires
        globals_kept(st),
        decl_funs_named(d),
    ensures
        globals_kept(c_decl(st, d)),
        c_decl(st, d).scopes.len() == st.scopes.len(),
    decreases d, 0nat,
{
    match d {
        SDecl::Var(name, init, _) => {
            let s1 = match init {
                Some(e) => {
                    lemma_expr_keeps(st, e);
                    c_expr(st, e)
                },
                None => st,
            };
            assert forall|i: int| 1 <= i < declare_var(s1, name).scopes.len() implies (#[trigger] declare_var(
                s1,
                name,
            ).scopes[i]).0.len() > 0 by {
                assert(s1.scopes[i].0.len() > 0);
            }
        },
        SDecl::Fun(f, _) => {
            let s1 = declare_var(st, f.name);
            assert forall|i: int| 1 <= i < s1.scopes.len() implies (#[trigger] s1.scopes[i]).0.len() > 0 by {
                assert(st.scopes[i].0.len() > 0);
            }
            lemma_function_keeps(s1, f);
        },
        SDecl::Statement(s) => lemma_stmt_keeps(st, s),
        SDecl::Class(_, _, _, _) => {},
    }
}

/// Law: top-level variables are globals and are never captured: in a
/// program whose functions all have names (as every parsed program's do),
/// every captured variable is declared in some function.
pub proof fn globals_never_captured(ds: Seq<SDecl>)
    requires
        decls_funs_named(ds, ds.len()),
    ensures
        only_function_vars(capture_analysis(ds)),
{
    lemma_decls_keep(initial_cstate(), ds, ds.len());
}

} // verus!
