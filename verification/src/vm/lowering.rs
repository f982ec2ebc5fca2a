//! The bytecode each construct of a syntax tree lowers to, stated as spec
//! functions over the compiler's state.
//!
//! The state is a stack of frames, one per function being compiled, the
//! script at the bottom. The first error stops all further emission: every
//! step after it leaves the state as it is.
use vstd::prelude::*;

use crate::ast::{BinaryOp, LogicalOp, SDecl, SExpr, SFun, SLit, SStmt, UnaryOp};
use crate::scanner::token::Span;
use crate::vm::chunk::{op_byte, OpCode};

verus! {

/// The kind of function a frame compiles.
#[derive(Debug, Clone, Copy, PartialEq, Eq, Structural)]
pub enum FunctionType {
    Script,
    Function,
    Method,
    Initializer,
}

/// A constant as a value.
pub enum CConst {
    Number(Seq<char>),
    Str(Seq<char>),
    Function(Seq<char>, nat, nat, CChunk),
}

/// A chunk as a value.
pub struct CChunk {
    pub code: Seq<u8>,
    pub consts: Seq<CConst>,
    pub lines: Seq<usize>,
}

/// A local variable slot: its name, scope depth and whether a closure captures it.
pub struct CLocal {
    pub name: Seq<char>,
    pub depth: int,
    pub captured: bool,
}

/// The frame of one function being compiled.
pub struct CFrame {
    pub ftype: FunctionType,
    pub chunk: CChunk,
    pub locals: Seq<CLocal>,
    pub upvalues: Seq<(u8, bool)>,
    pub depth: int,
    pub line: usize,
    pub pos: usize,
}

/// An error that stops compilation: message and span.
pub struct CErr {
    pub msg: Seq<char>,
    pub span: Span,
}

/// The compiler's state: the frames, the first error, and the source text's
/// bytes, by which byte offsets are numbered with lines.
pub struct CState {
    pub frames: Seq<CFrame>,
    pub err: Option<CErr>,
    pub src: Seq<u8>,
}

pub open spec fn new_frame(ftype: FunctionType) -> CFrame {
    CFrame {
        ftype,
        chunk: CChunk { code: Seq::empty(), consts: Seq::empty(), lines: Seq::empty() },
        locals: seq![
            CLocal {
                name: if ftype == FunctionType::Method || ftype == FunctionType::Initializer {
                    "this"@
                } else {
                    Seq::empty()
                },
                depth: 0,
                captured: false,
            },
        ],
        upvalues: Seq::empty(),
        depth: 0,
        line: 1,
        pos: 0,
    }
}

pub open spec fn initial_cstate(src: Seq<u8>) -> CState {
    CState { frames: seq![new_frame(FunctionType::Script)], err: None, src }
}

pub open spec fn top(st: CState) -> CFrame {
    st.frames.last()
}

pub open spec fn set_top(st: CState, f: CFrame) -> CState {
    CState { frames: st.frames.update(st.frames.len() - 1, f), ..st }
}

pub open spec fn failed(st: CState) -> bool {
    st.err is Some
}

/// The span an overflow is reported at: the start of the current construct.
pub open spec fn line_span(pos: usize) -> Span {
    Span { offset: pos, len: 0 }
}

#[verifier::opaque]
pub open spec fn fail_with(st: CState, msg: Seq<char>, span: Span) -> CState {
    if failed(st) {
        st
    } else {
        CState { err: Some(CErr { msg, span }), ..st }
    }
}

/// The number of newline bytes among the first `n` bytes of `src`.
pub open spec fn newline_bytes(src: Seq<u8>, n: int) -> nat
    decreases n,
{
    if n <= 0 {
        0
    } else {
        newline_bytes(src, n - 1) + if src[n - 1] == 10u8 { 1nat } else { 0nat }
    }
}

/// The 1-based source line of the byte offset `offset`: one more than the
/// number of newlines before it (offsets past the end count as the end).
pub open spec fn line_of(src: Seq<u8>, offset: usize) -> usize {
    let k = if offset < src.len() { offset as int } else { src.len() as int };
    if newline_bytes(src, k) < usize::MAX {
        (newline_bytes(src, k) + 1) as usize
    } else {
        usize::MAX
    }
}

#[verifier::opaque]
pub open spec fn set_line(st: CState, span: Span) -> CState {
    if failed(st) {
        st
    } else {
        set_top(st, CFrame { line: line_of(st.src, span.offset), pos: span.offset, ..top(st) })
    }
}

/// Append a byte to the current chunk, at the current line.
#[verifier::opaque]
pub open spec fn emit(st: CState, b: u8) -> CState {
    if failed(st) {
        st
    } else {
        let f = top(st);
        set_top(
            st,
            CFrame { chunk: CChunk { code: f.chunk.code.push(b), lines: f.chunk.lines.push(f.line), ..f.chunk }, ..f },
        )
    }
}

#[verifier::opaque]
pub open spec fn emit_op(st: CState, op: OpCode) -> CState {
    emit(st, op_byte(op))
}

/// Add a constant to the current pool; its index. A pool holds at most 256.
#[verifier::opaque]
pub open spec fn add_const(st: CState, c: CConst) -> (CState, u8) {
    if failed(st) {
        (st, 0)
    } else if top(st).chunk.consts.len() >= 256 {
        (fail_with(st, "constant pool overflow (max 256)"@, line_span(top(st).pos)), 0)
    } else {
        let f = top(st);
        (
            set_top(st, CFrame { chunk: CChunk { consts: f.chunk.consts.push(c), ..f.chunk }, ..f }),
            f.chunk.consts.len() as u8,
        )
    }
}

#[verifier::opaque]
pub open spec fn emit_constant(st: CState, c: CConst) -> CState {
    let (s1, idx) = add_const(st, c);
    emit(emit_op(s1, OpCode::Constant), idx)
}

/// Emit a jump with a placeholder distance; the offset of the distance.
#[verifier::opaque]
pub open spec fn emit_jump(st: CState, op: OpCode) -> (CState, int) {
    let s1 = emit(emit(emit_op(st, op), 0xff), 0xff);
    (s1, if failed(s1) { 0 } else { top(s1).chunk.code.len() - 2 })
}

/// Set the distance of the jump at `offset` to reach the end of the code.
#[verifier::opaque]
pub open spec fn patch_jump(st: CState, offset: int) -> CState {
    if failed(st) {
        st
    } else {
        let f = top(st);
        let jump = f.chunk.code.len() - offset - 2;
        if jump > 0xffff || jump < 0 {
            fail_with(st, "jump too large"@, line_span(f.pos))
        } else {
            set_top(
                st,
                CFrame {
                    chunk: CChunk {
                        code: f.chunk.code.update(offset, (jump / 256) as u8).update(offset + 1, (jump % 256) as u8),
                        ..f.chunk
                    },
                    ..f
                },
            )
        }
    }
}

/// Emit a jump back to `loop_start`.
#[verifier::opaque]
pub open spec fn emit_loop(st: CState, loop_start: int) -> CState {
    let s1 = emit_op(st, OpCode::Loop);
    if failed(s1) {
        s1
    } else {
        let off = top(s1).chunk.code.len() - loop_start + 2;
        if off > 0xffff || off < 2 {
            fail_with(s1, "loop body too large"@, line_span(top(s1).pos))
        } else {
            emit(emit(s1, (off / 256) as u8), (off % 256) as u8)
        }
    }
}

#[verifier::opaque]
pub open spec fn begin_scope(st: CState) -> CState {
    if failed(st) {
        st
    } else if top(st).depth >= usize::MAX {
        fail_with(st, "too many nested scopes"@, line_span(top(st).pos))
    } else {
        set_top(st, CFrame { depth: top(st).depth + 1, ..top(st) })
    }
}

/// Drop the locals deeper than the current depth, closing captured ones
/// (at most `fuel` of them).
pub open spec fn pop_locals(st: CState, fuel: nat) -> CState
    decreases fuel,
{
    if fuel == 0 || failed(st) || st.frames.len() == 0 {
        st
    } else {
        let f = top(st);
        if f.locals.len() > 0 && f.locals.last().depth > f.depth {
            let s1 = emit_op(st, if f.locals.last().captured { OpCode::CloseUpvalue } else { OpCode::Pop });
            if failed(s1) {
                s1
            } else {
                pop_locals(set_top(s1, CFrame { locals: top(s1).locals.drop_last(), ..top(s1) }), (fuel - 1) as nat)
            }
        } else {
            st
        }
    }
}

#[verifier::opaque]
pub open spec fn end_scope(st: CState) -> CState {
    if failed(st) {
        st
    } else {
        let d = if top(st).depth > 0 { top(st).depth - 1 } else { 0 };
        pop_locals(set_top(st, CFrame { depth: d, ..top(st) }), top(st).locals.len())
    }
}

#[verifier::opaque]
pub open spec fn add_local(st: CState, name: Seq<char>) -> CState {
    if failed(st) {
        st
    } else {
        set_top(
            st,
            CFrame { locals: top(st).locals.push(CLocal { name, depth: top(st).depth, captured: false }), ..top(st) },
        )
    }
}

/// The last local slot named `name`, if any.
pub open spec fn last_local(locals: Seq<CLocal>, name: Seq<char>) -> Option<int>
    decreases locals.len(),
{
    if locals.len() == 0 {
        None
    } else if locals.last().name == name {
        Some(locals.len() - 1)
    } else {
        last_local(locals.drop_last(), name)
    }
}

/// The first upvalue equal to `(index, is_local)`, if any.
pub open spec fn find_upvalue(ups: Seq<(u8, bool)>, index: u8, is_local: bool, i: int) -> Option<int>
    decreases ups.len() - i,
{
    if i < 0 || i >= ups.len() {
        None
    } else if ups[i] == (index, is_local) {
        Some(i)
    } else {
        find_upvalue(ups, index, is_local, i + 1)
    }
}

/// Record an upvalue of the current function, reusing an equal one.
#[verifier::opaque]
pub open spec fn add_upvalue(st: CState, index: u8, is_local: bool) -> (CState, u8) {
    let f = top(st);
    match find_upvalue(f.upvalues, index, is_local, 0) {
        Some(i) => (st, i as u8),
        None => (set_top(st, CFrame { upvalues: f.upvalues.push((index, is_local)), ..f }), f.upvalues.len() as u8),
    }
}

/// A variable of the directly enclosing function, captured as an upvalue.
#[verifier::opaque]
pub open spec fn resolve_upvalue(st: CState, name: Seq<char>) -> (CState, Option<u8>) {
    if st.frames.len() < 2 {
        (st, None)
    } else {
        let e = st.frames.len() - 2;
        let enc = st.frames[e];
        match last_local(enc.locals, name) {
            Some(i) => {
                let enc2 = CFrame { locals: enc.locals.update(i, CLocal { captured: true, ..enc.locals[i] }), ..enc };
                let s1 = CState { frames: st.frames.update(e, enc2), ..st };
                let (s2, idx) = add_upvalue(s1, i as u8, true);
                (s2, Some(idx))
            },
            None => (st, None),
        }
    }
}

/// Load a variable: a local slot, an upvalue, or a global by name.
#[verifier::opaque]
pub open spec fn named_variable(st: CState, name: Seq<char>) -> CState {
    match last_local(top(st).locals, name) {
        Some(slot) => emit(emit_op(st, OpCode::GetLocal), slot as u8),
        None => {
            let (s1, up) = resolve_upvalue(st, name);
            match up {
                Some(idx) => emit(emit_op(s1, OpCode::GetUpvalue), idx),
                None => {
                    let (s2, idx) = add_const(s1, CConst::Str(name));
                    emit(emit_op(s2, OpCode::GetGlobal), idx)
                },
            }
        },
    }
}

/// The instructions of a binary operator.
#[verifier::opaque]
pub open spec fn binary_ops(st: CState, op: BinaryOp) -> CState {
    match op {
        BinaryOp::Add => emit_op(st, OpCode::Add),
        BinaryOp::Subtract => emit_op(st, OpCode::Subtract),
        BinaryOp::Multiply => emit_op(st, OpCode::Multiply),
        BinaryOp::Divide => emit_op(st, OpCode::Divide),
        BinaryOp::Equal => emit_op(st, OpCode::Equal),
        BinaryOp::NotEqual => emit_op(emit_op(st, OpCode::Equal), OpCode::Not),
        BinaryOp::Less => emit_op(st, OpCode::Less),
        BinaryOp::LessEqual => emit_op(emit_op(st, OpCode::Greater), OpCode::Not),
        BinaryOp::Greater => emit_op(st, OpCode::Greater),
        BinaryOp::GreaterEqual => emit_op(emit_op(st, OpCode::Less), OpCode::Not),
    }
}

/// Store to a variable: a local slot, an upvalue, or a global by name.
#[verifier::opaque]
pub open spec fn store_variable(st: CState, name: Seq<char>) -> CState {
    match last_local(top(st).locals, name) {
        Some(slot) => emit(emit_op(st, OpCode::SetLocal), slot as u8),
        None => {
            let (s1, up) = resolve_upvalue(st, name);
            match up {
                Some(idx) => emit(emit_op(s1, OpCode::SetUpvalue), idx),
                None => {
                    let (s2, idx) = add_const(s1, CConst::Str(name));
                    emit(emit_op(s2, OpCode::SetGlobal), idx)
                },
            }
        },
    }
}

pub open spec fn c_expr(st: CState, e: SExpr) -> CState
    decreases e, 0nat,
{
    match e {
        SExpr::Literal(_, l, span) => {
            let s1 = set_line(st, span);
            match l {
                SLit::Number(n) => emit_constant(s1, CConst::Number(n)),
                SLit::Str(s) => emit_constant(s1, CConst::Str(s)),
                SLit::Bool(b) => emit_op(s1, if b { OpCode::True } else { OpCode::False }),
                SLit::Nil => emit_op(s1, OpCode::Nil),
            }
        },
        SExpr::Grouping(_, x, _) => c_expr(st, *x),
        SExpr::Unary(_, op, x, _) => emit_op(
            c_expr(st, *x),
            match op {
                UnaryOp::Negate => OpCode::Negate,
                UnaryOp::Not => OpCode::Not,
            },
        ),
        SExpr::Binary(_, l, op, r, _) => binary_ops(c_expr(c_expr(st, *l), *r), op),
        SExpr::Variable(_, name, span) => named_variable(set_line(st, span), name),
        SExpr::Assign(_, name, value, span) => store_variable(c_expr(set_line(st, span), *value), name),
        SExpr::Logical(_, l, op, r, _) => {
            let s1 = c_expr(st, *l);
            match op {
                LogicalOp::And => {
                    let (s2, end_jump) = emit_jump(s1, OpCode::JumpIfFalse);
                    patch_jump(c_expr(emit_op(s2, OpCode::Pop), *r), end_jump)
                },
                LogicalOp::Or => {
                    let (s2, else_jump) = emit_jump(s1, OpCode::JumpIfFalse);
                    let (s3, end_jump) = emit_jump(s2, OpCode::Jump);
                    patch_jump(c_expr(emit_op(patch_jump(s3, else_jump), OpCode::Pop), *r), end_jump)
                },
            }
        },
        SExpr::Call(_, callee, args, _) => emit(
            emit_op(c_args(c_expr(st, *callee), args, args.len()), OpCode::Call),
            args.len() as u8,
        ),
        SExpr::Get(_, o, name, _) => {
            let (s1, idx) = add_const(c_expr(st, *o), CConst::Str(name));
            emit(emit_op(s1, OpCode::GetProperty), idx)
        },
        SExpr::SetProperty(_, o, name, v, _) => {
            let (s1, idx) = add_const(c_expr(c_expr(st, *o), *v), CConst::Str(name));
            emit(emit_op(s1, OpCode::SetProperty), idx)
        },
        SExpr::This(_, span) => {
            let s1 = set_line(st, span);
            match last_local(top(s1).locals, "this"@) {
                Some(slot) => emit(emit_op(s1, OpCode::GetLocal), slot as u8),
                None => {
                    let (s2, up) = resolve_upvalue(s1, "this"@);
                    match up {
                        Some(idx) => emit(emit_op(s2, OpCode::GetUpvalue), idx),
                        None => s2,
                    }
                },
            }
        },
        SExpr::Super(_, method, span) => {
            let (s1, idx) = add_const(set_line(st, span), CConst::Str(method));
            emit(emit_op(named_variable(named_variable(s1, "this"@), "super"@), OpCode::GetSuper), idx)
        },
    }
}

/// The first `n` arguments, in order.
pub open spec fn c_args(st: CState, es: Seq<SExpr>, n: nat) -> CState
    decreases es, n,
{
    if n == 0 || n > es.len() {
        st
    } else {
        c_expr(c_args(st, es, (n - 1) as nat), es[n - 1])
    }
}

/// Define a just-compiled value as `name`: a local slot inside a scope, a
/// global at the top level.
#[verifier::opaque]
pub open spec fn define_variable(st: CState, name: Seq<char>) -> CState {
    if top(st).depth > 0 {
        add_local(st, name)
    } else {
        let (s1, idx) = add_const(st, CConst::Str(name));
        emit(emit_op(s1, OpCode::DefineGlobal), idx)
    }
}

pub open spec fn c_stmt(st: CState, s: SStmt) -> CState
    decreases s, 0nat,
{
    match s {
        SStmt::Expression(e, span) => emit_op(c_expr(set_line(st, span), e), OpCode::Pop),
        SStmt::Print(e, span) => emit_op(c_expr(set_line(st, span), e), OpCode::Print),
        SStmt::Return(v, span) => {
            let s1 = set_line(st, span);
            match v {
                Some(e) => if top(s1).ftype == FunctionType::Initializer {
                    fail_with(s1, "can't return a value from an initializer"@, span)
                } else {
                    emit_op(c_expr(s1, e), OpCode::Return)
                },
                None => {
                    let s2 = if top(s1).ftype == FunctionType::Initializer {
                        emit(emit_op(s1, OpCode::GetLocal), 0)
                    } else {
                        emit_op(s1, OpCode::Nil)
                    };
                    emit_op(s2, OpCode::Return)
                },
            }
        },
        SStmt::Block(ds, span) => end_scope(c_decls(begin_scope(set_line(st, span)), ds, ds.len())),
        SStmt::If(c, th, el, span) => {
            let s1 = c_expr(set_line(st, span), c);
            let (s2, then_jump) = emit_jump(s1, OpCode::JumpIfFalse);
            let s3 = c_stmt(emit_op(s2, OpCode::Pop), *th);
            let (s4, else_jump) = emit_jump(s3, OpCode::Jump);
            let s5 = emit_op(patch_jump(s4, then_jump), OpCode::Pop);
            let s6 = match el {
                Some(e) => c_stmt(s5, *e),
                None => s5,
            };
            patch_jump(s6, else_jump)
        },
        SStmt::While(c, b, span) => {
            let s0 = set_line(st, span);
            let loop_start = top(s0).chunk.code.len() as int;
            let (s1, exit_jump) = emit_jump(c_expr(s0, c), OpCode::JumpIfFalse);
            let s2 = c_stmt(emit_op(s1, OpCode::Pop), *b);
            emit_op(patch_jump(emit_loop(s2, loop_start), exit_jump), OpCode::Pop)
        },
    }
}

/// The first `n` declarations, in order.
pub open spec fn c_decls(st: CState, ds: Seq<SDecl>, n: nat) -> CState
    decreases ds, n,
{
    if n == 0 || n > ds.len() {
        st
    } else {
        c_decl(c_decls(st, ds, (n - 1) as nat), ds[n - 1])
    }
}

/// The first `n` parameters, each a local of the function.
pub open spec fn c_params(st: CState, ps: Seq<Seq<char>>, n: nat) -> CState
    decreases n,
{
    if n == 0 || n > ps.len() {
        st
    } else {
        add_local(c_params(st, ps, (n - 1) as nat), ps[n - 1])
    }
}

/// The bytes that tell a closure where each of its `n` first upvalues lives.
pub open spec fn emit_upvalues(st: CState, ups: Seq<(u8, bool)>, n: nat) -> CState
    decreases n,
{
    if n == 0 || n > ups.len() {
        st
    } else {
        let u = ups[n - 1];
        emit(emit(emit_upvalues(st, ups, (n - 1) as nat), if u.1 { 1 } else { 0 }), u.0)
    }
}

/// A function: its body compiled in a frame of its own, then a closure of it
/// in the enclosing chunk.
pub open spec fn c_function(st: CState, f: SFun, ft: FunctionType) -> CState
    decreases f, 0nat,
{
    let s1 = CState { frames: st.frames.push(new_frame(ft)), ..st };
    let s2 = c_params(begin_scope(s1), f.params, f.params.len());
    let s3 = c_decls(s2, f.body, f.body.len());
    let s4 = if ft == FunctionType::Initializer {
        emit(emit_op(s3, OpCode::GetLocal), 0)
    } else {
        emit_op(s3, OpCode::Nil)
    };
    let s5 = emit_op(s4, OpCode::Return);
    let fr = top(s5);
    let s6 = CState { frames: s5.frames.drop_last(), ..s5 };
    let (s7, idx) = add_const(s6, CConst::Function(f.name, f.params.len(), fr.upvalues.len(), fr.chunk));
    emit_upvalues(emit(emit_op(s7, OpCode::Closure), idx), fr.upvalues, fr.upvalues.len())
}

/// The kind of a method: `init` is the initializer.
pub open spec fn method_kind(name: Seq<char>) -> FunctionType {
    if name == "init"@ {
        FunctionType::Initializer
    } else {
        FunctionType::Method
    }
}

/// The first `n` methods of a class, each bound by name.
pub open spec fn c_methods(st: CState, ms: Seq<SFun>, n: nat) -> CState
    decreases ms, n,
{
    if n == 0 || n > ms.len() {
        st
    } else {
        let m = ms[n - 1];
        let (s1, idx) = add_const(c_methods(st, ms, (n - 1) as nat), CConst::Str(m.name));
        emit(emit_op(c_function(s1, m, method_kind(m.name)), OpCode::Method), idx)
    }
}

pub open spec fn c_class(st: CState, name: Seq<char>, sup: Option<Seq<char>>, methods: Seq<SFun>, span: Span) -> CState
    decreases methods, methods.len() + 1,
{
    let (s1, name_idx) = add_const(set_line(st, span), CConst::Str(name));
    let s2 = emit(emit_op(s1, OpCode::Class), name_idx);
    let s3 = if top(s2).depth > 0 {
        add_local(s2, name)
    } else {
        emit(emit_op(s2, OpCode::DefineGlobal), name_idx)
    };
    let s4 = match sup {
        Some(su) => add_local(
            begin_scope(emit_op(named_variable(named_variable(s3, su), name), OpCode::Inherit)),
            "super"@,
        ),
        None => s3,
    };
    let s5 = c_methods(named_variable(s4, name), methods, methods.len());
    let s6 = emit_op(s5, OpCode::Pop);
    if sup is Some {
        end_scope(s6)
    } else {
        s6
    }
}

pub open spec fn c_decl(st: CState, d: SDecl) -> CState
    decreases d, 0nat,
{
    match d {
        SDecl::Var(name, init, span) => {
            let s1 = set_line(st, span);
            let s2 = match init {
                Some(e) => c_expr(s1, e),
                None => emit_op(s1, OpCode::Nil),
            };
            define_variable(s2, name)
        },
        SDecl::Fun(f, span) => define_variable(c_function(set_line(st, span), f, FunctionType::Function), f.name),
        SDecl::Class(name, sup, methods, span) => c_class(st, name, sup, methods, span),
        SDecl::Statement(s) => c_stmt(st, s),
    }
}

/// The compilation of a program written in the source text `src`: the
/// script's chunk, ending with an implicit `nil` return, or the first error.
pub open spec fn compilation(src: Seq<u8>, ds: Seq<SDecl>) -> Result<CChunk, CErr> {
    let st = emit_op(emit_op(c_decls(initial_cstate(src), ds, ds.len()), OpCode::Nil), OpCode::Return);
    match st.err {
        Some(e) => Err(e),
        None => Ok(top(st).chunk),
    }
}

proof fn lemma_args_prefix(st: CState, es: Seq<SExpr>, e: SExpr, k: nat)
    requires
        k <= es.len(),
    ensures
        c_args(st, es.push(e), k) == c_args(st, es, k),
    decreases k,
{
    if k > 0 {
        lemma_args_prefix(st, es, e, (k - 1) as nat);
        assert(es.push(e)[k - 1] == es[k - 1]);
    }
}

/// Law: arguments are compiled in source order. Adding one more argument at
/// the end of a call leaves the code of the others as it was and compiles the
/// new one after them.
pub proof fn call_arguments_in_source_order(st: CState, es: Seq<SExpr>, e: SExpr)
    ensures
        c_args(st, es.push(e), es.len() + 1) == c_expr(c_args(st, es, es.len()), e),
{
    lemma_args_prefix(st, es, e, es.len());
    assert(es.push(e)[es.len() as int] == e);
}

} // verus!
