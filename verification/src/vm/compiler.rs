//! The single-pass bytecode compiler: a syntax tree to a chunk.
//!
//! Each step is proved to change the compiler's state exactly as its
//! counterpart in `lowering` says, so a compiled program is
//! `lowering::compilation` of it.
use vstd::prelude::*;
use vstd::string::StringSliceAdditionalSpecFns;

use crate::ast::{
    decl_view, decls_view, expr_view, exprs_view, fun_view, funs_view, lemma_decls_index, lemma_exprs_index,
    lemma_funs_index, names_view, program_view, stmt_view, BinaryOp, ClassDecl, Decl, Expr, Function, LiteralExpr, LiteralValue,
    LogicalOp, Program, SDecl, SExpr, SFun, SStmt, Stmt, UnaryOp,
};
use crate::error::{CompileError, ErrorPhase};
use crate::scanner::token::Span;
use crate::text::{owned, str_eq};
use crate::vm::chunk::{op_byte, Chunk, Constant, OpCode};
use crate::vm::lowering::{
    add_const, add_local, add_upvalue, begin_scope, binary_ops, c_args, c_class, c_decl, c_decls, c_expr, c_function,
    c_methods, c_params, c_stmt, compilation, define_variable, emit, emit_constant, emit_jump, emit_loop, emit_op,
    emit_upvalues, end_scope, fail_with, failed, find_upvalue, initial_cstate, last_local, line_of, line_span, newline_bytes,
    method_kind, named_variable, new_frame, patch_jump, pop_locals, resolve_upvalue, set_line, set_top, store_variable,
    top, CChunk, CConst, CErr, CFrame, CLocal, CState, FunctionType,
};

verus! {

/// A constant as a value.
pub open spec fn const_view(c: Constant) -> CConst
    decreases c, 1nat,
{
    match c {
        Constant::Number(n) => CConst::Number(n@),
        Constant::String(s) => CConst::Str(s@),
        Constant::Function { name, arity, upvalue_count, chunk } => CConst::Function(
            name@,
            arity as nat,
            upvalue_count as nat,
            chunk_view(chunk),
        ),
    }
}

/// A chunk as a value.
pub open spec fn chunk_view(c: Chunk) -> CChunk
    decreases c, 0nat,
{
    proof {
        assert(decreases_to!(c => c.constants));
        assert(decreases_to!(c.constants => c.constants@));
    }
    CChunk { code: c.code@, consts: consts_view(c.constants@, c.constants@.len()), lines: c.lines@ }
}

/// The first `n` constants as values.
pub open spec fn consts_view(cs: Seq<Constant>, n: nat) -> Seq<CConst>
    decreases cs, n,
{
    if n == 0 || n > cs.len() {
        Seq::empty()
    } else {
        consts_view(cs, (n - 1) as nat).push(const_view(cs[n - 1]))
    }
}

proof fn lemma_consts_push(cs: Seq<Constant>, c: Constant)
    ensures
        consts_view(cs.push(c), cs.len() + 1) == consts_view(cs, cs.len()).push(const_view(c)),
{
    lemma_consts_same(cs.push(c), cs, cs.len());
}

proof fn lemma_consts_same(a: Seq<Constant>, b: Seq<Constant>, n: nat)
    requires
        n <= a.len(),
        n <= b.len(),
        forall|i: int| 0 <= i < n ==> a[i] == b[i],
    ensures
        consts_view(a, n) == consts_view(b, n),
    decreases n,
{
    if n > 0 {
        lemma_consts_same(a, b, (n - 1) as nat);
    }
}

proof fn lemma_consts_len(cs: Seq<Constant>, n: nat)
    requires
        n <= cs.len(),
    ensures
        consts_view(cs, n).len() == n,
    decreases n,
{
    if n > 0 {
        lemma_consts_len(cs, (n - 1) as nat);
    }
}

struct Local {
    name: String,
    depth: usize,
    is_captured: bool,
}

struct Upvalue {
    index: u8,
    is_local: bool,
}

struct CompilerState {
    function_type: FunctionType,
    chunk: Chunk,
    locals: Vec<Local>,
    upvalues: Vec<Upvalue>,
    scope_depth: usize,
    line: usize,
    pos: usize,
}

spec fn local_view(l: Local) -> CLocal {
    CLocal { name: l.name@, depth: l.depth as int, captured: l.is_captured }
}

spec fn upvalue_view(u: Upvalue) -> (u8, bool) {
    (u.index, u.is_local)
}

spec fn locals_view(ls: Seq<Local>) -> Seq<CLocal> {
    ls.map_values(|l: Local| local_view(l))
}

spec fn upvalues_view(us: Seq<Upvalue>) -> Seq<(u8, bool)> {
    us.map_values(|u: Upvalue| upvalue_view(u))
}

spec fn frame_view(s: CompilerState) -> CFrame {
    CFrame {
        ftype: s.function_type,
        chunk: chunk_view(s.chunk),
        locals: locals_view(s.locals@),
        upvalues: upvalues_view(s.upvalues@),
        depth: s.scope_depth as int,
        line: s.line,
        pos: s.pos,
    }
}

spec fn frames_view(ss: Seq<CompilerState>) -> Seq<CFrame> {
    ss.map_values(|s: CompilerState| frame_view(s))
}

proof fn lemma_frames_update(ss: Seq<CompilerState>, n: int, s: CompilerState)
    requires
        0 <= n < ss.len(),
    ensures
        frames_view(ss.update(n, s)) == frames_view(ss).update(n, frame_view(s)),
{
    assert(frames_view(ss.update(n, s)) =~= frames_view(ss).update(n, frame_view(s)));
}

proof fn lemma_frames_push(ss: Seq<CompilerState>, s: CompilerState)
    ensures
        frames_view(ss.push(s)) == frames_view(ss).push(frame_view(s)),
{
    assert(frames_view(ss.push(s)) =~= frames_view(ss).push(frame_view(s)));
}

proof fn lemma_frames_drop_last(ss: Seq<CompilerState>)
    requires
        ss.len() > 0,
    ensures
        frames_view(ss.drop_last()) == frames_view(ss).drop_last(),
        frames_view(ss).last() == frame_view(ss.last()),
{
    assert(frames_view(ss.drop_last()) =~= frames_view(ss).drop_last());
}

proof fn lemma_locals_push(ls: Seq<Local>, l: Local)
    ensures
        locals_view(ls.push(l)) == locals_view(ls).push(local_view(l)),
{
    assert(locals_view(ls.push(l)) =~= locals_view(ls).push(local_view(l)));
}

proof fn lemma_locals_update(ls: Seq<Local>, i: int, l: Local)
    requires
        0 <= i < ls.len(),
    ensures
        locals_view(ls.update(i, l)) == locals_view(ls).update(i, local_view(l)),
{
    assert(locals_view(ls.update(i, l)) =~= locals_view(ls).update(i, local_view(l)));
}

proof fn lemma_locals_drop_last(ls: Seq<Local>)
    requires
        ls.len() > 0,
    ensures
        locals_view(ls.drop_last()) == locals_view(ls).drop_last(),
{
    assert(locals_view(ls.drop_last()) =~= locals_view(ls).drop_last());
}

proof fn lemma_upvalues_push(us: Seq<Upvalue>, u: Upvalue)
    ensures
        upvalues_view(us.push(u)) == upvalues_view(us).push(upvalue_view(u)),
{
    assert(upvalues_view(us.push(u)) =~= upvalues_view(us).push(upvalue_view(u)));
}

/// The last slot named `name` is a slot of that name.
proof fn lemma_last_local(ls: Seq<CLocal>, name: Seq<char>)
    ensures
        match last_local(ls, name) {
            Some(i) => 0 <= i < ls.len() && ls[i].name == name,
            None => true,
        },
    decreases ls.len(),
{
    if ls.len() > 0 && ls.last().name != name {
        lemma_last_local(ls.drop_last(), name);
    }
}

/// The error `e` reports the compile error `c`, with no source attached yet.
pub open spec fn is_compile_error(e: CompileError, c: CErr) -> bool {
    &&& e.phase() == ErrorPhase::Compile
    &&& e.msg() == c.msg
    &&& e.at() == c.span
    &&& e.src_name() == "input"@
    &&& e.src_text() == Seq::<char>::empty()
}

/// A bytecode compiler: the frames of the functions being compiled, the
/// script's at the bottom, the first error, if any, and for each byte offset
/// of the source text the number of newlines before it.
pub struct Compiler {
    states: Vec<CompilerState>,
    failure: Option<CompileError>,
    failure_spec: Ghost<Option<CErr>>,
    newlines: Vec<usize>,
    source: Ghost<Seq<u8>>,
}

impl Default for Compiler {
    /// A compiler with the script's frame alone and no source text.
    fn default() -> (c: Compiler)
        ensures
            c.inv(),
            c.state() == initial_cstate(Seq::empty()),
    {
        Compiler::new()
    }
}

impl Compiler {
    /// The compiler's state as a value.
    pub closed spec fn state(self) -> CState {
        CState { frames: frames_view(self.states@), err: self.failure_spec@, src: self.source@ }
    }

    /// There is a frame, the error held matches the one recorded, and the
    /// newline counts are those of the source text.
    pub closed spec fn inv(self) -> bool {
        &&& self.states@.len() > 0
        &&& self.failure is Some <==> self.failure_spec@ is Some
        &&& self.failure is Some ==> is_compile_error(self.failure->Some_0, self.failure_spec@->Some_0)
        &&& self.newlines@.len() == self.source@.len() + 1
        &&& forall|i: int| 0 <= i <= self.source@.len() ==> self.newlines@[i] == newline_bytes(self.source@, i)
    }

    /// A compiler with the script's frame alone and no source text. It keeps
    /// no line information: without the text it cannot tell lines apart, so
    /// every instruction it emits carries line 1. `with_source` numbers
    /// instructions with their source lines.
    pub fn new() -> (c: Compiler)
        ensures
            c.inv(),
            c.state() == initial_cstate(Seq::empty()),
    {
        let mut states = Vec::new();
        states.push(Self::new_state(FunctionType::Script));
        let mut newlines = Vec::new();
        newlines.push(0);
        let c = Compiler { states, failure: None, failure_spec: Ghost(None), newlines, source: Ghost(Seq::empty()) };
        assert(c.state().frames =~= initial_cstate(Seq::empty()).frames);
        c
    }

    /// A compiler with the script's frame alone that numbers instructions
    /// with the lines of `source`, the text the program was parsed from.
    pub fn with_source(source: &str) -> (c: Compiler)
        ensures
            c.inv(),
            c.state() == initial_cstate(source.spec_bytes()),
    {
        let bytes = source.as_bytes();
        let mut newlines: Vec<usize> = Vec::new();
        newlines.push(0);
        let mut count: usize = 0;
        let mut i: usize = 0;
        while i < bytes.len()
            invariant
                i <= bytes@.len(),
                newlines@.len() == i + 1,
                count == newline_bytes(bytes@, i as int),
                count <= i,
                forall|k: int| 0 <= k <= i ==> newlines@[k] == newline_bytes(bytes@, k),
            decreases bytes@.len() - i,
        {
            if bytes[i] == 10u8 {
                count = count + 1;
            }
            i = i + 1;
            newlines.push(count);
        }
        let mut states = Vec::new();
        states.push(Self::new_state(FunctionType::Script));
        let c = Compiler { states, failure: None, failure_spec: Ghost(None), newlines, source: Ghost(bytes@) };
        assert(c.state().frames =~= initial_cstate(bytes@).frames);
        c
    }

    fn new_state(ft: FunctionType) -> (s: CompilerState)
        ensures
            frame_view(s) == new_frame(ft),
    {
        let slot_name = match ft {
            FunctionType::Method | FunctionType::Initializer => owned("this"),
            _ => String::new(),
        };
        let mut locals = Vec::new();
        locals.push(Local { name: slot_name, depth: 0, is_captured: false });
        let s = CompilerState {
            function_type: ft,
            chunk: Chunk::new(),
            locals,
            upvalues: Vec::new(),
            scope_depth: 0,
            line: 1,
            pos: 0,
        };
        proof {
            lemma_consts_len(s.chunk.constants@, 0);
            assert(frame_view(s).chunk.consts =~= Seq::<CConst>::empty());
            assert(frame_view(s).locals =~= new_frame(ft).locals);
            assert(frame_view(s).upvalues =~= Seq::<(u8, bool)>::empty());
        }
        s
    }

    /// Compile a program to the script's chunk, ending with an implicit
    /// `nil` return, or give the first error.
    pub fn compile(self, program: &Program) -> (r: Result<Chunk, CompileError>)
        requires
            self.inv(),
            self.state() == initial_cstate(self.state().src),
        ensures
            match compilation(self.state().src, program_view(*program)) {
                Ok(c) => r is Ok && chunk_view(r->Ok_0) == c,
                Err(e) => r is Err && is_compile_error(r->Err_0, e),
            },
            r matches Ok(ch) ==> ch.code@.len() >= 2 && ch.code@[ch.code@.len() - 2] == op_byte(OpCode::Nil)
                && ch.code@[ch.code@.len() - 1] == op_byte(OpCode::Return),
    {
        let mut c = self;
        proof {
            lemma_decls_index(program.declarations@, program.declarations@.len());
        }
        c.compile_decls(&program.declarations);
        let ghost s1 = c.state();
        c.emit_op(OpCode::Nil);
        let ghost s2 = c.state();
        c.emit_op(OpCode::Return);
        proof {
            reveal(emit_op);
            reveal(emit);
            if !failed(c.state()) {
                assert(!failed(s2));
                assert(!failed(s1));
                assert(top(c.state()).chunk.code == top(s1).chunk.code.push(op_byte(OpCode::Nil)).push(
                    op_byte(OpCode::Return),
                ));
            }
        }
        match c.failure {
            Some(e) => Err(e),
            None => {
                let ghost st_states = c.states@;
                let s = c.states.pop().unwrap();
                proof {
                    lemma_frames_drop_last(st_states);
                }
                Ok(s.chunk)
            },
        }
    }

    fn is_failed(&self) -> (b: bool)
        requires
            self.inv(),
        ensures
            b == failed(self.state()),
    {
        self.failure.is_some()
    }

    fn fail_with(&mut self, msg: String, span: Span)
        requires
            old(self).inv(),
        ensures
            final(self).inv(),
            final(self).states@.len() == old(self).states@.len(),
            final(self).state() == fail_with(old(self).state(), msg@, span),
    {
        proof {
            reveal(fail_with);
        }
        if self.failure.is_none() {
            let e = CompileError::compile(msg, span.offset, span.len);
            self.failure = Some(e);
            self.failure_spec = Ghost(Some(CErr { msg: msg@, span }));
        }
    }

    fn top_index(&self) -> (n: usize)
        requires
            self.inv(),
        ensures
            n == self.states@.len() - 1,
    {
        self.states.len() - 1
    }

    fn set_line(&mut self, span: Span)
        requires
            old(self).inv(),
        ensures
            final(self).inv(),
            final(self).states@.len() == old(self).states@.len(),
            final(self).state() == set_line(old(self).state(), span),
    {
        proof {
            reveal(set_line);
        }
        if self.is_failed() {
            return ;
        }
        let ghost before = self.state();
        let n = self.top_index();
        let last = self.newlines.len() - 1;
        let k = if span.offset < last {
            span.offset
        } else {
            last
        };
        let before_k = self.newlines[k];
        let line = if before_k < usize::MAX {
            before_k + 1
        } else {
            usize::MAX
        };
        self.states[n].line = line;
        self.states[n].pos = span.offset;
        proof {
            assert(line == line_of(before.src, span.offset));
            assert(self.state().frames =~= before.frames.update(
                n as int,
                CFrame { line: line_of(before.src, span.offset), pos: span.offset, ..top(before) },
            ));
        }
    }

    fn emit(&mut self, b: u8)
        requires
            old(self).inv(),
        ensures
            final(self).inv(),
            final(self).states@.len() == old(self).states@.len(),
            final(self).state() == emit(old(self).state(), b),
    {
        proof {
            reveal(emit);
        }
        if self.is_failed() {
            return ;
        }
        let ghost before = self.state();
        let n = self.top_index();
        let line = self.states[n].line;
        self.states[n].chunk.code.push(b);
        self.states[n].chunk.lines.push(line);
        proof {
            let f = top(before);
            assert(self.state().frames =~= before.frames.update(
                n as int,
                CFrame {
                    chunk: CChunk { code: f.chunk.code.push(b), lines: f.chunk.lines.push(f.line), ..f.chunk },
                    ..f
                },
            ));
        }
    }

    fn emit_op(&mut self, op: OpCode)
        requires
            old(self).inv(),
        ensures
            final(self).inv(),
            final(self).states@.len() == old(self).states@.len(),
            final(self).state() == emit_op(old(self).state(), op),
    {
        proof {
            reveal(emit_op);
        }
        self.emit(op.to_byte());
    }

    fn add_const(&mut self, c: Constant) -> (idx: u8)
        requires
            old(self).inv(),
        ensures
            final(self).inv(),
            final(self).states@.len() == old(self).states@.len(),
            (final(self).state(), idx) == add_const(old(self).state(), const_view(c)),
    {
        proof {
            reveal(add_const);
            reveal(fail_with);
        }
        if self.is_failed() {
            return 0;
        }
        let n = self.top_index();
        let count = self.states[n].chunk.constants.len();
        if count >= 256 {
            let span = Span::new(self.states[n].pos, 0);
            proof {
                lemma_consts_len(self.states@[n as int].chunk.constants@, count as nat);
            }
            self.fail_with(owned("constant pool overflow (max 256)"), span);
            return 0;
        }
        let ghost before = self.state();
        let ghost cv = const_view(c);
        let ghost cs0 = self.states@[n as int].chunk.constants@;
        self.states[n].chunk.constants.push(c);
        proof {
            lemma_consts_len(cs0, cs0.len());
            lemma_consts_push(cs0, c);
            let f = top(before);
            assert(self.state().frames =~= before.frames.update(
                n as int,
                CFrame { chunk: CChunk { consts: f.chunk.consts.push(cv), ..f.chunk }, ..f },
            ));
        }
        count as u8
    }

    fn emit_constant(&mut self, c: Constant)
        requires
            old(self).inv(),
        ensures
            final(self).inv(),
            final(self).states@.len() == old(self).states@.len(),
            final(self).state() == emit_constant(old(self).state(), const_view(c)),
    {
        proof {
            reveal(emit_constant);
        }
        let idx = self.add_const(c);
        self.emit_op(OpCode::Constant);
        self.emit(idx);
    }

    fn emit_jump(&mut self, op: OpCode) -> (offset: usize)
        requires
            old(self).inv(),
        ensures
            final(self).inv(),
            final(self).states@.len() == old(self).states@.len(),
            (final(self).state(), offset as int) == emit_jump(old(self).state(), op),
    {
        proof {
            reveal(emit_jump);
            reveal(emit);
            reveal(emit_op);
        }
        self.emit_op(op);
        self.emit(0xff);
        self.emit(0xff);
        if self.is_failed() {
            return 0;
        }
        let n = self.top_index();
        let len = self.states[n].chunk.code.len();
        if len < 2 {
            return 0;
        }
        len - 2
    }

    fn patch_jump(&mut self, offset: usize)
        requires
            old(self).inv(),
        ensures
            final(self).inv(),
            final(self).states@.len() == old(self).states@.len(),
            final(self).state() == patch_jump(old(self).state(), offset as int),
    {
        proof {
            reveal(patch_jump);
            reveal(fail_with);
        }
        if self.is_failed() {
            return ;
        }
        let n = self.top_index();
        let len = self.states[n].chunk.code.len();
        if offset > len || len - offset < 2 || len - offset - 2 > 0xffff {
            let span = Span::new(self.states[n].pos, 0);
            self.fail_with(owned("jump too large"), span);
            return ;
        }
        let jump = len - offset - 2;
        let ghost before = self.state();
        self.states[n].chunk.code.set(offset, (jump / 256) as u8);
        self.states[n].chunk.code.set(offset + 1, (jump % 256) as u8);
        proof {
            let f = top(before);
            assert(self.state().frames =~= before.frames.update(
                n as int,
                CFrame {
                    chunk: CChunk {
                        code: f.chunk.code.update(offset as int, (jump / 256) as u8).update(
                            offset + 1,
                            (jump % 256) as u8,
                        ),
                        ..f.chunk
                    },
                    ..f
                },
            ));
        }
    }

    fn emit_loop(&mut self, loop_start: usize)
        requires
            old(self).inv(),
        ensures
            final(self).inv(),
            final(self).states@.len() == old(self).states@.len(),
            final(self).state() == emit_loop(old(self).state(), loop_start as int),
    {
        proof {
            reveal(emit_loop);
            reveal(fail_with);
        }
        self.emit_op(OpCode::Loop);
        if self.is_failed() {
            return ;
        }
        let n = self.top_index();
        let len = self.states[n].chunk.code.len();
        if loop_start > len || len - loop_start > 0xffff - 2 {
            let span = Span::new(self.states[n].pos, 0);
            self.fail_with(owned("loop body too large"), span);
            return ;
        }
        let off = len - loop_start + 2;
        self.emit((off / 256) as u8);
        self.emit((off % 256) as u8);
    }

    fn begin_scope(&mut self)
        requires
            old(self).inv(),
        ensures
            final(self).inv(),
            final(self).states@.len() == old(self).states@.len(),
            final(self).state() == begin_scope(old(self).state()),
    {
        proof {
            reveal(begin_scope);
            reveal(fail_with);
        }
        if self.is_failed() {
            return ;
        }
        let n = self.top_index();
        if self.states[n].scope_depth >= usize::MAX {
            let span = Span::new(self.states[n].pos, 0);
            self.fail_with(owned("too many nested scopes"), span);
            return ;
        }
        let ghost before = self.state();
        self.states[n].scope_depth = self.states[n].scope_depth + 1;
        proof {
            assert(self.state().frames =~= before.frames.update(
                n as int,
                CFrame { depth: top(before).depth + 1, ..top(before) },
            ));
        }
    }

    fn end_scope(&mut self)
        requires
            old(self).inv(),
        ensures
            final(self).inv(),
            final(self).states@.len() == old(self).states@.len(),
            final(self).state() == end_scope(old(self).state()),
    {
        proof {
            reveal(end_scope);
            reveal(emit_op);
            reveal(emit);
        }
        if self.is_failed() {
            return ;
        }
        let n = self.top_index();
        let ghost before = self.state();
        if self.states[n].scope_depth > 0 {
            self.states[n].scope_depth = self.states[n].scope_depth - 1;
        }
        proof {
            let d = if top(before).depth > 0 {
                top(before).depth - 1
            } else {
                0
            };
            assert(self.state().frames =~= before.frames.update(n as int, CFrame { depth: d, ..top(before) }));
        }
        let ghost target = end_scope(before);
        while self.states[n].locals.len() > 0 && self.states[n].locals[self.states[n].locals.len() - 1].depth
            > self.states[n].scope_depth && !self.is_failed()
            invariant
                self.inv(),
                n == self.states@.len() - 1,
                pop_locals(self.state(), top(self.state()).locals.len()) == target,
            decreases self.states@[n as int].locals@.len(),
        {
            proof {
                reveal(emit_op);
                reveal(emit);
            }
            let last = self.states[n].locals.len() - 1;
            let captured = self.states[n].locals[last].is_captured;
            if captured {
                self.emit_op(OpCode::CloseUpvalue);
            } else {
                self.emit_op(OpCode::Pop);
            }
            if self.is_failed() {
                return ;
            }
            let ghost mid = self.state();
            let ghost mid_states = self.states@;
            self.states[n].locals.pop();
            proof {
                lemma_locals_drop_last(mid_states[n as int].locals@);
                assert(frame_view(self.states@[n as int]) == CFrame { locals: top(mid).locals.drop_last(), ..top(mid) });
                lemma_frames_update(mid_states, n as int, self.states@[n as int]);
            }
        }
    }

    fn add_local(&mut self, name: String)
        requires
            old(self).inv(),
        ensures
            final(self).inv(),
            final(self).states@.len() == old(self).states@.len(),
            final(self).state() == add_local(old(self).state(), name@),
    {
        proof {
            reveal(add_local);
        }
        if self.is_failed() {
            return ;
        }
        let n = self.top_index();
        let ghost before = self.state();
        let ghost before_states = self.states@;
        let ghost nm = name;
        let depth = self.states[n].scope_depth;
        self.states[n].locals.push(Local { name, depth, is_captured: false });
        proof {
            lemma_locals_push(before_states[n as int].locals@, Local { name: nm, depth, is_captured: false });
            assert(frame_view(self.states@[n as int]) == CFrame {
                locals: top(before).locals.push(CLocal { name: nm@, depth: top(before).depth, captured: false }),
                ..top(before)
            });
            lemma_frames_update(before_states, n as int, self.states@[n as int]);
        }
    }

    /// The last local slot of frame `k` named `name`.
    fn last_local_in(&self, k: usize, name: &str) -> (r: Option<usize>)
        requires
            self.inv(),
            k < self.states@.len(),
        ensures
            match last_local(self.state().frames[k as int].locals, name@) {
                Some(i) => 0 <= i < self.state().frames[k as int].locals.len() && r is Some && r->Some_0 == i,
                None => r is None,
            },
    {
        let ghost ls = self.state().frames[k as int].locals;
        let locals = &self.states[k].locals;
        let mut i = locals.len();
        assert(ls.subrange(0, ls.len() as int) =~= ls);
        while i > 0
            invariant
                i <= locals@.len(),
                locals == &self.states@[k as int].locals,
                ls == locals_view(locals@),
                ls == self.state().frames[k as int].locals,
                last_local(ls, name@) == last_local(ls.subrange(0, i as int), name@),
            decreases i,
        {
            assert(ls.subrange(0, i as int).drop_last() =~= ls.subrange(0, i - 1));
            if str_eq(locals[i - 1].name.as_str(), name) {
                assert(ls[i - 1] == local_view(locals@[i - 1]));
                assert(ls.subrange(0, i as int).last() == ls[i - 1]);
                assert(ls.subrange(0, i as int).last().name == name@);
                assert(last_local(ls.subrange(0, i as int), name@) == Some(i - 1));
                assert(ls.len() == locals@.len());
                return Some(i - 1);
            }
            i = i - 1;
        }
        assert(ls.subrange(0, 0) =~= Seq::<CLocal>::empty());
        None
    }

    fn add_upvalue(&mut self, index: u8, is_local: bool) -> (idx: u8)
        requires
            old(self).inv(),
        ensures
            final(self).inv(),
            final(self).states@.len() == old(self).states@.len(),
            (final(self).state(), idx) == add_upvalue(old(self).state(), index, is_local),
    {
        proof {
            reveal(add_upvalue);
        }
        let n = self.top_index();
        let ghost ups = top(self.state()).upvalues;
        let mut i: usize = 0;
        while i < self.states[n].upvalues.len()
            invariant
                self.inv(),
                n == self.states@.len() - 1,
                i <= ups.len(),
                ups == top(self.state()).upvalues,
                ups.len() == self.states@[n as int].upvalues@.len(),
                find_upvalue(ups, index, is_local, i as int) == find_upvalue(ups, index, is_local, 0),
                *self == *old(self),
            decreases ups.len() - i,
        {
            proof {
                reveal(add_upvalue);
            }
            let u = &self.states[n].upvalues[i];
            if u.index == index && u.is_local == is_local {
                assert(ups[i as int] == upvalue_view(self.states@[n as int].upvalues@[i as int]));
                return i as u8;
            }
            i = i + 1;
        }
        let ghost before = self.state();
        let ghost before_states = self.states@;
        let count = self.states[n].upvalues.len();
        self.states[n].upvalues.push(Upvalue { index, is_local });
        proof {
            lemma_upvalues_push(before_states[n as int].upvalues@, Upvalue { index, is_local });
            assert(frame_view(self.states@[n as int]) == CFrame {
                upvalues: top(before).upvalues.push((index, is_local)),
                ..top(before)
            });
            lemma_frames_update(before_states, n as int, self.states@[n as int]);
        }
        count as u8
    }

    fn resolve_upvalue(&mut self, name: &str) -> (r: Option<u8>)
        requires
            old(self).inv(),
        ensures
            final(self).inv(),
            final(self).states@.len() == old(self).states@.len(),
            (final(self).state(), r) == resolve_upvalue(old(self).state(), name@),
    {
        proof {
            reveal(resolve_upvalue);
        }
        if self.states.len() < 2 {
            return None;
        }
        let e = self.states.len() - 2;
        match self.last_local_in(e, name) {
            Some(i) => {
                let ghost before = self.state();
                let ghost before_states = self.states@;
                proof {
                    lemma_last_local(before.frames[e as int].locals, name@);
                }
                self.states[e].locals[i].is_captured = true;
                proof {
                    let enc = before.frames[e as int];
                    let old_local = before_states[e as int].locals@[i as int];
                    lemma_locals_update(
                        before_states[e as int].locals@,
                        i as int,
                        Local { is_captured: true, ..old_local },
                    );
                    assert(frame_view(self.states@[e as int]) == CFrame {
                        locals: enc.locals.update(i as int, CLocal { captured: true, ..enc.locals[i as int] }),
                        ..enc
                    });
                    lemma_frames_update(before_states, e as int, self.states@[e as int]);
                    assert(self.state() == CState {
                        frames: before.frames.update(
                            e as int,
                            CFrame { locals: enc.locals.update(i as int, CLocal { captured: true, ..enc.locals[i as int] }), ..enc },
                        ),
                        ..before
                    });
                }
                let idx = self.add_upvalue(i as u8, true);
                Some(idx)
            },
            None => None,
        }
    }

    fn named_variable(&mut self, name: &str)
        requires
            old(self).inv(),
        ensures
            final(self).inv(),
            final(self).states@.len() == old(self).states@.len(),
            final(self).state() == named_variable(old(self).state(), name@),
    {
        proof {
            reveal(named_variable);
        }
        let n = self.top_index();
        assert(self.state().frames[n as int] == top(self.state()));
        match self.last_local_in(n, name) {
            Some(slot) => {
                self.emit_op(OpCode::GetLocal);
                self.emit(slot as u8);
            },
            None => {
                match self.resolve_upvalue(name) {
                    Some(idx) => {
                        self.emit_op(OpCode::GetUpvalue);
                        self.emit(idx);
                    },
                    None => {
                        let idx = self.add_const(Constant::String(owned(name)));
                        self.emit_op(OpCode::GetGlobal);
                        self.emit(idx);
                    },
                }
            },
        }
    }

    fn store_variable(&mut self, name: &str)
        requires
            old(self).inv(),
        ensures
            final(self).inv(),
            final(self).states@.len() == old(self).states@.len(),
            final(self).state() == store_variable(old(self).state(), name@),
    {
        proof {
            reveal(store_variable);
        }
        let n = self.top_index();
        assert(self.state().frames[n as int] == top(self.state()));
        match self.last_local_in(n, name) {
            Some(slot) => {
                self.emit_op(OpCode::SetLocal);
                self.emit(slot as u8);
            },
            None => {
                match self.resolve_upvalue(name) {
                    Some(idx) => {
                        self.emit_op(OpCode::SetUpvalue);
                        self.emit(idx);
                    },
                    None => {
                        let idx = self.add_const(Constant::String(owned(name)));
                        self.emit_op(OpCode::SetGlobal);
                        self.emit(idx);
                    },
                }
            },
        }
    }

    fn define_variable(&mut self, name: &str)
        requires
            old(self).inv(),
        ensures
            final(self).inv(),
            final(self).states@.len() == old(self).states@.len(),
            final(self).state() == define_variable(old(self).state(), name@),
    {
        proof {
            reveal(define_variable);
        }
        let n = self.top_index();
        if self.states[n].scope_depth > 0 {
            self.add_local(owned(name));
        } else {
            let idx = self.add_const(Constant::String(owned(name)));
            self.emit_op(OpCode::DefineGlobal);
            self.emit(idx);
        }
    }

    fn binary_ops(&mut self, op: BinaryOp)
        requires
            old(self).inv(),
        ensures
            final(self).inv(),
            final(self).states@.len() == old(self).states@.len(),
            final(self).state() == binary_ops(old(self).state(), op),
    {
        proof {
            reveal(binary_ops);
        }
        match op {
            BinaryOp::Add => self.emit_op(OpCode::Add),
            BinaryOp::Subtract => self.emit_op(OpCode::Subtract),
            BinaryOp::Multiply => self.emit_op(OpCode::Multiply),
            BinaryOp::Divide => self.emit_op(OpCode::Divide),
            BinaryOp::Equal => self.emit_op(OpCode::Equal),
            BinaryOp::NotEqual => {
                self.emit_op(OpCode::Equal);
                self.emit_op(OpCode::Not);
            },
            BinaryOp::Less => self.emit_op(OpCode::Less),
            BinaryOp::LessEqual => {
                self.emit_op(OpCode::Greater);
                self.emit_op(OpCode::Not);
            },
            BinaryOp::Greater => self.emit_op(OpCode::Greater),
            BinaryOp::GreaterEqual => {
                self.emit_op(OpCode::Less);
                self.emit_op(OpCode::Not);
            },
        }
    }

    fn compile_literal(&mut self, l: &LiteralExpr)
        requires
            old(self).inv(),
        ensures
            final(self).inv(),
            final(self).states@.len() == old(self).states@.len(),
            final(self).state() == c_expr(old(self).state(), expr_view(Expr::Literal(*l))),
    {
        let ghost st = self.state();
        self.set_line(l.span);
        let ghost s1 = self.state();
        assert(s1 == set_line(st, l.span));
        match &l.value {
            LiteralValue::Number(n) => {
                let c = Constant::Number(n.clone());
                assert(const_view(c) == CConst::Number(n@));
                self.emit_constant(c);
            },
            LiteralValue::String(t) => {
                let c = Constant::String(t.clone());
                assert(const_view(c) == CConst::Str(t@));
                self.emit_constant(c);
            },
            LiteralValue::Bool(b) => {
                if *b {
                    self.emit_op(OpCode::True);
                } else {
                    self.emit_op(OpCode::False);
                }
            },
            LiteralValue::Nil => self.emit_op(OpCode::Nil),
        }
    }

    fn compile_expr(&mut self, expr: &Expr)
        requires
            old(self).inv(),
        ensures
            final(self).inv(),
            final(self).states@.len() == old(self).states@.len(),
            final(self).state() == c_expr(old(self).state(), expr_view(*expr)),
        decreases expr,
    {
        match expr {
            Expr::Literal(l) => {
                self.compile_literal(l);
            },
            Expr::Grouping(g) => self.compile_expr(&g.expression),
            Expr::Unary(u) => {
                self.compile_expr(&u.operand);
                match u.operator {
                    UnaryOp::Negate => self.emit_op(OpCode::Negate),
                    UnaryOp::Not => self.emit_op(OpCode::Not),
                }
            },
            Expr::Binary(b) => {
                self.compile_expr(&b.left);
                self.compile_expr(&b.right);
                self.binary_ops(b.operator);
            },
            Expr::Variable(v) => {
                self.set_line(v.span);
                self.named_variable(v.name.as_str());
            },
            Expr::Assign(a) => {
                self.set_line(a.span);
                self.compile_expr(&a.value);
                self.store_variable(a.name.as_str());
            },
            Expr::Logical(l) => {
                self.compile_expr(&l.left);
                match l.operator {
                    LogicalOp::And => {
                        let end_jump = self.emit_jump(OpCode::JumpIfFalse);
                        self.emit_op(OpCode::Pop);
                        self.compile_expr(&l.right);
                        self.patch_jump(end_jump);
                    },
                    LogicalOp::Or => {
                        let else_jump = self.emit_jump(OpCode::JumpIfFalse);
                        let end_jump = self.emit_jump(OpCode::Jump);
                        self.patch_jump(else_jump);
                        self.emit_op(OpCode::Pop);
                        self.compile_expr(&l.right);
                        self.patch_jump(end_jump);
                    },
                }
            },
            Expr::Call(c) => {
                self.compile_expr(&c.callee);
                let args = &c.arguments;
                let ghost s0 = self.state();
                let ghost k = self.states@.len();
                proof {
                    lemma_exprs_index(args@, args@.len());
                }
                let mut i: usize = 0;
                while i < args.len()
                    invariant
                        self.inv(),
                        self.states@.len() == k,
                        i <= args@.len(),
                        *expr == Expr::Call(*c),
                        *args == c.arguments,
                        exprs_view(args@, args@.len()).len() == args@.len(),
                        forall|k: int| 0 <= k < args@.len() ==> #[trigger] exprs_view(args@, args@.len())[k] == expr_view(args@[k]),
                        self.state() == c_args(s0, exprs_view(args@, args@.len()), i as nat),
                    decreases args@.len() - i,
                {
                    proof {
                        assert(decreases_to!(*expr => (*expr)->Call_0));
                        assert(decreases_to!(*c => c.arguments));
                        assert(decreases_to!(c.arguments => c.arguments@));
                        assert(decreases_to!(c.arguments@ => c.arguments@[i as int]));
                    }
                    self.compile_expr(&args[i]);
                    i = i + 1;
                }
                self.emit_op(OpCode::Call);
                self.emit(args.len() as u8);
            },
            Expr::Get(g) => {
                self.compile_expr(&g.object);
                let idx = self.add_const(Constant::String(g.name.clone()));
                self.emit_op(OpCode::GetProperty);
                self.emit(idx);
            },
            Expr::SetProperty(s) => {
                self.compile_expr(&s.object);
                self.compile_expr(&s.value);
                let idx = self.add_const(Constant::String(s.name.clone()));
                self.emit_op(OpCode::SetProperty);
                self.emit(idx);
            },
            Expr::This(t) => {
                self.set_line(t.span);
                let n = self.top_index();
                match self.last_local_in(n, "this") {
                    Some(slot) => {
                        self.emit_op(OpCode::GetLocal);
                        self.emit(slot as u8);
                    },
                    None => {
                        match self.resolve_upvalue("this") {
                            Some(idx) => {
                                self.emit_op(OpCode::GetUpvalue);
                                self.emit(idx);
                            },
                            None => {},
                        }
                    },
                }
            },
            Expr::Super(s) => {
                self.set_line(s.span);
                let idx = self.add_const(Constant::String(s.method.clone()));
                self.named_variable("this");
                self.named_variable("super");
                self.emit_op(OpCode::GetSuper);
                self.emit(idx);
            },
        }
    }
    #[verifier::rlimit(40)]
    fn compile_stmt(&mut self, stmt: &Stmt)
        requires
            old(self).inv(),
        ensures
            final(self).inv(),
            final(self).states@.len() == old(self).states@.len(),
            final(self).state() == c_stmt(old(self).state(), stmt_view(*stmt)),
        decreases stmt, 1nat,
    {
        match stmt {
            Stmt::Expression(e) => {
                self.set_line(e.span);
                self.compile_expr(&e.expression);
                self.emit_op(OpCode::Pop);
            },
            Stmt::Print(p) => {
                self.set_line(p.span);
                self.compile_expr(&p.expression);
                self.emit_op(OpCode::Print);
            },
            Stmt::Return(r) => {
                self.set_line(r.span);
                let n = self.top_index();
                let is_init = match self.states[n].function_type {
                    FunctionType::Initializer => true,
                    _ => false,
                };
                match &r.value {
                    Some(v) => {
                        if is_init {
                            self.fail_with(owned("can't return a value from an initializer"), r.span);
                        } else {
                            self.compile_expr(v);
                            self.emit_op(OpCode::Return);
                        }
                    },
                    None => {
                        if is_init {
                            self.emit_op(OpCode::GetLocal);
                            self.emit(0);
                        } else {
                            self.emit_op(OpCode::Nil);
                        }
                        self.emit_op(OpCode::Return);
                    },
                }
            },
            Stmt::Block(b) => {
                self.set_line(b.span);
                self.begin_scope();
                proof {
                    lemma_decls_index(b.declarations@, b.declarations@.len());
                }
                self.compile_decls(&b.declarations);
                self.end_scope();
            },
            Stmt::If(i) => {
                self.set_line(i.span);
                self.compile_expr(&i.condition);
                let then_jump = self.emit_jump(OpCode::JumpIfFalse);
                self.emit_op(OpCode::Pop);
                self.compile_stmt(&i.then_branch);
                let else_jump = self.emit_jump(OpCode::Jump);
                self.patch_jump(then_jump);
                self.emit_op(OpCode::Pop);
                match &i.else_branch {
                    Some(e) => self.compile_stmt(e),
                    None => {},
                }
                self.patch_jump(else_jump);
            },
            Stmt::While(w) => {
                self.set_line(w.span);
                let n = self.top_index();
                let loop_start = self.states[n].chunk.code.len();
                self.compile_expr(&w.condition);
                let exit_jump = self.emit_jump(OpCode::JumpIfFalse);
                self.emit_op(OpCode::Pop);
                self.compile_stmt(&w.body);
                self.emit_loop(loop_start);
                self.patch_jump(exit_jump);
                self.emit_op(OpCode::Pop);
            },
        }
    }

    /// Compile declarations in order.
    fn compile_decls(&mut self, ds: &Vec<Decl>)
        requires
            old(self).inv(),
        ensures
            final(self).inv(),
            final(self).states@.len() == old(self).states@.len(),
            final(self).state() == c_decls(old(self).state(), decls_view(ds@, ds@.len()), ds@.len()),
        decreases ds, 0nat,
    {
        let ghost s0 = self.state();
        let ghost k = self.states@.len();
        proof {
            lemma_decls_index(ds@, ds@.len());
        }
        let mut i: usize = 0;
        while i < ds.len()
            invariant
                self.inv(),
                self.states@.len() == k,
                i <= ds@.len(),
                decls_view(ds@, ds@.len()).len() == ds@.len(),
                forall|j: int| 0 <= j < ds@.len() ==> #[trigger] decls_view(ds@, ds@.len())[j] == decl_view(ds@[j]),
                self.state() == c_decls(s0, decls_view(ds@, ds@.len()), i as nat),
            decreases ds@.len() - i,
        {
            proof {
                assert(decreases_to!(*ds => ds@));
                assert(decreases_to!(ds@ => ds@[i as int]));
            }
            self.compile_decl(&ds[i]);
            i = i + 1;
        }
    }

    fn compile_decl(&mut self, decl: &Decl)
        requires
            old(self).inv(),
        ensures
            final(self).inv(),
            final(self).states@.len() == old(self).states@.len(),
            final(self).state() == c_decl(old(self).state(), decl_view(*decl)),
        decreases decl, 1nat,
    {
        match decl {
            Decl::Var(v) => {
                self.set_line(v.span);
                match &v.initializer {
                    Some(init) => self.compile_expr(init),
                    None => self.emit_op(OpCode::Nil),
                }
                self.define_variable(v.name.as_str());
            },
            Decl::Fun(f) => {
                self.set_line(f.span);
                self.compile_function(&f.function, FunctionType::Function);
                self.define_variable(f.function.name.as_str());
            },
            Decl::Class(c) => {
                proof {
                    assert(decreases_to!(*decl => (*decl)->Class_0));
                }
                self.compile_class(c);
            },
            Decl::Statement(s) => self.compile_stmt(s),
        }
    }

    /// Compile a function in a frame of its own, then emit a closure of it.
    fn compile_function(&mut self, f: &Function, ft: FunctionType)
        requires
            old(self).inv(),
        ensures
            final(self).inv(),
            final(self).states@.len() == old(self).states@.len(),
            final(self).state() == c_function(old(self).state(), fun_view(*f), ft),
        decreases f, 1nat,
    {
        let ghost st = self.state();
        let ghost k = self.states@.len();
        let ghost st_states = self.states@;
        let fresh = Self::new_state(ft);
        let ghost gfresh = fresh;
        self.states.push(fresh);
        proof {
            lemma_frames_push(st_states, gfresh);
        }
        self.begin_scope();
        let ghost s1 = self.state();
        let ps = &f.params;
        let mut i: usize = 0;
        while i < ps.len()
            invariant
                self.inv(),
                self.states@.len() == k + 1,
                i <= ps@.len(),
                self.state() == c_params(s1, names_view(ps@), i as nat),
            decreases ps@.len() - i,
        {
            self.add_local(ps[i].clone());
            i = i + 1;
        }
        assert(names_view(ps@).len() == ps@.len());
        proof {
            lemma_decls_index(f.body@, f.body@.len());
        }
        self.compile_decls(&f.body);
        if let FunctionType::Initializer = ft {
            self.emit_op(OpCode::GetLocal);
            self.emit(0);
        } else {
            self.emit_op(OpCode::Nil);
        }
        self.emit_op(OpCode::Return);
        let ghost s5 = self.state();
        let ghost s5_states = self.states@;
        let fr = self.states.pop().unwrap();
        let ghost s6 = self.state();
        proof {
            lemma_frames_drop_last(s5_states);
        }
        let upvalue_count = fr.upvalues.len();
        let ups = fr.upvalues;
        let func = Constant::Function { name: f.name.clone(), arity: f.params.len(), upvalue_count, chunk: fr.chunk };
        let idx = self.add_const(func);
        self.emit_op(OpCode::Closure);
        self.emit(idx);
        let ghost s8 = self.state();
        let ghost uv = top(s5).upvalues;
        let mut j: usize = 0;
        while j < ups.len()
            invariant
                self.inv(),
                self.states@.len() == k,
                j <= ups@.len(),
                uv == upvalues_view(ups@),
                self.state() == emit_upvalues(s8, uv, j as nat),
            decreases ups@.len() - j,
        {
            let u = &ups[j];
            self.emit(if u.is_local { 1 } else { 0 });
            self.emit(u.index);
            j = j + 1;
        }
    }

    #[verifier::rlimit(40)]
    fn compile_class(&mut self, c: &ClassDecl)
        requires
            old(self).inv(),
        ensures
            final(self).inv(),
            final(self).states@.len() == old(self).states@.len(),
            final(self).state() == c_class(
                old(self).state(),
                c.name@,
                match c.superclass {
                    Some(n) => Some(n@),
                    None => None,
                },
                funs_view(c.methods@, c.methods@.len()),
                c.span,
            ),
        decreases c, 1nat,
    {
        self.set_line(c.span);
        let name_idx = self.add_const(Constant::String(c.name.clone()));
        self.emit_op(OpCode::Class);
        self.emit(name_idx);
        let n = self.top_index();
        if self.states[n].scope_depth > 0 {
            self.add_local(c.name.clone());
        } else {
            self.emit_op(OpCode::DefineGlobal);
            self.emit(name_idx);
        }
        match &c.superclass {
            Some(sup) => {
                self.named_variable(sup.as_str());
                self.named_variable(c.name.as_str());
                self.emit_op(OpCode::Inherit);
                self.begin_scope();
                self.add_local(owned("super"));
            },
            None => {},
        }
        self.named_variable(c.name.as_str());
        let ms = &c.methods;
        let ghost s4 = self.state();
        let ghost k = self.states@.len();
        proof {
            lemma_funs_index(ms@, ms@.len());
        }
        let mut i: usize = 0;
        while i < ms.len()
            invariant
                self.inv(),
                self.states@.len() == k,
                i <= ms@.len(),
                *ms == c.methods,
                funs_view(ms@, ms@.len()).len() == ms@.len(),
                forall|j: int| 0 <= j < ms@.len() ==> #[trigger] funs_view(ms@, ms@.len())[j] == fun_view(ms@[j]),
                self.state() == c_methods(s4, funs_view(ms@, ms@.len()), i as nat),
            decreases ms@.len() - i,
        {
            proof {
                assert(decreases_to!(*c => c.methods));
                assert(decreases_to!(c.methods => c.methods@));
                assert(decreases_to!(c.methods@ => c.methods@[i as int]));
            }
            let midx = self.add_const(Constant::String(ms[i].name.clone()));
            let ft = if str_eq(ms[i].name.as_str(), "init") {
                FunctionType::Initializer
            } else {
                FunctionType::Method
            };
            self.compile_function(&ms[i], ft);
            self.emit_op(OpCode::Method);
            self.emit(midx);
            i = i + 1;
        }
        self.emit_op(OpCode::Pop);
        if c.superclass.is_some() {
            self.end_scope();
        }
    }
}

} // verus!
