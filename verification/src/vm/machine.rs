//! The bytecode virtual machine as a state machine.
//!
//! `VmState::step` carries out one instruction of the running chunk and
//! says what the host must do next. Everything the machine decides (which
//! instruction comes next, what is pushed and popped, calls and returns,
//! captured variables, classes, instances, methods, and every runtime error)
//! is decided here. What needs floating point is handed out as an action:
//! arithmetic and comparison of numbers, reading a number literal, printing
//! a number, and the built-in functions. The host performs it and hands the
//! result back as the next event.
//!
//! Heap objects live in tables and values refer to them by index. Named
//! things (globals, methods, fields) live in slot tables where a name is
//! bound at most once per owner: setting a name replaces its binding.
use vstd::prelude::*;

use crate::interpreter::callable::NativeFunction;
use crate::interpreter::value::number_eq;
use crate::text::{append_str, decimal, owned, push_decimal, str_eq};
use crate::vm::chunk::{op_of_byte, Chunk, Constant, OpCode};

verus! {

/// A value on the machine's stack. Numbers are IEEE-754 bit patterns;
/// strings and objects are indices into the machine's tables.
#[derive(Debug, Clone, Copy, PartialEq, Eq, Structural)]
pub enum VmValue {
    Nil,
    Bool(bool),
    Number(u64),
    Str(usize),
    Closure(usize),
    Native(NativeFunction),
    Class(usize),
    Instance(usize),
    Bound(usize),
}

/// A call frame: the closure it runs, the offset of the next instruction in
/// that closure's chunk, and the stack index of its slot zero.
#[derive(Debug, Clone, Copy, PartialEq, Eq, Structural)]
pub struct Frame {
    pub closure: usize,
    pub ip: usize,
    pub slot: usize,
}

/// A captured variable: still on the stack at an index, or closed over
/// with its own value.
#[derive(Debug, Clone, Copy, PartialEq, Eq, Structural)]
pub enum Cell {
    Open(usize),
    Closed(VmValue),
}

/// An arithmetic or comparison of two numbers, which the host performs.
#[derive(Debug, Clone, Copy, PartialEq, Eq, Structural)]
pub enum ArithOp {
    Add,
    Subtract,
    Multiply,
    Divide,
    Greater,
    Less,
}

/// What the host hands back before the next instruction: nothing, or the
/// result of the action it was asked for, which is pushed.
#[derive(Debug, Clone, Copy, PartialEq, Eq, Structural)]
pub enum VmEvent {
    Resume,
    Number(u64),
    Bool(bool),
}

/// What the host must do after a step.
#[derive(Debug)]
pub enum VmAction {
    /// Step again.
    Continue,
    /// Compute `a op b` on the numbers; answer with `Number` or, for a
    /// comparison, `Bool`.
    Arithmetic { op: ArithOp, a: u64, b: u64 },
    /// Compute `-a`; answer with `Number`.
    Negate { a: u64 },
    /// Read the number literal; answer with `Number`.
    ParseNumber(String),
    /// Print the text as a line.
    Print(String),
    /// Print the number as a line.
    PrintNumber(u64),
    /// Call the built-in function; answer with its result.
    CallNative(NativeFunction),
    /// The program has finished.
    Halt,
    /// The program failed with this runtime error message.
    Fail(String),
}

/// An action as a value.
pub enum ActionV {
    Continue,
    Arithmetic { op: ArithOp, a: u64, b: u64 },
    Negate { a: u64 },
    ParseNumber(Seq<char>),
    Print(Seq<char>),
    PrintNumber(u64),
    CallNative(NativeFunction),
    Halt,
    Fail(Seq<char>),
}

pub open spec fn action_view(a: VmAction) -> ActionV {
    match a {
        VmAction::Continue => ActionV::Continue,
        VmAction::Arithmetic { op, a, b } => ActionV::Arithmetic { op, a, b },
        VmAction::Negate { a } => ActionV::Negate { a },
        VmAction::ParseNumber(s) => ActionV::ParseNumber(s@),
        VmAction::Print(s) => ActionV::Print(s@),
        VmAction::PrintNumber(n) => ActionV::PrintNumber(n),
        VmAction::CallNative(f) => ActionV::CallNative(f),
        VmAction::Halt => ActionV::Halt,
        VmAction::Fail(s) => ActionV::Fail(s@),
    }
}

/// The machine's state as a value. A slot is (owner, name, value); globals
/// have owner 0, methods their class and fields their instance. A closure
/// is (the path of constant indices from the script's chunk to its
/// function's chunk, its cells). A bound method is (receiver, closure).
pub struct VmView {
    pub stack: Seq<VmValue>,
    pub frames: Seq<Frame>,
    pub globals: Seq<(usize, Seq<char>, VmValue)>,
    pub methods: Seq<(usize, Seq<char>, VmValue)>,
    pub fields: Seq<(usize, Seq<char>, VmValue)>,
    pub strings: Seq<Seq<char>>,
    pub closures: Seq<(Seq<usize>, Seq<usize>)>,
    pub cells: Seq<Cell>,
    pub classes: Seq<Seq<char>>,
    pub instances: Seq<usize>,
    pub bounds: Seq<(VmValue, usize)>,
    pub open: Seq<usize>,
}

// ---------- Functions of the program ----------

/// The function that a path of constant indices leads to from the script's
/// chunk: its name, arity, number of captured variables and chunk. The empty
/// path is the script itself.
pub open spec fn proto_at(root: Chunk, path: Seq<usize>) -> Option<(Seq<char>, usize, usize, Chunk)>
    decreases path.len(),
{
    if path.len() == 0 {
        Some(("script"@, 0usize, 0usize, root))
    } else {
        match proto_at(root, path.drop_last()) {
            Some(p) => {
                let c = p.3;
                let i = path.last();
                if i < c.constants@.len() {
                    match c.constants@[i as int] {
                        Constant::Function { name, arity, upvalue_count, chunk } => Some(
                            (name@, arity, upvalue_count, chunk),
                        ),
                        _ => None,
                    }
                } else {
                    None
                }
            },
            None => None,
        }
    }
}

/// The function a closure runs.
pub open spec fn closure_proto(root: Chunk, v: VmView, c: usize) -> Option<(Seq<char>, usize, usize, Chunk)> {
    if c < v.closures.len() {
        proto_at(root, v.closures[c as int].0)
    } else {
        None
    }
}

/// The name of a closure's function (empty when there is none).
pub open spec fn closure_name(root: Chunk, v: VmView, c: usize) -> Seq<char> {
    match closure_proto(root, v, c) {
        Some(p) => p.0,
        None => Seq::empty(),
    }
}

// ---------- Slot tables ----------

/// The last slot among the first `n` bound to `name` for `owner`.
pub open spec fn find_slot(t: Seq<(usize, Seq<char>, VmValue)>, owner: usize, name: Seq<char>, n: int) -> Option<int>
    decreases n,
{
    if n <= 0 || n > t.len() {
        None
    } else if t[n - 1].0 == owner && t[n - 1].1 == name {
        Some(n - 1)
    } else {
        find_slot(t, owner, name, n - 1)
    }
}

/// The table with `name` bound to `value` for `owner`: its slot replaced,
/// or a new slot at the end.
pub open spec fn set_slot(
    t: Seq<(usize, Seq<char>, VmValue)>,
    owner: usize,
    name: Seq<char>,
    value: VmValue,
) -> Seq<(usize, Seq<char>, VmValue)> {
    match find_slot(t, owner, name, t.len() as int) {
        Some(k) => t.update(k, (owner, name, value)),
        None => t.push((owner, name, value)),
    }
}

/// The value bound to `name` for `owner`.
pub open spec fn lookup_slot(t: Seq<(usize, Seq<char>, VmValue)>, owner: usize, name: Seq<char>) -> Option<VmValue> {
    match find_slot(t, owner, name, t.len() as int) {
        Some(k) => Some(t[k].2),
        None => None,
    }
}

/// The methods of class `from`, in table order, among the first `n` slots.
pub open spec fn methods_of(t: Seq<(usize, Seq<char>, VmValue)>, from: usize, n: int) -> Seq<(Seq<char>, VmValue)>
    decreases n,
{
    if n <= 0 || n > t.len() {
        Seq::empty()
    } else if t[n - 1].0 == from {
        methods_of(t, from, n - 1).push((t[n - 1].1, t[n - 1].2))
    } else {
        methods_of(t, from, n - 1)
    }
}

/// The table with the first `n` of `ms` bound for class `to`, in order.
pub open spec fn bind_all(
    t: Seq<(usize, Seq<char>, VmValue)>,
    to: usize,
    ms: Seq<(Seq<char>, VmValue)>,
    n: int,
) -> Seq<(usize, Seq<char>, VmValue)>
    decreases n,
{
    if n <= 0 || n > ms.len() {
        t
    } else {
        set_slot(bind_all(t, to, ms, n - 1), to, ms[n - 1].0, ms[n - 1].1)
    }
}

// ---------- Values ----------

/// Lox truthiness.
pub open spec fn falsey(x: VmValue) -> bool {
    x is Nil || x == VmValue::Bool(false)
}

/// Lox `==` on machine values: `nil`, booleans, numbers (IEEE-754) and
/// strings by their text; other values are never equal.
pub open spec fn vm_equal(v: VmView, a: VmValue, b: VmValue) -> bool {
    match (a, b) {
        (VmValue::Nil, VmValue::Nil) => true,
        (VmValue::Bool(x), VmValue::Bool(y)) => x == y,
        (VmValue::Number(x), VmValue::Number(y)) => number_eq(x, y),
        (VmValue::Str(x), VmValue::Str(y)) => x < v.strings.len() && y < v.strings.len() && v.strings[x as int]
            == v.strings[y as int],
        _ => false,
    }
}

/// How `print` shows a value that is not a number.
pub open spec fn display(root: Chunk, v: VmView, x: VmValue) -> Seq<char> {
    match x {
        VmValue::Bool(b) => if b { "true"@ } else { "false"@ },
        VmValue::Nil => "nil"@,
        VmValue::Str(i) => if i < v.strings.len() { v.strings[i as int] } else { Seq::empty() },
        VmValue::Closure(c) => "<fn "@ + closure_name(root, v, c) + ">"@,
        VmValue::Native(_) => "<native fn>"@,
        VmValue::Class(k) => if k < v.classes.len() { v.classes[k as int] } else { Seq::empty() },
        VmValue::Instance(i) => if i < v.instances.len() && v.instances[i as int] < v.classes.len() {
            v.classes[v.instances[i as int] as int] + " instance"@
        } else {
            " instance"@
        },
        VmValue::Bound(b) => if b < v.bounds.len() {
            "<fn "@ + closure_name(root, v, v.bounds[b as int].1) + ">"@
        } else {
            "<fn >"@
        },
        VmValue::Number(_) => Seq::empty(),
    }
}

// ---------- Messages ----------

pub open spec fn malformed() -> Seq<char> {
    "malformed bytecode"@
}

pub open spec fn undefined_variable(name: Seq<char>) -> Seq<char> {
    "undefined variable '"@ + name + "'"@
}

pub open spec fn undefined_property(name: Seq<char>) -> Seq<char> {
    "undefined property '"@ + name + "'"@
}

pub open spec fn arity_mismatch(expected: nat, got: nat) -> Seq<char> {
    "expected "@ + decimal(expected) + " arguments but got "@ + decimal(got)
}

pub open spec fn fail(v: VmView, msg: Seq<char>) -> (VmView, ActionV) {
    (v, ActionV::Fail(msg))
}

pub open spec fn go(v: VmView) -> (VmView, ActionV) {
    (v, ActionV::Continue)
}

pub open spec fn with_stack(v: VmView, s: Seq<VmValue>) -> VmView {
    VmView { stack: s, ..v }
}

pub open spec fn with_methods(v: VmView, m: Seq<(usize, Seq<char>, VmValue)>) -> VmView {
    VmView { methods: m, ..v }
}

pub open spec fn push(v: VmView, x: VmValue) -> VmView {
    VmView { stack: v.stack.push(x), ..v }
}

/// The stack without its top `k` values.
pub open spec fn popped(s: Seq<VmValue>, k: int) -> Seq<VmValue> {
    s.subrange(0, s.len() - k)
}

// ---------- Decoding ----------

/// An instruction with its operands, as a value.
pub enum InstrV {
    /// An instruction without operands.
    Plain(OpCode),
    /// An instruction with one byte operand.
    Byte(OpCode, u8),
    /// An instruction naming a string constant.
    Name(OpCode, Seq<char>),
    /// A jump by a distance.
    Jump(OpCode, u16),
    /// An invocation: method name and argument count.
    NameByte(OpCode, Seq<char>, u8),
    /// Load a number literal.
    NumberConst(Seq<char>),
    /// Load a string.
    StrConst(Seq<char>),
    /// Make a closure of the function constant at an index, capturing the
    /// variables given as (is it local, index) pairs.
    Closure(u8, Seq<(u8, u8)>),
    /// A closure instruction whose constant is no function: it does nothing.
    NotClosure,
}

/// What the next instruction is.
pub enum Decoded {
    /// No frame, or the frame's code has ended.
    Halt,
    /// The code or constant pool is not what the instruction needs.
    Malformed,
    /// A byte that encodes no instruction.
    Unknown(u8),
    /// An instruction and the offset just after it.
    Instr(InstrV, usize),
}

/// The string constant whose index is the byte at `i`.
pub open spec fn name_const(c: Chunk, i: int) -> Option<Seq<char>> {
    if 0 <= i < c.code@.len() && (c.code@[i] as int) < c.constants@.len() {
        match c.constants@[c.code@[i] as int] {
            Constant::String(s) => Some(s@),
            _ => None,
        }
    } else {
        None
    }
}

/// The capture pairs of a closure instruction, starting at byte `i`.
pub open spec fn capture_pairs(code: Seq<u8>, i: int, n: nat) -> Seq<(u8, u8)> {
    Seq::new(n, |k: int| (code[i + 2 * k], code[i + 2 * k + 1]))
}

/// Decode the operands of `op`, which starts just before offset `i`.
pub open spec fn decode_op(c: Chunk, op: OpCode, i: int) -> Decoded {
    let code = c.code@;
    let n = code.len() as int;
    match op {
        OpCode::GetLocal | OpCode::SetLocal | OpCode::GetUpvalue | OpCode::SetUpvalue | OpCode::Call => {
            if i < n {
                Decoded::Instr(InstrV::Byte(op, code[i]), (i + 1) as usize)
            } else {
                Decoded::Malformed
            }
        },
        OpCode::GetGlobal | OpCode::SetGlobal | OpCode::DefineGlobal | OpCode::GetProperty | OpCode::SetProperty
        | OpCode::GetSuper | OpCode::Class | OpCode::Method => match name_const(c, i) {
            Some(s) => Decoded::Instr(InstrV::Name(op, s), (i + 1) as usize),
            None => Decoded::Malformed,
        },
        OpCode::Jump | OpCode::JumpIfFalse | OpCode::Loop => {
            if i + 1 < n {
                Decoded::Instr(InstrV::Jump(op, (code[i] * 256 + code[i + 1]) as u16), (i + 2) as usize)
            } else {
                Decoded::Malformed
            }
        },
        OpCode::Invoke | OpCode::SuperInvoke => match name_const(c, i) {
            Some(s) => if i + 1 < n {
                Decoded::Instr(InstrV::NameByte(op, s, code[i + 1]), (i + 2) as usize)
            } else {
                Decoded::Malformed
            },
            None => Decoded::Malformed,
        },
        OpCode::Constant => {
            if i < n && (code[i] as int) < c.constants@.len() {
                match c.constants@[code[i] as int] {
                    Constant::Number(t) => Decoded::Instr(InstrV::NumberConst(t@), (i + 1) as usize),
                    Constant::String(t) => Decoded::Instr(InstrV::StrConst(t@), (i + 1) as usize),
                    Constant::Function { .. } => Decoded::Malformed,
                }
            } else {
                Decoded::Malformed
            }
        },
        OpCode::Closure => {
            if i < n && (code[i] as int) < c.constants@.len() {
                match c.constants@[code[i] as int] {
                    Constant::Function { upvalue_count, .. } => {
                        if i + 1 + 2 * upvalue_count <= n {
                            Decoded::Instr(
                                InstrV::Closure(code[i], capture_pairs(code, i + 1, upvalue_count as nat)),
                                (i + 1 + 2 * upvalue_count) as usize,
                            )
                        } else {
                            Decoded::Malformed
                        }
                    },
                    _ => Decoded::Instr(InstrV::NotClosure, (i + 1) as usize),
                }
            } else {
                Decoded::Malformed
            }
        },
        _ => Decoded::Instr(InstrV::Plain(op), i as usize),
    }
}

/// The next instruction of the running frame.
pub open spec fn decode(root: Chunk, v: VmView) -> Decoded {
    if v.frames.len() == 0 {
        Decoded::Halt
    } else {
        let f = v.frames.last();
        match closure_proto(root, v, f.closure) {
            None => Decoded::Malformed,
            Some(p) => {
                let code = p.3.code@;
                if f.ip >= code.len() {
                    Decoded::Halt
                } else {
                    match op_of_byte(code[f.ip as int]) {
                        None => Decoded::Unknown(code[f.ip as int]),
                        Some(op) => decode_op(p.3, op, f.ip + 1),
                    }
                }
            },
        }
    }
}

// ---------- Calls ----------

/// Push a frame for closure `c`, whose slot zero is at `base`, when it
/// takes `argc` arguments.
pub open spec fn enter(root: Chunk, v: VmView, c: usize, argc: usize, base: int) -> (VmView, ActionV) {
    match closure_proto(root, v, c) {
        None => fail(v, malformed()),
        Some(p) => if argc != p.1 {
            fail(v, arity_mismatch(p.1 as nat, argc as nat))
        } else {
            go(VmView { frames: v.frames.push(Frame { closure: c, ip: 0, slot: base as usize }), ..v })
        },
    }
}

/// Call `callee` with the `argc` values above it on the stack.
pub open spec fn call_value(root: Chunk, v: VmView, callee: VmValue, argc: usize) -> (VmView, ActionV) {
    let n = v.stack.len() as int;
    let base = n - argc - 1;
    if base < 0 {
        fail(v, malformed())
    } else {
        match callee {
            VmValue::Closure(c) => enter(root, v, c, argc, base),
            VmValue::Native(f) => (with_stack(v, v.stack.subrange(0, base)), ActionV::CallNative(f)),
            VmValue::Class(k) => {
                let inst = VmView {
                    stack: v.stack.update(base, VmValue::Instance(v.instances.len() as usize)),
                    instances: v.instances.push(k),
                    ..v
                };
                match lookup_slot(v.methods, k, "init"@) {
                    Some(VmValue::Closure(c)) => match closure_proto(root, v, c) {
                        None => fail(v, malformed()),
                        Some(p) => if argc != p.1 {
                            fail(v, arity_mismatch(p.1 as nat, argc as nat))
                        } else {
                            go(VmView { frames: inst.frames.push(Frame { closure: c, ip: 0, slot: base as usize }), ..inst })
                        },
                    },
                    Some(_) => fail(v, malformed()),
                    None => if argc != 0 {
                        fail(v, arity_mismatch(0, argc as nat))
                    } else {
                        go(inst)
                    },
                }
            },
            VmValue::Bound(b) => {
                if b < v.bounds.len() {
                    let (recv, c) = v.bounds[b as int];
                    match closure_proto(root, v, c) {
                        None => fail(v, malformed()),
                        Some(p) => if argc != p.1 {
                            fail(v, arity_mismatch(p.1 as nat, argc as nat))
                        } else {
                            go(
                                VmView {
                                    stack: v.stack.update(base, recv),
                                    frames: v.frames.push(Frame { closure: c, ip: 0, slot: base as usize }),
                                    ..v
                                },
                            )
                        },
                    }
                } else {
                    fail(v, malformed())
                }
            },
            _ => fail(v, "can only call functions and classes"@),
        }
    }
}

/// Call the method `name` of class `k` with the `argc` values above the
/// receiver; the arity is not checked.
pub open spec fn invoke_from_class(v: VmView, k: usize, name: Seq<char>, argc: usize) -> (VmView, ActionV) {
    match lookup_slot(v.methods, k, name) {
        Some(VmValue::Closure(c)) => {
            let base = v.stack.len() - argc - 1;
            if base < 0 {
                fail(v, malformed())
            } else {
                go(VmView { frames: v.frames.push(Frame { closure: c, ip: 0, slot: base as usize }), ..v })
            }
        },
        Some(_) => fail(v, malformed()),
        None => fail(v, undefined_property(name)),
    }
}

// ---------- Captured variables ----------

/// The first open cell, from position `i` of the open list on, that
/// refers to stack index `target`.
pub open spec fn find_open(v: VmView, target: usize, i: int) -> Option<int>
    decreases v.open.len() - i,
{
    if i < 0 || i >= v.open.len() {
        None
    } else if v.open[i] < v.cells.len() && v.cells[v.open[i] as int] == Cell::Open(target) {
        Some(i)
    } else {
        find_open(v, target, i + 1)
    }
}

/// The cell for stack index `target`: an open one that refers to it, or a
/// new one.
pub open spec fn capture(v: VmView, target: usize) -> (VmView, usize) {
    match find_open(v, target, 0) {
        Some(i) => (v, v.open[i]),
        None => (
            VmView { cells: v.cells.push(Cell::Open(target)), open: v.open.push(v.cells.len() as usize), ..v },
            v.cells.len() as usize,
        ),
    }
}

/// Every capture pair can be carried out in frame `f`: a local one names
/// a stack index, an enclosing one a cell of the running closure.
pub open spec fn captures_ok(v: VmView, f: Frame, caps: Seq<(u8, u8)>) -> bool {
    forall|k: int|
        0 <= k < caps.len() ==> if (#[trigger] caps[k]).0 == 1 {
            f.slot + caps[k].1 <= usize::MAX
        } else {
            f.closure < v.closures.len() && (caps[k].1 as int) < v.closures[f.closure as int].1.len()
        }
}

/// The cells of the first `k` capture pairs, made in frame `f`.
pub open spec fn capture_all(v: VmView, f: Frame, caps: Seq<(u8, u8)>, k: nat) -> (VmView, Seq<usize>)
    decreases k,
{
    if k == 0 || k > caps.len() {
        (v, Seq::empty())
    } else {
        let (v1, cs) = capture_all(v, f, caps, (k - 1) as nat);
        let (is_local, index) = caps[k - 1];
        if is_local == 1 {
            let (v2, cell) = capture(v1, (f.slot + index) as usize);
            (v2, cs.push(cell))
        } else {
            (v1, cs.push(v1.closures[f.closure as int].1[index as int]))
        }
    }
}

/// Close every open cell, from position `i` of the open list on, that
/// refers to stack index `last` or above (and below the stack's top): it
/// takes the value there and leaves the open list.
pub open spec fn close_from(v: VmView, last: usize, i: int) -> VmView
    decreases v.open.len() - i,
{
    if i < 0 || i >= v.open.len() {
        v
    } else if v.open[i] >= v.cells.len() {
        close_from(v, last, i + 1)
    } else {
        let id = v.open[i];
        match v.cells[id as int] {
            Cell::Open(idx) => if idx >= last && idx < v.stack.len() {
                close_from(
                    VmView {
                        cells: v.cells.update(id as int, Cell::Closed(v.stack[idx as int])),
                        open: v.open.remove(i),
                        ..v
                    },
                    last,
                    i,
                )
            } else {
                close_from(v, last, i + 1)
            },
            Cell::Closed(_) => close_from(v, last, i + 1),
        }
    }
}

/// Closing cells changes only the cells and the open list.
pub proof fn lemma_close_from(v: VmView, last: usize, i: int)
    ensures
        close_from(v, last, i) == (VmView { cells: close_from(v, last, i).cells, open: close_from(v, last, i).open, ..v }),
    decreases v.open.len() - i,
{
    if 0 <= i < v.open.len() {
        if v.open[i] >= v.cells.len() {
            lemma_close_from(v, last, i + 1);
        } else {
            let id = v.open[i];
            match v.cells[id as int] {
                Cell::Open(idx) => if idx >= last && idx < v.stack.len() {
                    let w = VmView {
                        cells: v.cells.update(id as int, Cell::Closed(v.stack[idx as int])),
                        open: v.open.remove(i),
                        ..v
                    };
                    lemma_close_from(w, last, i);
                } else {
                    lemma_close_from(v, last, i + 1);
                },
                Cell::Closed(_) => lemma_close_from(v, last, i + 1),
            }
        }
    }
}

/// The cell a closure's upvalue `u` refers to.
pub open spec fn upvalue_cell(v: VmView, f: Frame, u: u8) -> Option<usize> {
    if f.closure < v.closures.len() && (u as int) < v.closures[f.closure as int].1.len()
        && v.closures[f.closure as int].1[u as int] < v.cells.len() {
        Some(v.closures[f.closure as int].1[u as int])
    } else {
        None
    }
}

// ---------- One instruction ----------

/// Pop two number operands of a binary instruction for the host.
pub open spec fn binary(v: VmView, op: ArithOp) -> (VmView, ActionV) {
    let n = v.stack.len() as int;
    if n < 2 {
        fail(v, malformed())
    } else {
        match (v.stack[n - 2], v.stack[n - 1]) {
            (VmValue::Number(a), VmValue::Number(b)) => (
                with_stack(v, popped(v.stack, 2)),
                ActionV::Arithmetic { op, a, b },
            ),
            _ => fail(v, "operands must be numbers"@),
        }
    }
}

/// An instruction without operands.
pub open spec fn run_plain(root: Chunk, v: VmView, f: Frame, op: OpCode) -> (VmView, ActionV) {
    let n = v.stack.len() as int;
    match op {
        OpCode::Nil => go(push(v, VmValue::Nil)),
        OpCode::True => go(push(v, VmValue::Bool(true))),
        OpCode::False => go(push(v, VmValue::Bool(false))),
        OpCode::Pop => if n < 1 { fail(v, malformed()) } else { go(with_stack(v, popped(v.stack, 1))) },
        OpCode::Equal => if n < 2 {
            fail(v, malformed())
        } else {
            go(push(with_stack(v, popped(v.stack, 2)), VmValue::Bool(vm_equal(v, v.stack[n - 2], v.stack[n - 1]))))
        },
        OpCode::Greater => binary(v, ArithOp::Greater),
        OpCode::Less => binary(v, ArithOp::Less),
        OpCode::Subtract => binary(v, ArithOp::Subtract),
        OpCode::Multiply => binary(v, ArithOp::Multiply),
        OpCode::Divide => binary(v, ArithOp::Divide),
        OpCode::Add => if n < 2 {
            fail(v, malformed())
        } else {
            match (v.stack[n - 2], v.stack[n - 1]) {
                (VmValue::Number(a), VmValue::Number(b)) => (
                    with_stack(v, popped(v.stack, 2)),
                    ActionV::Arithmetic { op: ArithOp::Add, a, b },
                ),
                (VmValue::Str(x), VmValue::Str(y)) => if x < v.strings.len() && y < v.strings.len() {
                    go(
                        VmView {
                            stack: popped(v.stack, 2).push(VmValue::Str(v.strings.len() as usize)),
                            strings: v.strings.push(v.strings[x as int] + v.strings[y as int]),
                            ..v
                        },
                    )
                } else {
                    fail(v, malformed())
                },
                _ => fail(v, "operands must be two numbers or two strings"@),
            }
        },
        OpCode::Not => if n < 1 {
            fail(v, malformed())
        } else {
            go(push(with_stack(v, popped(v.stack, 1)), VmValue::Bool(falsey(v.stack[n - 1]))))
        },
        OpCode::Negate => if n < 1 {
            fail(v, malformed())
        } else {
            match v.stack[n - 1] {
                VmValue::Number(a) => (with_stack(v, popped(v.stack, 1)), ActionV::Negate { a }),
                _ => fail(v, "operand must be a number"@),
            }
        },
        OpCode::Print => if n < 1 {
            fail(v, malformed())
        } else {
            match v.stack[n - 1] {
                VmValue::Number(a) => (with_stack(v, popped(v.stack, 1)), ActionV::PrintNumber(a)),
                x => (with_stack(v, popped(v.stack, 1)), ActionV::Print(display(root, v, x))),
            }
        },
        OpCode::CloseUpvalue => if n < 1 {
            fail(v, malformed())
        } else {
            let v1 = close_from(v, (n - 1) as usize, 0);
            go(with_stack(v1, popped(v1.stack, 1)))
        },
        OpCode::Return => if n < 1 {
            fail(v, malformed())
        } else {
            let result = v.stack[n - 1];
            let v1 = VmView { stack: popped(v.stack, 1), frames: v.frames.drop_last(), ..v };
            if v1.frames.len() == 0 {
                if v1.stack.len() > 0 {
                    (with_stack(v1, popped(v1.stack, 1)), ActionV::Halt)
                } else {
                    (v1, ActionV::Halt)
                }
            } else {
                let v2 = close_from(v1, f.slot, 0);
                if f.slot <= v2.stack.len() {
                    go(with_stack(v2, v2.stack.subrange(0, f.slot as int).push(result)))
                } else {
                    go(push(v2, result))
                }
            }
        },
        OpCode::Inherit => if n < 2 {
            fail(v, malformed())
        } else {
            match (v.stack[n - 2], v.stack[n - 1]) {
                (VmValue::Class(sup), VmValue::Class(sub)) => {
                    let ms = methods_of(v.methods, sup, v.methods.len() as int);
                    go(
                        VmView {
                            stack: popped(v.stack, 1),
                            methods: bind_all(v.methods, sub, ms, ms.len() as int),
                            ..v
                        },
                    )
                },
                _ => fail(v, "superclass must be a class"@),
            }
        },
        _ => fail(v, malformed()),
    }
}

/// An instruction with one byte operand.
pub open spec fn run_byte(root: Chunk, v: VmView, f: Frame, op: OpCode, b: u8) -> (VmView, ActionV) {
    let n = v.stack.len() as int;
    match op {
        OpCode::GetLocal => if f.slot + b < n {
            go(push(v, v.stack[f.slot + b]))
        } else {
            fail(v, malformed())
        },
        OpCode::SetLocal => if n >= 1 && f.slot + b < n {
            go(with_stack(v, v.stack.update(f.slot + b, v.stack[n - 1])))
        } else {
            fail(v, malformed())
        },
        OpCode::GetUpvalue => match upvalue_cell(v, f, b) {
            Some(id) => match v.cells[id as int] {
                Cell::Open(i) => if i < n { go(push(v, v.stack[i as int])) } else { fail(v, malformed()) },
                Cell::Closed(x) => go(push(v, x)),
            },
            None => fail(v, malformed()),
        },
        OpCode::SetUpvalue => match upvalue_cell(v, f, b) {
            Some(id) => if n < 1 {
                fail(v, malformed())
            } else {
                match v.cells[id as int] {
                    Cell::Open(i) => if i < n {
                        go(with_stack(v, v.stack.update(i as int, v.stack[n - 1])))
                    } else {
                        fail(v, malformed())
                    },
                    Cell::Closed(_) => go(VmView { cells: v.cells.update(id as int, Cell::Closed(v.stack[n - 1])), ..v }),
                }
            },
            None => fail(v, malformed()),
        },
        OpCode::Call => if n < b + 1 {
            fail(v, malformed())
        } else {
            call_value(root, v, v.stack[n - 1 - b], b as usize)
        },
        _ => fail(v, malformed()),
    }
}

/// An instruction naming a string constant.
pub open spec fn run_name(v: VmView, op: OpCode, name: Seq<char>) -> (VmView, ActionV) {
    let n = v.stack.len() as int;
    match op {
        OpCode::GetGlobal => match lookup_slot(v.globals, 0, name) {
            Some(x) => go(push(v, x)),
            None => fail(v, undefined_variable(name)),
        },
        OpCode::SetGlobal => match find_slot(v.globals, 0, name, v.globals.len() as int) {
            Some(k) => if n < 1 {
                fail(v, malformed())
            } else {
                go(VmView { globals: v.globals.update(k, (0usize, name, v.stack[n - 1])), ..v })
            },
            None => fail(v, undefined_variable(name)),
        },
        OpCode::DefineGlobal => if n < 1 {
            fail(v, malformed())
        } else {
            go(VmView { stack: popped(v.stack, 1), globals: set_slot(v.globals, 0, name, v.stack[n - 1]), ..v })
        },
        OpCode::GetProperty => if n < 1 {
            fail(v, malformed())
        } else {
            match v.stack[n - 1] {
                VmValue::Instance(i) => match lookup_slot(v.fields, i, name) {
                    Some(x) => go(push(with_stack(v, popped(v.stack, 1)), x)),
                    None => if i < v.instances.len() {
                        match lookup_slot(v.methods, v.instances[i as int], name) {
                            Some(VmValue::Closure(c)) => go(
                                VmView {
                                    stack: popped(v.stack, 1).push(VmValue::Bound(v.bounds.len() as usize)),
                                    bounds: v.bounds.push((VmValue::Instance(i), c)),
                                    ..v
                                },
                            ),
                            Some(_) => fail(v, malformed()),
                            None => fail(v, undefined_property(name)),
                        }
                    } else {
                        fail(v, malformed())
                    },
                },
                _ => fail(v, "only instances have properties"@),
            }
        },
        OpCode::SetProperty => if n < 2 {
            fail(v, malformed())
        } else {
            match v.stack[n - 2] {
                VmValue::Instance(i) => go(
                    VmView {
                        stack: popped(v.stack, 2).push(v.stack[n - 1]),
                        fields: set_slot(v.fields, i, name, v.stack[n - 1]),
                        ..v
                    },
                ),
                _ => fail(v, "only instances have fields"@),
            }
        },
        OpCode::GetSuper => if n < 2 {
            fail(v, malformed())
        } else {
            match v.stack[n - 1] {
                VmValue::Class(k) => match lookup_slot(v.methods, k, name) {
                    Some(VmValue::Closure(c)) => go(
                        VmView {
                            stack: popped(v.stack, 2).push(VmValue::Bound(v.bounds.len() as usize)),
                            bounds: v.bounds.push((v.stack[n - 2], c)),
                            ..v
                        },
                    ),
                    Some(_) => fail(v, malformed()),
                    None => fail(v, undefined_property(name)),
                },
                _ => go(with_stack(v, popped(v.stack, 2))),
            }
        },
        OpCode::Class => go(
            VmView { stack: v.stack.push(VmValue::Class(v.classes.len() as usize)), classes: v.classes.push(name), ..v },
        ),
        OpCode::Method => if n < 1 {
            fail(v, malformed())
        } else {
            let rest = popped(v.stack, 1);
            match v.stack[n - 1] {
                VmValue::Closure(c) => if rest.len() > 0 && rest.last() is Class {
                    go(VmView { stack: rest, methods: set_slot(v.methods, rest.last()->Class_0, name, VmValue::Closure(c)), ..v })
                } else {
                    go(with_stack(v, rest))
                },
                _ => go(with_stack(v, rest)),
            }
        },
        _ => fail(v, malformed()),
    }
}

/// A jump: forward by `o`, forward by `o` when the top of the stack is
/// false, or back by `o`.
pub open spec fn run_jump(v: VmView, f: Frame, op: OpCode, o: u16) -> (VmView, ActionV) {
    let last = v.frames.len() - 1;
    let ahead = VmView { frames: v.frames.update(last, Frame { ip: (f.ip + o) as usize, ..f }), ..v };
    match op {
        OpCode::Jump => if f.ip + o <= usize::MAX { go(ahead) } else { fail(v, malformed()) },
        OpCode::JumpIfFalse => if v.stack.len() < 1 {
            fail(v, malformed())
        } else if falsey(v.stack.last()) {
            if f.ip + o <= usize::MAX { go(ahead) } else { fail(v, malformed()) }
        } else {
            go(v)
        },
        OpCode::Loop => if o <= f.ip {
            go(VmView { frames: v.frames.update(last, Frame { ip: (f.ip - o) as usize, ..f }), ..v })
        } else {
            fail(v, malformed())
        },
        _ => fail(v, malformed()),
    }
}

/// A method invocation: `Invoke` on the receiver below the arguments, or
/// `SuperInvoke` on the superclass on top of them.
pub open spec fn run_invoke(root: Chunk, v: VmView, op: OpCode, name: Seq<char>, argc: u8) -> (VmView, ActionV) {
    let n = v.stack.len() as int;
    match op {
        OpCode::Invoke => if n < argc + 1 {
            fail(v, malformed())
        } else {
            let r = n - 1 - argc;
            match v.stack[r] {
                VmValue::Instance(i) => match lookup_slot(v.fields, i, name) {
                    Some(x) => call_value(root, with_stack(v, v.stack.update(r, x)), x, argc as usize),
                    None => if i < v.instances.len() {
                        invoke_from_class(v, v.instances[i as int], name, argc as usize)
                    } else {
                        fail(v, malformed())
                    },
                },
                _ => fail(v, "only instances have methods"@),
            }
        },
        OpCode::SuperInvoke => if n < 1 {
            fail(v, malformed())
        } else {
            let v1 = with_stack(v, popped(v.stack, 1));
            match v.stack[n - 1] {
                VmValue::Class(k) => invoke_from_class(v1, k, name, argc as usize),
                _ => go(v1),
            }
        },
        _ => fail(v, malformed()),
    }
}

/// Make a closure of the function constant `idx` of the running function.
pub open spec fn run_closure(v: VmView, f: Frame, idx: u8, caps: Seq<(u8, u8)>) -> (VmView, ActionV) {
    if f.closure < v.closures.len() && captures_ok(v, f, caps) {
        let (v1, cells) = capture_all(v, f, caps, caps.len());
        go(
            VmView {
                stack: v1.stack.push(VmValue::Closure(v1.closures.len() as usize)),
                closures: v1.closures.push((v.closures[f.closure as int].0.push(idx as usize), cells)),
                ..v1
            },
        )
    } else {
        fail(v, malformed())
    }
}

/// Carry out a decoded instruction in frame `f`, the top frame of `v`.
pub open spec fn run(root: Chunk, v: VmView, f: Frame, ins: InstrV) -> (VmView, ActionV) {
    match ins {
        InstrV::Plain(op) => run_plain(root, v, f, op),
        InstrV::Byte(op, b) => run_byte(root, v, f, op, b),
        InstrV::Name(op, name) => run_name(v, op, name),
        InstrV::Jump(op, o) => run_jump(v, f, op, o),
        InstrV::NameByte(op, name, argc) => run_invoke(root, v, op, name, argc),
        InstrV::NumberConst(t) => (v, ActionV::ParseNumber(t)),
        InstrV::StrConst(t) => go(
            VmView { stack: v.stack.push(VmValue::Str(v.strings.len() as usize)), strings: v.strings.push(t), ..v },
        ),
        InstrV::Closure(idx, caps) => run_closure(v, f, idx, caps),
        InstrV::NotClosure => go(v),
    }
}

/// The state after the host's answer is pushed.
pub open spec fn apply_event(v: VmView, e: VmEvent) -> VmView {
    match e {
        VmEvent::Resume => v,
        VmEvent::Number(a) => push(v, VmValue::Number(a)),
        VmEvent::Bool(b) => push(v, VmValue::Bool(b)),
    }
}

/// One step of the machine: take the host's answer, then carry out the
/// next instruction of the running frame.
pub open spec fn vm_step(root: Chunk, v0: VmView, e: VmEvent) -> (VmView, ActionV) {
    let v = apply_event(v0, e);
    match decode(root, v) {
        Decoded::Halt => (v, ActionV::Halt),
        Decoded::Malformed => fail(v, malformed()),
        Decoded::Unknown(b) => fail(v, "unknown opcode "@ + decimal(b as nat)),
        Decoded::Instr(ins, next) => {
            let f = Frame { ip: next, ..v.frames.last() };
            run(root, VmView { frames: v.frames.update(v.frames.len() - 1, f), ..v }, f, ins)
        },
    }
}

/// Law: a machine that has halted stays halted. Stepping it again changes
/// nothing and halts again.
pub proof fn halted_stays_halted(root: Chunk, v: VmView, e: VmEvent)
    requires
        vm_step(root, v, e).1 is Halt,
    ensures
        vm_step(root, vm_step(root, v, e).0, VmEvent::Resume) == (vm_step(root, v, e).0, ActionV::Halt),
{
    let w = apply_event(v, e);
    match decode(root, w) {
        Decoded::Instr(ins, next) => {
            let f = Frame { ip: next, ..w.frames.last() };
            let w1 = VmView { frames: w.frames.update(w.frames.len() - 1, f), ..w };
            assert(w1.frames.len() == w.frames.len());
        },
        _ => {},
    }
}

// ========== The machine ==========

/// A named binding in a slot table.
struct Slot {
    owner: usize,
    name: String,
    value: VmValue,
}

/// A closure: the path to its function and its cells.
struct ClosureObj {
    path: Vec<usize>,
    cells: Vec<usize>,
}

spec fn slots_view(t: Seq<Slot>) -> Seq<(usize, Seq<char>, VmValue)> {
    t.map_values(|x: Slot| (x.owner, x.name@, x.value))
}

spec fn strings_view(t: Seq<String>) -> Seq<Seq<char>> {
    t.map_values(|x: String| x@)
}

spec fn closures_view(t: Seq<ClosureObj>) -> Seq<(Seq<usize>, Seq<usize>)> {
    t.map_values(|x: ClosureObj| (x.path@, x.cells@))
}

/// The state of the virtual machine running a script's chunk.
pub struct VmState {
    script: Chunk,
    stack: Vec<VmValue>,
    frames: Vec<Frame>,
    globals: Vec<Slot>,
    methods: Vec<Slot>,
    fields: Vec<Slot>,
    strings: Vec<String>,
    closures: Vec<ClosureObj>,
    cells: Vec<Cell>,
    classes: Vec<String>,
    instances: Vec<usize>,
    bounds: Vec<(VmValue, usize)>,
    open: Vec<usize>,
}

/// The state in which a script starts: its closure on the stack and in the
/// one frame, and `clock` the one global.
pub open spec fn initial_view() -> VmView {
    VmView {
        stack: seq![VmValue::Closure(0)],
        frames: seq![Frame { closure: 0, ip: 0, slot: 0 }],
        globals: seq![(0usize, "clock"@, VmValue::Native(NativeFunction::Clock))],
        methods: Seq::empty(),
        fields: Seq::empty(),
        strings: Seq::empty(),
        closures: seq![(Seq::<usize>::empty(), Seq::<usize>::empty())],
        cells: Seq::empty(),
        classes: Seq::empty(),
        instances: Seq::empty(),
        bounds: Seq::empty(),
        open: Seq::empty(),
    }
}

/// The last slot bound to `name` for `owner`.
fn find_slot_exec(t: &Vec<Slot>, owner: usize, name: &str) -> (r: Option<usize>)
    ensures
        match r {
            Some(i) => find_slot(slots_view(t@), owner, name@, t@.len() as int) == Some(i as int) && i < t@.len(),
            None => find_slot(slots_view(t@), owner, name@, t@.len() as int) is None,
        },
{
    let ghost sv = slots_view(t@);
    let mut i = t.len();
    while i > 0
        invariant
            i <= t@.len(),
            sv == slots_view(t@),
            find_slot(sv, owner, name@, t@.len() as int) == find_slot(sv, owner, name@, i as int),
        decreases i,
    {
        if t[i - 1].owner == owner && str_eq(t[i - 1].name.as_str(), name) {
            return Some(i - 1);
        }
        i = i - 1;
    }
    None
}

proof fn lemma_find_slot(t: Seq<(usize, Seq<char>, VmValue)>, owner: usize, name: Seq<char>, n: int)
    ensures
        find_slot(t, owner, name, n) matches Some(k) ==> 0 <= k < n <= t.len() && t[k].0 == owner && t[k].1 == name,
    decreases n,
{
    if n > 0 && n <= t.len() {
        lemma_find_slot(t, owner, name, n - 1);
    }
}

/// Bind `name` to `value` for `owner`.
fn set_slot_exec(t: &mut Vec<Slot>, owner: usize, name: String, value: VmValue)
    ensures
        slots_view(final(t)@) == set_slot(slots_view(old(t)@), owner, name@, value),
{
    let ghost nm = name@;
    proof {
        lemma_find_slot(slots_view(t@), owner, nm, t@.len() as int);
    }
    match find_slot_exec(t, owner, name.as_str()) {
        Some(k) => {
            t.set(k, Slot { owner, name, value });
        },
        None => {
            t.push(Slot { owner, name, value });
        },
    }
    assert(slots_view(t@) =~= set_slot(slots_view(old(t)@), owner, nm, value));
}

proof fn lemma_proto_none(root: Chunk, path: Seq<usize>, i: int)
    requires
        0 <= i <= path.len(),
        proto_at(root, path.take(i)) is None,
    ensures
        proto_at(root, path) is None,
    decreases path.len() - i,
{
    if i < path.len() {
        assert(path.take(i + 1).drop_last() =~= path.take(i));
        lemma_proto_none(root, path, i + 1);
    } else {
        assert(path.take(i) =~= path);
    }
}

/// The function a path leads to: name, arity, captured count and chunk.
fn proto_of<'a>(root: &'a Chunk, path: &Vec<usize>) -> (r: Option<(&'a str, usize, usize, &'a Chunk)>)
    ensures
        match proto_at(*root, path@) {
            Some(p) => r matches Some(q) && q.0@ == p.0 && q.1 == p.1 && q.2 == p.2 && *q.3 == p.3,
            None => r is None,
        },
{
    let mut name: &'a str = "script";
    let mut arity: usize = 0;
    let mut upc: usize = 0;
    let mut c: &'a Chunk = root;
    let mut i: usize = 0;
    assert(path@.take(0) =~= Seq::<usize>::empty());
    while i < path.len()
        invariant
            i <= path@.len(),
            proto_at(*root, path@.take(i as int)) == Some((name@, arity, upc, *c)),
        decreases path@.len() - i,
    {
        let k = path[i];
        assert(path@.take(i + 1).drop_last() =~= path@.take(i as int));
        if k >= c.constants.len() {
            proof {
                lemma_proto_none(*root, path@, i + 1);
            }
            return None;
        }
        match &c.constants[k] {
            Constant::Function { name: nm, arity: a, upvalue_count: u, chunk } => {
                name = nm.as_str();
                arity = *a;
                upc = *u;
                c = chunk;
            },
            _ => {
                proof {
                    lemma_proto_none(*root, path@, i + 1);
                }
                return None;
            },
        }
        i = i + 1;
    }
    assert(path@.take(i as int) =~= path@);
    Some((name, arity, upc, c))
}

/// An instruction with its operands.
enum Instr {
    Plain(OpCode),
    Byte(OpCode, u8),
    Name(OpCode, String),
    Jump(OpCode, u16),
    NameByte(OpCode, String, u8),
    NumberConst(String),
    StrConst(String),
    Closure(u8, Vec<(u8, u8)>),
    NotClosure,
}

spec fn instr_view(i: Instr) -> InstrV {
    match i {
        Instr::Plain(op) => InstrV::Plain(op),
        Instr::Byte(op, b) => InstrV::Byte(op, b),
        Instr::Name(op, s) => InstrV::Name(op, s@),
        Instr::Jump(op, o) => InstrV::Jump(op, o),
        Instr::NameByte(op, s, b) => InstrV::NameByte(op, s@, b),
        Instr::NumberConst(s) => InstrV::NumberConst(s@),
        Instr::StrConst(s) => InstrV::StrConst(s@),
        Instr::Closure(i, caps) => InstrV::Closure(i, caps@),
        Instr::NotClosure => InstrV::NotClosure,
    }
}

enum Dec {
    Halt,
    Malformed,
    Unknown(u8),
    Instr(Instr, usize),
}

spec fn dec_view(d: Dec) -> Decoded {
    match d {
        Dec::Halt => Decoded::Halt,
        Dec::Malformed => Decoded::Malformed,
        Dec::Unknown(b) => Decoded::Unknown(b),
        Dec::Instr(i, n) => Decoded::Instr(instr_view(i), n),
    }
}

fn name_const_exec(c: &Chunk, i: usize) -> (r: Option<String>)
    ensures
        match name_const(*c, i as int) {
            Some(s) => r matches Some(t) && t@ == s,
            None => r is None,
        },
{
    if i < c.code.len() && (c.code[i] as usize) < c.constants.len() {
        match &c.constants[c.code[i] as usize] {
            Constant::String(s) => Some(s.clone()),
            _ => None,
        }
    } else {
        None
    }
}

fn decode_op_exec(c: &Chunk, op: OpCode, i: usize) -> (d: Dec)
    ensures
        dec_view(d) == decode_op(*c, op, i as int),
{
    let n = c.code.len();
    match op {
        OpCode::GetLocal | OpCode::SetLocal | OpCode::GetUpvalue | OpCode::SetUpvalue | OpCode::Call => {
            if i < n {
                Dec::Instr(Instr::Byte(op, c.code[i]), i + 1)
            } else {
                Dec::Malformed
            }
        },
        OpCode::GetGlobal | OpCode::SetGlobal | OpCode::DefineGlobal | OpCode::GetProperty | OpCode::SetProperty
        | OpCode::GetSuper | OpCode::Class | OpCode::Method => match name_const_exec(c, i) {
            Some(s) => Dec::Instr(Instr::Name(op, s), i + 1),
            None => Dec::Malformed,
        },
        OpCode::Jump | OpCode::JumpIfFalse | OpCode::Loop => {
            if i < n && i + 1 < n {
                let o = (c.code[i] as u16) * 256 + (c.code[i + 1] as u16);
                Dec::Instr(Instr::Jump(op, o), i + 2)
            } else {
                Dec::Malformed
            }
        },
        OpCode::Invoke | OpCode::SuperInvoke => match name_const_exec(c, i) {
            Some(s) => if i + 1 < n {
                Dec::Instr(Instr::NameByte(op, s, c.code[i + 1]), i + 2)
            } else {
                Dec::Malformed
            },
            None => Dec::Malformed,
        },
        OpCode::Constant => {
            if i < n && (c.code[i] as usize) < c.constants.len() {
                match &c.constants[c.code[i] as usize] {
                    Constant::Number(t) => Dec::Instr(Instr::NumberConst(t.clone()), i + 1),
                    Constant::String(t) => Dec::Instr(Instr::StrConst(t.clone()), i + 1),
                    Constant::Function { .. } => Dec::Malformed,
                }
            } else {
                Dec::Malformed
            }
        },
        OpCode::Closure => {
            if i < n && (c.code[i] as usize) < c.constants.len() {
                let idx = c.code[i];
                match &c.constants[idx as usize] {
                    Constant::Function { upvalue_count, .. } => {
                        let upc = *upvalue_count;
                        if upc <= (n - i - 1) / 2 {
                            let mut caps: Vec<(u8, u8)> = Vec::new();
                            let mut k: usize = 0;
                            while k < upc
                                invariant
                                    k <= upc,
                                    n == c.code@.len(),
                                    i < n,
                                    upc <= (n - i - 1) / 2,
                                    caps@ =~= capture_pairs(c.code@, i + 1, k as nat),
                                decreases upc - k,
                            {
                                let a = c.code[i + 1 + 2 * k];
                                let b = c.code[i + 2 + 2 * k];
                                caps.push((a, b));
                                k = k + 1;
                            }
                            Dec::Instr(Instr::Closure(idx, caps), i + 1 + 2 * upc)
                        } else {
                            Dec::Malformed
                        }
                    },
                    _ => Dec::Instr(Instr::NotClosure, i + 1),
                }
            } else {
                Dec::Malformed
            }
        },
        _ => Dec::Instr(Instr::Plain(op), i),
    }
}

fn malformed_exec() -> (a: VmAction)
    ensures
        action_view(a) == ActionV::Fail(malformed()),
{
    VmAction::Fail(owned("malformed bytecode"))
}

/// `prefix`, the name, and a closing quote.
fn name_message(prefix: &str, name: &str) -> (m: String)
    ensures
        m@ == prefix@ + name@ + "'"@,
{
    let mut m = owned(prefix);
    append_str(&mut m, name);
    append_str(&mut m, "'");
    m
}

fn arity_message(expected: usize, got: usize) -> (m: String)
    ensures
        m@ == arity_mismatch(expected as nat, got as nat),
{
    let mut m = owned("expected ");
    push_decimal(&mut m, expected);
    append_str(&mut m, " arguments but got ");
    push_decimal(&mut m, got);
    m
}

impl VmState {
    /// The machine's state as a value.
    pub closed spec fn view(&self) -> VmView {
        VmView {
            stack: self.stack@,
            frames: self.frames@,
            globals: slots_view(self.globals@),
            methods: slots_view(self.methods@),
            fields: slots_view(self.fields@),
            strings: strings_view(self.strings@),
            closures: closures_view(self.closures@),
            cells: self.cells@,
            classes: strings_view(self.classes@),
            instances: self.instances@,
            bounds: self.bounds@,
            open: self.open@,
        }
    }

    /// The script's chunk the machine runs.
    pub closed spec fn program(&self) -> Chunk {
        self.script
    }

    /// A machine about to run `script`.
    pub fn new(script: Chunk) -> (m: VmState)
        ensures
            m.program() == script,
            m.view() == initial_view(),
    {
        let mut stack = Vec::new();
        stack.push(VmValue::Closure(0));
        let mut frames = Vec::new();
        frames.push(Frame { closure: 0, ip: 0, slot: 0 });
        let mut globals = Vec::new();
        globals.push(Slot { owner: 0, name: owned("clock"), value: VmValue::Native(NativeFunction::Clock) });
        let mut closures = Vec::new();
        closures.push(ClosureObj { path: Vec::new(), cells: Vec::new() });
        let m = VmState {
            script,
            stack,
            frames,
            globals,
            methods: Vec::new(),
            fields: Vec::new(),
            strings: Vec::new(),
            closures,
            cells: Vec::new(),
            classes: Vec::new(),
            instances: Vec::new(),
            bounds: Vec::new(),
            open: Vec::new(),
        };
        proof {
            assert(m.view().globals =~= initial_view().globals);
            assert(m.view().closures =~= initial_view().closures);
            assert(m.view().methods =~= initial_view().methods);
            assert(m.view().fields =~= initial_view().fields);
            assert(m.view().strings =~= initial_view().strings);
            assert(m.view().classes =~= initial_view().classes);
            assert(m.view().stack =~= initial_view().stack);
            assert(m.view().frames =~= initial_view().frames);
        }
        m
    }

    /// The next instruction of the running frame.
    fn decode_exec(&self) -> (d: Dec)
        ensures
            dec_view(d) == decode(self.script, self.view()),
    {
        if self.frames.len() == 0 {
            return Dec::Halt;
        }
        let f = self.frames[self.frames.len() - 1];
        if f.closure >= self.closures.len() {
            return Dec::Malformed;
        }
        match proto_of(&self.script, &self.closures[f.closure].path) {
            None => Dec::Malformed,
            Some((_, _, _, c)) => {
                if f.ip >= c.code.len() {
                    Dec::Halt
                } else {
                    let b = c.code[f.ip];
                    match OpCode::try_from(b) {
                        Ok(op) => decode_op_exec(c, op, f.ip + 1),
                        Err(b) => Dec::Unknown(b),
                    }
                }
            },
        }
    }

    /// The arity of closure `c`'s function.
    fn arity_of(&self, c: usize) -> (r: Option<usize>)
        ensures
            match closure_proto(self.script, self.view(), c) {
                Some(p) => r == Some(p.1),
                None => r is None,
            },
    {
        if c >= self.closures.len() {
            return None;
        }
        match proto_of(&self.script, &self.closures[c].path) {
            Some((_, a, _, _)) => Some(a),
            None => None,
        }
    }

    /// Append the name of closure `c`'s function to `out`.
    fn push_closure_name(&self, out: &mut String, c: usize)
        ensures
            final(out)@ == old(out)@ + closure_name(self.script, self.view(), c),
    {
        if c < self.closures.len() {
            match proto_of(&self.script, &self.closures[c].path) {
                Some((nm, _, _, _)) => append_str(out, nm),
                None => {
                    assert(old(out)@ + Seq::<char>::empty() =~= old(out)@);
                },
            }
        } else {
            assert(old(out)@ + Seq::<char>::empty() =~= old(out)@);
        }
    }

    /// How `print` shows a value that is not a number.
    fn display_exec(&self, x: VmValue) -> (t: String)
        ensures
            t@ == display(self.script, self.view(), x),
    {
        match x {
            VmValue::Bool(b) => if b {
                owned("true")
            } else {
                owned("false")
            },
            VmValue::Nil => owned("nil"),
            VmValue::Str(i) => if i < self.strings.len() {
                let t = self.strings[i].clone();
                assert(t@ == self.view().strings[i as int]);
                t
            } else {
                String::new()
            },
            VmValue::Closure(c) => {
                let mut t = owned("<fn ");
                self.push_closure_name(&mut t, c);
                append_str(&mut t, ">");
                assert(t@ == display(self.script, self.view(), x));
                t
            },
            VmValue::Native(_) => owned("<native fn>"),
            VmValue::Class(k) => if k < self.classes.len() {
                let t = self.classes[k].clone();
                assert(t@ == self.view().classes[k as int]);
                t
            } else {
                String::new()
            },
            VmValue::Instance(i) => {
                let mut t = String::new();
                if i < self.instances.len() && self.instances[i] < self.classes.len() {
                    t = self.classes[self.instances[i]].clone();
                }
                append_str(&mut t, " instance");
                proof {
                    if !(i < self.instances@.len() && self.instances@[i as int] < self.classes@.len()) {
                        assert(Seq::<char>::empty() + " instance"@ =~= " instance"@);
                    }
                }
                t
            },
            VmValue::Bound(b) => {
                let mut t = owned("<fn ");
                if b < self.bounds.len() {
                    self.push_closure_name(&mut t, self.bounds[b].1);
                }
                append_str(&mut t, ">");
                proof {
                    reveal_strlit("<fn ");
                    reveal_strlit(">");
                    reveal_strlit("<fn >");
                }
                t
            },
            VmValue::Number(_) => String::new(),
        }
    }

    /// Push a frame for closure `c` with slot zero at `base`, checking the arity.
    fn enter_exec(&mut self, c: usize, argc: usize, base: usize) -> (a: VmAction)
        ensures
            final(self).program() == old(self).program(),
            (final(self).view(), action_view(a)) == enter(old(self).program(), old(self).view(), c, argc, base as int),
    {
        match self.arity_of(c) {
            None => malformed_exec(),
            Some(ar) => if argc != ar {
                VmAction::Fail(arity_message(ar, argc))
            } else {
                self.frames.push(Frame { closure: c, ip: 0, slot: base });
                VmAction::Continue
            },
        }
    }

    /// Call `callee` with the `argc` values above it on the stack: enter a
    /// closure, a class's initializer or a bound method, or hand a built-in
    /// function to the host; a wrong argument count or a value that cannot
    /// be called is a runtime error.
    pub fn call_value(&mut self, callee: VmValue, argc: usize) -> (a: VmAction)
        ensures
            final(self).program() == old(self).program(),
            (final(self).view(), action_view(a)) == call_value(old(self).program(), old(self).view(), callee, argc),
    {
        let n = self.stack.len();
        if argc >= n {
            return malformed_exec();
        }
        let base = n - argc - 1;
        match callee {
            VmValue::Closure(c) => self.enter_exec(c, argc, base),
            VmValue::Native(f) => {
                self.stack.truncate(base);
                VmAction::CallNative(f)
            },
            VmValue::Class(k) => {
                let init = find_slot_exec(&self.methods, k, "init");
                proof {
                    lemma_find_slot(slots_view(self.methods@), k, "init"@, self.methods@.len() as int);
                }
                match init {
                    Some(m) => match self.methods[m].value {
                        VmValue::Closure(c) => match self.arity_of(c) {
                            None => malformed_exec(),
                            Some(ar) => if argc != ar {
                                VmAction::Fail(arity_message(ar, argc))
                            } else {
                                let id = self.instances.len();
                                self.instances.push(k);
                                self.stack.set(base, VmValue::Instance(id));
                                self.frames.push(Frame { closure: c, ip: 0, slot: base });
                                VmAction::Continue
                            },
                        },
                        _ => malformed_exec(),
                    },
                    None => if argc != 0 {
                        VmAction::Fail(arity_message(0, argc))
                    } else {
                        let id = self.instances.len();
                        self.instances.push(k);
                        self.stack.set(base, VmValue::Instance(id));
                        VmAction::Continue
                    },
                }
            },
            VmValue::Bound(b) => {
                if b >= self.bounds.len() {
                    return malformed_exec();
                }
                let (recv, c) = self.bounds[b];
                match self.arity_of(c) {
                    None => malformed_exec(),
                    Some(ar) => if argc != ar {
                        VmAction::Fail(arity_message(ar, argc))
                    } else {
                        self.stack.set(base, recv);
                        self.frames.push(Frame { closure: c, ip: 0, slot: base });
                        VmAction::Continue
                    },
                }
            },
            _ => VmAction::Fail(owned("can only call functions and classes")),
        }
    }

    /// Call the method `name` of class `k`.
    fn invoke_from_class_exec(&mut self, k: usize, name: &str, argc: usize) -> (a: VmAction)
        ensures
            final(self).program() == old(self).program(),
            (final(self).view(), action_view(a)) == invoke_from_class(old(self).view(), k, name@, argc),
    {
        proof {
            lemma_find_slot(slots_view(self.methods@), k, name@, self.methods@.len() as int);
        }
        let found = find_slot_exec(&self.methods, k, name);
        match found {
            Some(m) => match self.methods[m].value {
                VmValue::Closure(c) => {
                    let n = self.stack.len();
                    if argc >= n {
                        malformed_exec()
                    } else {
                        self.frames.push(Frame { closure: c, ip: 0, slot: n - argc - 1 });
                        VmAction::Continue
                    }
                },
                _ => malformed_exec(),
            },
            None => {
                let m = name_message("undefined property '", name);
                assert(m@ == undefined_property(name@));
                VmAction::Fail(m)
            },
        }
    }


    /// Close the open cells at stack index `last` and above.
    fn close_from_exec(&mut self, last: usize)
        ensures
            final(self).program() == old(self).program(),
            final(self).view() == close_from(old(self).view(), last, 0),
    {
        let ghost v0 = self.view();
        let mut i: usize = 0;
        while i < self.open.len()
            invariant
                i <= self.open@.len(),
                self.script == old(self).script,
                close_from(self.view(), last, i as int) == close_from(v0, last, 0),
            decreases self.open@.len() - i,
        {
            let id = self.open[i];
            if id >= self.cells.len() {
                i = i + 1;
            } else {
                match self.cells[id] {
                    Cell::Open(idx) => {
                        if idx >= last && idx < self.stack.len() {
                            let ghost before = self.view();
                            let x = self.stack[idx];
                            self.cells.set(id, Cell::Closed(x));
                            self.open.remove(i);
                            assert(self.view() == VmView {
                                cells: before.cells.update(id as int, Cell::Closed(before.stack[idx as int])),
                                open: before.open.remove(i as int),
                                ..before
                            });
                        } else {
                            i = i + 1;
                        }
                    },
                    Cell::Closed(_) => {
                        i = i + 1;
                    },
                }
            }
        }
    }

    /// The first open cell that refers to stack index `target`.
    fn find_open_exec(&self, target: usize) -> (r: Option<usize>)
        ensures
            match r {
                Some(i) => find_open(self.view(), target, 0) == Some(i as int) && i < self.open@.len(),
                None => find_open(self.view(), target, 0) is None,
            },
    {
        let mut i: usize = 0;
        while i < self.open.len()
            invariant
                i <= self.open@.len(),
                find_open(self.view(), target, i as int) == find_open(self.view(), target, 0),
            decreases self.open@.len() - i,
        {
            let id = self.open[i];
            if id < self.cells.len() && self.cells[id] == Cell::Open(target) {
                return Some(i);
            }
            i = i + 1;
        }
        None
    }

    /// The cell for stack index `target`.
    fn capture_exec(&mut self, target: usize) -> (cell: usize)
        ensures
            final(self).program() == old(self).program(),
            (final(self).view(), cell) == capture(old(self).view(), target),
    {
        match self.find_open_exec(target) {
            Some(i) => self.open[i],
            None => {
                let id = self.cells.len();
                self.cells.push(Cell::Open(target));
                self.open.push(id);
                id
            },
        }
    }

    /// Make a closure of function constant `idx` in frame `f`.
    fn run_closure_exec(&mut self, f: Frame, idx: u8, caps: &Vec<(u8, u8)>) -> (a: VmAction)
        ensures
            final(self).program() == old(self).program(),
            (final(self).view(), action_view(a)) == run_closure(old(self).view(), f, idx, caps@),
    {
        let ghost v0 = self.view();
        if f.closure >= self.closures.len() {
            return malformed_exec();
        }
        let mut k: usize = 0;
        while k < caps.len()
            invariant
                k <= caps@.len(),
                f.closure < self.closures@.len(),
                v0 == self.view(),
                forall|j: int|
                    0 <= j < k ==> if (#[trigger] caps@[j]).0 == 1 {
                        f.slot + caps@[j].1 <= usize::MAX
                    } else {
                        (caps@[j].1 as int) < v0.closures[f.closure as int].1.len()
                    },
            decreases caps@.len() - k,
        {
            let (is_local, index) = caps[k];
            if is_local == 1 {
                if index as usize > usize::MAX - f.slot {
                    return malformed_exec();
                }
            } else if index as usize >= self.closures[f.closure].cells.len() {
                return malformed_exec();
            }
            k = k + 1;
        }
        assert(captures_ok(v0, f, caps@));
        let mut cells: Vec<usize> = Vec::new();
        let mut k: usize = 0;
        while k < caps.len()
            invariant
                k <= caps@.len(),
                f.closure < self.closures@.len(),
                captures_ok(v0, f, caps@),
                self.script == old(self).script,
                self.view().closures == v0.closures,
                (self.view(), cells@) == capture_all(v0, f, caps@, k as nat),
            decreases caps@.len() - k,
        {
            let (is_local, index) = caps[k];
            assert(caps@[k as int] == (is_local, index));
            if is_local == 1 {
                let cell = self.capture_exec(f.slot + index as usize);
                cells.push(cell);
                assert(self.closures@.len() == self.view().closures.len());
            } else {
                let cell = self.closures[f.closure].cells[index as usize];
                cells.push(cell);
            }
            k = k + 1;
        }
        let ghost v1 = self.view();
        let parent = &self.closures[f.closure].path;
        let mut path: Vec<usize> = Vec::new();
        let mut j: usize = 0;
        while j < parent.len()
            invariant
                j <= parent@.len(),
                path@ =~= parent@.take(j as int),
            decreases parent@.len() - j,
        {
            path.push(parent[j]);
            j = j + 1;
        }
        path.push(idx as usize);
        assert(path@ =~= v0.closures[f.closure as int].0.push(idx as usize));
        let id = self.closures.len();
        self.closures.push(ClosureObj { path, cells });
        self.stack.push(VmValue::Closure(id));
        assert(self.view().closures =~= v1.closures.push((v0.closures[f.closure as int].0.push(idx as usize), cells@)));
        VmAction::Continue
    }


    /// Pop two number operands for the host.
    fn binary_exec(&mut self, op: ArithOp) -> (a: VmAction)
        ensures
            final(self).program() == old(self).program(),
            (final(self).view(), action_view(a)) == binary(old(self).view(), op),
    {
        let n = self.stack.len();
        if n < 2 {
            return malformed_exec();
        }
        match (self.stack[n - 2], self.stack[n - 1]) {
            (VmValue::Number(a), VmValue::Number(b)) => {
                self.stack.truncate(n - 2);
                VmAction::Arithmetic { op, a, b }
            },
            _ => VmAction::Fail(owned("operands must be numbers")),
        }
    }

    /// An instruction without operands.
    fn run_plain_exec(&mut self, f: Frame, op: OpCode) -> (a: VmAction)
        requires
            old(self).frames@.len() > 0,
        ensures
            final(self).program() == old(self).program(),
            (final(self).view(), action_view(a)) == run_plain(old(self).program(), old(self).view(), f, op),
    {
        let ghost v0 = self.view();
        let n = self.stack.len();
        match op {
            OpCode::Nil => {
                self.stack.push(VmValue::Nil);
                VmAction::Continue
            },
            OpCode::True => {
                self.stack.push(VmValue::Bool(true));
                VmAction::Continue
            },
            OpCode::False => {
                self.stack.push(VmValue::Bool(false));
                VmAction::Continue
            },
            OpCode::Pop => if n < 1 {
                malformed_exec()
            } else {
                self.stack.truncate(n - 1);
                VmAction::Continue
            },
            OpCode::Equal => if n < 2 {
                malformed_exec()
            } else {
                let x = self.stack[n - 2];
                let y = self.stack[n - 1];
                let eq = self.equal_exec(x, y);
                self.stack.truncate(n - 2);
                self.stack.push(VmValue::Bool(eq));
                VmAction::Continue
            },
            OpCode::Greater => self.binary_exec(ArithOp::Greater),
            OpCode::Less => self.binary_exec(ArithOp::Less),
            OpCode::Subtract => self.binary_exec(ArithOp::Subtract),
            OpCode::Multiply => self.binary_exec(ArithOp::Multiply),
            OpCode::Divide => self.binary_exec(ArithOp::Divide),
            OpCode::Add => if n < 2 {
                malformed_exec()
            } else {
                match (self.stack[n - 2], self.stack[n - 1]) {
                    (VmValue::Number(a), VmValue::Number(b)) => {
                        self.stack.truncate(n - 2);
                        VmAction::Arithmetic { op: ArithOp::Add, a, b }
                    },
                    (VmValue::Str(x), VmValue::Str(y)) => if x < self.strings.len() && y < self.strings.len() {
                        let mut t = self.strings[x].clone();
                        append_str(&mut t, self.strings[y].as_str());
                        let id = self.strings.len();
                        self.strings.push(t);
                        self.stack.truncate(n - 2);
                        self.stack.push(VmValue::Str(id));
                        assert(self.view().strings =~= v0.strings.push(v0.strings[x as int] + v0.strings[y as int]));
                        VmAction::Continue
                    } else {
                        malformed_exec()
                    },
                    _ => VmAction::Fail(owned("operands must be two numbers or two strings")),
                }
            },
            OpCode::Not => if n < 1 {
                malformed_exec()
            } else {
                let x = self.stack[n - 1];
                let b = match x {
                    VmValue::Nil => true,
                    VmValue::Bool(b) => !b,
                    _ => false,
                };
                self.stack.truncate(n - 1);
                self.stack.push(VmValue::Bool(b));
                VmAction::Continue
            },
            OpCode::Negate => if n < 1 {
                malformed_exec()
            } else {
                match self.stack[n - 1] {
                    VmValue::Number(a) => {
                        self.stack.truncate(n - 1);
                        VmAction::Negate { a }
                    },
                    _ => VmAction::Fail(owned("operand must be a number")),
                }
            },
            OpCode::Print => if n < 1 {
                malformed_exec()
            } else {
                let x = self.stack[n - 1];
                match x {
                    VmValue::Number(a) => {
                        self.stack.truncate(n - 1);
                        VmAction::PrintNumber(a)
                    },
                    _ => {
                        let t = self.display_exec(x);
                        self.stack.truncate(n - 1);
                        VmAction::Print(t)
                    },
                }
            },
            OpCode::CloseUpvalue => if n < 1 {
                malformed_exec()
            } else {
                proof {
                    lemma_close_from(self.view(), (n - 1) as usize, 0);
                }
                self.close_from_exec(n - 1);
                let m = self.stack.len();
                if m >= 1 {
                    self.stack.truncate(m - 1);
                } else {
                    self.stack.truncate(0);
                }
                VmAction::Continue
            },
            OpCode::Return => if n < 1 {
                malformed_exec()
            } else {
                let result = self.stack[n - 1];
                self.stack.truncate(n - 1);
                let nf = self.frames.len();
                if nf >= 1 {
                    self.frames.truncate(nf - 1);
                }
                if self.frames.len() == 0 {
                    let m = self.stack.len();
                    if m > 0 {
                        self.stack.truncate(m - 1);
                    }
                    VmAction::Halt
                } else {
                    proof {
                        lemma_close_from(self.view(), f.slot, 0);
                    }
                    self.close_from_exec(f.slot);
                    if f.slot <= self.stack.len() {
                        self.stack.truncate(f.slot);
                    }
                    self.stack.push(result);
                    VmAction::Continue
                }
            },
            OpCode::Inherit => if n < 2 {
                malformed_exec()
            } else {
                match (self.stack[n - 2], self.stack[n - 1]) {
                    (VmValue::Class(sup), VmValue::Class(sub)) => {
                        self.inherit_exec(sup, sub);
                        self.stack.truncate(n - 1);
                        VmAction::Continue
                    },
                    _ => VmAction::Fail(owned("superclass must be a class")),
                }
            },
            _ => malformed_exec(),
        }
    }

    /// Lox `==` on machine values.
    fn equal_exec(&self, x: VmValue, y: VmValue) -> (r: bool)
        ensures
            r == vm_equal(self.view(), x, y),
    {
        match (x, y) {
            (VmValue::Nil, VmValue::Nil) => true,
            (VmValue::Bool(a), VmValue::Bool(b)) => a == b,
            (VmValue::Number(a), VmValue::Number(b)) => crate::interpreter::value::Value::Number(a).is_equal(
                &crate::interpreter::value::Value::Number(b),
            ),
            (VmValue::Str(a), VmValue::Str(b)) => a < self.strings.len() && b < self.strings.len() && str_eq(
                self.strings[a].as_str(),
                self.strings[b].as_str(),
            ),
            _ => false,
        }
    }

    /// Bind every method of class `sup` for class `sub`.
    fn inherit_exec(&mut self, sup: usize, sub: usize)
        ensures
            final(self).program() == old(self).program(),
            final(self).view() == with_methods(
                old(self).view(),
                bind_all(
                    old(self).view().methods,
                    sub,
                    methods_of(old(self).view().methods, sup, old(self).view().methods.len() as int),
                    methods_of(old(self).view().methods, sup, old(self).view().methods.len() as int).len() as int,
                ),
            ),
    {
        let ghost v0 = self.view();
        let mut ms: Vec<(String, VmValue)> = Vec::new();
        let mut i: usize = 0;
        while i < self.methods.len()
            invariant
                i <= self.methods@.len(),
                v0 == self.view(),
                ms@.map_values(|p: (String, VmValue)| (p.0@, p.1)) =~= methods_of(v0.methods, sup, i as int),
            decreases self.methods@.len() - i,
        {
            if self.methods[i].owner == sup {
                ms.push((self.methods[i].name.clone(), self.methods[i].value));
            }
            i = i + 1;
        }
        let ghost msv = methods_of(v0.methods, sup, v0.methods.len() as int);
        let mut k: usize = 0;
        while k < ms.len()
            invariant
                k <= ms@.len(),
                ms@.map_values(|p: (String, VmValue)| (p.0@, p.1)) =~= msv,
                self.script == old(self).script,
                self.view() == with_methods(v0, bind_all(v0.methods, sub, msv, k as int)),
            decreases ms@.len() - k,
        {
            let name = ms[k].0.clone();
            let value = ms[k].1;
            assert(msv[k as int] == (name@, value));
            set_slot_exec(&mut self.methods, sub, name, value);
            k = k + 1;
        }
    }


    /// The cell that upvalue `u` of frame `f`'s closure refers to.
    fn upvalue_cell_exec(&self, f: Frame, u: u8) -> (r: Option<usize>)
        ensures
            r == upvalue_cell(self.view(), f, u),
    {
        if f.closure < self.closures.len() && (u as usize) < self.closures[f.closure].cells.len()
            && self.closures[f.closure].cells[u as usize] < self.cells.len() {
            Some(self.closures[f.closure].cells[u as usize])
        } else {
            None
        }
    }

    /// An instruction with one byte operand.
    fn run_byte_exec(&mut self, f: Frame, op: OpCode, b: u8) -> (a: VmAction)
        ensures
            final(self).program() == old(self).program(),
            (final(self).view(), action_view(a)) == run_byte(old(self).program(), old(self).view(), f, op, b),
    {
        let n = self.stack.len();
        match op {
            OpCode::GetLocal => if f.slot < n && (b as usize) < n - f.slot {
                let x = self.stack[f.slot + b as usize];
                self.stack.push(x);
                VmAction::Continue
            } else {
                malformed_exec()
            },
            OpCode::SetLocal => if n >= 1 && f.slot < n && (b as usize) < n - f.slot {
                let x = self.stack[n - 1];
                self.stack.set(f.slot + b as usize, x);
                VmAction::Continue
            } else {
                malformed_exec()
            },
            OpCode::GetUpvalue => match self.upvalue_cell_exec(f, b) {
                Some(id) => match self.cells[id] {
                    Cell::Open(i) => if i < n {
                        let x = self.stack[i];
                        self.stack.push(x);
                        VmAction::Continue
                    } else {
                        malformed_exec()
                    },
                    Cell::Closed(x) => {
                        self.stack.push(x);
                        VmAction::Continue
                    },
                },
                None => malformed_exec(),
            },
            OpCode::SetUpvalue => match self.upvalue_cell_exec(f, b) {
                Some(id) => if n < 1 {
                    malformed_exec()
                } else {
                    let x = self.stack[n - 1];
                    match self.cells[id] {
                        Cell::Open(i) => if i < n {
                            self.stack.set(i, x);
                            VmAction::Continue
                        } else {
                            malformed_exec()
                        },
                        Cell::Closed(_) => {
                            self.cells.set(id, Cell::Closed(x));
                            VmAction::Continue
                        },
                    }
                },
                None => malformed_exec(),
            },
            OpCode::Call => if n < b as usize + 1 {
                malformed_exec()
            } else {
                let callee = self.stack[n - 1 - b as usize];
                self.call_value(callee, b as usize)
            },
            _ => malformed_exec(),
        }
    }

    /// An instruction naming a string constant.
    fn run_name_exec(&mut self, op: OpCode, name: String) -> (a: VmAction)
        ensures
            final(self).program() == old(self).program(),
            (final(self).view(), action_view(a)) == run_name(old(self).view(), op, name@),
    {
        let ghost v0 = self.view();
        let n = self.stack.len();
        match op {
            OpCode::GetGlobal => match find_slot_exec(&self.globals, 0, name.as_str()) {
                Some(k) => {
                    let x = self.globals[k].value;
                    self.stack.push(x);
                    VmAction::Continue
                },
                None => VmAction::Fail(name_message("undefined variable '", name.as_str())),
            },
            OpCode::SetGlobal => match find_slot_exec(&self.globals, 0, name.as_str()) {
                Some(k) => if n < 1 {
                    malformed_exec()
                } else {
                    proof {
                        lemma_find_slot(v0.globals, 0, name@, v0.globals.len() as int);
                    }
                    let x = self.stack[n - 1];
                    let ghost nm = name@;
                    self.globals.set(k, Slot { owner: 0, name, value: x });
                    assert(slots_view(self.globals@) =~= v0.globals.update(k as int, (0usize, nm, x)));
                    VmAction::Continue
                },
                None => VmAction::Fail(name_message("undefined variable '", name.as_str())),
            },
            OpCode::DefineGlobal => if n < 1 {
                malformed_exec()
            } else {
                let x = self.stack[n - 1];
                self.stack.truncate(n - 1);
                set_slot_exec(&mut self.globals, 0, name, x);
                VmAction::Continue
            },
            OpCode::GetProperty => if n < 1 {
                malformed_exec()
            } else {
                match self.stack[n - 1] {
                    VmValue::Instance(i) => match find_slot_exec(&self.fields, i, name.as_str()) {
                        Some(k) => {
                            let x = self.fields[k].value;
                            self.stack.truncate(n - 1);
                            self.stack.push(x);
                            VmAction::Continue
                        },
                        None => if i < self.instances.len() {
                            let k = self.instances[i];
                            match find_slot_exec(&self.methods, k, name.as_str()) {
                                Some(m) => match self.methods[m].value {
                                    VmValue::Closure(c) => {
                                        let id = self.bounds.len();
                                        self.bounds.push((VmValue::Instance(i), c));
                                        self.stack.truncate(n - 1);
                                        self.stack.push(VmValue::Bound(id));
                                        VmAction::Continue
                                    },
                                    _ => malformed_exec(),
                                },
                                None => VmAction::Fail(name_message("undefined property '", name.as_str())),
                            }
                        } else {
                            malformed_exec()
                        },
                    },
                    _ => VmAction::Fail(owned("only instances have properties")),
                }
            },
            OpCode::SetProperty => if n < 2 {
                malformed_exec()
            } else {
                match self.stack[n - 2] {
                    VmValue::Instance(i) => {
                        let x = self.stack[n - 1];
                        set_slot_exec(&mut self.fields, i, name, x);
                        self.stack.truncate(n - 2);
                        self.stack.push(x);
                        VmAction::Continue
                    },
                    _ => VmAction::Fail(owned("only instances have fields")),
                }
            },
            OpCode::GetSuper => if n < 2 {
                malformed_exec()
            } else {
                match self.stack[n - 1] {
                    VmValue::Class(k) => match find_slot_exec(&self.methods, k, name.as_str()) {
                        Some(m) => match self.methods[m].value {
                            VmValue::Closure(c) => {
                                let recv = self.stack[n - 2];
                                let id = self.bounds.len();
                                self.bounds.push((recv, c));
                                self.stack.truncate(n - 2);
                                self.stack.push(VmValue::Bound(id));
                                VmAction::Continue
                            },
                            _ => malformed_exec(),
                        },
                        None => VmAction::Fail(name_message("undefined property '", name.as_str())),
                    },
                    _ => {
                        self.stack.truncate(n - 2);
                        VmAction::Continue
                    },
                }
            },
            OpCode::Class => {
                let id = self.classes.len();
                let ghost nm = name@;
                self.classes.push(name);
                self.stack.push(VmValue::Class(id));
                assert(strings_view(self.classes@) =~= v0.classes.push(nm));
                VmAction::Continue
            },
            OpCode::Method => if n < 1 {
                malformed_exec()
            } else {
                let m = self.stack[n - 1];
                self.stack.truncate(n - 1);
                match m {
                    VmValue::Closure(c) => if n >= 2 {
                        match self.stack[n - 2] {
                            VmValue::Class(k) => {
                                set_slot_exec(&mut self.methods, k, name, VmValue::Closure(c));
                                VmAction::Continue
                            },
                            _ => VmAction::Continue,
                        }
                    } else {
                        VmAction::Continue
                    },
                    _ => VmAction::Continue,
                }
            },
            _ => malformed_exec(),
        }
    }

    /// A jump.
    fn run_jump_exec(&mut self, f: Frame, op: OpCode, o: u16) -> (a: VmAction)
        requires
            old(self).frames@.len() > 0,
        ensures
            final(self).program() == old(self).program(),
            (final(self).view(), action_view(a)) == run_jump(old(self).view(), f, op, o),
    {
        let last = self.frames.len() - 1;
        match op {
            OpCode::Jump => if f.ip <= usize::MAX - o as usize {
                self.frames.set(last, Frame { ip: f.ip + o as usize, ..f });
                VmAction::Continue
            } else {
                malformed_exec()
            },
            OpCode::JumpIfFalse => {
                let n = self.stack.len();
                if n < 1 {
                    malformed_exec()
                } else {
                    let x = self.stack[n - 1];
                    let fals = match x {
                        VmValue::Nil => true,
                        VmValue::Bool(b) => !b,
                        _ => false,
                    };
                    if fals {
                        if f.ip <= usize::MAX - o as usize {
                            self.frames.set(last, Frame { ip: f.ip + o as usize, ..f });
                            VmAction::Continue
                        } else {
                            malformed_exec()
                        }
                    } else {
                        VmAction::Continue
                    }
                }
            },
            OpCode::Loop => if o as usize <= f.ip {
                self.frames.set(last, Frame { ip: f.ip - o as usize, ..f });
                VmAction::Continue
            } else {
                malformed_exec()
            },
            _ => malformed_exec(),
        }
    }

    /// A method invocation.
    fn run_invoke_exec(&mut self, op: OpCode, name: String, argc: u8) -> (a: VmAction)
        ensures
            final(self).program() == old(self).program(),
            (final(self).view(), action_view(a)) == run_invoke(old(self).program(), old(self).view(), op, name@, argc),
    {
        let n = self.stack.len();
        match op {
            OpCode::Invoke => if n < argc as usize + 1 {
                malformed_exec()
            } else {
                let r = n - 1 - argc as usize;
                match self.stack[r] {
                    VmValue::Instance(i) => match find_slot_exec(&self.fields, i, name.as_str()) {
                        Some(k) => {
                            let x = self.fields[k].value;
                            self.stack.set(r, x);
                            self.call_value(x, argc as usize)
                        },
                        None => if i < self.instances.len() {
                            let k = self.instances[i];
                            self.invoke_from_class_exec(k, name.as_str(), argc as usize)
                        } else {
                            malformed_exec()
                        },
                    },
                    _ => VmAction::Fail(owned("only instances have methods")),
                }
            },
            OpCode::SuperInvoke => if n < 1 {
                malformed_exec()
            } else {
                let top = self.stack[n - 1];
                self.stack.truncate(n - 1);
                match top {
                    VmValue::Class(k) => self.invoke_from_class_exec(k, name.as_str(), argc as usize),
                    _ => VmAction::Continue,
                }
            },
            _ => malformed_exec(),
        }
    }


    /// Carry out a decoded instruction in frame `f`.
    fn run_exec(&mut self, f: Frame, ins: Instr) -> (a: VmAction)
        requires
            old(self).frames@.len() > 0,
        ensures
            final(self).program() == old(self).program(),
            (final(self).view(), action_view(a)) == run(old(self).program(), old(self).view(), f, instr_view(ins)),
    {
        match ins {
            Instr::Plain(op) => self.run_plain_exec(f, op),
            Instr::Byte(op, b) => self.run_byte_exec(f, op, b),
            Instr::Name(op, name) => self.run_name_exec(op, name),
            Instr::Jump(op, o) => self.run_jump_exec(f, op, o),
            Instr::NameByte(op, name, argc) => self.run_invoke_exec(op, name, argc),
            Instr::NumberConst(t) => VmAction::ParseNumber(t),
            Instr::StrConst(t) => {
                let ghost v0 = self.view();
                let ghost tv = t@;
                let id = self.strings.len();
                self.strings.push(t);
                self.stack.push(VmValue::Str(id));
                assert(self.view().strings =~= v0.strings.push(tv));
                VmAction::Continue
            },
            Instr::Closure(idx, caps) => self.run_closure_exec(f, idx, &caps),
            Instr::NotClosure => VmAction::Continue,
        }
    }

    /// Take the host's answer, then carry out the next instruction of the
    /// running frame, and say what the host must do next.
    pub fn step(&mut self, event: VmEvent) -> (action: VmAction)
        ensures
            final(self).program() == old(self).program(),
            (final(self).view(), action_view(action)) == vm_step(old(self).program(), old(self).view(), event),
    {
        match event {
            VmEvent::Resume => {},
            VmEvent::Number(a) => self.stack.push(VmValue::Number(a)),
            VmEvent::Bool(b) => self.stack.push(VmValue::Bool(b)),
        }
        match self.decode_exec() {
            Dec::Halt => VmAction::Halt,
            Dec::Malformed => malformed_exec(),
            Dec::Unknown(b) => {
                let mut m = owned("unknown opcode ");
                push_decimal(&mut m, b as usize);
                VmAction::Fail(m)
            },
            Dec::Instr(ins, next) => {
                let last = self.frames.len() - 1;
                let f = Frame { ip: next, ..self.frames[last] };
                self.frames.set(last, f);
                self.run_exec(f, ins)
            },
        }
    }

}

/// Law: `==` on two booleans pushes whether they are the same boolean, and
/// on two `nil`s pushes true; the operands are popped.
pub proof fn equality_of_booleans_and_nil(root: Chunk, v: VmView, f: Frame, x: bool, y: bool)
    requires
        v.stack.len() >= 2,
    ensures
        (v.stack[v.stack.len() - 2] == VmValue::Bool(x) && v.stack[v.stack.len() - 1] == VmValue::Bool(y))
            ==> run_plain(root, v, f, OpCode::Equal) == go(
            push(with_stack(v, popped(v.stack, 2)), VmValue::Bool(x == y)),
        ),
        v.stack[v.stack.len() - 2] is Nil && v.stack[v.stack.len() - 1] is Nil ==> run_plain(root, v, f, OpCode::Equal)
            == go(push(with_stack(v, popped(v.stack, 2)), VmValue::Bool(true))),
{
    let n = v.stack.len() as int;
    let a = v.stack[n - 2];
    let b = v.stack[n - 1];
    assert(run_plain(root, v, f, OpCode::Equal) == go(
        push(with_stack(v, popped(v.stack, 2)), VmValue::Bool(vm_equal(v, a, b))),
    ));
}

/// Law: `==` compares strings by their text, a number equals itself unless
/// it is NaN, and NaN equals nothing.
pub proof fn equality_of_numbers_and_strings(v: VmView, a: u64, b: u64, i: usize, j: usize)
    ensures
        i < v.strings.len() && j < v.strings.len() ==> (vm_equal(v, VmValue::Str(i), VmValue::Str(j)) <==> v.strings[
            i as int] == v.strings[j as int]),
        !crate::interpreter::value::is_nan_bits(a) ==> vm_equal(v, VmValue::Number(a), VmValue::Number(a)),
        crate::interpreter::value::is_nan_bits(a) ==> !vm_equal(v, VmValue::Number(a), VmValue::Number(b))
            && !vm_equal(v, VmValue::Number(b), VmValue::Number(a)),
{
}

} // verus!
