//! Bytecode chunks: instructions, their constant pool and line table, and a
//! disassembler that lists them.
use vstd::prelude::*;

use crate::ast::printer::number_text;
use crate::text::{append_str, chars_of, decimal, owned, str_eq, usize_to_string};

verus! {

/// A bytecode instruction.
#[derive(Debug, Clone, Copy, PartialEq, Eq, Structural)]
pub enum OpCode {
    Constant,
    Nil,
    True,
    False,
    Pop,
    GetLocal,
    SetLocal,
    GetGlobal,
    SetGlobal,
    DefineGlobal,
    GetUpvalue,
    SetUpvalue,
    GetProperty,
    SetProperty,
    GetSuper,
    Equal,
    Greater,
    Less,
    Add,
    Subtract,
    Multiply,
    Divide,
    Not,
    Negate,
    Print,
    Jump,
    JumpIfFalse,
    Loop,
    Call,
    Invoke,
    SuperInvoke,
    Closure,
    CloseUpvalue,
    Return,
    Class,
    Inherit,
    Method,
}

/// The byte an instruction is encoded as: its position in the list above.
pub open spec fn op_byte(op: OpCode) -> u8 {
    match op {
        OpCode::Constant => 0,
        OpCode::Nil => 1,
        OpCode::True => 2,
        OpCode::False => 3,
        OpCode::Pop => 4,
        OpCode::GetLocal => 5,
        OpCode::SetLocal => 6,
        OpCode::GetGlobal => 7,
        OpCode::SetGlobal => 8,
        OpCode::DefineGlobal => 9,
        OpCode::GetUpvalue => 10,
        OpCode::SetUpvalue => 11,
        OpCode::GetProperty => 12,
        OpCode::SetProperty => 13,
        OpCode::GetSuper => 14,
        OpCode::Equal => 15,
        OpCode::Greater => 16,
        OpCode::Less => 17,
        OpCode::Add => 18,
        OpCode::Subtract => 19,
        OpCode::Multiply => 20,
        OpCode::Divide => 21,
        OpCode::Not => 22,
        OpCode::Negate => 23,
        OpCode::Print => 24,
        OpCode::Jump => 25,
        OpCode::JumpIfFalse => 26,
        OpCode::Loop => 27,
        OpCode::Call => 28,
        OpCode::Invoke => 29,
        OpCode::SuperInvoke => 30,
        OpCode::Closure => 31,
        OpCode::CloseUpvalue => 32,
        OpCode::Return => 33,
        OpCode::Class => 34,
        OpCode::Inherit => 35,
        OpCode::Method => 36,
    }
}

/// The instruction a byte encodes, if any.
pub open spec fn op_of_byte(b: u8) -> Option<OpCode> {
    if b <= 36 {
        Some(choose|op: OpCode| op_byte(op) == b)
    } else {
        None
    }
}

/// The snake_case name of an instruction.
pub open spec fn op_name(op: OpCode) -> Seq<char> {
    match op {
        OpCode::Constant => "constant"@,
        OpCode::Nil => "nil"@,
        OpCode::True => "true"@,
        OpCode::False => "false"@,
        OpCode::Pop => "pop"@,
        OpCode::GetLocal => "get_local"@,
        OpCode::SetLocal => "set_local"@,
        OpCode::GetGlobal => "get_global"@,
        OpCode::SetGlobal => "set_global"@,
        OpCode::DefineGlobal => "define_global"@,
        OpCode::GetUpvalue => "get_upvalue"@,
        OpCode::SetUpvalue => "set_upvalue"@,
        OpCode::GetProperty => "get_property"@,
        OpCode::SetProperty => "set_property"@,
        OpCode::GetSuper => "get_super"@,
        OpCode::Equal => "equal"@,
        OpCode::Greater => "greater"@,
        OpCode::Less => "less"@,
        OpCode::Add => "add"@,
        OpCode::Subtract => "subtract"@,
        OpCode::Multiply => "multiply"@,
        OpCode::Divide => "divide"@,
        OpCode::Not => "not"@,
        OpCode::Negate => "negate"@,
        OpCode::Print => "print"@,
        OpCode::Jump => "jump"@,
        OpCode::JumpIfFalse => "jump_if_false"@,
        OpCode::Loop => "loop"@,
        OpCode::Call => "call"@,
        OpCode::Invoke => "invoke"@,
        OpCode::SuperInvoke => "super_invoke"@,
        OpCode::Closure => "closure"@,
        OpCode::CloseUpvalue => "close_upvalue"@,
        OpCode::Return => "return"@,
        OpCode::Class => "class"@,
        OpCode::Inherit => "inherit"@,
        OpCode::Method => "method"@,
    }
}

/// Law: distinct instructions are encoded as distinct bytes, so a byte
/// decodes back to the instruction it encodes.
pub proof fn op_byte_injective(a: OpCode, b: OpCode)
    ensures
        op_byte(a) == op_byte(b) ==> a == b,
        op_byte(a) <= 36,
        op_of_byte(op_byte(a)) == Some(a),
{
    let x = choose|op: OpCode| op_byte(op) == op_byte(a);
    assert(op_byte(x) == op_byte(a));
}

impl OpCode {
    /// The byte this instruction is encoded as.
    pub fn to_byte(self) -> (b: u8)
        ensures
            b == op_byte(self),
    {
        match self {
            OpCode::Constant => 0,
            OpCode::Nil => 1,
            OpCode::True => 2,
            OpCode::False => 3,
            OpCode::Pop => 4,
            OpCode::GetLocal => 5,
            OpCode::SetLocal => 6,
            OpCode::GetGlobal => 7,
            OpCode::SetGlobal => 8,
            OpCode::DefineGlobal => 9,
            OpCode::GetUpvalue => 10,
            OpCode::SetUpvalue => 11,
            OpCode::GetProperty => 12,
            OpCode::SetProperty => 13,
            OpCode::GetSuper => 14,
            OpCode::Equal => 15,
            OpCode::Greater => 16,
            OpCode::Less => 17,
            OpCode::Add => 18,
            OpCode::Subtract => 19,
            OpCode::Multiply => 20,
            OpCode::Divide => 21,
            OpCode::Not => 22,
            OpCode::Negate => 23,
            OpCode::Print => 24,
            OpCode::Jump => 25,
            OpCode::JumpIfFalse => 26,
            OpCode::Loop => 27,
            OpCode::Call => 28,
            OpCode::Invoke => 29,
            OpCode::SuperInvoke => 30,
            OpCode::Closure => 31,
            OpCode::CloseUpvalue => 32,
            OpCode::Return => 33,
            OpCode::Class => 34,
            OpCode::Inherit => 35,
            OpCode::Method => 36,
        }
    }

    /// The instruction a byte encodes, or the byte back when it encodes none.
    pub fn try_from(byte: u8) -> (r: Result<OpCode, u8>)
        ensures
            match op_of_byte(byte) {
                Some(op) => r == Ok::<OpCode, u8>(op),
                None => r == Err::<OpCode, u8>(byte),
            },
    {
        let r = match byte {
            0 => Ok(OpCode::Constant),
            1 => Ok(OpCode::Nil),
            2 => Ok(OpCode::True),
            3 => Ok(OpCode::False),
            4 => Ok(OpCode::Pop),
            5 => Ok(OpCode::GetLocal),
            6 => Ok(OpCode::SetLocal),
            7 => Ok(OpCode::GetGlobal),
            8 => Ok(OpCode::SetGlobal),
            9 => Ok(OpCode::DefineGlobal),
            10 => Ok(OpCode::GetUpvalue),
            11 => Ok(OpCode::SetUpvalue),
            12 => Ok(OpCode::GetProperty),
            13 => Ok(OpCode::SetProperty),
            14 => Ok(OpCode::GetSuper),
            15 => Ok(OpCode::Equal),
            16 => Ok(OpCode::Greater),
            17 => Ok(OpCode::Less),
            18 => Ok(OpCode::Add),
            19 => Ok(OpCode::Subtract),
            20 => Ok(OpCode::Multiply),
            21 => Ok(OpCode::Divide),
            22 => Ok(OpCode::Not),
            23 => Ok(OpCode::Negate),
            24 => Ok(OpCode::Print),
            25 => Ok(OpCode::Jump),
            26 => Ok(OpCode::JumpIfFalse),
            27 => Ok(OpCode::Loop),
            28 => Ok(OpCode::Call),
            29 => Ok(OpCode::Invoke),
            30 => Ok(OpCode::SuperInvoke),
            31 => Ok(OpCode::Closure),
            32 => Ok(OpCode::CloseUpvalue),
            33 => Ok(OpCode::Return),
            34 => Ok(OpCode::Class),
            35 => Ok(OpCode::Inherit),
            36 => Ok(OpCode::Method),
            _ => Err(byte),
        };
        proof {
            if let Ok(op) = r {
                op_byte_injective(op, op);
            }
        }
        r
    }

    /// The snake_case name of this instruction.
    pub fn as_ref(&self) -> (s: &'static str)
        ensures
            s@ == op_name(*self),
    {
        match self {
            OpCode::Constant => "constant",
            OpCode::Nil => "nil",
            OpCode::True => "true",
            OpCode::False => "false",
            OpCode::Pop => "pop",
            OpCode::GetLocal => "get_local",
            OpCode::SetLocal => "set_local",
            OpCode::GetGlobal => "get_global",
            OpCode::SetGlobal => "set_global",
            OpCode::DefineGlobal => "define_global",
            OpCode::GetUpvalue => "get_upvalue",
            OpCode::SetUpvalue => "set_upvalue",
            OpCode::GetProperty => "get_property",
            OpCode::SetProperty => "set_property",
            OpCode::GetSuper => "get_super",
            OpCode::Equal => "equal",
            OpCode::Greater => "greater",
            OpCode::Less => "less",
            OpCode::Add => "add",
            OpCode::Subtract => "subtract",
            OpCode::Multiply => "multiply",
            OpCode::Divide => "divide",
            OpCode::Not => "not",
            OpCode::Negate => "negate",
            OpCode::Print => "print",
            OpCode::Jump => "jump",
            OpCode::JumpIfFalse => "jump_if_false",
            OpCode::Loop => "loop",
            OpCode::Call => "call",
            OpCode::Invoke => "invoke",
            OpCode::SuperInvoke => "super_invoke",
            OpCode::Closure => "closure",
            OpCode::CloseUpvalue => "close_upvalue",
            OpCode::Return => "return",
            OpCode::Class => "class",
            OpCode::Inherit => "inherit",
            OpCode::Method => "method",
        }
    }
}

/// A constant in a chunk's pool. A number is held as the text of its
/// literal, which determines the `f64` it denotes.
#[derive(Debug, PartialEq)]
pub enum Constant {
    Number(String),
    String(String),
    /// A function prototype: name, arity, number of captured variables and
    /// its own chunk.
    Function { name: String, arity: usize, upvalue_count: usize, chunk: Chunk },
}

/// A chunk of bytecode: instructions, constant pool and the line of each byte.
#[derive(Debug, PartialEq)]
pub struct Chunk {
    pub code: Vec<u8>,
    pub constants: Vec<Constant>,
    pub lines: Vec<usize>,
}

impl Chunk {
    /// An empty chunk.
    pub fn new() -> (c: Chunk)
        ensures
            c.code@ == Seq::<u8>::empty(),
            c.constants@ == Seq::<Constant>::empty(),
            c.lines@ == Seq::<usize>::empty(),
    {
        Chunk { code: Vec::new(), constants: Vec::new(), lines: Vec::new() }
    }

    /// Append an instruction, recording its line.
    pub fn write_op(&mut self, op: OpCode, line: usize)
        ensures
            final(self).code@ == old(self).code@.push(op_byte(op)),
            final(self).lines@ == old(self).lines@.push(line),
            final(self).constants@ == old(self).constants@,
    {
        self.code.push(op.to_byte());
        self.lines.push(line);
    }

    /// Append an operand byte, recording its line.
    pub fn write_byte(&mut self, byte: u8, line: usize)
        ensures
            final(self).code@ == old(self).code@.push(byte),
            final(self).lines@ == old(self).lines@.push(line),
            final(self).constants@ == old(self).constants@,
    {
        self.code.push(byte);
        self.lines.push(line);
    }

    /// Append a 16-bit operand, high byte first.
    pub fn write_u16(&mut self, value: u16, line: usize)
        ensures
            final(self).code@ == old(self).code@.push((value / 256) as u8).push((value % 256) as u8),
            final(self).lines@ == old(self).lines@.push(line).push(line),
            final(self).constants@ == old(self).constants@,
    {
        self.code.push((value / 256) as u8);
        self.lines.push(line);
        self.code.push((value % 256) as u8);
        self.lines.push(line);
    }

    /// Add a constant to the pool and return its index; the pool holds at
    /// most 256 constants.
    pub fn add_constant(&mut self, constant: Constant) -> (idx: u8)
        requires
            old(self).constants@.len() < 256,
        ensures
            final(self).constants@ == old(self).constants@.push(constant),
            idx == old(self).constants@.len(),
            final(self).code@ == old(self).code@,
            final(self).lines@ == old(self).lines@,
    {
        self.constants.push(constant);
        (self.constants.len() - 1) as u8
    }

    /// The 16-bit operand stored at `offset`, high byte first.
    pub fn read_u16(&self, offset: usize) -> (v: u16)
        requires
            offset < usize::MAX,
            offset + 1 < self.code@.len(),
        ensures
            v == self.code@[offset as int] * 256 + self.code@[offset + 1],
    {
        let hi = self.code[offset] as u16;
        let lo = self.code[offset + 1] as u16;
        hi * 256 + lo
    }
}

impl Default for Chunk {
    /// An empty chunk.
    fn default() -> (c: Chunk)
        ensures
            c.code@ == Seq::<u8>::empty(),
            c.constants@ == Seq::<Constant>::empty(),
            c.lines@ == Seq::<usize>::empty(),
    {
        Chunk::new()
    }
}

/// Law: a 16-bit operand written at the end of a chunk reads back unchanged.
pub proof fn write_then_read_u16(before: Seq<u8>, value: u16)
    ensures
        ({
            let after = before.push((value / 256) as u8).push((value % 256) as u8);
            after[before.len() as int] * 256 + after[before.len() + 1int] == value
        }),
{
}

// ----- disassembly -----

/// Why a chunk could not be listed.
#[derive(Debug, Clone, Copy, PartialEq, Eq, Structural)]
pub enum DisassembleError {
    /// A byte that encodes no instruction.
    InvalidOpcode { byte: u8, offset: usize },
    /// An instruction whose operands run past the end of the code.
    Truncated { offset: usize },
    /// An operand that names no constant, or a jump whose target lies before
    /// the start or beyond the addressable range.
    BadOperand { offset: usize },
}

impl DisassembleError {
    pub open spec fn text(self) -> Seq<char> {
        match self {
            DisassembleError::InvalidOpcode { byte, offset } => "invalid opcode "@ + decimal(byte as nat)
                + " at offset "@ + decimal(offset as nat),
            DisassembleError::Truncated { offset } => "truncated instruction at offset "@ + decimal(offset as nat),
            DisassembleError::BadOperand { offset } => "invalid operand at offset "@ + decimal(offset as nat),
        }
    }

    /// The error's message.
    pub fn to_string(&self) -> (s: String)
        ensures
            s@ == self.text(),
    {
        match self {
            DisassembleError::InvalidOpcode { byte, offset } => {
                let mut s = owned("invalid opcode ");
                let b = usize_to_string(*byte as usize);
                append_str(&mut s, b.as_str());
                append_str(&mut s, " at offset ");
                let o = usize_to_string(*offset);
                append_str(&mut s, o.as_str());
                s
            },
            DisassembleError::Truncated { offset } => {
                let mut s = owned("truncated instruction at offset ");
                let o = usize_to_string(*offset);
                append_str(&mut s, o.as_str());
                s
            },
            DisassembleError::BadOperand { offset } => {
                let mut s = owned("invalid operand at offset ");
                let o = usize_to_string(*offset);
                append_str(&mut s, o.as_str());
                s
            },
        }
    }
}

pub open spec fn spaces(n: nat) -> Seq<char> {
    Seq::new(n, |i: int| ' ')
}

/// `s` right-aligned in a field of width `w`.
pub open spec fn pad_left(s: Seq<char>, w: nat) -> Seq<char> {
    if s.len() < w {
        spaces((w - s.len()) as nat) + s
    } else {
        s
    }
}

/// `s` left-aligned in a field of width `w`.
pub open spec fn pad_right(s: Seq<char>, w: nat) -> Seq<char> {
    if s.len() < w {
        s + spaces((w - s.len()) as nat)
    } else {
        s
    }
}

/// How a constant is shown next to an instruction that uses it.
pub open spec fn const_display(c: Constant) -> Seq<char> {
    match c {
        Constant::Number(n) => number_text(n@),
        Constant::String(s) => "\""@ + s@ + "\""@,
        Constant::Function { name, .. } => "<fn "@ + name@ + ">"@,
    }
}

/// The kind of a constant, as shown in the pool listing.
pub open spec fn const_type(c: Constant) -> Seq<char> {
    match c {
        Constant::Number(_) => "Number"@,
        Constant::String(_) => "String"@,
        Constant::Function { .. } => "Function"@,
    }
}

/// The value of a constant, as shown in the pool listing.
pub open spec fn const_pool_value(c: Constant) -> Seq<char> {
    match c {
        Constant::Number(n) => number_text(n@),
        Constant::String(s) => "\""@ + s@ + "\""@,
        Constant::Function { name, .. } => name@,
    }
}

/// "    <offset>: <name padded to 18>"
pub open spec fn line_head(offset: int, name: Seq<char>) -> Seq<char> {
    "    "@ + pad_left(decimal(offset as nat), 3) + ": "@ + pad_right(name, 18)
}

/// Whether an instruction has one operand naming a constant.
pub open spec fn takes_constant(op: OpCode) -> bool {
    op == OpCode::Constant || op == OpCode::DefineGlobal || op == OpCode::GetGlobal || op == OpCode::SetGlobal
        || op == OpCode::Class || op == OpCode::GetProperty || op == OpCode::SetProperty || op == OpCode::Method
        || op == OpCode::GetSuper
}

/// Whether an instruction has one plain byte operand.
pub open spec fn takes_byte(op: OpCode) -> bool {
    op == OpCode::GetLocal || op == OpCode::SetLocal || op == OpCode::Call || op == OpCode::GetUpvalue
        || op == OpCode::SetUpvalue
}

/// The line listing the `i`-th captured variable of a closure whose pairs start at `start`.
pub open spec fn upvalue_line(code: Seq<u8>, at: int) -> Seq<char> {
    "           | "@ + (if code[at] == 1 {
        "local"@
    } else {
        "upvalue"@
    }) + " "@ + decimal(code[at + 1] as nat) + "\n"@
}

/// The lines of the first `n` captured variables of a closure.
pub open spec fn upvalue_lines(code: Seq<u8>, start: int, n: nat) -> Seq<char>
    decreases n,
{
    if n == 0 {
        Seq::empty()
    } else {
        upvalue_lines(code, start, (n - 1) as nat) + upvalue_line(code, start + 2 * (n - 1))
    }
}

/// The text of one instruction and the offset after it, or why it cannot be listed.
pub open spec fn instr_step(c: Chunk, o: int) -> Result<(Seq<char>, int), DisassembleError> {
    let code = c.code@;
    let consts = c.constants@;
    let b = code[o];
    match op_of_byte(b) {
        None => Err(DisassembleError::InvalidOpcode { byte: b, offset: o as usize }),
        Some(op) => {
            let name = op_name(op);
            if takes_constant(op) || op == OpCode::Closure {
                if o + 1 >= code.len() {
                    Err(DisassembleError::Truncated { offset: o as usize })
                } else if code[o + 1] >= consts.len() {
                    Err(DisassembleError::BadOperand { offset: o as usize })
                } else {
                    let idx = code[o + 1];
                    let head = line_head(o, name) + " #"@ + pad_right(decimal(idx as nat), 5) + " // "@
                        + const_display(consts[idx as int]) + "\n"@;
                    if op == OpCode::Closure {
                        match consts[idx as int] {
                            Constant::Function { upvalue_count, .. } => if o + 2 + 2 * upvalue_count > code.len() {
                                Err(DisassembleError::Truncated { offset: o as usize })
                            } else {
                                Ok((head + upvalue_lines(code, o + 2, upvalue_count as nat), o + 2 + 2 * upvalue_count))
                            },
                            _ => Ok((head, o + 2)),
                        }
                    } else {
                        Ok((head, o + 2))
                    }
                }
            } else if takes_byte(op) {
                if o + 1 >= code.len() {
                    Err(DisassembleError::Truncated { offset: o as usize })
                } else {
                    Ok((line_head(o, name) + " "@ + decimal(code[o + 1] as nat) + "\n"@, o + 2))
                }
            } else if op == OpCode::Jump || op == OpCode::JumpIfFalse || op == OpCode::Loop {
                if o + 2 >= code.len() {
                    Err(DisassembleError::Truncated { offset: o as usize })
                } else {
                    let jump = code[o + 1] * 256 + code[o + 2];
                    if (op == OpCode::Loop && jump > o + 3) || (op != OpCode::Loop && o + 3 + jump > usize::MAX) {
                        Err(DisassembleError::BadOperand { offset: o as usize })
                    } else {
                        let target = if op == OpCode::Loop {
                            o + 3 - jump
                        } else {
                            o + 3 + jump
                        };
                        Ok((line_head(o, name) + " -> "@ + decimal(target as nat) + "\n"@, o + 3))
                    }
                }
            } else if op == OpCode::Invoke || op == OpCode::SuperInvoke {
                if o + 2 >= code.len() {
                    Err(DisassembleError::Truncated { offset: o as usize })
                } else if code[o + 1] >= consts.len() {
                    Err(DisassembleError::BadOperand { offset: o as usize })
                } else {
                    let idx = code[o + 1];
                    Ok((
                        line_head(o, name) + " #"@ + pad_right(decimal(idx as nat), 5) + " // ("@ + decimal(
                            code[o + 2] as nat,
                        ) + " args) "@ + const_display(consts[idx as int]) + "\n"@,
                        o + 3,
                    ))
                }
            } else {
                Ok(("    "@ + pad_left(decimal(o as nat), 3) + ": "@ + name + "\n"@, o + 1))
            }
        },
    }
}

/// The listing of a chunk's code from offset `o` on, after `acc`.
pub open spec fn code_from(c: Chunk, o: int, acc: Seq<char>) -> Result<Seq<char>, DisassembleError>
    decreases c.code@.len() - o,
{
    if o < 0 || o >= c.code@.len() {
        Ok(acc)
    } else {
        match instr_step(c, o) {
            Err(e) => Err(e),
            Ok((t, n)) => if o < n {
                code_from(c, n, acc + t)
            } else {
                Ok(acc + t)
            },
        }
    }
}

/// The pool listing line of constant `i`.
pub open spec fn const_line(i: nat, c: Constant) -> Seq<char> {
    "    "@ + pad_left("#"@ + decimal(i), 3) + " = "@ + pad_right(const_type(c), 14) + "  "@ + const_pool_value(c)
        + "\n"@
}

/// The pool listing from constant `i` on, after `acc`.
pub open spec fn consts_from(cs: Seq<Constant>, i: nat, acc: Seq<char>) -> Seq<char>
    decreases cs.len() - i,
{
    if i >= cs.len() {
        acc
    } else {
        consts_from(cs, i + 1, acc + const_line(i, cs[i as int]))
    }
}

/// "_0, _1, ..." for `k` parameters.
pub open spec fn param_names(k: nat) -> Seq<char>
    decreases k,
{
    if k == 0 {
        Seq::empty()
    } else if k == 1 {
        "_"@ + decimal(0)
    } else {
        param_names((k - 1) as nat) + ", "@ + "_"@ + decimal((k - 1) as nat)
    }
}

/// The header line of a chunk's listing.
pub open spec fn chunk_header(name: Seq<char>, arity: nat) -> Seq<char> {
    if name == "script"@ {
        "script;\n"@
    } else {
        "fun "@ + name + "("@ + param_names(arity) + ");  // arity="@ + decimal(arity) + "\n"@
    }
}

/// The listing of a chunk and, after it, of each function in its pool, after `acc`.
pub open spec fn chunk_text(c: Chunk, name: Seq<char>, arity: nat, acc: Seq<char>) -> Result<Seq<char>, DisassembleError>
    decreases c, 1int,
{
    let a1 = acc + chunk_header(name, arity);
    let a2 = if c.constants@.len() > 0 {
        consts_from(c.constants@, 0, a1 + "  Constants:\n"@) + "\n"@
    } else {
        a1
    };
    match code_from(c, 0, a2 + "  Code:\n"@) {
        Err(e) => Err(e),
        Ok(a3) => {
            proof {
                assert(decreases_to!(c => c.constants));
                assert(decreases_to!(c.constants => c.constants@));
            }
            nested_from(c.constants@, 0, a3 + "\n"@)
        },
    }
}

/// The listings of the functions in a pool from constant `i` on, after `acc`.
pub open spec fn nested_from(cs: Seq<Constant>, i: int, acc: Seq<char>) -> Result<Seq<char>, DisassembleError>
    decreases cs, cs.len() - i,
{
    if i < 0 || i >= cs.len() {
        Ok(acc)
    } else {
        match cs[i] {
            Constant::Function { name, arity, chunk, .. } => {
                proof {
                    assert(decreases_to!(cs => cs[i]));
                }
                match chunk_text(chunk, name@, arity as nat, acc) {
                    Err(e) => Err(e),
                    Ok(a) => nested_from(cs, i + 1, a),
                }
            },
            _ => nested_from(cs, i + 1, acc),
        }
    }
}

/// The full listing: a header naming the source, then the script and every
/// function it contains.
pub open spec fn disassembly(c: Chunk, source_name: Seq<char>) -> Result<Seq<char>, DisassembleError> {
    chunk_text(c, "script"@, 0, "Compiled from \""@ + source_name + "\"\n"@)
}

fn push_spaces(out: &mut String, n: usize)
    ensures
        final(out)@ == old(out)@ + spaces(n as nat),
{
    let ghost start = out@;
    let mut i: usize = 0;
    while i < n
        invariant
            i <= n,
            out@ == start + spaces(i as nat),
        decreases n - i,
    {
        out.push(' ');
        i = i + 1;
        assert(out@ =~= start + spaces(i as nat));
    }
}

/// Append `s` right-aligned in a field of width `w`.
fn push_pad_left(out: &mut String, s: &str, w: usize)
    ensures
        final(out)@ == old(out)@ + pad_left(s@, w as nat),
{
    let n = chars_of(s).len();
    if n < w {
        push_spaces(out, w - n);
        append_str(out, s);
        assert(out@ =~= old(out)@ + pad_left(s@, w as nat));
    } else {
        append_str(out, s);
    }
}

/// Append `s` left-aligned in a field of width `w`.
fn push_pad_right(out: &mut String, s: &str, w: usize)
    ensures
        final(out)@ == old(out)@ + pad_right(s@, w as nat),
{
    let n = chars_of(s).len();
    append_str(out, s);
    if n < w {
        push_spaces(out, w - n);
        assert(out@ =~= old(out)@ + pad_right(s@, w as nat));
    }
}

fn push_const_display(out: &mut String, c: &Constant)
    ensures
        final(out)@ == old(out)@ + const_display(*c),
{
    match c {
        Constant::Number(n) => {
            let t = crate::ast::printer::number_sexp(n.as_str());
            append_str(out, t.as_str());
        },
        Constant::String(s) => {
            let mut t = owned("\"");
            append_str(&mut t, s.as_str());
            append_str(&mut t, "\"");
            append_str(out, t.as_str());
        },
        Constant::Function { name, .. } => {
            let mut t = owned("<fn ");
            append_str(&mut t, name.as_str());
            append_str(&mut t, ">");
            append_str(out, t.as_str());
        },
    }
}

fn push_line_head(out: &mut String, offset: usize, name: &str)
    ensures
        final(out)@ == old(out)@ + line_head(offset as int, name@),
{
    let mut t = owned("    ");
    let o = usize_to_string(offset);
    push_pad_left(&mut t, o.as_str(), 3);
    append_str(&mut t, ": ");
    push_pad_right(&mut t, name, 18);
    append_str(out, t.as_str());
}

/// List one instruction into `out`, giving the offset of the next.
fn disassemble_instruction(chunk: &Chunk, offset: usize, out: &mut String) -> (r: Result<usize, DisassembleError>)
    requires
        offset < chunk.code@.len(),
    ensures
        match instr_step(*chunk, offset as int) {
            Ok((t, n)) => r == Ok::<usize, DisassembleError>(n as usize) && n <= chunk.code@.len() && final(out)@
                == old(out)@ + t,
            Err(e) => r == Err::<usize, DisassembleError>(e) && final(out)@ == old(out)@,
        },
{
    let code = &chunk.code;
    let code_len = code.len();
    let byte = code[offset];
    let op = match OpCode::try_from(byte) {
        Ok(op) => op,
        Err(b) => {
            return Err(DisassembleError::InvalidOpcode { byte: b, offset });
        },
    };
    let name = op.as_ref();
    let mut line = String::new();
    match op {
        OpCode::Constant | OpCode::DefineGlobal | OpCode::GetGlobal | OpCode::SetGlobal | OpCode::Class
        | OpCode::GetProperty | OpCode::SetProperty | OpCode::Method | OpCode::GetSuper | OpCode::Closure => {
            if offset + 1 >= code.len() {
                return Err(DisassembleError::Truncated { offset });
            }
            let idx = code[offset + 1];
            if idx as usize >= chunk.constants.len() {
                return Err(DisassembleError::BadOperand { offset });
            }
            push_line_head(&mut line, offset, name);
            append_str(&mut line, " #");
            let i = usize_to_string(idx as usize);
            push_pad_right(&mut line, i.as_str(), 5);
            append_str(&mut line, " // ");
            push_const_display(&mut line, &chunk.constants[idx as usize]);
            append_str(&mut line, "\n");
            let mut next = offset + 2;
            if let OpCode::Closure = op {
                if let Constant::Function { upvalue_count, .. } = &chunk.constants[idx as usize] {
                    let k = *upvalue_count;
                    if k > (code.len() - (offset + 2)) / 2 {
                        return Err(DisassembleError::Truncated { offset });
                    }
                    let ghost head = line@;
                    let mut j: usize = 0;
                    while j < k
                        invariant
                            j <= k,
                            k <= (code@.len() - (offset + 2)) / 2,
                            offset + 2 <= code@.len(),
                            code == &chunk.code,
                            code_len == code@.len(),
                            next == offset + 2 + 2 * j,
                            line@ == head + upvalue_lines(code@, offset + 2, j as nat),
                        decreases k - j,
                    {
                        let is_local = code[next];
                        let index = code[next + 1];
                        let mut u = owned("           | ");
                        if is_local == 1 {
                            append_str(&mut u, "local");
                        } else {
                            append_str(&mut u, "upvalue");
                        }
                        append_str(&mut u, " ");
                        let d = usize_to_string(index as usize);
                        append_str(&mut u, d.as_str());
                        append_str(&mut u, "\n");
                        append_str(&mut line, u.as_str());
                        next = next + 2;
                        j = j + 1;
                        assert(line@ =~= head + upvalue_lines(code@, offset + 2, j as nat));
                    }
                }
            }
            append_str(out, line.as_str());
            Ok(next)
        },
        OpCode::GetLocal | OpCode::SetLocal | OpCode::Call | OpCode::GetUpvalue | OpCode::SetUpvalue => {
            if offset + 1 >= code.len() {
                return Err(DisassembleError::Truncated { offset });
            }
            push_line_head(&mut line, offset, name);
            append_str(&mut line, " ");
            let s = usize_to_string(code[offset + 1] as usize);
            append_str(&mut line, s.as_str());
            append_str(&mut line, "\n");
            append_str(out, line.as_str());
            Ok(offset + 2)
        },
        OpCode::Jump | OpCode::JumpIfFalse | OpCode::Loop => {
            if code_len - offset <= 2 {
                return Err(DisassembleError::Truncated { offset });
            }
            let jump = chunk.read_u16(offset + 1) as usize;
            let target = if let OpCode::Loop = op {
                if jump > offset + 3 {
                    return Err(DisassembleError::BadOperand { offset });
                }
                offset + 3 - jump
            } else {
                match (offset + 3).checked_add(jump) {
                    Some(t) => t,
                    None => {
                        return Err(DisassembleError::BadOperand { offset });
                    },
                }
            };
            push_line_head(&mut line, offset, name);
            append_str(&mut line, " -> ");
            let s = usize_to_string(target);
            append_str(&mut line, s.as_str());
            append_str(&mut line, "\n");
            append_str(out, line.as_str());
            Ok(offset + 3)
        },
        OpCode::Invoke | OpCode::SuperInvoke => {
            if code_len - offset <= 2 {
                return Err(DisassembleError::Truncated { offset });
            }
            let idx = code[offset + 1];
            if idx as usize >= chunk.constants.len() {
                return Err(DisassembleError::BadOperand { offset });
            }
            push_line_head(&mut line, offset, name);
            append_str(&mut line, " #");
            let i = usize_to_string(idx as usize);
            push_pad_right(&mut line, i.as_str(), 5);
            append_str(&mut line, " // (");
            let a = usize_to_string(code[offset + 2] as usize);
            append_str(&mut line, a.as_str());
            append_str(&mut line, " args) ");
            push_const_display(&mut line, &chunk.constants[idx as usize]);
            append_str(&mut line, "\n");
            append_str(out, line.as_str());
            Ok(offset + 3)
        },
        _ => {
            append_str(&mut line, "    ");
            let o = usize_to_string(offset);
            push_pad_left(&mut line, o.as_str(), 3);
            append_str(&mut line, ": ");
            append_str(&mut line, name);
            append_str(&mut line, "\n");
            append_str(out, line.as_str());
            Ok(offset + 1)
        },
    }
}

/// List a chunk (the script, or a function with its name and arity) and then
/// each function in its pool.
fn disassemble_chunk(chunk: &Chunk, name: &str, arity: usize, out: &mut String) -> (r: Result<(), DisassembleError>)
    ensures
        match chunk_text(*chunk, name@, arity as nat, old(out)@) {
            Ok(t) => r is Ok && final(out)@ == t,
            Err(e) => r == Err::<(), DisassembleError>(e),
        },
    decreases chunk,
{
    if str_eq(name, "script") {
        append_str(out, "script;\n");
    } else {
        let mut h = owned("fun ");
        append_str(&mut h, name);
        append_str(&mut h, "(");
        let mut k: usize = 0;
        while k < arity
            invariant
                k <= arity,
                h@ == "fun "@ + name@ + "("@ + param_names(k as nat),
            decreases arity - k,
        {
            if k > 0 {
                append_str(&mut h, ", ");
            }
            append_str(&mut h, "_");
            let d = usize_to_string(k);
            append_str(&mut h, d.as_str());
            k = k + 1;
            proof {
                if k == 1 {
                    assert(param_names(1) == "_"@ + decimal(0));
                }
            }
            assert(h@ =~= "fun "@ + name@ + "("@ + param_names(k as nat));
        }
        append_str(&mut h, ");  // arity=");
        let a = usize_to_string(arity);
        append_str(&mut h, a.as_str());
        append_str(&mut h, "\n");
        append_str(out, h.as_str());
    }
    let ghost a1 = out@;
    let cs = &chunk.constants;
    if cs.len() > 0 {
        append_str(out, "  Constants:\n");
        let ghost c0 = out@;
        let mut i: usize = 0;
        while i < cs.len()
            invariant
                i <= cs@.len(),
                cs == &chunk.constants,
                consts_from(cs@, i as nat, out@) == consts_from(cs@, 0, c0),
            decreases cs@.len() - i,
        {
            let mut t = owned("    ");
            let mut label = owned("#");
            let d = usize_to_string(i);
            append_str(&mut label, d.as_str());
            push_pad_left(&mut t, label.as_str(), 3);
            append_str(&mut t, " = ");
            let ty = match &cs[i] {
                Constant::Number(_) => "Number",
                Constant::String(_) => "String",
                Constant::Function { .. } => "Function",
            };
            push_pad_right(&mut t, ty, 14);
            append_str(&mut t, "  ");
            match &cs[i] {
                Constant::Number(n) => {
                    let v = crate::ast::printer::number_sexp(n.as_str());
                    append_str(&mut t, v.as_str());
                },
                Constant::String(s) => {
                    append_str(&mut t, "\"");
                    append_str(&mut t, s.as_str());
                    append_str(&mut t, "\"");
                },
                Constant::Function { name: fname, .. } => {
                    append_str(&mut t, fname.as_str());
                },
            }
            append_str(&mut t, "\n");
            assert(t@ == const_line(i as nat, cs@[i as int]));
            append_str(out, t.as_str());
            i = i + 1;
        }
        append_str(out, "\n");
    }
    append_str(out, "  Code:\n");
    let ghost a2 = out@;
    let code_len = chunk.code.len();
    let mut offset: usize = 0;
    while offset < code_len
        invariant
            offset <= code_len,
            code_len == chunk.code@.len(),
            code_from(*chunk, offset as int, out@) == code_from(*chunk, 0, a2),
            chunk_text(*chunk, name@, arity as nat, old(out)@) == (match code_from(*chunk, 0, a2) {
                Err(e) => Err(e),
                Ok(a3) => nested_from(chunk.constants@, 0, a3 + "\n"@),
            }),
        decreases code_len - offset,
    {
        match disassemble_instruction(chunk, offset, out) {
            Ok(next) => {
                offset = next;
            },
            Err(e) => {
                return Err(e);
            },
        }
    }
    append_str(out, "\n");
    let ghost a3 = out@;
    let mut i: usize = 0;
    while i < cs.len()
        invariant
            i <= cs@.len(),
            cs == &chunk.constants,
            nested_from(cs@, i as int, out@) == nested_from(cs@, 0, a3),
            chunk_text(*chunk, name@, arity as nat, old(out)@) == nested_from(cs@, 0, a3),
        decreases cs@.len() - i,
    {
        if let Constant::Function { name: fname, arity: farity, chunk: fchunk, .. } = &cs[i] {
            proof {
                assert(decreases_to!(*chunk => chunk.constants));
                assert(decreases_to!(chunk.constants => chunk.constants@));
                assert(decreases_to!(chunk.constants@ => chunk.constants@[i as int]));
                assert(decreases_to!(chunk.constants@[i as int] => chunk.constants@[i as int]->Function_chunk));
            }
            match disassemble_chunk(fchunk, fname.as_str(), *farity, out) {
                Ok(()) => {},
                Err(e) => {
                    return Err(e);
                },
            }
        }
        i = i + 1;
    }
    Ok(())
}

/// Disassemble a chunk into a listing headed by the source's name, with each
/// nested function listed after the code that contains it.
pub fn disassemble(chunk: &Chunk, source_name: &str) -> (r: Result<String, DisassembleError>)
    ensures
        match disassembly(*chunk, source_name@) {
            Ok(t) => r is Ok && r->Ok_0@ == t,
            Err(e) => r == Err::<String, DisassembleError>(e),
        },
{
    let mut out = owned("Compiled from \"");
    append_str(&mut out, source_name);
    append_str(&mut out, "\"\n");
    match disassemble_chunk(chunk, "script", 0, &mut out) {
        Ok(()) => Ok(out),
        Err(e) => Err(e),
    }
}

} // verus!
