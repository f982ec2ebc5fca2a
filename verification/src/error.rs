//! Compile-time and run-time errors.
use vstd::prelude::*;

use crate::interpreter::value::Value;
use crate::scanner::token::Span;
use crate::text::{append_str, byte_offset, char_byte_width, char_width, chars_of, decimal, lemma_byte_offset_step, owned, push_decimal, str_eq};

verus! {

// ============= Compile-time errors =============

/// The phase of the front end that reported a compile error.
#[derive(Debug, Clone, Copy, PartialEq, Eq, Structural)]
pub enum ErrorPhase {
    Scan,
    Parse,
    Resolve,
    Compile,
}

/// An error found while scanning, parsing or resolving a program, with the
/// byte span it refers to and (once attached) the source it was found in.
#[derive(Debug, Clone)]
pub enum CompileError {
    Scan { message: String, span: Span, source_name: String, source: String },
    Parse { message: String, span: Span, source_name: String, source: String },
    Resolve { message: String, span: Span, source_name: String, source: String },
    Compile { message: String, span: Span, source_name: String, source: String },
}

impl CompileError {
    pub open spec fn phase(self) -> ErrorPhase {
        match self {
            CompileError::Scan { .. } => ErrorPhase::Scan,
            CompileError::Parse { .. } => ErrorPhase::Parse,
            CompileError::Resolve { .. } => ErrorPhase::Resolve,
            CompileError::Compile { .. } => ErrorPhase::Compile,
        }
    }

    pub open spec fn msg(self) -> Seq<char> {
        match self {
            CompileError::Scan { message, .. } => message@,
            CompileError::Parse { message, .. } => message@,
            CompileError::Resolve { message, .. } => message@,
            CompileError::Compile { message, .. } => message@,
        }
    }

    pub open spec fn at(self) -> Span {
        match self {
            CompileError::Scan { span, .. } => span,
            CompileError::Parse { span, .. } => span,
            CompileError::Resolve { span, .. } => span,
            CompileError::Compile { span, .. } => span,
        }
    }

    pub open spec fn src_name(self) -> Seq<char> {
        match self {
            CompileError::Scan { source_name, .. } => source_name@,
            CompileError::Parse { source_name, .. } => source_name@,
            CompileError::Resolve { source_name, .. } => source_name@,
            CompileError::Compile { source_name, .. } => source_name@,
        }
    }

    pub open spec fn src_text(self) -> Seq<char> {
        match self {
            CompileError::Scan { source, .. } => source@,
            CompileError::Parse { source, .. } => source@,
            CompileError::Resolve { source, .. } => source@,
            CompileError::Compile { source, .. } => source@,
        }
    }

    fn make(phase: ErrorPhase, message: String, offset: usize, len: usize) -> (e: CompileError)
        ensures
            e.phase() == phase,
            e.msg() == message@,
            e.at() == Span::new_spec(offset, len),
            e.src_name() == "input"@,
            e.src_text() == Seq::<char>::empty(),
    {
        let span = Span::new(offset, len);
        let source_name = owned("input");
        let source = String::new();
        match phase {
            ErrorPhase::Scan => CompileError::Scan { message, span, source_name, source },
            ErrorPhase::Parse => CompileError::Parse { message, span, source_name, source },
            ErrorPhase::Resolve => CompileError::Resolve { message, span, source_name, source },
            ErrorPhase::Compile => CompileError::Compile { message, span, source_name, source },
        }
    }

    /// A scan error at the given byte span, with no source attached.
    pub fn scan(message: String, offset: usize, len: usize) -> (e: CompileError)
        ensures
            e.phase() == ErrorPhase::Scan,
            e.msg() == message@,
            e.at() == Span::new_spec(offset, len),
            e.src_name() == "input"@,
            e.src_text() == Seq::<char>::empty(),
    {
        Self::make(ErrorPhase::Scan, message, offset, len)
    }

    /// A parse error at the given byte span, with no source attached.
    pub fn parse(message: String, offset: usize, len: usize) -> (e: CompileError)
        ensures
            e.phase() == ErrorPhase::Parse,
            e.msg() == message@,
            e.at() == Span::new_spec(offset, len),
            e.src_name() == "input"@,
            e.src_text() == Seq::<char>::empty(),
    {
        Self::make(ErrorPhase::Parse, message, offset, len)
    }

    /// A resolution error at the given byte span, with no source attached.
    pub fn resolve(message: String, offset: usize, len: usize) -> (e: CompileError)
        ensures
            e.phase() == ErrorPhase::Resolve,
            e.msg() == message@,
            e.at() == Span::new_spec(offset, len),
            e.src_name() == "input"@,
            e.src_text() == Seq::<char>::empty(),
    {
        Self::make(ErrorPhase::Resolve, message, offset, len)
    }

    /// An error found while compiling to bytecode, with no source attached.
    pub fn compile(message: String, offset: usize, len: usize) -> (e: CompileError)
        ensures
            e.phase() == ErrorPhase::Compile,
            e.msg() == message@,
            e.at() == Span::new_spec(offset, len),
            e.src_name() == "input"@,
            e.src_text() == Seq::<char>::empty(),
    {
        Self::make(ErrorPhase::Compile, message, offset, len)
    }

    /// The same error with the named source code attached for diagnostics.
    pub fn with_source_code(self, name: String, source: String) -> (e: CompileError)
        ensures
            e.phase() == self.phase(),
            e.msg() == self.msg(),
            e.at() == self.at(),
            e.src_name() == name@,
            e.src_text() == source@,
    {
        match self {
            CompileError::Scan { message, span, .. } => CompileError::Scan { message, span, source_name: name, source },
            CompileError::Parse { message, span, .. } => CompileError::Parse { message, span, source_name: name, source },
            CompileError::Resolve { message, span, .. } => CompileError::Resolve { message, span, source_name: name, source },
            CompileError::Compile { message, span, .. } => CompileError::Compile { message, span, source_name: name, source },
        }
    }

    /// The error's message.
    pub fn message(&self) -> (m: &String)
        ensures
            m@ == self.msg(),
    {
        match self {
            CompileError::Scan { message, .. } => message,
            CompileError::Parse { message, .. } => message,
            CompileError::Resolve { message, .. } => message,
            CompileError::Compile { message, .. } => message,
        }
    }

    /// The byte span the error refers to.
    pub fn span(&self) -> (s: Span)
        ensures
            s == self.at(),
    {
        match self {
            CompileError::Scan { span, .. } => *span,
            CompileError::Parse { span, .. } => *span,
            CompileError::Resolve { span, .. } => *span,
            CompileError::Compile { span, .. } => *span,
        }
    }

    /// The name of the attached source.
    pub fn source_name(&self) -> (s: &String)
        ensures
            s@ == self.src_name(),
    {
        match self {
            CompileError::Scan { source_name, .. } => source_name,
            CompileError::Parse { source_name, .. } => source_name,
            CompileError::Resolve { source_name, .. } => source_name,
            CompileError::Compile { source_name, .. } => source_name,
        }
    }

    /// The attached source code.
    pub fn source_code(&self) -> (s: &String)
        ensures
            s@ == self.src_text(),
    {
        match self {
            CompileError::Scan { source, .. } => source,
            CompileError::Parse { source, .. } => source,
            CompileError::Resolve { source, .. } => source,
            CompileError::Compile { source, .. } => source,
        }
    }

    /// The one-line description: `"<phase> error: <message>"`.
    pub open spec fn display(self) -> Seq<char> {
        match self.phase() {
            ErrorPhase::Scan => "scan error: "@ + self.msg(),
            ErrorPhase::Parse => "parse error: "@ + self.msg(),
            ErrorPhase::Resolve => "resolution error: "@ + self.msg(),
            ErrorPhase::Compile => "compile error: "@ + self.msg(),
        }
    }

    /// The one-line description of the error.
    pub fn to_string(&self) -> (s: String)
        ensures
            s@ == self.display(),
    {
        let mut s = match self {
            CompileError::Scan { .. } => owned("scan error: "),
            CompileError::Parse { .. } => owned("parse error: "),
            CompileError::Resolve { .. } => owned("resolution error: "),
            CompileError::Compile { .. } => owned("compile error: "),
        };
        append_str(&mut s, self.message().as_str());
        s
    }
}

impl Span {
    pub open spec fn new_spec(offset: usize, len: usize) -> Span {
        Span { offset, len }
    }
}

// ============= Runtime errors =============

/// A single frame in the Lox call stack, captured at the point of a runtime error.
#[derive(Debug, Clone)]
pub struct StackFrame {
    pub function_name: String,
    pub line: usize,
}

impl StackFrame {
    /// A copy of the frame.
    pub fn duplicate(&self) -> (f: StackFrame)
        ensures
            f.function_name@ == self.function_name@,
            f.line == self.line,
    {
        StackFrame { function_name: self.function_name.clone(), line: self.line }
    }
}

/// A frame's name and line.
pub open spec fn frame_view(f: StackFrame) -> (Seq<char>, usize) {
    (f.function_name@, f.line)
}

/// An error raised while running a program, or the unwinding of a `return`.
#[derive(Debug)]
pub enum RuntimeError {
    Error { message: String, span: Option<Span>, backtrace: Vec<StackFrame> },
    Return { value: Value },
}

impl RuntimeError {
    /// A runtime error without source location.
    pub fn new(message: String) -> (e: RuntimeError)
        ensures
            e matches RuntimeError::Error { message: m, span, backtrace }
                && m@ == message@ && span is None && backtrace@.len() == 0,
    {
        RuntimeError::Error { message, span: None, backtrace: Vec::new() }
    }

    /// A runtime error at a source span.
    pub fn with_span(message: String, span: Span) -> (e: RuntimeError)
        ensures
            e matches RuntimeError::Error { message: m, span: s, backtrace }
                && m@ == message@ && s == Some(span) && backtrace@.len() == 0,
    {
        RuntimeError::Error { message, span: Some(span), backtrace: Vec::new() }
    }

    /// The same error with the given call-stack backtrace attached; a `Return` is unchanged.
    pub fn with_backtrace(self, frames: Vec<StackFrame>) -> (e: RuntimeError)
        ensures
            match self {
                RuntimeError::Error { message, span, .. } => e matches RuntimeError::Error {
                    message: m,
                    span: s,
                    backtrace,
                } && m@ == message@ && s == span && backtrace@ == frames@,
                RuntimeError::Return { value } => e == RuntimeError::Return { value },
            },
    {
        match self {
            RuntimeError::Error { message, span, .. } => RuntimeError::Error { message, span, backtrace: frames },
            RuntimeError::Return { value } => RuntimeError::Return { value },
        }
    }

    /// The attached backtrace frames (empty for a `Return`).
    pub fn backtrace_frames(&self) -> (f: &[StackFrame])
        ensures
            match self {
                RuntimeError::Error { backtrace, .. } => f@ == backtrace@,
                RuntimeError::Return { .. } => f@.len() == 0,
            },
    {
        match self {
            RuntimeError::Error { backtrace, .. } => backtrace.as_slice(),
            RuntimeError::Return { .. } => &[],
        }
    }

    /// Whether this is the unwinding of a `return`.
    pub fn is_return(&self) -> (r: bool)
        ensures
            r == (*self is Return),
    {
        match self {
            RuntimeError::Return { .. } => true,
            _ => false,
        }
    }

    /// The returned value, if this is a `Return`.
    pub fn into_return_value(self) -> (r: Option<Value>)
        ensures
            match self {
                RuntimeError::Return { value } => r == Some(value),
                _ => r is None,
            },
    {
        match self {
            RuntimeError::Return { value } => Some(value),
            _ => None,
        }
    }

    /// A reference to the returned value, if this is a `Return`.
    pub fn as_return_value(&self) -> (r: Option<&Value>)
        ensures
            match *self {
                RuntimeError::Return { value } => r == Some(&value),
                _ => r is None,
            },
    {
        match self {
            RuntimeError::Return { value } => Some(value),
            _ => None,
        }
    }

    /// The text shown for the error: `"Error: <message>"`, or `"return"` for a `Return`.
    pub fn to_string(&self) -> (s: String)
        ensures
            match *self {
                RuntimeError::Error { message, .. } => s@ == "Error: "@ + message@,
                RuntimeError::Return { .. } => s@ == "return"@,
            },
    {
        match self {
            RuntimeError::Error { message, .. } => {
                let mut s = owned("Error: ");
                append_str(&mut s, message.as_str());
                s
            },
            RuntimeError::Return { .. } => owned("return"),
        }
    }

    /// The error formatted with the line its span starts on in `source`:
    /// `"Error: line <n>: <message>"`, or `"Error: <message>"` without a span.
    pub fn display_with_line(&self, source: &str) -> (s: String)
        requires
            match *self {
                RuntimeError::Error { span: Some(sp), .. } => is_char_boundary(source@, clamp(sp.offset as nat, source@)) && source@.len() < usize::MAX,
                _ => true,
            },
        ensures
            s@ == display_with_line_spec(*self, source@),
    {
        match self {
            RuntimeError::Error { message, span: Some(sp), .. } => {
                let line = offset_to_line(source, sp.offset);
                let mut s = owned("Error: line ");
                push_decimal(&mut s, line);
                append_str(&mut s, ": ");
                append_str(&mut s, message.as_str());
                s
            },
            RuntimeError::Error { message, span: None, .. } => {
                let mut s = owned("Error: ");
                append_str(&mut s, message.as_str());
                s
            },
            RuntimeError::Return { .. } => owned("Error: unexpected return"),
        }
    }
}

/// What `display_with_line` shows for an error.
pub open spec fn display_with_line_spec(e: RuntimeError, source: Seq<char>) -> Seq<char> {
    match e {
        RuntimeError::Error { message, span: Some(sp), .. } => "Error: line "@ + decimal(
            line_of(source, clamp(sp.offset as nat, source)),
        ) + ": "@ + message@,
        RuntimeError::Error { message, span: None, .. } => "Error: "@ + message@,
        RuntimeError::Return { .. } => "Error: unexpected return"@,
    }
}

/// One line of a rendered backtrace.
pub open spec fn backtrace_line(i: nat, f: StackFrame) -> Seq<char> {
    "  "@ + decimal(i) + ": "@ + f.function_name@ + "()\t\t[line "@ + decimal(f.line as nat) + "]\n"@
}

/// The rendered lines of the frames `frames[0..n]`.
pub open spec fn backtrace_lines(frames: Seq<StackFrame>, n: nat) -> Seq<char>
    decreases n,
{
    if n == 0 {
        Seq::empty()
    } else {
        backtrace_lines(frames, (n - 1) as nat) + backtrace_line((n - 1) as nat, frames[n - 1])
    }
}

/// The rendered backtrace: empty without frames, else a header and one line per frame.
pub open spec fn backtrace_text(frames: Seq<StackFrame>) -> Seq<char> {
    if frames.len() == 0 {
        Seq::empty()
    } else {
        "stack backtrace:\n"@ + backtrace_lines(frames, frames.len())
    }
}

/// Whether the setting of the backtrace switch (the value of the
/// `LOX_BACKTRACE` variable, if set) asks for backtraces: `1` or `full`.
pub fn backtrace_requested(setting: Option<&str>) -> (r: bool)
    ensures
        r == (setting matches Some(v) && (v@ == "1"@ || v@ == "full"@)),
{
    match setting {
        Some(v) => str_eq(v, "1") || str_eq(v, "full"),
        None => false,
    }
}

/// Format the backtrace portion for display. Returns an empty string if no frames.
pub fn format_backtrace(frames: &[StackFrame]) -> (out: String)
    ensures
        out@ == backtrace_text(frames@),
{
    if frames.len() == 0 {
        return String::new();
    }
    let mut out = owned("stack backtrace:\n");
    let mut i: usize = 0;
    while i < frames.len()
        invariant
            i <= frames@.len(),
            frames@.len() > 0,
            out@ == "stack backtrace:\n"@ + backtrace_lines(frames@, i as nat),
        decreases frames@.len() - i,
    {
        let ghost before = out@;
        append_str(&mut out, "  ");
        push_decimal(&mut out, i);
        append_str(&mut out, ": ");
        append_str(&mut out, frames[i].function_name.as_str());
        append_str(&mut out, "()\t\t[line ");
        push_decimal(&mut out, frames[i].line);
        append_str(&mut out, "]\n");
        assert(out@ =~= before + backtrace_line(i as nat, frames@[i as int]));
        i = i + 1;
        assert(backtrace_lines(frames@, i as nat) =~= backtrace_lines(frames@, (i - 1) as nat)
            + backtrace_line((i - 1) as nat, frames@[i - 1]));
    }
    out
}

/// `offset` clamped to the source's byte length.
pub open spec fn clamp(offset: nat, source: Seq<char>) -> nat {
    if offset < crate::text::byte_len(source) { offset } else { crate::text::byte_len(source) }
}

/// `k` is the byte offset of a character boundary of `s`.
pub open spec fn is_char_boundary(s: Seq<char>, k: nat) -> bool {
    exists|i: int| 0 <= i <= s.len() && byte_offset(s, i) == k
}

/// Number of newlines among the first `n` characters of `s`.
pub open spec fn newlines_in(s: Seq<char>, n: int) -> nat
    decreases n,
{
    if n <= 0 {
        0
    } else {
        newlines_in(s, n - 1) + if s[n - 1] == '\n' { 1nat } else { 0nat }
    }
}

/// The 1-based line on which the byte offset `k` lies: one more than the number
/// of newlines in the text before `k`.
pub open spec fn line_of(s: Seq<char>, k: nat) -> nat {
    1 + newlines_in(s, char_index_of(s, k))
}

/// The index of the character at byte offset `k`.
pub open spec fn char_index_of(s: Seq<char>, k: nat) -> int {
    choose|i: int| 0 <= i <= s.len() && byte_offset(s, i) == k
}

pub proof fn lemma_byte_offset_strict(s: Seq<char>, i: int, j: int)
    requires
        0 <= i < j <= s.len(),
    ensures
        byte_offset(s, i) < byte_offset(s, j),
    decreases j - i,
{
    lemma_byte_offset_step(s, j - 1);
    assert(char_width(s[j - 1]) >= 1) by {
        vstd::utf8::char_is_scalar(s[j - 1]);
    }
    if i < j - 1 {
        lemma_byte_offset_strict(s, i, j - 1);
    }
}

/// Calculate the 1-based line number of a byte offset in the source
/// (offsets past the end count as the end).
pub fn offset_to_line(source: &str, offset: usize) -> (line: usize)
    requires
        is_char_boundary(source@, clamp(offset as nat, source@)),
        source@.len() < usize::MAX,
    ensures
        line == line_of(source@, clamp(offset as nat, source@)),
{
    let cs = chars_of(source);
    let ghost s = source@;
    let ghost k = clamp(offset as nat, s);
    let ghost i0 = char_index_of(s, k);
    proof {
        crate::text::lemma_byte_offset_mono(s, 0, s.len() as int);
    }
    let mut i: usize = 0;
    let mut b: usize = 0;
    let mut count: usize = 0;
    assert(s.take(0) =~= Seq::<char>::empty());
    while i < cs.len() && b < offset
        invariant
            cs@ == s,
            0 <= i0 <= s.len(),
            byte_offset(s, i0) == k,
            i <= i0,
            b == byte_offset(s, i as int),
            count == newlines_in(s, i as int),
            count <= i,
            k == clamp(offset as nat, s),
        decreases s.len() - i,
    {
        proof {
            if i == i0 {
                lemma_byte_offset_strict(s, i as int, s.len() as int);
                crate::text::lemma_byte_offset_mono(s, i as int, s.len() as int);
                assert(false);
            }
            lemma_byte_offset_step(s, i as int);
            lemma_byte_offset_le_strict(s, i as int + 1, i0);
        }
        let c = cs[i];
        if c == '\n' {
            count = count + 1;
        }
        let w = char_byte_width(c);
        b = b + w;
        i = i + 1;
    }
    proof {
        if i < i0 {
            lemma_byte_offset_strict(s, i as int, i0);
            assert(b < k);
            assert(k <= offset);
            assert(i < cs.len());
            assert(false);
        }
    }
    count + 1
}

/// Counting newlines over a longer prefix gives at least as many, and at most
/// one more per extra character.
pub proof fn lemma_newlines_in_mono(s: Seq<char>, i: int, j: int)
    requires
        0 <= i <= j <= s.len(),
    ensures
        newlines_in(s, i) <= newlines_in(s, j) <= newlines_in(s, i) + (j - i),
    decreases j - i,
{
    if i < j {
        lemma_newlines_in_mono(s, i, j - 1);
    }
}

/// Lines of offsets only grow: for offsets `o1 <= o2` (each clamped to the
/// text, as `offset_to_line` does), the line of `o1` is at least 1 and at most
/// the line of `o2`, which is at most one more than the number of newlines in
/// the whole text.
pub proof fn offset_lines_are_ordered(s: Seq<char>, o1: nat, o2: nat)
    requires
        o1 <= o2,
        is_char_boundary(s, clamp(o1, s)),
        is_char_boundary(s, clamp(o2, s)),
    ensures
        1 <= line_of(s, clamp(o1, s)),
        line_of(s, clamp(o1, s)) <= line_of(s, clamp(o2, s)),
        line_of(s, clamp(o2, s)) <= 1 + newlines_in(s, s.len() as int),
{
    let k1 = clamp(o1, s);
    let k2 = clamp(o2, s);
    let i1 = char_index_of(s, k1);
    let i2 = char_index_of(s, k2);
    assert(0 <= i1 <= s.len() && byte_offset(s, i1) == k1);
    assert(0 <= i2 <= s.len() && byte_offset(s, i2) == k2);
    if i2 < i1 {
        lemma_byte_offset_strict(s, i2, i1);
        assert(false);
    }
    lemma_newlines_in_mono(s, i1, i2);
    lemma_newlines_in_mono(s, i2, s.len() as int);
}

proof fn lemma_byte_offset_le_strict(s: Seq<char>, i: int, j: int)
    requires
        0 <= i <= j <= s.len(),
    ensures
        byte_offset(s, i) <= byte_offset(s, j),
{
    crate::text::lemma_byte_offset_le(s, i, j);
}

} // verus!
