//! Decisions of the interactive prompt: which lines are bare expressions,
//! what a backslash command asks for, and which commands complete a prefix.
use vstd::prelude::*;

use crate::stdlib::{trim_text, trimmed};
use crate::text::{
    append_str, chars_of, is_unicode_ws, is_unicode_ws_exec, owned, str_eq, string_from_range,
};

verus! {

/// What a backslash command asks the prompt to do.
#[derive(Debug, Clone, Copy, PartialEq, Eq, Structural)]
pub enum ReplCommand {
    Help,
    Quit,
    Clear,
    Version,
    Unknown,
}

/// The command that a backslash word names; the short forms are the first
/// letters of the long ones.
pub open spec fn command_of(cmd: Seq<char>) -> ReplCommand {
    if cmd == "\\h"@ || cmd == "\\help"@ {
        ReplCommand::Help
    } else if cmd == "\\q"@ || cmd == "\\quit"@ {
        ReplCommand::Quit
    } else if cmd == "\\c"@ || cmd == "\\clear"@ {
        ReplCommand::Clear
    } else if cmd == "\\v"@ || cmd == "\\version"@ {
        ReplCommand::Version
    } else {
        ReplCommand::Unknown
    }
}

impl ReplCommand {
    /// Whether the prompt stops after this command.
    pub fn ends_session(self) -> (r: bool)
        ensures
            r == (self == ReplCommand::Quit),
    {
        match self {
            ReplCommand::Quit => true,
            _ => false,
        }
    }
}

/// The command that `cmd` names. Arguments after it change nothing: a
/// `\quit` with arguments still ends the session.
pub fn command_action(cmd: &str) -> (c: ReplCommand)
    ensures
        c == command_of(cmd@),
{
    if str_eq(cmd, "\\h") || str_eq(cmd, "\\help") {
        ReplCommand::Help
    } else if str_eq(cmd, "\\q") || str_eq(cmd, "\\quit") {
        ReplCommand::Quit
    } else if str_eq(cmd, "\\c") || str_eq(cmd, "\\clear") {
        ReplCommand::Clear
    } else if str_eq(cmd, "\\v") || str_eq(cmd, "\\version") {
        ReplCommand::Version
    } else {
        ReplCommand::Unknown
    }
}

/// A completion offered for a backslash prefix: the command that replaces
/// the prefix, and the text shown in the list.
pub struct CommandCompletion {
    pub replacement: String,
    pub display: String,
}

pub open spec fn completion_view(c: CommandCompletion) -> (Seq<char>, Seq<char>) {
    (c.replacement@, c.display@)
}

/// The completion for `cmd`, described by `desc`, when `prefix` begins it.
pub open spec fn offer(prefix: Seq<char>, cmd: Seq<char>, desc: Seq<char>) -> Seq<
    (Seq<char>, Seq<char>),
> {
    if prefix.is_prefix_of(cmd) {
        seq![(cmd, cmd + "  "@ + desc)]
    } else {
        seq![]
    }
}

/// The long-form commands that `prefix` begins, in the order of the help
/// text, each shown with its description.
pub open spec fn completions(prefix: Seq<char>) -> Seq<(Seq<char>, Seq<char>)> {
    offer(prefix, "\\help"@, "show this help message"@) + offer(
        prefix,
        "\\quit"@,
        "exit the REPL"@,
    ) + offer(prefix, "\\clear"@, "clear the terminal screen"@) + offer(
        prefix,
        "\\version"@,
        "show the interpreter version"@,
    )
}

/// Whether `prefix` begins `s`.
fn starts_with(s: &str, prefix: &str) -> (r: bool)
    ensures
        r == prefix@.is_prefix_of(s@),
{
    let a = chars_of(s);
    let p = chars_of(prefix);
    if p.len() > a.len() {
        return false;
    }
    let mut i: usize = 0;
    while i < p.len()
        invariant
            a@ == s@,
            p@ == prefix@,
            p@.len() <= a@.len(),
            i <= p@.len(),
            forall|k: int| 0 <= k < i ==> p@[k] == a@[k],
        decreases p@.len() - i,
    {
        if p[i] != a[i] {
            assert(p@[i as int] != a@.subrange(0, p@.len() as int)[i as int]);
            return false;
        }
        i = i + 1;
    }
    assert(p@ =~= a@.subrange(0, p@.len() as int));
    true
}

/// Adds the completion for `cmd` to `out` when `prefix` begins it.
fn offer_command(out: &mut Vec<CommandCompletion>, prefix: &str, cmd: &str, desc: &str)
    ensures
        final(out)@.map_values(|c: CommandCompletion| completion_view(c)) == old(out)@.map_values(
            |c: CommandCompletion| completion_view(c),
        ) + offer(prefix@, cmd@, desc@),
{
    let ghost before = out@;
    if starts_with(cmd, prefix) {
        let mut display = owned(cmd);
        append_str(&mut display, "  ");
        append_str(&mut display, desc);
        out.push(CommandCompletion { replacement: owned(cmd), display });
    }
    assert(out@.map_values(|c: CommandCompletion| completion_view(c)) =~= before.map_values(
        |c: CommandCompletion| completion_view(c),
    ) + offer(prefix@, cmd@, desc@));
}

/// The long-form commands that `prefix` begins, for tab completion.
pub fn complete_commands(prefix: &str) -> (out: Vec<CommandCompletion>)
    ensures
        out@.map_values(|c: CommandCompletion| completion_view(c)) == completions(prefix@),
{
    let mut out: Vec<CommandCompletion> = Vec::new();
    assert(out@.map_values(|c: CommandCompletion| completion_view(c)) =~= Seq::<
        (Seq<char>, Seq<char>),
    >::empty());
    offer_command(&mut out, prefix, "\\help", "show this help message");
    offer_command(&mut out, prefix, "\\quit", "exit the REPL");
    offer_command(&mut out, prefix, "\\clear", "clear the terminal screen");
    offer_command(&mut out, prefix, "\\version", "show the interpreter version");
    assert(completions(prefix@) =~= Seq::<(Seq<char>, Seq<char>)>::empty() + offer(
        prefix@,
        "\\help"@,
        "show this help message"@,
    ) + offer(prefix@, "\\quit"@, "exit the REPL"@) + offer(
        prefix@,
        "\\clear"@,
        "clear the terminal screen"@,
    ) + offer(prefix@, "\\version"@, "show the interpreter version"@));
    out
}

/// Index of the first character at or after `i` that is not white space.
pub open spec fn word_start(s: Seq<char>, i: nat) -> nat
    decreases s.len() - i,
{
    if i < s.len() && is_unicode_ws(s[i as int]) {
        word_start(s, i + 1)
    } else {
        i
    }
}

/// Index of the first white-space character at or after `i`.
pub open spec fn word_end(s: Seq<char>, i: nat) -> nat
    decreases s.len() - i,
{
    if i < s.len() && !is_unicode_ws(s[i as int]) {
        word_end(s, i + 1)
    } else {
        i
    }
}

/// The first white-space separated word of `s` (empty when there is none).
pub open spec fn first_word(s: Seq<char>) -> Seq<char> {
    s.subrange(word_start(s, 0) as int, word_end(s, word_start(s, 0)) as int)
}

/// Whether `w` begins a declaration or a statement.
pub open spec fn is_statement_word(w: Seq<char>) -> bool {
    w == "var"@ || w == "fun"@ || w == "class"@ || w == "if"@ || w == "while"@ || w == "for"@
        || w == "print"@ || w == "return"@ || w == "{"@
}

/// A line is a bare expression when it ends neither with `;` nor with `}`
/// and its first word begins no declaration or statement.
pub open spec fn bare_expression(line: Seq<char>) -> bool {
    !(line.len() > 0 && (line.last() == ';' || line.last() == '}')) && !is_statement_word(
        first_word(line),
    )
}

proof fn lemma_word_start_le(s: Seq<char>, i: nat)
    requires
        i <= s.len(),
    ensures
        i <= word_start(s, i) <= s.len(),
    decreases s.len() - i,
{
    if i < s.len() && is_unicode_ws(s[i as int]) {
        lemma_word_start_le(s, i + 1);
    }
}

proof fn lemma_word_end_le(s: Seq<char>, i: nat)
    requires
        i <= s.len(),
    ensures
        i <= word_end(s, i) <= s.len(),
    decreases s.len() - i,
{
    if i < s.len() && !is_unicode_ws(s[i as int]) {
        lemma_word_end_le(s, i + 1);
    }
}

/// The first white-space separated word of `cs`.
fn first_word_exec(cs: &Vec<char>) -> (w: String)
    ensures
        w@ == first_word(cs@),
{
    let n = cs.len();
    let mut i: usize = 0;
    while i < n && is_unicode_ws_exec(cs[i])
        invariant
            n == cs@.len(),
            i <= n,
            word_start(cs@, i as nat) == word_start(cs@, 0),
        decreases n - i,
    {
        i = i + 1;
    }
    let start = i;
    proof {
        lemma_word_start_le(cs@, 0);
    }
    while i < n && !is_unicode_ws_exec(cs[i])
        invariant
            n == cs@.len(),
            start == word_start(cs@, 0),
            start <= i <= n,
            word_end(cs@, i as nat) == word_end(cs@, start as nat),
        decreases n - i,
    {
        i = i + 1;
    }
    string_from_range(cs, start, i)
}

/// Whether `line` is a bare expression, which the prompt prints as
/// `print <line>;`.
pub fn is_bare_expression(line: &str) -> (r: bool)
    ensures
        r == bare_expression(line@),
{
    let cs = chars_of(line);
    let n = cs.len();
    if n > 0 && (cs[n - 1] == ';' || cs[n - 1] == '}') {
        return false;
    }
    let w = first_word_exec(&cs);
    let w = w.as_str();
    let statement = str_eq(w, "var") || str_eq(w, "fun") || str_eq(w, "class") || str_eq(w, "if")
        || str_eq(w, "while") || str_eq(w, "for") || str_eq(w, "print") || str_eq(w, "return")
        || str_eq(w, "{");
    !statement
}

/// What the prompt does with a line it read.
pub enum ReplInput {
    /// Nothing but white space: the prompt reads the next line.
    Blank,
    /// A backslash command: its name, and whether more words follow it.
    Command { name: String, has_args: bool },
    /// Lox code: the line without surrounding white space, which the history
    /// keeps, and the source text to run, a bare expression made a `print`.
    Code { entry: String, source: String },
}

/// The source text run for the trimmed line `t`.
pub open spec fn code_source(t: Seq<char>) -> Seq<char> {
    if bare_expression(t) {
        "print "@ + t + ";"@
    } else {
        t
    }
}

/// What a line read at the prompt is, decided on the line without its
/// surrounding white space.
pub open spec fn input_matches(line: Seq<char>, r: ReplInput) -> bool {
    let t = trimmed(line);
    if t.len() == 0 {
        r is Blank
    } else if t[0] == '\\' {
        r matches ReplInput::Command { name, has_args } && name@ == first_word(t) && has_args == (word_end(
            t,
            0,
        ) < t.len())
    } else {
        r matches ReplInput::Code { entry, source } && entry@ == t && source@ == code_source(t)
    }
}

/// Sort a line read at the prompt into a blank line, a command or code.
pub fn read_input(line: &str) -> (r: ReplInput)
    ensures
        input_matches(line@, r),
{
    let t = trim_text(line);
    let cs = chars_of(t.as_str());
    let n = cs.len();
    if n == 0 {
        return ReplInput::Blank;
    }
    if cs[0] == '\\' {
        let mut i: usize = 0;
        while i < n && !is_unicode_ws_exec(cs[i])
            invariant
                n == cs@.len(),
                i <= n,
                word_end(cs@, i as nat) == word_end(cs@, 0),
            decreases n - i,
        {
            i = i + 1;
        }
        proof {
            assert(!is_unicode_ws(cs@[0]));
            assert(word_start(cs@, 0) == 0);
        }
        let name = string_from_range(&cs, 0, i);
        return ReplInput::Command { name, has_args: i < n };
    }
    let entry = string_from_range(&cs, 0, n);
    let source = if is_bare_expression(t.as_str()) {
        let mut s = owned("print ");
        append_str(&mut s, t.as_str());
        append_str(&mut s, ";");
        s
    } else {
        string_from_range(&cs, 0, n)
    };
    proof {
        assert(cs@.subrange(0, n as int) =~= cs@);
    }
    ReplInput::Code { entry, source }
}

/// Law: every command offered for a prefix begins with that prefix, and is
/// shown as itself, two spaces, and its description.
pub proof fn completions_extend_prefix(prefix: Seq<char>)
    ensures
        forall|i: int|
            0 <= i < completions(prefix).len() ==> prefix.is_prefix_of(#[trigger] completions(prefix)[i].0)
                && completions(prefix)[i].0.is_prefix_of(completions(prefix)[i].1),
{
    let a = offer(prefix, "\\help"@, "show this help message"@);
    let b = offer(prefix, "\\quit"@, "exit the REPL"@);
    let c = offer(prefix, "\\clear"@, "clear the terminal screen"@);
    let d = offer(prefix, "\\version"@, "show the interpreter version"@);
    assert forall|cmd: Seq<char>, desc: Seq<char>, i: int|
        #![trigger offer(prefix, cmd, desc)[i]]
        0 <= i < offer(prefix, cmd, desc).len() implies prefix.is_prefix_of(offer(prefix, cmd, desc)[i].0)
        && offer(prefix, cmd, desc)[i].0.is_prefix_of(offer(prefix, cmd, desc)[i].1) by {
        assert((cmd + "  "@ + desc).subrange(0, cmd.len() as int) =~= cmd);
    }
    assert forall|i: int| 0 <= i < completions(prefix).len() implies prefix.is_prefix_of(
        #[trigger] completions(prefix)[i].0,
    ) && completions(prefix)[i].0.is_prefix_of(completions(prefix)[i].1) by {
        let all = a + b + c + d;
        assert(completions(prefix) == all);
        if i < a.len() {
            assert(all[i] == a[i]);
        } else if i < a.len() + b.len() {
            assert(all[i] == b[i - a.len()]);
        } else if i < a.len() + b.len() + c.len() {
            assert(all[i] == c[i - a.len() - b.len()]);
        } else {
            assert(all[i] == d[i - a.len() - b.len() - c.len()]);
        }
    }
}

} // verus!
