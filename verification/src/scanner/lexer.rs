//! The Lox scanner: turns source text into tokens with byte spans.
//!
//! The grammar of tokens is stated by the spec functions below over the
//! source's characters; `scan_all` is proved to produce exactly the tokens
//! and errors they describe.
use vstd::prelude::*;

use crate::error::{CompileError, ErrorPhase};
use crate::scanner::token::{keyword_kind_chars, keyword_of, spans_in_order, tokens_wf, Span, Token, TokenKind};
use crate::text::{append_str, byte_len, byte_offset, lemma_byte_offset_mono, byte_offsets, chars_of, is_digit, is_digit_exec, is_ident_char, is_ident_char_exec, is_ident_start, is_ident_start_exec, is_lox_ws, is_lox_ws_exec, owned, string_from_range};

verus! {

/// A token by character positions: kind, text, and the character range it covers.
pub struct ScannedToken {
    pub kind: TokenKind,
    pub lexeme: Seq<char>,
    pub start: int,
    pub end: int,
}

/// A character the scanner could not start a token with (`None` when the
/// input ended inside a string literal), at a character position.
pub struct ScanFault {
    pub pos: int,
    pub ch: Option<char>,
}

/// The index of the first newline at or after `i`, or the end of the text.
pub open spec fn line_end(s: Seq<char>, i: int) -> int
    decreases s.len() - i,
{
    if i < 0 || i >= s.len() || s[i] == '\n' {
        i
    } else {
        line_end(s, i + 1)
    }
}

/// The position after skipping whitespace and `//` comments from `i`.
pub open spec fn skip_trivia(s: Seq<char>, i: int) -> int
    decreases s.len() - i,
{
    if 0 <= i < s.len() && is_lox_ws(s[i]) {
        skip_trivia(s, i + 1)
    } else if 0 <= i && i + 1 < s.len() && s[i] == '/' && s[i + 1] == '/' {
        let e = line_end(s, i + 2);
        if i < e <= s.len() {
            skip_trivia(s, e)
        } else {
            i
        }
    } else {
        i
    }
}

/// Where scanning starts: after a `#!` line at the very start, if any.
pub open spec fn after_shebang(s: Seq<char>) -> int {
    if s.len() >= 2 && s[0] == '#' && s[1] == '!' {
        let e = line_end(s, 2);
        if e < s.len() {
            e + 1
        } else {
            e
        }
    } else {
        0
    }
}

/// The end of the run of digits starting at `i`.
pub open spec fn digits_end(s: Seq<char>, i: int) -> int
    decreases s.len() - i,
{
    if i < 0 || i >= s.len() || !is_digit(s[i]) {
        i
    } else {
        digits_end(s, i + 1)
    }
}

/// The end of the run of identifier characters starting at `i`.
pub open spec fn ident_end(s: Seq<char>, i: int) -> int
    decreases s.len() - i,
{
    if i < 0 || i >= s.len() || !is_ident_char(s[i]) {
        i
    } else {
        ident_end(s, i + 1)
    }
}

/// The end of a number literal starting at `i`: digits, then a `.` and more
/// digits only when a digit follows the dot.
pub open spec fn number_end(s: Seq<char>, i: int) -> int {
    let d = digits_end(s, i);
    if d + 1 < s.len() && s[d] == '.' && is_digit(s[d + 1]) {
        digits_end(s, d + 1)
    } else {
        d
    }
}

/// The characters an escape `\c` stands for inside a string literal.
pub open spec fn escape_chars(c: char) -> Seq<char> {
    if c == 'n' {
        seq!['\n']
    } else if c == 't' {
        seq!['\t']
    } else if c == '\\' {
        seq!['\\']
    } else if c == '"' {
        seq!['"']
    } else {
        seq!['\\', c]
    }
}

/// The contents of a string literal whose body starts at `j` (after `acc` has
/// been read), with the position after the closing quote; `None` if the text
/// ends first.
pub open spec fn string_body(s: Seq<char>, j: int, acc: Seq<char>) -> Option<(Seq<char>, int)>
    decreases s.len() - j,
{
    if j < 0 || j >= s.len() {
        None
    } else if s[j] == '"' {
        Some((acc, j + 1))
    } else if s[j] == '\\' {
        if j + 1 >= s.len() {
            None
        } else {
            string_body(s, j + 2, acc + escape_chars(s[j + 1]))
        }
    } else {
        string_body(s, j + 1, acc.push(s[j]))
    }
}

/// The kind of a one-character operator or delimiter.
pub open spec fn single_kind(c: char) -> Option<TokenKind> {
    if c == '(' { Some(TokenKind::LeftParen) }
    else if c == ')' { Some(TokenKind::RightParen) }
    else if c == '{' { Some(TokenKind::LeftBrace) }
    else if c == '}' { Some(TokenKind::RightBrace) }
    else if c == ',' { Some(TokenKind::Comma) }
    else if c == '.' { Some(TokenKind::Dot) }
    else if c == '-' { Some(TokenKind::Minus) }
    else if c == '+' { Some(TokenKind::Plus) }
    else if c == ';' { Some(TokenKind::Semicolon) }
    else if c == '/' { Some(TokenKind::Slash) }
    else if c == '*' { Some(TokenKind::Star) }
    else if c == '!' { Some(TokenKind::Bang) }
    else if c == '=' { Some(TokenKind::Equal) }
    else if c == '<' { Some(TokenKind::Less) }
    else if c == '>' { Some(TokenKind::Greater) }
    else { None }
}

/// The kind of a two-character operator `c=`.
pub open spec fn two_kind(c: char) -> Option<TokenKind> {
    if c == '!' { Some(TokenKind::BangEqual) }
    else if c == '=' { Some(TokenKind::EqualEqual) }
    else if c == '>' { Some(TokenKind::GreaterEqual) }
    else if c == '<' { Some(TokenKind::LessEqual) }
    else { None }
}

/// What the scanner finds at a position that is not whitespace.
pub enum Step {
    /// A token of this kind and text, ending at the given position.
    Token(TokenKind, Seq<char>, int),
    /// A character no token starts with.
    Bad,
    /// A string literal the text ends inside.
    Unterminated,
}

/// The token (or fault) that starts at position `i`.
pub open spec fn scan_step(s: Seq<char>, i: int) -> Step {
    let c = s[i];
    if c == '"' {
        match string_body(s, i + 1, Seq::empty()) {
            Some((body, e)) => Step::Token(TokenKind::String, body, e),
            None => Step::Unterminated,
        }
    } else if is_digit(c) {
        let e = number_end(s, i);
        Step::Token(TokenKind::Number, s.subrange(i, e), e)
    } else if is_ident_start(c) {
        let e = ident_end(s, i + 1);
        let w = s.subrange(i, e);
        Step::Token(
            match keyword_of(w) {
                Some(k) => k,
                None => TokenKind::Identifier,
            },
            w,
            e,
        )
    } else if i + 1 < s.len() && s[i + 1] == '=' && two_kind(c) is Some {
        Step::Token(two_kind(c).unwrap(), seq![c, '='], i + 2)
    } else if single_kind(c) is Some {
        Step::Token(single_kind(c).unwrap(), seq![c], i + 1)
    } else {
        Step::Bad
    }
}

/// The tokens and faults found from position `i` onwards, after those already found.
pub open spec fn scan_from(s: Seq<char>, i: int, toks: Seq<ScannedToken>, errs: Seq<ScanFault>) -> (
    Seq<ScannedToken>,
    Seq<ScanFault>,
)
    decreases s.len() - i,
{
    let j = skip_trivia(s, i);
    if j < i || j < 0 || j >= s.len() {
        (toks, errs)
    } else {
        match scan_step(s, j) {
            Step::Token(k, lex, e) => if j < e <= s.len() {
                scan_from(s, e, toks.push(ScannedToken { kind: k, lexeme: lex, start: j, end: e }), errs)
            } else {
                (toks, errs)
            },
            Step::Bad => scan_from(s, j + 1, toks, errs.push(ScanFault { pos: j, ch: Some(s[j]) })),
            Step::Unterminated => (toks, errs.push(ScanFault { pos: s.len() as int, ch: None })),
        }
    }
}

/// All tokens (without the final end-of-file token) and faults of a text.
pub open spec fn scan_spec(s: Seq<char>) -> (Seq<ScannedToken>, Seq<ScanFault>) {
    scan_from(s, after_shebang(s), Seq::empty(), Seq::empty())
}

/// The message reported for a fault.
pub open spec fn fault_message(ch: Option<char>) -> Seq<char> {
    "unexpected character '"@ + seq![
        match ch {
            Some(c) => c,
            None => '?',
        },
    ] + "'"@
}

/// The token `t` is the scanned token `st` of the text `s`, with byte spans.
pub open spec fn token_matches(s: Seq<char>, t: Token, st: ScannedToken) -> bool {
    &&& t.kind == st.kind
    &&& t.lexeme@ == st.lexeme
    &&& t.span.offset == byte_offset(s, st.start)
    &&& t.span.offset + t.span.len == byte_offset(s, st.end)
}

/// The error `e` reports the fault `f` of the text `s`.
pub open spec fn fault_matches(s: Seq<char>, e: CompileError, f: ScanFault) -> bool {
    &&& e.phase() == ErrorPhase::Scan
    &&& e.msg() == fault_message(f.ch)
    &&& e.at().offset == byte_offset(s, f.pos)
    &&& e.at().len == 1
    &&& e.src_name() == "input"@
    &&& e.src_text() == Seq::<char>::empty()
}

/// The end-of-file token of a text.
pub open spec fn is_eof_token(s: Seq<char>, t: Token) -> bool {
    &&& t.kind == TokenKind::Eof
    &&& t.lexeme@ == Seq::<char>::empty()
    &&& t.span.offset == byte_len(s)
    &&& t.span.len == 0
}

/// `t` is the token list of the text `s`: every token it scans, then the
/// end-of-file token, and no fault.
pub open spec fn tokens_of(s: Seq<char>, t: Seq<Token>) -> bool {
    let (toks, errs) = scan_spec(s);
    &&& errs.len() == 0
    &&& t.len() == toks.len() + 1
    &&& forall|k: int| 0 <= k < toks.len() ==> token_matches(s, #[trigger] t[k], toks[k])
    &&& is_eof_token(s, t[toks.len() as int])
}

/// The outcome `scan_all` owes for a text: all tokens followed by the
/// end-of-file token when there is no fault, else one error per fault.
pub open spec fn scan_result(s: Seq<char>, r: Result<Vec<Token>, Vec<CompileError>>) -> bool {
    let (toks, errs) = scan_spec(s);
    match r {
        Ok(tokens) => tokens_of(s, tokens@),
        Err(errors) => {
            &&& errs.len() > 0
            &&& errors@.len() == errs.len()
            &&& forall|k: int| 0 <= k < errs.len() ==> fault_matches(s, #[trigger] errors@[k], errs[k])
        },
    }
}

/// Scanned tokens lie inside the text, in order, without overlapping.
pub open spec fn scanned_in_order(s: Seq<char>, toks: Seq<ScannedToken>) -> bool {
    &&& forall|a: int| 0 <= a < toks.len() ==> 0 <= #[trigger] toks[a].start < toks[a].end <= s.len()
    &&& forall|a: int, b: int| 0 <= a < b < toks.len() ==> #[trigger] toks[a].end <= #[trigger] toks[b].start
}

proof fn lemma_line_end_ge(s: Seq<char>, i: int)
    requires
        0 <= i,
    ensures
        line_end(s, i) >= i,
    decreases s.len() - i,
{
    if i < s.len() && s[i] != '\n' {
        lemma_line_end_ge(s, i + 1);
    }
}

proof fn lemma_scan_from_in_order(s: Seq<char>, i: int, toks: Seq<ScannedToken>, errs: Seq<ScanFault>)
    requires
        0 <= i,
        scanned_in_order(s, toks),
        forall|a: int| 0 <= a < toks.len() ==> #[trigger] toks[a].end <= i,
    ensures
        scanned_in_order(s, scan_from(s, i, toks, errs).0),
    decreases s.len() - i,
{
    let j = skip_trivia(s, i);
    if j < i || j < 0 || j >= s.len() {
    } else {
        match scan_step(s, j) {
            Step::Token(k, lex, e) => {
                if j < e <= s.len() {
                    let nt = toks.push(ScannedToken { kind: k, lexeme: lex, start: j, end: e });
                    assert forall|a: int, b: int| 0 <= a < b < nt.len() implies #[trigger] nt[a].end <= #[trigger] nt[b].start by {
                        if b == nt.len() - 1 {
                            assert(nt[a] == toks[a]);
                        }
                    }
                    lemma_scan_from_in_order(s, e, nt, errs);
                }
            },
            Step::Bad => {
                lemma_scan_from_in_order(s, j + 1, toks, errs.push(ScanFault { pos: j, ch: Some(s[j]) }));
            },
            Step::Unterminated => {},
        }
    }
}

/// Law: the tokens of a successful scan are well formed for the parser: they
/// end with the end-of-file token and their spans follow one another.
pub proof fn scan_tokens_well_formed(s: Seq<char>, tokens: Vec<Token>)
    requires
        byte_len(s) <= usize::MAX,
        scan_result(s, Ok(tokens)),
    ensures
        tokens_wf(tokens@),
{
    let toks = scan_spec(s).0;
    if s.len() >= 2 && s[0] == '#' && s[1] == '!' {
        lemma_line_end_ge(s, 2);
    }
    lemma_scan_from_in_order(s, after_shebang(s), Seq::empty(), Seq::empty());
    let t = tokens@;
    lemma_byte_offset_mono(s, 0, s.len() as int);
    reveal(spans_in_order);
    assert forall|i: int, j: int| 0 <= i < j < t.len() implies #[trigger] t[i].span.offset + t[i].span.len <= #[trigger] t[j].span.offset by {
        assert(token_matches(s, t[i], toks[i]));
        if j == toks.len() {
            lemma_byte_offset_mono(s, toks[i].end, s.len() as int);
        } else {
            assert(token_matches(s, t[j], toks[j]));
            lemma_byte_offset_mono(s, toks[i].end, toks[j].start);
        }
    }
}

// ----- executable scanner -----

fn line_end_exec(cs: &Vec<char>, i: usize) -> (r: usize)
    requires
        i <= cs@.len(),
    ensures
        r == line_end(cs@, i as int),
        i <= r <= cs@.len(),
{
    let mut j = i;
    while j < cs.len() && cs[j] != '\n'
        invariant
            i <= j <= cs@.len(),
            line_end(cs@, j as int) == line_end(cs@, i as int),
        decreases cs@.len() - j,
    {
        j = j + 1;
    }
    j
}

fn skip_trivia_exec(cs: &Vec<char>, i: usize) -> (r: usize)
    requires
        i <= cs@.len(),
    ensures
        r == skip_trivia(cs@, i as int),
        i <= r <= cs@.len(),
{
    let mut j = i;
    loop
        invariant
            i <= j <= cs@.len(),
            skip_trivia(cs@, j as int) == skip_trivia(cs@, i as int),
        ensures
            i <= j <= cs@.len(),
            j == skip_trivia(cs@, i as int),
        decreases cs@.len() - j,
    {
        if j < cs.len() && is_lox_ws_exec(cs[j]) {
            j = j + 1;
        } else if j < cs.len() && j + 1 < cs.len() && cs[j] == '/' && cs[j + 1] == '/' {
            let e = line_end_exec(cs, j + 2);
            j = e;
        } else {
            break ;
        }
    }
    j
}

fn shebang_end_exec(cs: &Vec<char>) -> (r: usize)
    ensures
        r == after_shebang(cs@),
        r <= cs@.len(),
{
    if cs.len() >= 2 && cs[0] == '#' && cs[1] == '!' {
        let e = line_end_exec(cs, 2);
        if e < cs.len() {
            e + 1
        } else {
            e
        }
    } else {
        0
    }
}

fn digits_end_exec(cs: &Vec<char>, i: usize) -> (r: usize)
    requires
        i <= cs@.len(),
    ensures
        r == digits_end(cs@, i as int),
        i <= r <= cs@.len(),
{
    let mut j = i;
    while j < cs.len() && is_digit_exec(cs[j])
        invariant
            i <= j <= cs@.len(),
            digits_end(cs@, j as int) == digits_end(cs@, i as int),
        decreases cs@.len() - j,
    {
        j = j + 1;
    }
    j
}

fn ident_end_exec(cs: &Vec<char>, i: usize) -> (r: usize)
    requires
        i <= cs@.len(),
    ensures
        r == ident_end(cs@, i as int),
        i <= r <= cs@.len(),
{
    let mut j = i;
    while j < cs.len() && is_ident_char_exec(cs[j])
        invariant
            i <= j <= cs@.len(),
            ident_end(cs@, j as int) == ident_end(cs@, i as int),
        decreases cs@.len() - j,
    {
        j = j + 1;
    }
    j
}

fn number_end_exec(cs: &Vec<char>, i: usize) -> (r: usize)
    requires
        i < cs@.len(),
        is_digit(cs@[i as int]),
    ensures
        r == number_end(cs@, i as int),
        i < r <= cs@.len(),
{
    let n = cs.len();
    assert(digits_end(cs@, i as int) == digits_end(cs@, i as int + 1));
    let d = digits_end_exec(cs, i + 1);
    if d < n && d + 1 < n && cs[d] == '.' && is_digit_exec(cs[d + 1]) {
        digits_end_exec(cs, d + 1)
    } else {
        d
    }
}

fn push_escape(s: &mut String, c: char)
    ensures
        final(s)@ == old(s)@ + escape_chars(c),
{
    if c == 'n' {
        s.push('\n');
    } else if c == 't' {
        s.push('\t');
    } else if c == '\\' {
        s.push('\\');
    } else if c == '"' {
        s.push('"');
    } else {
        s.push('\\');
        s.push(c);
    }
    assert(final(s)@ =~= old(s)@ + escape_chars(c));
}

fn string_body_exec(cs: &Vec<char>, j0: usize) -> (r: Option<(String, usize)>)
    requires
        j0 <= cs@.len(),
    ensures
        match string_body(cs@, j0 as int, Seq::empty()) {
            Some((body, e)) => r matches Some((b, e2)) && b@ == body && e2 == e && j0 < e <= cs@.len(),
            None => r is None,
        },
{
    let mut acc = String::new();
    let mut j = j0;
    loop
        invariant
            j0 <= j <= cs@.len(),
            string_body(cs@, j as int, acc@) == string_body(cs@, j0 as int, Seq::empty()),
        decreases cs@.len() - j,
    {
        if j >= cs.len() {
            return None;
        }
        let c = cs[j];
        if c == '"' {
            return Some((acc, j + 1));
        } else if c == '\\' {
            if j + 1 >= cs.len() {
                return None;
            }
            push_escape(&mut acc, cs[j + 1]);
            j = j + 2;
        } else {
            acc.push(c);
            j = j + 1;
        }
    }
}

fn single_kind_exec(c: char) -> (k: Option<TokenKind>)
    ensures
        k == single_kind(c),
{
    if c == '(' { Some(TokenKind::LeftParen) }
    else if c == ')' { Some(TokenKind::RightParen) }
    else if c == '{' { Some(TokenKind::LeftBrace) }
    else if c == '}' { Some(TokenKind::RightBrace) }
    else if c == ',' { Some(TokenKind::Comma) }
    else if c == '.' { Some(TokenKind::Dot) }
    else if c == '-' { Some(TokenKind::Minus) }
    else if c == '+' { Some(TokenKind::Plus) }
    else if c == ';' { Some(TokenKind::Semicolon) }
    else if c == '/' { Some(TokenKind::Slash) }
    else if c == '*' { Some(TokenKind::Star) }
    else if c == '!' { Some(TokenKind::Bang) }
    else if c == '=' { Some(TokenKind::Equal) }
    else if c == '<' { Some(TokenKind::Less) }
    else if c == '>' { Some(TokenKind::Greater) }
    else { None }
}

fn two_kind_exec(c: char) -> (k: Option<TokenKind>)
    ensures
        k == two_kind(c),
{
    if c == '!' { Some(TokenKind::BangEqual) }
    else if c == '=' { Some(TokenKind::EqualEqual) }
    else if c == '>' { Some(TokenKind::GreaterEqual) }
    else if c == '<' { Some(TokenKind::LessEqual) }
    else { None }
}

enum StepExec {
    Token(TokenKind, String, usize),
    Bad,
    Unterminated,
}

fn scan_step_exec(cs: &Vec<char>, i: usize) -> (r: StepExec)
    requires
        i < cs@.len(),
    ensures
        match scan_step(cs@, i as int) {
            Step::Token(k, lex, e) => r matches StepExec::Token(k2, lex2, e2) && k2 == k && lex2@
                == lex && e2 == e && i < e <= cs@.len(),
            Step::Bad => r is Bad,
            Step::Unterminated => r is Unterminated,
        },
{
    let n = cs.len();
    let c = cs[i];
    if c == '"' {
        match string_body_exec(cs, i + 1) {
            Some((body, e)) => StepExec::Token(TokenKind::String, body, e),
            None => StepExec::Unterminated,
        }
    } else if is_digit_exec(c) {
        let e = number_end_exec(cs, i);
        StepExec::Token(TokenKind::Number, string_from_range(cs, i, e), e)
    } else if is_ident_start_exec(c) {
        let e = ident_end_exec(cs, i + 1);
        let w = string_from_range(cs, i, e);
        let wc = slice_of(cs, i, e);
        let kind = match keyword_kind_chars(wc.as_slice()) {
            Some(k) => k,
            None => TokenKind::Identifier,
        };
        StepExec::Token(kind, w, e)
    } else if i + 1 < cs.len() && cs[i + 1] == '=' && two_kind_exec(c).is_some() {
        let mut lex = String::new();
        lex.push(c);
        lex.push('=');
        assert(lex@ =~= seq![c, '=']);
        StepExec::Token(two_kind_exec(c).unwrap(), lex, i + 2)
    } else {
        match single_kind_exec(c) {
            Some(k) => {
                let mut lex = String::new();
                lex.push(c);
                assert(lex@ =~= seq![c]);
                StepExec::Token(k, lex, i + 1)
            },
            None => StepExec::Bad,
        }
    }
}

fn slice_of(cs: &Vec<char>, from: usize, to: usize) -> (v: Vec<char>)
    requires
        from <= to <= cs@.len(),
    ensures
        v@ == cs@.subrange(from as int, to as int),
{
    let mut v: Vec<char> = Vec::new();
    let mut i = from;
    while i < to
        invariant
            from <= i <= to <= cs@.len(),
            v@ == cs@.subrange(from as int, i as int),
        decreases to - i,
    {
        v.push(cs[i]);
        i = i + 1;
        assert(v@ =~= cs@.subrange(from as int, i as int));
    }
    v
}

fn fault_error(ch: Option<char>, offset: usize) -> (e: CompileError)
    ensures
        e.phase() == ErrorPhase::Scan,
        e.msg() == fault_message(ch),
        e.at().offset == offset,
        e.at().len == 1,
        e.src_name() == "input"@,
        e.src_text() == Seq::<char>::empty(),
{
    let mut m = owned("unexpected character '");
    let c = match ch {
        Some(c) => c,
        None => '?',
    };
    m.push(c);
    append_str(&mut m, "'");
    CompileError::scan(m, offset, 1)
}

/// Scan all tokens from source, returning either the token list (ending with
/// an end-of-file token) or the scan errors.
pub fn scan_all(source: &str) -> (r: Result<Vec<Token>, Vec<CompileError>>)
    requires
        byte_len(source@) <= usize::MAX,
    ensures
        scan_result(source@, r),
{
    let cs = chars_of(source);
    let ghost s = cs@;
    let offs = byte_offsets(&cs);
    let mut i = shebang_end_exec(&cs);
    let mut tokens: Vec<Token> = Vec::new();
    let mut errors: Vec<CompileError> = Vec::new();
    let ghost mut toks: Seq<ScannedToken> = Seq::empty();
    let ghost mut errs: Seq<ScanFault> = Seq::empty();
    loop
        invariant_except_break
            scan_from(s, i as int, toks, errs) == scan_spec(s),
        invariant
            s == cs@,
            s == source@,
            i <= s.len(),
            offs@.len() == s.len() + 1,
            forall|k: int| 0 <= k <= s.len() ==> offs@[k] == byte_offset(s, k),
            tokens@.len() == toks.len(),
            errors@.len() == errs.len(),
            forall|k: int| 0 <= k < toks.len() ==> token_matches(s, #[trigger] tokens@[k], toks[k]),
            forall|k: int| 0 <= k < errs.len() ==> fault_matches(s, #[trigger] errors@[k], errs[k]),
        ensures
            (toks, errs) == scan_spec(s),
            tokens@.len() == toks.len(),
            errors@.len() == errs.len(),
            forall|k: int| 0 <= k < toks.len() ==> token_matches(s, #[trigger] tokens@[k], toks[k]),
            forall|k: int| 0 <= k < errs.len() ==> fault_matches(s, #[trigger] errors@[k], errs[k]),
        decreases s.len() - i,
    {
        let j = skip_trivia_exec(&cs, i);
        if j >= cs.len() {
            break ;
        }
        match scan_step_exec(&cs, j) {
            StepExec::Token(kind, lexeme, e) => {
                proof {
                    lemma_byte_offset_mono(s, j as int, e as int);
                }
                let span = Span::new(offs[j], offs[e] - offs[j]);
                tokens.push(Token::new(kind, lexeme, span));
                proof {
                    let t = ScannedToken { kind: kind, lexeme: lexeme@, start: j as int, end: e as int };
                    toks = toks.push(t);
                    assert(tokens@[tokens@.len() - 1] == Token::new_spec(kind, lexeme, span));
                }
                i = e;
            },
            StepExec::Bad => {
                let err = fault_error(Some(cs[j]), offs[j]);
                errors.push(err);
                proof {
                    errs = errs.push(ScanFault { pos: j as int, ch: Some(s[j as int]) });
                }
                i = j + 1;
            },
            StepExec::Unterminated => {
                let err = fault_error(None, offs[cs.len()]);
                errors.push(err);
                proof {
                    errs = errs.push(ScanFault { pos: s.len() as int, ch: None });
                }
                break ;
            },
        }
    }
    proof {
        lemma_byte_offset_mono(s, 0, s.len() as int);
    }
    let eof = Token::new(TokenKind::Eof, String::new(), Span::new(offs[cs.len()], 0));
    tokens.push(eof);
    if errors.len() == 0 {
        Ok(tokens)
    } else {
        Err(errors)
    }
}

/// How a character is written inside a string literal: a quote, a
/// backslash, a newline or a tab as its escape, any other character as
/// itself.
pub open spec fn written(x: char) -> Seq<char> {
    if x == '"' {
        seq!['\\', '"']
    } else if x == '\\' {
        seq!['\\', '\\']
    } else if x == '\n' {
        seq!['\\', 'n']
    } else if x == '\t' {
        seq!['\\', 't']
    } else {
        seq![x]
    }
}

/// The body of a string literal that holds `t`: each character written.
pub open spec fn quoted(t: Seq<char>) -> Seq<char>
    decreases t.len(),
{
    if t.len() == 0 {
        Seq::empty()
    } else {
        written(t[0]) + quoted(t.drop_first())
    }
}

proof fn lemma_quoted_reads_back(s: Seq<char>, j: int, acc: Seq<char>, t: Seq<char>)
    requires
        0 <= j,
        j + quoted(t).len() + 1 <= s.len(),
        s.subrange(j, j + quoted(t).len() + 1) == quoted(t).push('"'),
    ensures
        string_body(s, j, acc) == Some((acc + t, j + quoted(t).len() + 1)),
    decreases t.len(),
{
    let q = quoted(t);
    if t.len() == 0 {
        assert(s[j] == s.subrange(j, j + 1)[0]);
        assert(acc + t =~= acc);
    } else {
        let x = t[0];
        let r = t.drop_first();
        let w = written(x);
        assert(q == w + quoted(r));
        assert(s[j] == q.push('"')[0]);
        assert(s.subrange(j + w.len(), j + w.len() + quoted(r).len() + 1) =~= quoted(r).push('"')) by {
            assert forall|k: int| 0 <= k < quoted(r).len() + 1 implies s.subrange(
                j + w.len(),
                j + w.len() + quoted(r).len() + 1,
            )[k] == quoted(r).push('"')[k] by {
                assert(s[j + w.len() + k] == s.subrange(j, j + q.len() + 1)[w.len() + k]);
            }
        }
        if w.len() == 2 {
            assert(s[j + 1] == q.push('"')[1]);
            assert(escape_chars(s[j + 1]) =~= seq![x]);
            lemma_quoted_reads_back(s, j + 2, acc + seq![x], r);
            assert(acc + seq![x] + r =~= acc + t);
        } else {
            assert(s[j] == x);
            lemma_quoted_reads_back(s, j + 1, acc.push(x), r);
            assert(acc.push(x) + r =~= acc + t);
        }
    }
}

/// Law: a string literal whose body writes a text, with a quote, a
/// backslash, a newline or a tab written as its escape, reads back as that
/// very text, whatever follows the closing quote.
pub proof fn quoted_text_reads_back(t: Seq<char>, rest: Seq<char>)
    ensures
        string_body(quoted(t) + seq!['"'] + rest, 0, Seq::empty()) == Some((t, quoted(t).len() as int + 1)),
{
    let s = quoted(t) + seq!['"'] + rest;
    assert(s.subrange(0, quoted(t).len() as int + 1) =~= quoted(t).push('"'));
    lemma_quoted_reads_back(s, 0, Seq::empty(), t);
    assert(Seq::<char>::empty() + t =~= t);
}

} // verus!
