//! Tokenization of Lox source text.
pub mod lexer;
pub mod token;

use vstd::prelude::*;

use crate::error::CompileError;
use crate::scanner::token::{tokens_wf, Token};
use crate::text::byte_len;

verus! {

/// Scan source code into a list of tokens.
pub fn scan(source: &str) -> (r: Result<Vec<Token>, Vec<CompileError>>)
    requires
        byte_len(source@) <= usize::MAX,
    ensures
        lexer::scan_result(source@, r),
        r is Ok ==> tokens_wf(r->Ok_0@),
{
    let r = lexer::scan_all(source);
    proof {
        if r is Ok {
            lexer::scan_tokens_well_formed(source@, r->Ok_0);
        }
    }
    r
}

} // verus!
