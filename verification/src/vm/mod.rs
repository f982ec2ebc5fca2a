//! The bytecode back end: chunks of instructions, their disassembly, and the
//! compiler from syntax trees to chunks.
pub mod blox;
pub mod chunk;
pub mod compiler;
pub mod lowering;
pub mod machine;

use vstd::prelude::*;
use vstd::string::StringSliceAdditionalSpecFns;

use crate::error::CompileError;
use crate::parser::grammar::program_spec;
use crate::parser::{is_parse_error, Parser};
use crate::scanner::lexer::{fault_matches, scan_spec, tokens_of};
use crate::scanner::token::Token;
use crate::text::byte_len;
use crate::vm::chunk::Chunk;
use crate::vm::compiler::{chunk_view, is_compile_error, Compiler};
use crate::vm::lowering::compilation;

verus! {

/// What compiling a source text with the bytes `bytes` gives, once it scans
/// to the tokens `t`: the first parse error if there is one, else the
/// compilation of the program, its instructions numbered with the lines of
/// the text.
pub open spec fn compiled_from(bytes: Seq<u8>, t: Seq<Token>, r: Result<Chunk, CompileError>) -> bool {
    let (decls, errs, _) = program_spec(t, 0);
    if errs.len() > 0 {
        r is Err && is_parse_error(r->Err_0, errs[0])
    } else {
        match compilation(bytes, decls) {
            Ok(c) => r is Ok && chunk_view(r->Ok_0) == c,
            Err(e) => r is Err && is_compile_error(r->Err_0, e),
        }
    }
}

/// Scan, parse and compile source code to the script's chunk: the first scan
/// error if the text does not scan, else the first parse error if it does not
/// parse, else what the compiler gives, with each instruction numbered with
/// the 1-based line of its construct.
pub fn compile_to_chunk(source: &str) -> (r: Result<Chunk, CompileError>)
    requires
        byte_len(source@) <= usize::MAX,
    ensures
        scan_spec(source@).1.len() > 0 ==> r is Err && fault_matches(source@, r->Err_0, scan_spec(source@).1[0]),
        scan_spec(source@).1.len() == 0 ==> exists|t: Seq<Token>|
            #![trigger tokens_of(source@, t)]
            tokens_of(source@, t) && compiled_from(source.spec_bytes(), t, r),
{
    let tokens = match crate::scanner::scan(source) {
        Ok(t) => t,
        Err(errors) => {
            let mut errors = errors;
            let first = errors.remove(0);
            return Err(first);
        },
    };
    let ghost t = tokens@;
    let n = tokens.len();
    let program = match Parser::new(tokens).parse() {
        Ok(p) => p,
        Err(errors) => {
            let mut errors = errors;
            let first = errors.remove(0);
            assert(tokens_of(source@, t) && compiled_from(source.spec_bytes(), t, Err(first)));
            return Err(first);
        },
    };
    let r = Compiler::with_source(source).compile(&program);
    assert(tokens_of(source@, t) && compiled_from(source.spec_bytes(), t, r));
    r
}

} // verus!
