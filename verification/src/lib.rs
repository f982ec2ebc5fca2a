//! A Lox language front end and bytecode compiler with verified contracts.
pub mod ast;
pub mod bindings;
pub mod codegen;
pub mod error;
pub mod interpreter;
pub mod parser;
pub mod repl;
pub mod scanner;
pub mod stdlib;
pub mod text;
pub mod vm;
