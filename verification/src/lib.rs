//! Front end of the GUL language: lexing, parsing and block organisation.

pub mod ast;
pub mod autonomous;
pub mod compiler;
pub mod interop;
pub mod lexer;
pub mod parser;
pub mod runtime;
pub mod text;
pub mod tools;
