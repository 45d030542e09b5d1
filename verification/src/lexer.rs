//! Lexical analysis: source text to tokens.

pub mod grammar;
pub mod laws;
pub mod scanner;
pub mod token;

pub use scanner::Lexer;
pub use token::{Span, SpannedToken, Token, TokenView};
