//! Syntax analysis: tokens to a program.
//!
//! Statements are separated by line ends or semicolons. A body is a run of
//! statements between `{` and `}`. Code of another language is written as
//! `cs <language> { "<code>" }`: the braces close it as they close any body,
//! and the code is one string literal, which is taken as it stands.

pub mod descent;
pub mod grammar;
pub mod laws;
pub mod progress;

pub use descent::{parse, parse_source, ParseError, Parser};
