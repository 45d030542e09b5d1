//! Helpers that write code.

pub mod ai_codegen;
