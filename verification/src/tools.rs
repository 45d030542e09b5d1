//! Tools around the compiler: the linter and the state of the terminal IDE.

pub mod linter;
pub mod tui_ide;
