//! From a program to build units.

pub mod blocks;
pub mod builder;
pub mod driver;
pub mod error;
pub mod laws;
pub mod symbols;

pub use blocks::{organize, Block, BlockKind, Payload};
pub use builder::{BuildAction, BuildSession, Builder, Target};
pub use driver::{build_source, check_source, organize_source, Compiler};
pub use error::{BuildError, CompileError};
