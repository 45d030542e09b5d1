//! Adapters to the runtimes of other languages.

pub mod sql;
