//! What compiled units need at run time.

pub mod ffi;
pub mod value;
