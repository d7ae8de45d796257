//! The ELF backend.

pub mod arch;
pub mod binary_input;
pub mod common;
pub mod consts;
pub mod defined;
pub mod dso;
pub mod dynsym;
pub mod format;
pub mod inputs;
pub mod layout;
pub mod refs;
pub mod relocation;
