//! Relocations, relaxation and dynamic symbol tables of an ELF linker.

pub mod bits;
pub mod bytes;
pub mod arch;
pub mod elf;
pub mod error;
pub mod ids;
pub mod leb;
pub mod names;
pub mod options;
pub mod order;
pub mod parallel;
pub mod symbols;
pub mod target;
pub mod text;
