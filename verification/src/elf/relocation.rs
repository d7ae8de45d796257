//! One relocation, as the linker handles it.

use vstd::prelude::*;

verus! {

/// A relocation of a section.
#[derive(Clone, Copy, Debug, PartialEq, Eq, Structural)]
pub struct Relocation {
    /// Where it applies, from the start of the section.
    pub offset: u64,
    /// Index of its symbol in the object's symbol table.
    pub symbol: u32,
    /// Its type.
    pub r_type: u32,
    /// Its addend.
    pub addend: i64,
}

} // verus!
