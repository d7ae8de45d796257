//! Names of the things a link speaks of: positions in its tables.

use vstd::prelude::*;

verus! {

/// An input section, by its position in the table of sections.
#[derive(Clone, Copy, Debug, PartialEq, Eq, PartialOrd, Ord, Hash, Structural)]
pub struct SectionId {
    /// The position.
    pub position: usize,
}

impl SectionId {
    /// The section at `position`.
    #[verifier::allow_in_spec]
    pub fn new(position: usize) -> SectionId
        returns
            (SectionId { position }),
    {
        SectionId { position }
    }

    /// The position.
    #[verifier::allow_in_spec]
    pub fn index(self) -> usize
        returns
            self.position,
    {
        self.position
    }
}

impl Default for SectionId {
    fn default() -> (r: SectionId)
        ensures
            r == SectionId::new(0),
    {
        SectionId { position: 0 }
    }
}

/// An input file, by its position in the list of inputs.
#[derive(Clone, Copy, Debug, PartialEq, Eq, PartialOrd, Ord, Hash, Structural)]
pub struct FileId {
    /// The position.
    pub position: usize,
}

impl FileId {
    /// The file at `position`.
    #[verifier::allow_in_spec]
    pub fn new(position: usize) -> FileId
        returns
            (FileId { position }),
    {
        FileId { position }
    }

    /// The position.
    #[verifier::allow_in_spec]
    pub fn index(self) -> usize
        returns
            self.position,
    {
        self.position
    }
}

/// A global symbol, by its position in the symbol table.
#[derive(Clone, Copy, Debug, PartialEq, Eq, PartialOrd, Ord, Hash, Structural)]
pub struct SymbolId {
    /// The position.
    pub position: usize,
}

impl SymbolId {
    /// The symbol at `position`.
    #[verifier::allow_in_spec]
    pub fn new(position: usize) -> SymbolId
        returns
            (SymbolId { position }),
    {
        SymbolId { position }
    }

    /// The position.
    #[verifier::allow_in_spec]
    pub fn index(self) -> usize
        returns
            self.position,
    {
        self.position
    }
}

} // verus!
