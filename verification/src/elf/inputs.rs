//! Input files, as the link reads them.

use vstd::prelude::*;

use super::dso::SharedInput;
use super::relocation::Relocation;
use crate::symbols::SymbolUse;

verus! {

/// The parts of a section header that the link reads.
#[derive(Clone, Copy, Debug, PartialEq, Eq, Structural)]
pub struct SectionHeader {
    /// The type.
    pub sh_type: u32,
    /// The flags.
    pub sh_flags: u64,
    /// Where the contents are in the file.
    pub sh_offset: u64,
    /// The size.
    pub sh_size: u64,
    /// The section this one belongs to.
    pub sh_link: u32,
}

/// What the link does with a section.
#[derive(Clone, Copy, Debug, PartialEq, Eq, Structural)]
pub enum SectionKind {
    /// It is copied.
    Regular,
    /// Its strings or constants are merged.
    Merge,
    /// It is left out.
    Ignored,
    /// It is read for something else.
    Special,
}

/// The relocations of a section.
#[derive(Debug, PartialEq, Eq)]
pub enum RelocTable {
    /// There are none.
    Missing,
    /// They could not be read.
    Malformed {
        /// Where in the file.
        offset: u64,
        /// What is wrong.
        what: String,
    },
    /// Relocations whose addends are in the section.
    Rel(Vec<Relocation>),
    /// Relocations with addends.
    Rela(Vec<Relocation>),
}

/// A section of an object.
#[derive(Debug, PartialEq, Eq)]
pub struct InputSection {
    /// Its name.
    pub name: Vec<u8>,
    /// Its header.
    pub header: SectionHeader,
    /// What the link does with it.
    pub kind: SectionKind,
    /// The index of its relocation section, 0 when it has none.
    pub relocs: u32,
    /// Its relocations.
    pub relocations: RelocTable,
    /// Its contents, when they could be read.
    pub contents: Option<Vec<u8>>,
}

/// A symbol table entry.
#[derive(Clone, Copy, Debug, PartialEq, Eq, Structural)]
pub struct RawSymbol {
    /// Binding and type.
    pub st_info: u8,
    /// Visibility, and bits of the architecture's own.
    pub st_other: u8,
    /// The section index as it stands in the table.
    pub st_shndx: u16,
    /// The value.
    pub st_value: u64,
    /// The size.
    pub st_size: u64,
}

impl RawSymbol {
    /// The type.
    #[verifier::allow_in_spec]
    pub fn kind(self) -> u8
        returns
            self.st_info & 0xf,
    {
        self.st_info & 0xf
    }

    /// The binding.
    #[verifier::allow_in_spec]
    pub fn binding(self) -> u8
        returns
            self.st_info >> 4,
    {
        self.st_info >> 4
    }

    /// An entry of zeros.
    #[verifier::allow_in_spec]
    pub fn null() -> RawSymbol
        returns
            (RawSymbol { st_info: 0, st_other: 0, st_shndx: 0, st_value: 0, st_size: 0 }),
    {
        RawSymbol { st_info: 0, st_other: 0, st_shndx: 0, st_value: 0, st_size: 0 }
    }
}

/// The section a symbol is in.
#[derive(Clone, Copy, Debug, PartialEq, Eq, Structural)]
pub enum SymbolSection {
    /// A section of the object.
    Section(u32),
    /// None: the value is absolute.
    Absolute,
    /// Undefined, common or malformed.
    Elsewhere,
}

/// A symbol of an object.
#[derive(Debug, PartialEq, Eq)]
pub struct ObjectSymbol {
    /// Its entry.
    pub raw: RawSymbol,
    /// Its name, when it could be read.
    pub name: Option<Vec<u8>>,
    /// Its section.
    pub section: SymbolSection,
}

/// A relocatable object.
#[derive(Debug, PartialEq, Eq)]
pub struct ObjectInput {
    /// Its ELF machine.
    pub machine: u16,
    /// Its ELF flags.
    pub e_flags: u32,
    /// Its sections.
    pub sections: Vec<InputSection>,
    /// Its symbols.
    pub symbols: Vec<ObjectSymbol>,
    /// The index of its first global symbol.
    pub first_global: usize,
    /// How it uses each of its global symbols.
    pub uses: Vec<SymbolUse>,
}

impl ObjectInput {
    /// Section `index`.
    pub open spec fn spec_section(self, index: int) -> Option<InputSection> {
        if 0 <= index < self.sections@.len() {
            Some(self.sections@[index])
        } else {
            None
        }
    }

    /// Section `index`.
    pub fn section(&self, index: u32) -> (r: Option<&InputSection>)
        ensures
            match r {
                Some(s) => self.spec_section(index as int) == Some(*s),
                None => self.spec_section(index as int) is None,
            },
    {
        let len: usize = self.sections.len();
        if (index as u64) < len as u64 {
            Some(&self.sections[index as usize])
        } else {
            None
        }
    }

    /// The entry of symbol `index`.
    pub open spec fn spec_raw(self, index: int) -> Option<RawSymbol> {
        if 0 <= index < self.symbols@.len() {
            Some(self.symbols@[index].raw)
        } else {
            None
        }
    }
}

/// An input file.
#[derive(Debug, PartialEq, Eq)]
pub struct ElfInput {
    /// The name messages give it.
    pub name: String,
    /// Its place on the command line.
    pub position: u64,
    /// What it is, if an object.
    pub object: Option<ObjectInput>,
    /// What it is, if a shared object.
    pub shared: Option<SharedInput>,
    /// How the link itself uses symbols, for the file that stands for it.
    pub internal_uses: Vec<SymbolUse>,
}

} // verus!
