//! What symbols and sections stand for in a link.

use vstd::prelude::*;

use super::arch::TlsMode;
use super::inputs::{ElfInput, RawSymbol, SectionKind};
use crate::ids::{SectionId, SymbolId};
use crate::symbols::{Resolution, SymbolFlags, SymbolTable};

verus! {

/// Where a symbol is defined.
#[derive(Clone, Copy, Debug, PartialEq, Eq, Structural)]
pub enum Def {
    /// In a section of an object.
    Section {
        /// The file.
        file: usize,
        /// The section.
        section: u32,
        /// The offset in it.
        value: u64,
    },
    /// Nowhere: an absolute value.
    Absolute(u64),
    /// In the common block.
    Common(SymbolId),
    /// By the linker, in this slot.
    Linker(u32),
    /// In the shared library at this position.
    Shared(usize),
    /// Nowhere.
    Undefined {
        /// Only weak references name it.
        weak: bool,
    },
}

/// What a symbol stands for.
#[derive(Clone, Copy, Debug, PartialEq, Eq, Structural)]
pub struct Target {
    /// The global symbol, if it is one.
    pub global: Option<SymbolId>,
    /// Where it is defined.
    pub def: Def,
    /// The symbol table entry that defines it.
    pub raw: Option<RawSymbol>,
    /// Whether it is an IFUNC of the output.
    pub ifunc: bool,
    /// Whether it stands for a section.
    pub section_symbol: bool,
    /// How thread-local accesses to it are linked.
    pub tls: TlsMode,
}

impl Target {
    /// Whether it is an IFUNC of the output.
    #[verifier::allow_in_spec]
    pub fn is_ifunc(self) -> bool
        returns
            self.ifunc,
    {
        self.ifunc
    }

    /// Whether it stands for a section.
    #[verifier::allow_in_spec]
    pub fn is_section_symbol(self) -> bool
        returns
            self.section_symbol,
    {
        self.section_symbol
    }

    /// A symbol that nothing defines.
    #[verifier::allow_in_spec]
    pub fn nothing() -> Target
        returns
            (Target {
                global: None,
                def: Def::Undefined { weak: false },
                raw: None,
                ifunc: false,
                section_symbol: false,
                tls: TlsMode::Dynamic,
            }),
    {
        Target {
            global: None,
            def: Def::Undefined { weak: false },
            raw: None,
            ifunc: false,
            section_symbol: false,
            tls: TlsMode::Dynamic,
        }
    }
}

/// The input sections of a link.
#[derive(Debug, PartialEq, Eq)]
pub struct Sections {
    /// The section each file's index stands for.
    pub ids: Vec<Vec<Option<SectionId>>>,
    /// The file and the index of each section.
    pub places: Vec<(usize, u32)>,
    /// Whether each section is in the link.
    pub live: Vec<bool>,
    /// Whether each section has contents in the output.
    pub present: Vec<bool>,
    /// The section each section was folded into, itself where it was not.
    pub folded: Vec<Option<SectionId>>,
}

impl Sections {
    /// The section that index `section` of `file` stands for.
    pub open spec fn spec_id(self, file: int, section: int) -> Option<SectionId> {
        if 0 <= file < self.ids@.len() && 0 <= section < self.ids@[file]@.len() {
            self.ids@[file]@[section]
        } else {
            None
        }
    }

    /// The section that index `section` of `file` stands for.
    pub fn id(&self, file: usize, section: u32) -> (r: Option<SectionId>)
        ensures
            r == self.spec_id(file as int, section as int),
    {
        if file < self.ids.len() {
            let len: usize = self.ids[file].len();
            if (section as u64) < len as u64 {
                return self.ids[file][section as usize];
            }
        }
        None
    }

    /// The file and the index of a section.
    pub open spec fn spec_locate(self, id: SectionId) -> Option<(usize, u32)> {
        if id.position < self.places@.len() {
            Some(self.places@[id.position as int])
        } else {
            None
        }
    }

    /// The file and the index of a section.
    pub fn locate(&self, id: SectionId) -> (r: Option<(usize, u32)>)
        ensures
            r == self.spec_locate(id),
    {
        if id.position < self.places.len() {
            Some(self.places[id.position])
        } else {
            None
        }
    }

    /// Whether a section is in the link.
    pub open spec fn spec_is_live(self, id: SectionId) -> bool {
        id.position < self.live@.len() && self.live@[id.position as int]
    }

    /// Whether a section is in the link.
    pub fn is_live(&self, id: SectionId) -> (r: bool)
        ensures
            r == self.spec_is_live(id),
    {
        id.position < self.live.len() && self.live[id.position]
    }

    /// Whether index `section` of `file` is in the link.
    pub open spec fn spec_is_live_in(self, file: int, section: int) -> bool {
        match self.spec_id(file, section) {
            Some(id) => self.spec_is_live(id),
            None => false,
        }
    }

    /// Whether index `section` of `file` is in the link.
    pub fn is_live_in(&self, file: usize, section: u32) -> (r: bool)
        ensures
            r == self.spec_is_live_in(file as int, section as int),
    {
        match self.id(file, section) {
            Some(id) => self.is_live(id),
            None => false,
        }
    }

    /// Whether index `section` of `file` has contents in the output.
    pub open spec fn spec_is_present_in(self, file: int, section: int) -> bool {
        match self.spec_id(file, section) {
            Some(id) => id.position < self.present@.len() && self.present@[id.position as int],
            None => false,
        }
    }

    /// Whether index `section` of `file` has contents in the output.
    pub fn is_present_in(&self, file: usize, section: u32) -> (r: bool)
        ensures
            r == self.spec_is_present_in(file as int, section as int),
    {
        match self.id(file, section) {
            Some(id) => id.position < self.present.len() && self.present[id.position],
            None => false,
        }
    }

    /// The section another was folded into.
    pub open spec fn spec_resolve(self, id: SectionId) -> Option<SectionId> {
        if id.position < self.folded@.len() {
            self.folded@[id.position as int]
        } else {
            None
        }
    }

    /// The section another was folded into.
    pub fn resolve(&self, id: SectionId) -> (r: Option<SectionId>)
        ensures
            r == self.spec_resolve(id),
    {
        if id.position < self.folded.len() {
            self.folded[id.position]
        } else {
            None
        }
    }

    /// The number of sections.
    pub fn len(&self) -> (r: usize)
        ensures
            r == self.places@.len(),
    {
        self.places.len()
    }
}

/// What a link refers to.
#[derive(Debug, PartialEq, Eq)]
pub struct Refs {
    /// The input files.
    pub files: Vec<ElfInput>,
    /// The symbol table.
    pub symbols: SymbolTable,
    /// The input sections.
    pub sections: Sections,
    /// The symbols of each file.
    pub resolution: Resolution,
    /// What each file's symbols stand for.
    pub targets: Vec<Vec<Option<Target>>>,
    /// What each global symbol stands for.
    pub globals: Vec<Target>,
}

impl Refs {
    /// What symbol `symbol` of `file` stands for.
    pub open spec fn spec_target(self, file: int, symbol: int) -> Option<Target> {
        if 0 <= file < self.targets@.len() && 0 <= symbol < self.targets@[file]@.len() {
            self.targets@[file]@[symbol]
        } else {
            None
        }
    }

    /// What symbol `symbol` of `file` stands for.
    pub fn target(&self, file: usize, symbol: u32) -> (r: Option<Target>)
        ensures
            r == self.spec_target(file as int, symbol as int),
    {
        if file < self.targets.len() {
            let len: usize = self.targets[file].len();
            if (symbol as u64) < len as u64 {
                return self.targets[file][symbol as usize];
            }
        }
        None
    }

    /// What a global symbol stands for.
    pub open spec fn spec_global_target(self, id: SymbolId) -> Target {
        if id.position < self.globals@.len() {
            self.globals@[id.position as int]
        } else {
            Target::nothing()
        }
    }

    /// What a global symbol stands for.
    pub fn global_target(&self, id: SymbolId) -> (r: Target)
        ensures
            r == self.spec_global_target(id),
    {
        if id.position < self.globals.len() {
            self.globals[id.position]
        } else {
            Target::nothing()
        }
    }

    /// The flags of a target: none for a local symbol.
    pub open spec fn flags_of(self, target: Target) -> SymbolFlags {
        match target.global {
            Some(id) => self.symbols.flags_of(id),
            None => SymbolFlags::empty(),
        }
    }

    /// The flags of a target: none for a local symbol.
    pub fn target_flags(&self, target: Target) -> (r: SymbolFlags)
        ensures
            r == self.flags_of(target),
    {
        match target.global {
            Some(id) => self.symbols.flags(id),
            None => SymbolFlags::empty(),
        }
    }

    /// What the link does with section `section` of `file`.
    pub open spec fn spec_kind_in(self, file: int, section: int) -> Option<SectionKind> {
        if 0 <= file < self.files@.len() {
            match self.files@[file].object {
                Some(object) => match object.spec_section(section) {
                    Some(s) => Some(s.kind),
                    None => None,
                },
                None => None,
            }
        } else {
            None
        }
    }

    /// What the link does with section `section` of `file`.
    pub fn kind_in(&self, file: usize, section: u32) -> (r: Option<SectionKind>)
        ensures
            r == self.spec_kind_in(file as int, section as int),
    {
        if file < self.files.len() {
            if let Some(object) = &self.files[file].object {
                if let Some(s) = object.section(section) {
                    return Some(s.kind);
                }
            }
        }
        None
    }
}

} // verus!
