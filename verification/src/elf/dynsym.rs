//! The dynamic symbol table and everything built from it: `.dynsym`,
//! `.dynstr`, `.gnu.hash`/`.hash`, `.gnu.version`, `.gnu.version_r`,
//! `.gnu.version_d`, and the `.dynamic` entries.
//!
//! [`plan`] runs after the relocation scan and synthetic section planning,
//! so it knows which symbols dynamic relocations need, and fixes every size:
//! the symbol order, the string table, the version tables and the hash
//! tables are built there, since none of them depends on an address. Symbol
//! values and `.dynamic` values are written after layout ([`write_dynsym`],
//! [`write_dynamic`]).
//!
//! **Which symbols.** Imports: symbols defined by a needed shared library
//! that a regular object refers to, and undefined preemptible symbols that a
//! dynamic relocation needs (or, in a shared object, that a regular object
//! refers to). Exports: symbols marked as exported, copy relocations, and
//! the version definitions of a shared object.
//!
//! **Order.** Imports first, in symbol ID order, then the defined symbols.
//! With `.gnu.hash`, the defined symbols are sorted by hash bucket, as the
//! format requires; imports are not hashed.

pub mod chosen;
pub mod dynamic;
pub mod hash;
pub mod plan;
pub mod strtab;
pub mod versions;
pub mod write;

pub use dynamic::ScanResult;
pub use hash::{gnu_hash, sysv_hash};
pub use plan::{plan, DynamicPlan, PlanInput};
pub use strtab::StrTab;
pub use versions::{import_version, GLIBC_ABI_DT_RELR};
pub use write::{shndx_of_address, write_dynamic, write_dynsym, Addresses};

use vstd::prelude::*;

use crate::ids::SymbolId;

verus! {

/// Size of a `.dynsym` entry.
pub const DYNSYM_SIZE: u64 = 24;

/// Size of a `.dynamic` entry.
pub const DYNAMIC_SIZE: u64 = 16;

/// One `.dynsym` entry after the null symbol.
#[derive(Clone, Copy, Debug, PartialEq, Eq, Structural)]
pub enum Entry {
    /// A global symbol.
    Symbol(SymbolId),
    /// The symbol a version definition (by index) gets in a shared object.
    Version(u16),
}

/// A part of the output that the linker makes.
#[derive(Clone, Copy, Debug, PartialEq, Eq, Structural)]
pub enum Synthetic {
    /// `.dynsym`.
    DynSym,
    /// `.dynstr`.
    DynStr,
    /// `.gnu.hash`.
    GnuHash,
    /// `.hash`.
    Hash,
    /// `.gnu.version`.
    VerSym,
    /// `.gnu.version_r`.
    VerNeed,
    /// `.gnu.version_d`.
    VerDef,
    /// `.dynamic`.
    Dynamic,
    /// `.got.plt`.
    GotPlt,
    /// `.rela.plt`.
    RelaPlt,
    /// `.rela.dyn`.
    RelaDyn,
    /// `.relr.dyn`.
    RelrDyn,
}

/// The value of a `.dynamic` entry, resolved after layout.
#[derive(Clone, Copy, Debug, PartialEq, Eq)]
pub enum DynValue {
    /// A constant.
    Value(u64),
    /// The address of a synthetic part.
    Address(Synthetic),
    /// The size of a synthetic part.
    Size(Synthetic),
    /// The address of an output section, by name.
    OutputAddress(&'static str),
    /// The size of an output section, by name.
    OutputSize(&'static str),
    /// The address of a symbol.
    Symbol(SymbolId),
}

/// The synthetic sections of a link.
#[derive(Debug, PartialEq, Eq)]
pub struct Synth {
    /// The symbols with a copy relocation.
    pub copies: Vec<SymbolId>,
    /// The reserved words of `.got.plt`.
    pub got_plt_reserved: u64,
    /// The number of PLT entries.
    pub plt_entries: u64,
    /// The number of relocations of `.rela.dyn`.
    pub rela_dyn_count: u64,
    /// The number of words of `.relr.dyn`.
    pub relr_count: u64,
    /// The number of relative relocations.
    pub relative_count: u64,
}

impl Synth {
    /// Whether a symbol has a copy relocation.
    pub fn has_copy(&self, id: SymbolId) -> (r: bool)
        ensures
            r == self.copies@.contains(id),
    {
        let mut i: usize = 0;
        while i < self.copies.len()
            invariant
                i <= self.copies@.len(),
                forall|k: int| 0 <= k < i ==> #[trigger] self.copies@[k] != id,
            decreases self.copies@.len() - i,
        {
            if self.copies[i] == id {
                assert(self.copies@[i as int] == id);
                return true;
            }
            i += 1;
        }
        false
    }
}

/// A version that a version script defines.
#[derive(Debug, PartialEq, Eq)]
pub struct VersionDef {
    /// Its name.
    pub name: Vec<u8>,
    /// The versions it is based on.
    pub parents: Vec<Vec<u8>>,
}

/// A version script.
#[derive(Debug, PartialEq, Eq)]
pub struct VersionScript {
    /// The versions it defines.
    pub defs: Vec<VersionDef>,
}

/// Exports and versions.
#[derive(Debug, PartialEq, Eq)]
pub struct Exports {
    /// The version script.
    pub script: Option<VersionScript>,
    /// The version of each symbol, 0 where it has none.
    pub versions: Vec<u16>,
}

impl Exports {
    /// The versions the script defines.
    pub open spec fn spec_defs(self) -> Seq<VersionDef> {
        match self.script {
            Some(script) => script.defs@,
            None => Seq::empty(),
        }
    }

    /// The version of a symbol, 0 where it has none.
    pub open spec fn spec_version(self, id: SymbolId) -> u16 {
        if id.position < self.versions@.len() {
            self.versions@[id.position as int]
        } else {
            0
        }
    }

    /// The version of a symbol, 0 where it has none.
    pub fn version(&self, id: SymbolId) -> (r: u16)
        ensures
            r == self.spec_version(id),
    {
        if id.position < self.versions.len() {
            self.versions[id.position]
        } else {
            0
        }
    }
}

} // verus!
