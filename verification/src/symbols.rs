//! The global symbol table.

use vstd::prelude::*;

use crate::bytes::same;
use crate::ids::{FileId, SymbolId};

verus! {

/// The symbol is in the dynamic symbol table.
pub const EXPORTED: u32 = 0x1;

/// Something refers to the symbol.
pub const REFERENCED: u32 = 0x2;

/// Something refers to the symbol weakly.
pub const WEAK_REFERENCED: u32 = 0x4;

/// The symbol needs a GOT entry.
pub const NEEDS_GOT: u32 = 0x8;

/// The symbol needs a PLT entry.
pub const NEEDS_PLT: u32 = 0x10;

/// The symbol needs a general-dynamic TLS entry.
pub const NEEDS_TLSGD: u32 = 0x20;

/// The symbol needs an initial-exec TLS entry.
pub const NEEDS_GOTTPOFF: u32 = 0x40;

/// The symbol needs a TLS descriptor.
pub const NEEDS_TLSDESC: u32 = 0x80;

/// A dynamic relocation names the symbol.
pub const NEEDS_DYNSYM: u32 = 0x100;

/// The symbol is copied into the output.
pub const NEEDS_COPY_RELOC: u32 = 0x200;

/// The symbol's address is its PLT entry's.
pub const NEEDS_CANONICAL_PLT: u32 = 0x400;

/// Another module may define the symbol in the output's place.
pub const PREEMPTIBLE: u32 = 0x1_0000;

/// A needed shared library references the symbol.
pub const REF_DYNAMIC: u32 = 0x8_0000;

/// A regular object refers to or defines the symbol.
pub const REF_REGULAR: u32 = 0x10_0000;

/// A regular object has a non-weak reference to the symbol.
pub const REF_REGULAR_STRONG: u32 = 0x20_0000;

/// Code that is in the output refers to the symbol.
pub const REF_LIVE: u32 = 0x40_0000;

/// The symbol's value is an absolute number, not an address in the image,
/// so position-independent output does not relocate it.
pub const ABSOLUTE: u32 = 0x80_0000;

/// Properties of a symbol.
#[derive(Clone, Copy, Debug, PartialEq, Eq, Structural)]
pub struct SymbolFlags {
    /// One bit for each.
    pub bits: u32,
}

impl SymbolFlags {
    /// No property.
    #[verifier::allow_in_spec]
    pub fn empty() -> SymbolFlags
        returns
            (SymbolFlags { bits: 0 }),
    {
        SymbolFlags { bits: 0 }
    }

    /// Whether every property of `bits` is there.
    #[verifier::allow_in_spec]
    pub fn contains(self, bits: u32) -> bool
        returns
            (self.bits & bits == bits),
    {
        self.bits & bits == bits
    }

    /// Whether any property of `bits` is there.
    #[verifier::allow_in_spec]
    pub fn intersects(self, bits: u32) -> bool
        returns
            (self.bits & bits != 0),
    {
        self.bits & bits != 0
    }

    /// These properties and those of `bits`.
    #[verifier::allow_in_spec]
    pub fn with(self, bits: u32) -> SymbolFlags
        returns
            (SymbolFlags { bits: self.bits | bits }),
    {
        SymbolFlags { bits: self.bits | bits }
    }

    /// These properties without those of `bits`.
    #[verifier::allow_in_spec]
    pub fn without(self, bits: u32) -> SymbolFlags
        returns
            (SymbolFlags { bits: self.bits & !bits }),
    {
        SymbolFlags { bits: self.bits & !bits }
    }
}

/// How a symbol is defined, weakest first.
#[derive(Clone, Copy, Debug, PartialEq, Eq, Structural)]
pub enum DefinitionKind {
    /// Nothing defines it.
    Undefined,
    /// An archive member that was not extracted would.
    Lazy,
    /// A shared library.
    Shared,
    /// A tentative definition.
    Common,
    /// A weak definition.
    Weak,
    /// An ordinary definition.
    Regular,
}

/// The definition a symbol has.
#[derive(Clone, Copy, Debug, PartialEq, Eq, Structural)]
pub struct Definition {
    /// What kind of definition.
    pub kind: DefinitionKind,
    /// The file it is in.
    pub file: FileId,
    /// Its number among the file's global symbols.
    pub index: u32,
    /// The file's place on the command line.
    pub position: u64,
    /// A common symbol's size.
    pub aux: u64,
}

/// The bit of [`Definition::aux`] that marks a COMDAT definition.
pub const AUX_COMDAT: u64 = 0x8000_0000_0000_0000;

/// The file of symbols the linker defines itself.
pub const LINKER_POSITION: usize = usize::MAX;

impl Definition {
    /// Nothing defines the symbol.
    #[verifier::allow_in_spec]
    pub fn undefined() -> Definition
        returns
            (Definition {
                kind: DefinitionKind::Undefined,
                file: FileId { position: 0 },
                index: 0,
                position: u64::MAX,
                aux: 0,
            }),
    {
        Definition {
            kind: DefinitionKind::Undefined,
            file: FileId { position: 0 },
            index: 0,
            position: u64::MAX,
            aux: 0,
        }
    }
}

/// How a file uses a symbol.
#[derive(Clone, Copy, Debug, PartialEq, Eq, Structural)]
pub enum SymbolUse {
    /// Not at all.
    Unused,
    /// It refers to it.
    Reference {
        /// Weakly.
        weak: bool,
    },
    /// It defines it.
    Definition {
        /// What kind of definition.
        kind: DefinitionKind,
        /// A common symbol's size.
        aux: u64,
    },
}

/// A symbol's name, with the version it names explicitly.
#[derive(Debug, PartialEq, Eq)]
pub struct SymbolName {
    /// The name.
    pub bytes: Vec<u8>,
    /// The version.
    pub version: Option<Vec<u8>>,
}

/// One symbol.
#[derive(Debug, PartialEq, Eq)]
pub struct Symbol {
    /// Its name.
    pub name: SymbolName,
    /// Its definition.
    pub definition: Definition,
    /// Its properties.
    pub flags: SymbolFlags,
    /// The visibility its definitions and references agree on.
    pub visibility: u8,
}

/// The symbols of a link; the link speaks of them by position.
#[derive(Debug, PartialEq, Eq)]
pub struct SymbolTable {
    /// Every symbol.
    pub symbols: Vec<Symbol>,
}

/// What resolution found of each file.
#[derive(Debug, PartialEq, Eq)]
pub struct Resolution {
    /// The symbols each file's names stand for.
    pub ids: Vec<Vec<SymbolId>>,
    /// Whether each file takes part in the link.
    pub live: Vec<bool>,
}

impl Resolution {
    /// Whether `file` takes part in the link.
    pub open spec fn spec_is_live(self, file: int) -> bool {
        0 <= file < self.live@.len() && self.live@[file]
    }

    /// Whether `file` takes part in the link.
    pub fn is_live(&self, file: FileId) -> (r: bool)
        ensures
            r == self.spec_is_live(file.position as int),
    {
        file.position < self.live.len() && self.live[file.position]
    }

    /// The symbols of a file.
    pub open spec fn ids_of(self, file: int) -> Seq<SymbolId> {
        if 0 <= file < self.ids@.len() {
            self.ids@[file]@
        } else {
            Seq::empty()
        }
    }

    /// How many names a file has.
    pub fn count(&self, file: usize) -> (r: usize)
        ensures
            r == self.ids_of(file as int).len(),
    {
        if file < self.ids.len() {
            self.ids[file].len()
        } else {
            0
        }
    }

    /// The symbol of name `local` of a file.
    pub fn symbol_id(&self, file: usize, local: usize) -> (r: SymbolId)
        requires
            local < self.ids_of(file as int).len(),
        ensures
            r == self.ids_of(file as int)[local as int],
    {
        self.ids[file][local]
    }
}

/// The flags of a symbol of a list, none where there is no such symbol.
pub open spec fn flags_in(symbols: Seq<Symbol>, id: SymbolId) -> SymbolFlags {
    if id.position < symbols.len() {
        symbols[id.position as int].flags
    } else {
        SymbolFlags::empty()
    }
}

/// The definition of a symbol of a list.
pub open spec fn definition_in(symbols: Seq<Symbol>, id: SymbolId) -> Definition {
    if id.position < symbols.len() {
        symbols[id.position as int].definition
    } else {
        Definition::undefined()
    }
}

/// The symbol of a list named `name`, without a version, from `i` on.
pub open spec fn found_in(symbols: Seq<Symbol>, name: Seq<u8>, i: int) -> Option<SymbolId>
    decreases symbols.len() - i,
{
    if i < 0 || i >= symbols.len() {
        None
    } else if symbols[i].name.bytes@ == name && symbols[i].name.version is None {
        Some(SymbolId { position: i as usize })
    } else {
        found_in(symbols, name, i + 1)
    }
}

/// A list with `bits` set on a symbol.
pub open spec fn with_flags(symbols: Seq<Symbol>, id: SymbolId, bits: u32) -> Seq<Symbol> {
    if id.position < symbols.len() {
        let s = symbols[id.position as int];
        symbols.update(id.position as int, Symbol { flags: s.flags.with(bits), ..s })
    } else {
        symbols
    }
}

/// A list with `bits` cleared on a symbol.
pub open spec fn without_flags(symbols: Seq<Symbol>, id: SymbolId, bits: u32) -> Seq<Symbol> {
    if id.position < symbols.len() {
        let s = symbols[id.position as int];
        symbols.update(id.position as int, Symbol { flags: s.flags.without(bits), ..s })
    } else {
        symbols
    }
}

/// A list with a symbol's definition replaced.
pub open spec fn with_definition(symbols: Seq<Symbol>, id: SymbolId, definition: Definition) -> Seq<
    Symbol,
> {
    if id.position < symbols.len() {
        let s = symbols[id.position as int];
        symbols.update(id.position as int, Symbol { definition, ..s })
    } else {
        symbols
    }
}

impl SymbolTable {
    /// The flags of a symbol, none where there is no such symbol.
    pub open spec fn flags_of(self, id: SymbolId) -> SymbolFlags {
        flags_in(self.symbols@, id)
    }

    /// The definition of a symbol.
    pub open spec fn definition_of(self, id: SymbolId) -> Definition {
        definition_in(self.symbols@, id)
    }

    /// The name of a symbol.
    pub open spec fn name_of(self, id: SymbolId) -> Seq<u8> {
        if id.position < self.symbols@.len() {
            self.symbols@[id.position as int].name.bytes@
        } else {
            Seq::empty()
        }
    }

    /// Whether a symbol's name has a version.
    pub open spec fn is_versioned(self, id: SymbolId) -> bool {
        id.position < self.symbols@.len()
            && self.symbols@[id.position as int].name.version is Some
    }

    /// The number of symbols.
    pub fn len(&self) -> (r: usize)
        ensures
            r == self.symbols@.len(),
    {
        self.symbols.len()
    }

    /// The flags of a symbol.
    pub fn flags(&self, id: SymbolId) -> (r: SymbolFlags)
        ensures
            r == self.flags_of(id),
    {
        if id.position < self.symbols.len() {
            self.symbols[id.position].flags
        } else {
            SymbolFlags::empty()
        }
    }

    /// The definition of a symbol.
    pub fn definition(&self, id: SymbolId) -> (r: Definition)
        ensures
            r == self.definition_of(id),
    {
        if id.position < self.symbols.len() {
            self.symbols[id.position].definition
        } else {
            Definition::undefined()
        }
    }

    /// The kind of definition of a symbol.
    pub fn definition_kind(&self, id: SymbolId) -> (r: DefinitionKind)
        ensures
            r == self.definition_of(id).kind,
    {
        self.definition(id).kind
    }

    /// Whether the name of a symbol has a version.
    pub fn has_version(&self, id: SymbolId) -> (r: bool)
        ensures
            r == self.is_versioned(id),
    {
        id.position < self.symbols.len() && self.symbols[id.position].name.version.is_some()
    }

    /// The symbol `name` without a version, from `i` on.
    pub open spec fn found(self, name: Seq<u8>, i: int) -> Option<SymbolId> {
        found_in(self.symbols@, name, i)
    }

    /// A found symbol is in the table.
    pub proof fn found_is_there(self, name: Seq<u8>, i: int)
        requires
            0 <= i,
        ensures
            match self.found(name, i) {
                Some(id) => i <= id.position < self.symbols@.len()
                    && self.symbols@[id.position as int].name.bytes@ == name,
                None => true,
            },
        decreases self.symbols@.len() - i,
    {
        if i < self.symbols@.len() && !(self.symbols@[i].name.bytes@ == name
            && self.symbols@[i].name.version is None) {
            self.found_is_there(name, i + 1);
        } else if i < self.symbols@.len() {
            assert(self.symbols.len() == self.symbols@.len());
        }
    }

    /// The symbol named `name`, without a version.
    pub fn lookup(&self, name: &[u8]) -> (r: Option<SymbolId>)
        ensures
            r == self.found(name@, 0),
    {
        let mut i: usize = 0;
        while i < self.symbols.len()
            invariant
                self.found(name@, 0) == self.found(name@, i as int),
            decreases self.symbols@.len() - i,
        {
            if same(&self.symbols[i].name.bytes, name) && self.symbols[i].name.version.is_none() {
                return Some(SymbolId { position: i });
            }
            i += 1;
        }
        None
    }

    /// The table with `bits` set on a symbol.
    pub open spec fn flagged(self, id: SymbolId, bits: u32) -> Seq<Symbol> {
        with_flags(self.symbols@, id, bits)
    }

    /// The table with `bits` cleared on a symbol.
    pub open spec fn unflagged(self, id: SymbolId, bits: u32) -> Seq<Symbol> {
        without_flags(self.symbols@, id, bits)
    }

    /// The table with a symbol's definition replaced.
    pub open spec fn redefined(self, id: SymbolId, definition: Definition) -> Seq<Symbol> {
        with_definition(self.symbols@, id, definition)
    }

    /// Sets `bits` on a symbol.
    pub fn set_flags(&mut self, id: SymbolId, bits: u32)
        ensures
            final(self).symbols@ == old(self).flagged(id, bits),
    {
        if id.position < self.symbols.len() {
            let at: usize = id.position;
            let flags: SymbolFlags = self.symbols[at].flags;
            self.symbols[at].flags = flags.with(bits);
            assert(self.symbols@ =~= old(self).flagged(id, bits));
        }
    }

    /// Clears `bits` on a symbol.
    pub fn clear_flags(&mut self, id: SymbolId, bits: u32)
        ensures
            final(self).symbols@ == old(self).unflagged(id, bits),
    {
        if id.position < self.symbols.len() {
            let at: usize = id.position;
            let flags: SymbolFlags = self.symbols[at].flags;
            self.symbols[at].flags = flags.without(bits);
            assert(self.symbols@ =~= old(self).unflagged(id, bits));
        }
    }

    /// Replaces a symbol's definition.
    pub fn replace_definition(&mut self, id: SymbolId, definition: Definition)
        ensures
            final(self).symbols@ == old(self).redefined(id, definition),
    {
        if id.position < self.symbols.len() {
            let at: usize = id.position;
            self.symbols[at].definition = definition;
            assert(self.symbols@ =~= old(self).redefined(id, definition));
        }
    }
}

/// Bits that are set, cleared and left alone.
proof fn bits_are_kept(bits: u32, more: u32, other: u32)
    by (bit_vector)
    ensures
        (bits | more) & more == more,
        bits & other == other ==> (bits | more) & other == other,
        other & more == 0 ==> (bits | more) & other == bits & other,
        other & more == 0 ==> (bits & !more) & other == bits & other,
        more != 0 ==> (bits & !more) & more != more,
        (bits & !more) & more == 0,
        0u32 & more == 0,
{
}

/// A property that is given is there afterwards, one that is taken is not,
/// and other properties stay as they are.
pub proof fn flags_are_given_and_taken(flags: SymbolFlags, more: u32, other: u32)
    ensures
        flags.with(more).contains(more),
        flags.contains(other) ==> flags.with(more).contains(other),
        other & more == 0 ==> flags.with(more).contains(other) == flags.contains(other),
        other & more == 0 ==> flags.with(more).intersects(other) == flags.intersects(other),
        more != 0 ==> !flags.without(more).contains(more),
        !flags.without(more).intersects(more),
        other & more == 0 ==> flags.without(more).contains(other) == flags.contains(other),
        other & more == 0 ==> flags.without(more).intersects(other) == flags.intersects(other),
        !SymbolFlags::empty().intersects(more),
{
    bits_are_kept(flags.bits, more, other);
}

/// Properties change of the symbol that is named and of no other, and its
/// definition and name do not.
pub proof fn flags_change_one_symbol(symbols: Seq<Symbol>, id: SymbolId, bits: u32, at: int)
    requires
        0 <= at < symbols.len(),
    ensures
        with_flags(symbols, id, bits).len() == symbols.len(),
        without_flags(symbols, id, bits).len() == symbols.len(),
        with_flags(symbols, id, bits)[at].definition == symbols[at].definition,
        without_flags(symbols, id, bits)[at].definition == symbols[at].definition,
        with_flags(symbols, id, bits)[at].name == symbols[at].name,
        without_flags(symbols, id, bits)[at].name == symbols[at].name,
        at != id.position ==> with_flags(symbols, id, bits)[at] == symbols[at],
        at != id.position ==> without_flags(symbols, id, bits)[at] == symbols[at],
        at == id.position ==> with_flags(symbols, id, bits)[at].flags.contains(bits),
        at == id.position ==> !without_flags(symbols, id, bits)[at].flags.intersects(bits),
{
    flags_are_given_and_taken(symbols[at].flags, bits, bits);
}

/// A symbol is found by its name where it has no version, and the first of
/// two with the same name.
pub proof fn symbols_are_found_by_name(symbols: Seq<Symbol>, name: Seq<u8>, i: int, k: int)
    requires
        0 <= i <= k < symbols.len() <= usize::MAX,
        symbols[k].name.bytes@ == name,
        symbols[k].name.version is None,
    ensures
        found_in(symbols, name, i) matches Some(id) && i <= id.position <= k && symbols[id.position as int].name.bytes@
            == name && symbols[id.position as int].name.version is None,
    decreases k - i,
{
    if !(symbols[i].name.bytes@ == name && symbols[i].name.version is None) {
        symbols_are_found_by_name(symbols, name, i + 1, k);
    }
}

} // verus!
