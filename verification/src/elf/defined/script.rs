//! Symbols that linker scripts assign.

use vstd::prelude::*;

use super::{is_open, symbol_def, wanted, Building, Registry, SymbolDef, Value};
use crate::bytes::{copied, less, same};
use crate::elf::inputs::ElfInput;
use crate::ids::SymbolId;
use crate::symbols::{Symbol, SymbolTable};

verus! {

/// The symbols of a linker script.
#[derive(Debug, PartialEq, Eq)]
pub struct ScriptPlacement {
    /// The symbols it assigns, by slot.
    pub symbol_names: Vec<Vec<u8>>,
    /// Whether each is provided only, and whether it is hidden.
    pub symbol_kinds: Vec<(bool, bool)>,
    /// The symbols it reads.
    pub referenced: Vec<Vec<u8>>,
    /// The symbol whose type each assigned symbol copies.
    pub type_sources: Vec<Option<Vec<u8>>>,
}

/// What a script's symbols stand for.
#[derive(Debug, PartialEq, Eq)]
pub struct ResolvedSymbols {
    /// The symbols it reads, by name.
    pub defs: Vec<(Vec<u8>, SymbolDef)>,
    /// Whether each assignment is made.
    pub needed: Vec<bool>,
    /// Whether each assigned symbol is hidden.
    pub hidden: Vec<bool>,
}

impl ScriptPlacement {
    /// Whether the symbol of a slot is provided only, and whether it is
    /// hidden.
    pub open spec fn kind_of(self, slot: int) -> (bool, bool) {
        if slot < self.symbol_kinds@.len() {
            self.symbol_kinds@[slot]
        } else {
            (false, false)
        }
    }

    /// Whether the script reads a symbol.
    pub open spec fn reads(self, name: Seq<u8>) -> bool {
        exists|i: int| 0 <= i < self.referenced@.len() && (#[trigger] self.referenced@[i])@ == name
    }

    /// Whether the assignment of a slot is made: always, but for a provided
    /// symbol only when it is wanted or read and nothing else defines it.
    pub open spec fn applies(self, symbols: Seq<Symbol>, slot: int) -> bool {
        let name = self.symbol_names@[slot]@;
        let provide = self.kind_of(slot).0;
        match crate::symbols::found_in(symbols, name, 0) {
            Some(id) => !provide || (is_open(crate::symbols::definition_in(symbols, id).kind) && (
            super::wanted_in(symbols, id) || self.reads(name))),
            None => !provide,
        }
    }

    /// The symbol whose type the symbol of a slot copies.
    pub open spec fn source_of(self, symbols: Seq<Symbol>, slot: int) -> Option<SymbolId> {
        if slot < self.type_sources@.len() {
            match self.type_sources@[slot] {
                Some(name) => crate::symbols::found_in(symbols, name@, 0),
                None => None,
            }
        } else {
            None
        }
    }

    /// With the assignment of a slot made.
    pub open spec fn assigned(self, reg: Registry, slot: int) -> Registry {
        match crate::symbols::found_in(reg.symbols, self.symbol_names@[slot]@, 0) {
            Some(id) => if self.applies(reg.symbols, slot) {
                let typed = Registry {
                    types: match self.source_of(reg.symbols, slot) {
                        Some(source) => reg.types.push((id, source)),
                        None => reg.types,
                    },
                    ..reg
                };
                typed.define(
                    id,
                    Value::Script { slot: slot_number(slot as usize), hidden: self.kind_of(slot).1 },
                )
            } else {
                reg
            },
            None => reg,
        }
    }

    /// Whether the script reads a symbol.
    fn is_read(&self, name: &[u8]) -> (r: bool)
        ensures
            r == self.reads(name@),
    {
        let mut i: usize = 0;
        while i < self.referenced.len()
            invariant
                i <= self.referenced@.len(),
                forall|k: int| 0 <= k < i ==> (#[trigger] self.referenced@[k])@ != name@,
            decreases self.referenced@.len() - i,
        {
            if same(&self.referenced[i], name) {
                assert(self.referenced@[i as int]@ == name@);
                return true;
            }
            i += 1;
        }
        false
    }
}

/// A slot as symbols hold it.
#[verifier::allow_in_spec]
pub fn slot_number(slot: usize) -> u32
    returns
        (if slot > 0xffff_ffff {
            0xffff_ffffu32
        } else {
            slot as u32
        }),
{
    if slot > 0xffff_ffff {
        0xffff_ffffu32
    } else {
        slot as u32
    }
}

/// With the assignments of the slots from `slot` on made.
pub open spec fn assigned_from(script: ScriptPlacement, reg: Registry, slot: int) -> Registry
    decreases script.symbol_names@.len() - slot,
{
    if slot < 0 || slot >= script.symbol_names@.len() {
        reg
    } else {
        assigned_from(script, script.assigned(reg, slot), slot + 1)
    }
}

/// Which of the assignments of the slots from `slot` on are made.
pub open spec fn needed_from(script: ScriptPlacement, reg: Registry, slot: int) -> Seq<bool>
    decreases script.symbol_names@.len() - slot,
{
    if slot < 0 || slot >= script.symbol_names@.len() {
        Seq::empty()
    } else {
        seq![script.applies(reg.symbols, slot)] + needed_from(
            script,
            script.assigned(reg, slot),
            slot + 1,
        )
    }
}

/// Where a name goes in a list by name: behind those that do not come after
/// it.
pub open spec fn place_of(list: Seq<(Seq<u8>, SymbolDef)>, name: Seq<u8>, i: int) -> int
    decreases list.len() - i,
{
    if i < 0 || i >= list.len() || crate::bytes::less_from(name, list[i].0, 0) {
        i
    } else {
        place_of(list, name, i + 1)
    }
}

/// What symbol `name` stands for.
pub open spec fn def_named(symbols: Seq<Symbol>, files: Seq<ElfInput>, name: Seq<u8>) -> SymbolDef {
    match crate::symbols::found_in(symbols, name, 0) {
        Some(id) => super::def_of(symbols, files, id),
        None => SymbolDef::Undefined,
    }
}

/// What the first `n` names stand for, by name; those named twice stay in
/// order.
pub open spec fn defs_of(
    symbols: Seq<Symbol>,
    files: Seq<ElfInput>,
    names: Seq<Vec<u8>>,
    n: int,
) -> Seq<
    (Seq<u8>, SymbolDef),
>
    decreases n,
{
    if n <= 0 {
        Seq::empty()
    } else {
        let list = defs_of(symbols, files, names, n - 1);
        let name = names[n - 1]@;
        list.insert(place_of(list, name, 0), (name, def_named(symbols, files, name)))
    }
}

/// What a list of definitions holds.
pub open spec fn defs_view(defs: Seq<(Vec<u8>, SymbolDef)>) -> Seq<(Seq<u8>, SymbolDef)> {
    Seq::new(defs.len(), |i: int| (defs[i].0@, defs[i].1))
}

/// Whether `resolved` is what a script's symbols stand for, in a link that
/// was `before` and whose symbols are `after`.
pub open spec fn is_resolved(
    script: ScriptPlacement,
    after: Seq<Symbol>,
    files: Seq<ElfInput>,
    before: Registry,
    resolved: ResolvedSymbols,
) -> bool {
    &&& resolved.needed@ == needed_from(script, before, 0)
    &&& resolved.hidden@ == Seq::new(
        script.symbol_names@.len(),
        |slot: int| script.kind_of(slot).1,
    )
    &&& defs_view(resolved.defs@) == defs_of(
        after,
        files,
        script.referenced@,
        script.referenced@.len() as int,
    )
}

/// Where a name goes in a list by name.
fn place(list: &Vec<(Vec<u8>, SymbolDef)>, name: &[u8]) -> (r: usize)
    ensures
        r == place_of(defs_view(list@), name@, 0),
        r <= list@.len(),
{
    let ghost view = defs_view(list@);
    let mut i: usize = 0;
    while i < list.len()
        invariant
            i <= list@.len(),
            view == defs_view(list@),
            place_of(view, name@, 0) == place_of(view, name@, i as int),
        decreases list@.len() - i,
    {
        if less(name, &list[i].0) {
            return i;
        }
        i += 1;
    }
    i
}

/// Defines the symbols linker scripts assign and records where the symbols
/// they read are defined.
pub fn register_script(
    symbols: &mut SymbolTable,
    files: &[ElfInput],
    script: &ScriptPlacement,
    result: &mut Building,
) -> (r: ResolvedSymbols)
    ensures
        final(result).registry(*final(symbols)) == assigned_from(
            *script,
            old(result).registry(*old(symbols)),
            0,
        ),
        is_resolved(
            *script,
            final(symbols).symbols@,
            files@,
            old(result).registry(*old(symbols)),
            r,
        ),
{
    let mut needed: Vec<bool> = Vec::new();
    let mut hidden: Vec<bool> = Vec::new();
    let ghost start = result.registry(*symbols);
    let ghost whole = needed_from(*script, start, 0);
    assert(whole =~= needed@ + whole);
    let mut slot: usize = 0;
    while slot < script.symbol_names.len()
        invariant
            slot <= script.symbol_names@.len(),
            start == old(result).registry(*old(symbols)),
            whole == needed@ + needed_from(*script, result.registry(*symbols), slot as int),
            hidden@ == Seq::new(slot as nat, |k: int| script.kind_of(k).1),
            assigned_from(*script, start, 0) == assigned_from(
                *script,
                result.registry(*symbols),
                slot as int,
            ),
        decreases script.symbol_names@.len() - slot,
    {
        let ghost before = needed@;
        let ghost reg = result.registry(*symbols);
        let ghost rest = needed_from(*script, script.assigned(reg, slot as int), slot + 1);
        let name: &[u8] = script.symbol_names[slot].as_slice();
        let (provide, is_hidden): (bool, bool) = if slot < script.symbol_kinds.len() {
            script.symbol_kinds[slot]
        } else {
            (false, false)
        };
        hidden.push(is_hidden);
        assert(hidden@ =~= Seq::new((slot + 1) as nat, |k: int| script.kind_of(k).1));
        let id: Option<SymbolId> = symbols.lookup(name);
        let apply: bool = match id {
            Some(id) => !provide || (is_open(symbols.definition_kind(id)) && (wanted(symbols, id)
                || script.is_read(name))),
            None => !provide,
        };
        assert(apply == script.applies(reg.symbols, slot as int));
        needed.push(apply);
        assert(before + (seq![apply] + rest) =~= needed@ + rest);
        if let (true, Some(id)) = (apply, id) {
            if slot < script.type_sources.len() {
                if let Some(source_name) = &script.type_sources[slot] {
                    if let Some(source) = symbols.lookup(source_name) {
                        result.types.push((id, source));
                    }
                }
            }
            result.define(
                symbols,
                id,
                Value::Script { slot: slot_number(slot), hidden: is_hidden },
            );
        }
        slot += 1;
    }
    assert(whole =~= needed@);
    let mut defs: Vec<(Vec<u8>, SymbolDef)> = Vec::new();
    let mut i: usize = 0;
    assert(defs_view(defs@) =~= Seq::empty());
    while i < script.referenced.len()
        invariant
            i <= script.referenced@.len(),
            defs_view(defs@) == defs_of(symbols.symbols@, files@, script.referenced@, i as int),
        decreases script.referenced@.len() - i,
    {
        let name: &[u8] = script.referenced[i].as_slice();
        let def: SymbolDef = match symbols.lookup(name) {
            Some(id) => symbol_def(symbols, files, id),
            None => SymbolDef::Undefined,
        };
        let at: usize = place(&defs, name);
        let ghost before = defs@;
        let entry: (Vec<u8>, SymbolDef) = (copied(name), def);
        defs.insert(at, entry);
        proof {
            assert(defs@ == before.insert(at as int, entry));
            assert(defs_view(defs@) =~= defs_view(before).insert(at as int, (name@, def)));
        }
        i += 1;
    }
    ResolvedSymbols { defs, needed, hidden }
}

/// An assignment is always made; one that provides is made only where the
/// symbol is known, nothing in an object defines it, and something wants it
/// or the script reads it.
pub proof fn provided_symbols_are_wanted(script: ScriptPlacement, symbols: Seq<Symbol>, slot: int)
    requires
        0 <= slot < script.symbol_names@.len(),
    ensures
        !script.kind_of(slot).0 ==> script.applies(symbols, slot),
        script.kind_of(slot).0 ==> match crate::symbols::found_in(
            symbols,
            script.symbol_names@[slot]@,
            0,
        ) {
            None => !script.applies(symbols, slot),
            Some(id) => {
                let kind = crate::symbols::definition_in(symbols, id).kind;
                if kind == crate::symbols::DefinitionKind::Regular || kind == crate::symbols::DefinitionKind::Weak || kind
                    == crate::symbols::DefinitionKind::Common {
                    !script.applies(symbols, slot)
                } else {
                    script.applies(symbols, slot) <==> super::wanted_in(symbols, id)
                        || script.reads(script.symbol_names@[slot]@)
                }
            },
        },
{
}

/// The symbol of an assignment that is made becomes the linker's, with the
/// assignment as its value; no other symbol changes its definition.
pub proof fn assignments_define_their_symbol(
    script: ScriptPlacement,
    reg: Registry,
    slot: int,
    id: SymbolId,
    other: int,
)
    requires
        0 <= slot < script.symbol_names@.len(),
        script.symbol_names@.len() < 0xffff_ffff,
        reg.entries.len() < 0xffff_ffff,
        crate::symbols::found_in(reg.symbols, script.symbol_names@[slot]@, 0) == Some(id),
        id.position < reg.symbols.len(),
        script.applies(reg.symbols, slot),
    ensures
        ({
            let after = script.assigned(reg, slot);
            let def = after.symbols[id.position as int].definition;
            &&& after.entries == reg.entries.push(
                (
                    id,
                    Value::Script { slot: slot as u32, hidden: script.kind_of(slot).1 },
                ),
            )
            &&& def.kind == crate::symbols::DefinitionKind::Regular
            &&& def.index == reg.entries.len()
            &&& 0 <= other < reg.symbols.len() && other != id.position ==> after.symbols[other]
                == reg.symbols[other]
        }),
{
}

/// The names a script reads come with what defines them, and in the order of
/// the names.
pub proof fn read_names_come_with_their_definition(
    symbols: Seq<Symbol>,
    files: Seq<ElfInput>,
    names: Seq<Vec<u8>>,
    n: int,
    k: int,
)
    requires
        0 <= n <= names.len(),
    ensures
        defs_of(symbols, files, names, n).len() == n,
        0 <= k < n ==> defs_of(symbols, files, names, n).contains(
            (names[k]@, def_named(symbols, files, names[k]@)),
        ),
    decreases n,
{
    if n > 0 {
        read_names_come_with_their_definition(symbols, files, names, n - 1, k);
        let list = defs_of(symbols, files, names, n - 1);
        let name = names[n - 1]@;
        places_are_inside(list, name, 0);
        let at = place_of(list, name, 0);
        let all = list.insert(at, (name, def_named(symbols, files, name)));
        assert(all[at] == (name, def_named(symbols, files, name)));
        if 0 <= k < n - 1 {
            let e = (names[k]@, def_named(symbols, files, names[k]@));
            let j = choose|j: int| 0 <= j < list.len() && list[j] == e;
            if j < at {
                assert(all[j] == e);
            } else {
                assert(all[j + 1] == e);
            }
        }
    }
}

/// The place of a name is in the list or behind it, and what stands before it
/// does not come after the name.
proof fn places_are_inside(list: Seq<(Seq<u8>, SymbolDef)>, name: Seq<u8>, i: int)
    requires
        0 <= i <= list.len(),
    ensures
        i <= place_of(list, name, i) <= list.len(),
    decreases list.len() - i,
{
    if i < list.len() && !crate::bytes::less_from(name, list[i].0, 0) {
        places_are_inside(list, name, i + 1);
    }
}

} // verus!
