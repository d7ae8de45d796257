//! Which symbols are dynamic.

use vstd::prelude::*;

use super::Synth;
use crate::elf::consts::{STB_GLOBAL, STB_WEAK, STT_FUNC, STT_GNU_IFUNC};
use crate::elf::dso::SharedInput;
use crate::elf::inputs::{ElfInput, RawSymbol};
use crate::elf::refs::{Def, Refs};
use crate::ids::SymbolId;
use crate::options::Mode;
use crate::parallel::{map_all, numbers};
use crate::symbols::{
    Definition, DefinitionKind, Resolution, Symbol, SymbolFlags, SymbolTable, SymbolUse, EXPORTED,
    NEEDS_COPY_RELOC, NEEDS_DYNSYM, NEEDS_GOT, NEEDS_GOTTPOFF, NEEDS_PLT, NEEDS_TLSDESC,
    NEEDS_TLSGD, PREEMPTIBLE, REF_LIVE, REF_REGULAR, REF_REGULAR_STRONG,
};

verus! {

/// The flags of a symbol that a dynamic relocation names.
pub const NEEDS: u32 = NEEDS_GOT | NEEDS_PLT | NEEDS_TLSGD | NEEDS_GOTTPOFF | NEEDS_TLSDESC
    | NEEDS_DYNSYM | NEEDS_COPY_RELOC;

/// The flags that tell how regular objects refer to a symbol.
pub const REFERENCES: u32 = REF_REGULAR | REF_REGULAR_STRONG;

/// Whether a defined symbol's section made it into the output.
pub open spec fn is_present(refs: Refs, id: SymbolId) -> bool {
    match refs.spec_global_target(id).def {
        Def::Section { file, section, .. } => refs.sections.spec_is_present_in(
            file as int,
            section as int,
        ),
        Def::Undefined { .. } => false,
        _ => true,
    }
}

/// Whether a defined symbol's section made it into the output.
pub fn present(refs: &Refs, id: SymbolId) -> (r: bool)
    ensures
        r == is_present(*refs, id),
{
    match refs.global_target(id).def {
        Def::Section { file, section, .. } => refs.sections.is_present_in(file, section),
        Def::Undefined { .. } => false,
        _ => true,
    }
}

/// Whether a symbol of this kind and these flags is dynamic, and if so,
/// whether it is defined; `copied` tells whether it has a copy relocation,
/// `present` whether its section made it into the output. With
/// `--gc-sections` a reference from code that was removed does not count.
#[verifier::allow_in_spec]
pub fn selection(
    kind: DefinitionKind,
    flags: SymbolFlags,
    copied: bool,
    present: bool,
    shared: bool,
    gc: bool,
) -> Option<bool>
    returns
        (if flags.contains(NEEDS_COPY_RELOC) || (kind == DefinitionKind::Shared && copied) {
            Some(true)
        } else {
            match kind {
                DefinitionKind::Shared => if (flags.contains(REF_REGULAR) && (!gc
                    || flags.contains(REF_LIVE))) || flags.intersects(NEEDS) {
                    Some(false)
                } else {
                    None
                },
                DefinitionKind::Undefined | DefinitionKind::Lazy => if flags.contains(PREEMPTIBLE)
                    && (flags.intersects(NEEDS) || (shared && flags.contains(REF_REGULAR) && (!gc
                    || flags.contains(REF_LIVE)))) {
                    Some(false)
                } else {
                    None
                },
                DefinitionKind::Regular | DefinitionKind::Weak | DefinitionKind::Common => if flags.contains(
                EXPORTED) && present {
                    Some(true)
                } else {
                    None
                },
            }
        }),
{
    if flags.contains(NEEDS_COPY_RELOC) || (kind == DefinitionKind::Shared && copied) {
        Some(true)
    } else {
        match kind {
            DefinitionKind::Shared => if (flags.contains(REF_REGULAR) && (!gc || flags.contains(
                REF_LIVE,
            ))) || flags.intersects(NEEDS) {
                Some(false)
            } else {
                None
            },
            DefinitionKind::Undefined | DefinitionKind::Lazy => if flags.contains(PREEMPTIBLE) && (
            flags.intersects(NEEDS) || (shared && flags.contains(REF_REGULAR) && (!gc
                || flags.contains(REF_LIVE)))) {
                Some(false)
            } else {
                None
            },
            DefinitionKind::Regular | DefinitionKind::Weak | DefinitionKind::Common => if flags.contains(
                EXPORTED,
            ) && present {
                Some(true)
            } else {
                None
            },
        }
    }
}

/// Whether a symbol is dynamic, and if so, whether it is defined.
pub open spec fn selected(refs: Refs, mode: Mode, gc: bool, synth: Synth, id: SymbolId) -> Option<
    bool,
> {
    selection(
        refs.symbols.definition_of(id).kind,
        refs.symbols.flags_of(id),
        synth.copies@.contains(id),
        is_present(refs, id),
        !mode.executable,
        gc,
    )
}

/// The dynamic symbols from `i` on, each with whether it is defined.
pub open spec fn chosen_from(refs: Refs, mode: Mode, gc: bool, synth: Synth, i: int) -> Seq<
    (SymbolId, bool),
>
    decreases refs.symbols.symbols@.len() - i,
{
    if i < 0 || i >= refs.symbols.symbols@.len() {
        Seq::empty()
    } else {
        let id = SymbolId { position: i as usize };
        let rest = chosen_from(refs, mode, gc, synth, i + 1);
        match selected(refs, mode, gc, synth, id) {
            Some(defined) => seq![(id, defined)] + rest,
            None => rest,
        }
    }
}

/// The dynamic symbols, each with whether it is defined.
pub fn choose_symbols(
    refs: &Refs,
    mode: Mode,
    gc: bool,
    synth: &Synth,
) -> (r: Vec<(SymbolId, bool)>)
    ensures
        r@ == chosen_from(*refs, mode, gc, *synth, 0),
{
    let positions: Vec<usize> = numbers(refs.symbols.len());
    let each = |i: &usize| -> (one: Option<bool>)
        ensures
            one == selected(*refs, mode, gc, *synth, SymbolId { position: *i }),
        {
            let id: SymbolId = SymbolId::new(*i);
            selection(
                refs.symbols.definition_kind(id),
                refs.symbols.flags(id),
                synth.has_copy(id),
                present(refs, id),
                !mode.executable,
                gc,
            )
        };
    let picks: Vec<Option<bool>> = map_all(&positions, each);
    let mut out: Vec<(SymbolId, bool)> = Vec::new();
    let ghost whole = chosen_from(*refs, mode, gc, *synth, 0);
    proof {
        assert(whole =~= out@ + whole);
        assert forall|k: int| 0 <= k < picks@.len() implies #[trigger] picks@[k] == selected(
            *refs,
            mode,
            gc,
            *synth,
            SymbolId { position: k as usize },
        ) by {
            assert(each.ensures((&positions@[k],), picks@[k]));
        }
    }
    let mut i: usize = 0;
    while i < picks.len()
        invariant
            i <= picks@.len(),
            picks@.len() == refs.symbols.symbols@.len(),
            forall|k: int|
                0 <= k < picks@.len() ==> #[trigger] picks@[k] == selected(
                    *refs,
                    mode,
                    gc,
                    *synth,
                    SymbolId { position: k as usize },
                ),
            whole == out@ + chosen_from(*refs, mode, gc, *synth, i as int),
        decreases picks@.len() - i,
    {
        let ghost before = out@;
        let ghost rest = chosen_from(*refs, mode, gc, *synth, i + 1);
        if let Some(defined) = picks[i] {
            out.push((SymbolId::new(i), defined));
            assert(before + (seq![(SymbolId { position: i }, defined)] + rest) =~= out@ + rest);
        }
        i += 1;
    }
    assert(whole =~= out@);
    out
}

/// The dynamic symbol of a shared object behind its name `local`.
pub open spec fn raw_of(shared: SharedInput, local: int) -> Option<RawSymbol> {
    if 0 <= local < shared.symbols@.len() && shared.symbols@[local] < shared.elf.symbols@.len() {
        Some(shared.elf.symbols@[shared.symbols@[local] as int].raw)
    } else {
        None
    }
}

/// The dynamic symbol of a shared object behind its name `local`.
fn find_raw(shared: &SharedInput, local: usize) -> (r: Option<RawSymbol>)
    ensures
        r == raw_of(*shared, local as int),
{
    if local < shared.symbols.len() {
        let index: u32 = shared.symbols[local];
        let count: usize = shared.elf.symbols.len();
        if (index as u64) < count as u64 {
            return Some(shared.elf.symbols[index as usize].raw);
        }
    }
    None
}

/// Where a weak data symbol is: its shared object, its section there and its
/// value.
#[derive(Clone, Copy, Debug, PartialEq, Eq, Structural)]
pub struct Place {
    /// The file.
    pub file: usize,
    /// The section.
    pub shndx: u16,
    /// The value.
    pub value: u64,
}

/// Where a symbol is if a shared object defines it as weak data.
pub open spec fn weak_place(files: Seq<ElfInput>, symbols: Seq<Symbol>, id: SymbolId) -> Option<
    Place,
> {
    let def = crate::symbols::definition_in(symbols, id);
    if def.kind != DefinitionKind::Shared || def.file.position >= files.len() {
        None
    } else {
        match files[def.file.position as int].shared {
            Some(shared) => match raw_of(shared, def.index as int) {
                Some(raw) => if raw.binding() == STB_WEAK && raw.kind() != STT_FUNC && raw.kind()
                    != STT_GNU_IFUNC {
                    Some(
                        Place {
                            file: def.file.position,
                            shndx: raw.st_shndx,
                            value: raw.st_value,
                        },
                    )
                } else {
                    None
                },
                None => None,
            },
            None => None,
        }
    }
}

/// Where a symbol is if a shared object defines it as weak data.
fn find_weak_place(files: &Vec<ElfInput>, symbols: &SymbolTable, id: SymbolId) -> (r: Option<Place>)
    ensures
        r == weak_place(files@, symbols.symbols@, id),
{
    let def: Definition = symbols.definition(id);
    let position: usize = def.file.position;
    if def.kind != DefinitionKind::Shared || position >= files.len() {
        return None;
    }
    match &files[position].shared {
        Some(shared) => {
            let local: usize = def.index as usize;
            match find_raw(shared, local) {
                Some(raw) => if raw.binding() == STB_WEAK && raw.kind() != STT_FUNC && raw.kind()
                    != STT_GNU_IFUNC {
                    Some(Place { file: position, shndx: raw.st_shndx, value: raw.st_value })
                } else {
                    None
                },
                None => None,
            }
        },
        None => None,
    }
}

/// The weak data imports among chosen symbols from `i` on.
pub open spec fn wanted_from(
    files: Seq<ElfInput>,
    symbols: Seq<Symbol>,
    synth: Synth,
    chosen: Seq<(SymbolId, bool)>,
    i: int,
) -> Seq<(Place, SymbolId)>
    decreases chosen.len() - i,
{
    if i < 0 || i >= chosen.len() {
        Seq::empty()
    } else {
        let rest = wanted_from(files, symbols, synth, chosen, i + 1);
        let (id, defined) = chosen[i];
        if defined || synth.copies@.contains(id) {
            rest
        } else {
            match weak_place(files, symbols, id) {
                Some(place) => seq![(place, id)] + rest,
                None => rest,
            }
        }
    }
}

/// The weak data imports among chosen symbols.
fn list_wanted(
    files: &Vec<ElfInput>,
    symbols: &SymbolTable,
    synth: &Synth,
    chosen: &Vec<(SymbolId, bool)>,
) -> (r: Vec<(Place, SymbolId)>)
    ensures
        r@ == wanted_from(files@, symbols.symbols@, *synth, chosen@, 0),
{
    let mut out: Vec<(Place, SymbolId)> = Vec::new();
    let ghost whole = wanted_from(files@, symbols.symbols@, *synth, chosen@, 0);
    assert(whole =~= out@ + whole);
    let mut i: usize = 0;
    while i < chosen.len()
        invariant
            i <= chosen@.len(),
            whole == out@ + wanted_from(files@, symbols.symbols@, *synth, chosen@, i as int),
        decreases chosen@.len() - i,
    {
        let ghost before = out@;
        let ghost rest = wanted_from(files@, symbols.symbols@, *synth, chosen@, i + 1);
        let (id, defined) = chosen[i];
        if !defined && !synth.has_copy(id) {
            if let Some(place) = find_weak_place(files, symbols, id) {
                out.push((place, id));
                assert(before + (seq![(place, id)] + rest) =~= out@ + rest);
            }
        }
        i += 1;
    }
    assert(whole =~= out@);
    out
}

/// Whether a weak import is at a place, from `i` on.
pub open spec fn is_wanted(wanted: Seq<(Place, SymbolId)>, place: Place, i: int) -> bool
    decreases wanted.len() - i,
{
    if i < 0 || i >= wanted.len() {
        false
    } else {
        wanted[i].0 == place || is_wanted(wanted, place, i + 1)
    }
}

/// Whether a weak import is at a place.
fn has_wanted(wanted: &Vec<(Place, SymbolId)>, place: Place) -> (r: bool)
    ensures
        r == is_wanted(wanted@, place, 0),
{
    let mut i: usize = 0;
    while i < wanted.len()
        invariant
            i <= wanted@.len(),
            is_wanted(wanted@, place, 0) == is_wanted(wanted@, place, i as int),
        decreases wanted@.len() - i,
    {
        if wanted[i].0 == place {
            return true;
        }
        i += 1;
    }
    false
}

/// Symbols with the references of the weak imports at a place, from `i` on,
/// set on `id`.
pub open spec fn referenced_from(
    symbols: Seq<Symbol>,
    wanted: Seq<(Place, SymbolId)>,
    place: Place,
    id: SymbolId,
    i: int,
) -> Seq<Symbol>
    decreases wanted.len() - i,
{
    if i < 0 || i >= wanted.len() {
        symbols
    } else if wanted[i].0 == place {
        let bits = crate::symbols::flags_in(symbols, wanted[i].1).bits & REFERENCES;
        referenced_from(crate::symbols::with_flags(symbols, id, bits), wanted, place, id, i + 1)
    } else {
        referenced_from(symbols, wanted, place, id, i + 1)
    }
}

/// Sets the references of the weak imports at a place on `id`.
fn set_references(
    symbols: &mut SymbolTable,
    wanted: &Vec<(Place, SymbolId)>,
    place: Place,
    id: SymbolId,
)
    ensures
        final(symbols).symbols@ == referenced_from(old(symbols).symbols@, wanted@, place, id, 0),
{
    let ghost whole = referenced_from(symbols.symbols@, wanted@, place, id, 0);
    let mut i: usize = 0;
    while i < wanted.len()
        invariant
            i <= wanted@.len(),
            whole == referenced_from(symbols.symbols@, wanted@, place, id, i as int),
        decreases wanted@.len() - i,
    {
        if wanted[i].0 == place {
            let bits: u32 = symbols.flags(wanted[i].1).bits & REFERENCES;
            symbols.set_flags(id, bits);
        }
        i += 1;
    }
}

/// What the search for aliases found so far.
#[verifier::ext_equal]
pub struct Aliases {
    /// The symbols.
    pub symbols: Seq<Symbol>,
    /// The aliases.
    pub added: Seq<SymbolId>,
    /// The places of the file at hand that were found.
    pub found: Seq<Place>,
}

/// Whether a name is a definition.
pub open spec fn is_definition(uses: Seq<SymbolUse>, local: int) -> bool {
    0 <= local < uses.len() && uses[local] is Definition
}

/// What the search knows after name `local` of `file`.
pub open spec fn alias_step(
    shared: SharedInput,
    ids: Seq<SymbolId>,
    wanted: Seq<(Place, SymbolId)>,
    file: usize,
    local: int,
    at: Aliases,
) -> Aliases {
    let id = ids[local];
    let versioned = id.position < at.symbols.len()
        && at.symbols[id.position as int].name.version is Some;
    match raw_of(shared, local) {
        Some(raw) => {
            let place = Place { file, shndx: raw.st_shndx, value: raw.st_value };
            if !is_definition(shared.uses@, local) || versioned || raw.binding() != STB_GLOBAL
                || at.found.contains(place) || !is_wanted(wanted, place, 0) {
                at
            } else {
                let def = crate::symbols::definition_in(at.symbols, id);
                if def.kind == DefinitionKind::Shared && def.file.position == file {
                    Aliases {
                        symbols: referenced_from(at.symbols, wanted, place, id, 0),
                        added: at.added.push(id),
                        found: at.found.push(place),
                    }
                } else {
                    Aliases { found: at.found.push(place), ..at }
                }
            }
        },
        None => at,
    }
}

/// What the search knows after the names of `file` from `local` on.
pub open spec fn aliases_in(
    shared: SharedInput,
    ids: Seq<SymbolId>,
    wanted: Seq<(Place, SymbolId)>,
    file: usize,
    local: int,
    at: Aliases,
) -> Aliases
    decreases shared.symbols@.len() - local,
{
    if local < 0 || local >= shared.symbols@.len() || local >= ids.len() {
        at
    } else {
        aliases_in(
            shared,
            ids,
            wanted,
            file,
            local + 1,
            alias_step(shared, ids, wanted, file, local, at),
        )
    }
}

/// Whether a weak import is in a file, from `i` on.
pub open spec fn is_wanted_file(wanted: Seq<(Place, SymbolId)>, file: usize, i: int) -> bool
    decreases wanted.len() - i,
{
    if i < 0 || i >= wanted.len() {
        false
    } else {
        wanted[i].0.file == file || is_wanted_file(wanted, file, i + 1)
    }
}

/// What the search knows after the files from `file` on.
pub open spec fn aliases_from(
    files: Seq<ElfInput>,
    resolution: Resolution,
    wanted: Seq<(Place, SymbolId)>,
    file: int,
    at: Aliases,
) -> Aliases
    decreases files.len() - file,
{
    if file < 0 || file >= files.len() {
        at
    } else {
        let next = match files[file].shared {
            Some(shared) => if is_wanted_file(wanted, file as usize, 0) {
                aliases_in(
                    shared,
                    resolution.ids_of(file),
                    wanted,
                    file as usize,
                    0,
                    Aliases { found: Seq::empty(), ..at },
                )
            } else {
                at
            },
            None => at,
        };
        aliases_from(files, resolution, wanted, file + 1, next)
    }
}

/// The aliases of the weak data imports among chosen symbols.
pub open spec fn aliases_of(refs: Refs, synth: Synth, chosen: Seq<(SymbolId, bool)>) -> Aliases {
    let symbols = refs.symbols.symbols@;
    aliases_from(
        refs.files@,
        refs.resolution,
        wanted_from(refs.files@, symbols, synth, chosen, 0),
        0,
        Aliases { symbols, added: Seq::empty(), found: Seq::empty() },
    )
}

/// The first position from `i` on of a symbol that does not come before
/// `id`.
pub open spec fn place_for(chosen: Seq<(SymbolId, bool)>, id: SymbolId, i: int) -> int
    decreases chosen.len() - i,
{
    if 0 <= i < chosen.len() && chosen[i].0.position < id.position {
        place_for(chosen, id, i + 1)
    } else {
        i
    }
}

/// Chosen symbols in ID order with an undefined one, unless it is among
/// them.
pub open spec fn with_import(chosen: Seq<(SymbolId, bool)>, id: SymbolId) -> Seq<(SymbolId, bool)> {
    let at = place_for(chosen, id, 0);
    if 0 <= at < chosen.len() && chosen[at].0 == id {
        chosen
    } else {
        chosen.insert(at, (id, false))
    }
}

/// Chosen symbols with undefined ones, from `i` on.
pub open spec fn with_imports(chosen: Seq<(SymbolId, bool)>, added: Seq<SymbolId>, i: int) -> Seq<
    (SymbolId, bool),
>
    decreases added.len() - i,
{
    if i < 0 || i >= added.len() {
        chosen
    } else {
        with_imports(with_import(chosen, added[i]), added, i + 1)
    }
}

/// Whether symbols are in ID order.
pub open spec fn in_id_order(chosen: Seq<(SymbolId, bool)>) -> bool {
    forall|i: int, j: int|
        0 <= i < j < chosen.len() ==> (#[trigger] chosen[i]).0.position < (#[trigger] chosen[j]).0.position
}

/// The place of a symbol is in the list, after those before it.
proof fn place_for_is_inside(chosen: Seq<(SymbolId, bool)>, id: SymbolId, i: int)
    requires
        0 <= i <= chosen.len(),
        forall|k: int| 0 <= k < i ==> (#[trigger] chosen[k]).0.position < id.position,
    ensures
        i <= place_for(chosen, id, i) <= chosen.len(),
        forall|k: int|
            0 <= k < place_for(chosen, id, i) ==> (#[trigger] chosen[k]).0.position < id.position,
        place_for(chosen, id, i) < chosen.len() ==> chosen[place_for(
            chosen,
            id,
            i,
        )].0.position >= id.position,
    decreases chosen.len() - i,
{
    if i < chosen.len() && chosen[i].0.position < id.position {
        place_for_is_inside(chosen, id, i + 1);
    }
}

/// Chosen symbols are in ID order.
pub proof fn chosen_are_in_order(refs: Refs, mode: Mode, gc: bool, synth: Synth, i: int)
    requires
        0 <= i,
    ensures
        in_id_order(chosen_from(refs, mode, gc, synth, i)),
        forall|k: int|
            0 <= k < chosen_from(refs, mode, gc, synth, i).len() ==> i <= (
            #[trigger] chosen_from(refs, mode, gc, synth, i)[k]).0.position
                < refs.symbols.symbols@.len(),
    decreases refs.symbols.symbols@.len() - i,
{
    if i < refs.symbols.symbols@.len() {
        chosen_are_in_order(refs, mode, gc, synth, i + 1);
        assert(refs.symbols.symbols.len() == refs.symbols.symbols@.len());
    }
}

/// Symbols in ID order stay so with more of them.
pub proof fn imports_keep_the_order(chosen: Seq<(SymbolId, bool)>, added: Seq<SymbolId>, i: int)
    requires
        in_id_order(chosen),
    ensures
        in_id_order(with_imports(chosen, added, i)),
    decreases added.len() - i,
{
    if 0 <= i < added.len() {
        let id = added[i];
        place_for_is_inside(chosen, id, 0);
        let at = place_for(chosen, id, 0);
        let next = with_import(chosen, id);
        assert forall|a: int, b: int| 0 <= a < b < next.len() implies (
        #[trigger] next[a]).0.position < (#[trigger] next[b]).0.position by {
            if !(at < chosen.len() && chosen[at].0 == id) {
                if at < chosen.len() {
                    assert(chosen[at].0.position != id.position);
                    if b > at + 1 {
                        assert(chosen[at].0.position < chosen[b - 1].0.position);
                    }
                }
                if a > at {
                    assert(chosen[a - 1].0.position < chosen[b - 1].0.position);
                }
            }
        }
        imports_keep_the_order(next, added, i + 1);
    }
}

/// Whether a list of places holds one.
fn holds_place(list: &Vec<Place>, place: Place) -> (r: bool)
    ensures
        r == list@.contains(place),
{
    let mut i: usize = 0;
    while i < list.len()
        invariant
            i <= list@.len(),
            forall|k: int| 0 <= k < i ==> #[trigger] list@[k] != place,
        decreases list@.len() - i,
    {
        if list[i] == place {
            assert(list@[i as int] == place);
            return true;
        }
        i += 1;
    }
    false
}

/// Whether a weak import is in a file.
fn has_wanted_file(wanted: &Vec<(Place, SymbolId)>, file: usize) -> (r: bool)
    ensures
        r == is_wanted_file(wanted@, file, 0),
{
    let mut i: usize = 0;
    while i < wanted.len()
        invariant
            i <= wanted@.len(),
            is_wanted_file(wanted@, file, 0) == is_wanted_file(wanted@, file, i as int),
        decreases wanted@.len() - i,
    {
        if wanted[i].0.file == file {
            return true;
        }
        i += 1;
    }
    false
}

/// Finds the aliases in a file.
fn find_aliases(
    shared: &SharedInput,
    resolution: &Resolution,
    wanted: &Vec<(Place, SymbolId)>,
    file: usize,
    symbols: &mut SymbolTable,
    added: &mut Vec<SymbolId>,
)
    ensures
        ({
            let r = aliases_in(
                *shared,
                resolution.ids_of(file as int),
                wanted@,
                file,
                0,
                Aliases {
                    symbols: old(symbols).symbols@,
                    added: old(added)@,
                    found: Seq::empty(),
                },
            );
            final(symbols).symbols@ == r.symbols && final(added)@ == r.added
        }),
{
    let mut found: Vec<Place> = Vec::new();
    let ghost ids = resolution.ids_of(file as int);
    assert(found@ =~= Seq::empty());
    let ghost whole = aliases_in(
        *shared,
        ids,
        wanted@,
        file,
        0,
        Aliases { symbols: symbols.symbols@, added: added@, found: found@ },
    );
    let count: usize = resolution.count(file);
    let mut local: usize = 0;
    while local < shared.symbols.len() && local < count
        invariant
            local <= shared.symbols@.len(),
            local <= count,
            ids == resolution.ids_of(file as int),
            count == ids.len(),
            whole == aliases_in(
                *shared,
                ids,
                wanted@,
                file,
                local as int,
                Aliases { symbols: symbols.symbols@, added: added@, found: found@ },
            ),
        decreases shared.symbols@.len() - local,
    {
        let ghost at = Aliases { symbols: symbols.symbols@, added: added@, found: found@ };
        let id: SymbolId = resolution.symbol_id(file, local);
        let defines: bool = local < shared.uses.len() && matches!(
            shared.uses[local],
            SymbolUse::Definition { .. }
        );
        if let Some(raw) = find_raw(shared, local) {
            let place: Place = Place { file, shndx: raw.st_shndx, value: raw.st_value };
            if defines && !symbols.has_version(id) && raw.binding() == STB_GLOBAL && !holds_place(
                &found,
                place,
            ) && has_wanted(wanted, place) {
                found.push(place);
                let def: Definition = symbols.definition(id);
                if def.kind == DefinitionKind::Shared && def.file.position == file {
                    set_references(symbols, wanted, place, id);
                    added.push(id);
                }
            }
        }
        assert(alias_step(*shared, ids, wanted@, file, local as int, at) == (Aliases {
            symbols: symbols.symbols@,
            added: added@,
            found: found@,
        }));
        local += 1;
    }
}

/// Adds an undefined symbol to symbols in ID order, unless it is among them.
fn add_import(chosen: &mut Vec<(SymbolId, bool)>, id: SymbolId)
    ensures
        final(chosen)@ == with_import(old(chosen)@, id),
{
    let mut at: usize = 0;
    proof {
        place_for_is_inside(chosen@, id, 0);
    }
    while at < chosen.len() && chosen[at].0.position < id.position
        invariant
            at <= chosen@.len(),
            chosen@ == old(chosen)@,
            place_for(chosen@, id, 0) == place_for(chosen@, id, at as int),
        decreases chosen@.len() - at,
    {
        at += 1;
    }
    if !(at < chosen.len() && chosen[at].0 == id) {
        chosen.insert(at, (id, false));
    }
}

/// Adds, for each imported weak data symbol, the strong symbol its shared
/// library defines at the same place (glibc's `__environ` for `environ`,
/// `__timezone` for `timezone`), as GNU ld does: it records a weak
/// definition's "real" alias as dynamic whenever the weak one is. `chosen`
/// is in symbol ID order and stays so.
pub fn with_strong_aliases(
    refs: &mut Refs,
    synth: &Synth,
    chosen: Vec<(SymbolId, bool)>,
) -> (r: Vec<
    (SymbolId, bool),
>)
    ensures
        ({
            let aliases = aliases_of(*old(refs), *synth, chosen@);
            &&& final(refs).symbols.symbols@ == aliases.symbols
            &&& r@ == with_imports(chosen@, aliases.added, 0)
        }),
        final(refs).files == old(refs).files,
        final(refs).sections == old(refs).sections,
        final(refs).resolution == old(refs).resolution,
        final(refs).targets == old(refs).targets,
        final(refs).globals == old(refs).globals,
{
    let ghost start = *refs;
    let ghost aliases = aliases_of(*refs, *synth, chosen@);
    let wanted: Vec<(Place, SymbolId)> = list_wanted(&refs.files, &refs.symbols, synth, &chosen);
    let mut added: Vec<SymbolId> = Vec::new();
    assert(added@ =~= Seq::empty());
    let ghost mut found: Seq<Place> = Seq::empty();
    let mut file: usize = 0;
    while file < refs.files.len()
        invariant
            file <= refs.files@.len(),
            refs.files == start.files,
            refs.sections == start.sections,
            refs.resolution == start.resolution,
            refs.targets == start.targets,
            refs.globals == start.globals,
            aliases == aliases_from(
                refs.files@,
                refs.resolution,
                wanted@,
                file as int,
                Aliases { symbols: refs.symbols.symbols@, added: added@, found },
            ),
        decreases refs.files@.len() - file,
    {
        if let Some(shared) = &refs.files[file].shared {
            if has_wanted_file(&wanted, file) {
                proof {
                    found = aliases_in(
                        *shared,
                        refs.resolution.ids_of(file as int),
                        wanted@,
                        file,
                        0,
                        Aliases {
                            symbols: refs.symbols.symbols@,
                            added: added@,
                            found: Seq::empty(),
                        },
                    ).found;
                }
                find_aliases(
                    shared,
                    &refs.resolution,
                    &wanted,
                    file,
                    &mut refs.symbols,
                    &mut added,
                );
            }
        }
        file += 1;
    }
    let mut out: Vec<(SymbolId, bool)> = chosen;
    let ghost whole = with_imports(out@, added@, 0);
    let mut i: usize = 0;
    while i < added.len()
        invariant
            i <= added@.len(),
            whole == with_imports(out@, added@, i as int),
        decreases added@.len() - i,
    {
        add_import(&mut out, added[i]);
        i += 1;
    }
    out
}

/// A symbol that this output defines is dynamic where it is exported and its
/// section is there; one of a library, where a kept object refers to it or
/// code goes through the GOT or PLT for it; a copied one always, and it is
/// then defined here.
pub proof fn dynamic_symbols_are_exported_or_used(
    kind: DefinitionKind,
    flags: SymbolFlags,
    copied: bool,
    present: bool,
    shared: bool,
    gc: bool,
)
    ensures
        ({
            let r = selection(kind, flags, copied, present, shared, gc);
            let used = flags.bits & 0x10_0000 == 0x10_0000 && (gc ==> flags.bits & 0x40_0000
                == 0x40_0000);
            &&& flags.bits & 0x200 == 0x200 ==> r == Some(true)
            &&& flags.bits & 0x200 != 0x200 ==> match kind {
                DefinitionKind::Regular | DefinitionKind::Weak | DefinitionKind::Common => r == (
                if flags.bits & 0x1 == 0x1 && present {
                    Some(true)
                } else {
                    None
                }),
                DefinitionKind::Shared => (copied ==> r == Some(true)) && (!copied ==> r != Some(
                    true,
                )) && (!copied && used ==> r == Some(false)) && (!copied && !used && flags.bits
                    & NEEDS == 0 ==> r is None),
                DefinitionKind::Undefined | DefinitionKind::Lazy => r != Some(true) && (
                r == Some(false) ==> flags.bits & 0x1_0000 == 0x1_0000) && (flags.bits & 0x1_0000
                    == 0x1_0000 && shared && used ==> r == Some(false)) && (!shared && flags.bits
                    & NEEDS == 0 ==> r is None),
            }
        }),
{
}

/// The chosen symbols are those that are selected, each with whether it is
/// defined.
pub proof fn chosen_symbols_are_selected(
    refs: Refs,
    mode: Mode,
    gc: bool,
    synth: Synth,
    i: int,
    at: int,
    defined: bool,
)
    requires
        0 <= i,
        refs.symbols.symbols@.len() <= usize::MAX,
        0 <= at <= usize::MAX,
    ensures
        chosen_from(refs, mode, gc, synth, i).contains(
            (SymbolId { position: at as usize }, defined),
        ) <==> i <= at < refs.symbols.symbols@.len() && selected(
            refs,
            mode,
            gc,
            synth,
            SymbolId { position: at as usize },
        ) == Some(defined),
    decreases refs.symbols.symbols@.len() - i,
{
    if i < refs.symbols.symbols@.len() {
        chosen_symbols_are_selected(refs, mode, gc, synth, i + 1, at, defined);
        let rest = chosen_from(refs, mode, gc, synth, i + 1);
        let all = chosen_from(refs, mode, gc, synth, i);
        let id = SymbolId { position: i as usize };
        let e = (SymbolId { position: at as usize }, defined);
        if let Some(d) = selected(refs, mode, gc, synth, id) {
            assert(all[0] == (id, d));
            if rest.contains(e) {
                let k = choose|k: int| 0 <= k < rest.len() && rest[k] == e;
                assert(all[k + 1] == e);
            }
            if all.contains(e) {
                let k = choose|k: int| 0 <= k < all.len() && all[k] == e;
                if k > 0 {
                    assert(rest[k - 1] == e);
                }
            }
        }
    }
}

/// The place of a symbol is among the chosen or behind them, and those before
/// it come before it.
proof fn places_are_inside(chosen: Seq<(SymbolId, bool)>, id: SymbolId, i: int)
    requires
        0 <= i <= chosen.len(),
    ensures
        i <= place_for(chosen, id, i) <= chosen.len(),
        forall|k: int|
            i <= k < place_for(chosen, id, i) ==> (#[trigger] chosen[k]).0.position < id.position,
        place_for(chosen, id, i) < chosen.len() ==> chosen[place_for(chosen, id, i)].0.position
            >= id.position,
    decreases chosen.len() - i,
{
    if i < chosen.len() && chosen[i].0.position < id.position {
        places_are_inside(chosen, id, i + 1);
    }
}

/// One more import is among the chosen, as undefined where it was not there;
/// what was chosen stays.
proof fn one_import_is_added(chosen: Seq<(SymbolId, bool)>, id: SymbolId, e: (SymbolId, bool))
    requires
        in_id_order(chosen),
    ensures
        chosen.contains(e) ==> with_import(chosen, id).contains(e),
        with_import(chosen, id).contains(e) ==> chosen.contains(e) || e == (id, false),
        with_import(chosen, id).contains((id, false)) || with_import(chosen, id).contains(
            (id, true),
        ),
{
    let at = place_for(chosen, id, 0);
    places_are_inside(chosen, id, 0);
    if at < chosen.len() && chosen[at].0 == id {
        assert(chosen[at] == (id, chosen[at].1));
        assert(chosen.contains(chosen[at]));
    } else {
        let more = chosen.insert(at, (id, false));
        assert(more[at] == (id, false));
        if chosen.contains(e) {
            let k = choose|k: int| 0 <= k < chosen.len() && chosen[k] == e;
            if k < at {
                assert(more[k] == e);
            } else {
                assert(more[k + 1] == e);
            }
        }
        if more.contains(e) {
            let k = choose|k: int| 0 <= k < more.len() && more[k] == e;
            if k < at {
                assert(chosen[k] == e);
            } else if k > at {
                assert(chosen[k - 1] == e);
            }
        }
    }
}

/// The imports that are added are chosen, as undefined where they were not
/// chosen before; nothing that was chosen goes, and nothing else comes.
pub proof fn imports_are_chosen(
    chosen: Seq<(SymbolId, bool)>,
    added: Seq<SymbolId>,
    i: int,
    e: (SymbolId, bool),
)
    requires
        in_id_order(chosen),
        0 <= i <= added.len(),
    ensures
        chosen.contains(e) ==> with_imports(chosen, added, i).contains(e),
        with_imports(chosen, added, i).contains(e) ==> chosen.contains(e) || !e.1 && exists|k: int|
            i <= k < added.len() && #[trigger] added[k] == e.0,
        (exists|k: int| i <= k < added.len() && #[trigger] added[k] == e.0) ==> with_imports(
            chosen,
            added,
            i,
        ).contains((e.0, true)) || with_imports(chosen, added, i).contains((e.0, false)),
    decreases added.len() - i,
{
    if i < added.len() {
        let next = with_import(chosen, added[i]);
        imports_keep_the_order(chosen, seq![added[i]], 0);
        reveal_with_fuel(with_imports, 2);
        assert(in_id_order(next));
        one_import_is_added(chosen, added[i], e);
        one_import_is_added(chosen, added[i], (e.0, true));
        one_import_is_added(chosen, added[i], (e.0, false));
        imports_are_chosen(next, added, i + 1, e);
        imports_are_chosen(next, added, i + 1, (e.0, true));
        imports_are_chosen(next, added, i + 1, (e.0, false));
    }
}

} // verus!
