//! Which shared objects a link needs.

use vstd::prelude::*;

use super::SharedInput;
use crate::bytes::same;
use crate::elf::inputs::ElfInput;
use crate::ids::{FileId, SymbolId};
use crate::order::{first_of_each, lower_bound, row_set};
use crate::parallel::{concatenated, map_all, numbers};
use crate::symbols::{
    Definition, DefinitionKind, Resolution, Symbol, SymbolTable, SymbolUse, REF_DYNAMIC,
    REF_REGULAR, REF_REGULAR_STRONG,
};

verus! {

/// Which shared objects are needed, per input file.
#[derive(Debug, PartialEq, Eq)]
pub struct Needed {
    /// For each input file, whether it is a shared object that gets a
    /// `DT_NEEDED` entry.
    pub needed: Vec<bool>,
    /// Whether any input file is a shared object, needed or not.
    pub shared: bool,
}

impl Default for Needed {
    fn default() -> (r: Needed)
        ensures
            r.needed@.len() == 0,
            !r.shared,
    {
        Needed { needed: Vec::new(), shared: false }
    }
}

/// Whether a list of flags holds at a position.
pub open spec fn is_set(list: Seq<bool>, i: int) -> bool {
    0 <= i < list.len() && list[i]
}

impl Needed {
    /// Whether file `index` is a needed shared object.
    pub fn is_needed(&self, index: usize) -> (r: bool)
        ensures
            r == is_set(self.needed@, index as int),
    {
        index < self.needed.len() && self.needed[index]
    }

    /// Whether the link has any shared object input at all.
    pub fn any(&self) -> (r: bool)
        ensures
            r == self.shared,
    {
        self.shared
    }

    /// Whether any shared object gets a `DT_NEEDED` entry.
    pub fn any_needed(&self) -> (r: bool)
        ensures
            r == exists|i: int| #[trigger] is_set(self.needed@, i),
    {
        let mut i: usize = 0;
        while i < self.needed.len()
            invariant
                i <= self.needed@.len(),
                forall|k: int| 0 <= k < i ==> !#[trigger] is_set(self.needed@, k),
            decreases self.needed@.len() - i,
        {
            if self.needed[i] {
                assert(is_set(self.needed@, i as int));
                return true;
            }
            i += 1;
        }
        false
    }
}

/// Whether any of `files` is a shared object.
pub open spec fn has_shared(files: Seq<ElfInput>) -> bool {
    exists|i: int| 0 <= i < files.len() && (#[trigger] files[i]).shared is Some
}

/// Whether any of `files` is a shared object.
fn find_shared(files: &[ElfInput]) -> (r: bool)
    ensures
        r == has_shared(files@),
{
    let mut i: usize = 0;
    while i < files.len()
        invariant
            i <= files@.len(),
            forall|k: int| 0 <= k < i ==> (#[trigger] files@[k]).shared is None,
        decreases files@.len() - i,
    {
        if files[i].shared.is_some() {
            assert(files@[i as int].shared is Some);
            return true;
        }
        i += 1;
    }
    false
}

/// The shared object whose definition a symbol has, if any.
pub open spec fn owner_in(symbols: Seq<Symbol>, id: SymbolId) -> Option<usize> {
    let def = crate::symbols::definition_in(symbols, id);
    if def.kind == DefinitionKind::Shared {
        Some(def.file.position)
    } else {
        None
    }
}

/// The shared object whose definition a symbol currently has, if any.
pub fn shared_owner(symbols: &SymbolTable, id: SymbolId) -> (r: Option<usize>)
    ensures
        r == owner_in(symbols.symbols@, id),
{
    let def: Definition = symbols.definition(id);
    if def.kind == DefinitionKind::Shared {
        Some(def.file.position)
    } else {
        None
    }
}

/// Whether a file is a regular object (or the link's own) that takes part in
/// the link.
pub open spec fn is_regular(files: Seq<ElfInput>, resolution: Resolution, f: int) -> bool {
    files[f].shared is None && resolution.spec_is_live(f)
}

/// How a regular object uses the symbol of name `local`.
pub open spec fn use_of(file: ElfInput, local: int) -> SymbolUse {
    match file.object {
        Some(object) => if local < object.uses@.len() {
            object.uses@[local]
        } else {
            SymbolUse::Unused
        },
        None => if local < file.internal_uses@.len() {
            file.internal_uses@[local]
        } else {
            SymbolUse::Unused
        },
    }
}

/// How a regular object uses the symbol of name `local`.
fn find_use(file: &ElfInput, local: usize) -> (r: SymbolUse)
    ensures
        r == use_of(*file, local as int),
{
    match &file.object {
        Some(object) => if local < object.uses.len() {
            object.uses[local]
        } else {
            SymbolUse::Unused
        },
        None => if local < file.internal_uses.len() {
            file.internal_uses[local]
        } else {
            SymbolUse::Unused
        },
    }
}

/// How a shared object uses the symbol of name `local`.
pub open spec fn shared_use(file: ElfInput, local: int) -> SymbolUse {
    match file.shared {
        Some(shared) => if local < shared.uses@.len() {
            shared.uses@[local]
        } else {
            SymbolUse::Unused
        },
        None => SymbolUse::Unused,
    }
}

/// How a shared object uses the symbol of name `local`.
fn find_shared_use(file: &ElfInput, local: usize) -> (r: SymbolUse)
    ensures
        r == shared_use(*file, local as int),
{
    match &file.shared {
        Some(shared) => if local < shared.uses.len() {
            shared.uses[local]
        } else {
            SymbolUse::Unused
        },
        None => SymbolUse::Unused,
    }
}

/// Whether a use is a non-weak reference.
#[verifier::allow_in_spec]
pub fn is_strong(used: SymbolUse) -> bool
    returns
        (match used {
            SymbolUse::Reference { weak } => !weak,
            _ => false,
        }),
{
    match used {
        SymbolUse::Reference { weak } => !weak,
        _ => false,
    }
}

/// The properties a regular object's use gives a symbol.
#[verifier::allow_in_spec]
pub fn regular_bits(used: SymbolUse) -> u32
    returns
        (match used {
            SymbolUse::Reference { weak } => if weak {
                REF_REGULAR
            } else {
                REF_REGULAR | REF_REGULAR_STRONG
            },
            SymbolUse::Definition { .. } => REF_REGULAR,
            SymbolUse::Unused => 0u32,
        }),
{
    match used {
        SymbolUse::Reference { weak } => if weak {
            REF_REGULAR
        } else {
            REF_REGULAR | REF_REGULAR_STRONG
        },
        SymbolUse::Definition { .. } => REF_REGULAR,
        SymbolUse::Unused => 0u32,
    }
}

/// The properties a needed library's use gives a symbol.
#[verifier::allow_in_spec]
pub fn dynamic_bits(used: SymbolUse) -> u32
    returns
        (match used {
            SymbolUse::Reference { .. } => REF_DYNAMIC,
            _ => 0u32,
        }),
{
    match used {
        SymbolUse::Reference { .. } => REF_DYNAMIC,
        _ => 0u32,
    }
}

/// A symbol and the properties it gets.
pub open spec fn regular_marks_from(
    files: Seq<ElfInput>,
    resolution: Resolution,
    f: int,
    local: int,
) -> Seq<(SymbolId, u32)>
    decreases resolution.ids_of(f).len() - local,
{
    if local < 0 || local >= resolution.ids_of(f).len() {
        Seq::empty()
    } else {
        seq![(resolution.ids_of(f)[local], regular_bits(use_of(files[f], local)))]
            + regular_marks_from(files, resolution, f, local + 1)
    }
}

/// The properties the names of `f` give symbols: those of a regular object
/// that takes part in the link.
pub open spec fn regular_marks(files: Seq<ElfInput>, resolution: Resolution, f: int) -> Seq<
    (SymbolId, u32),
> {
    if is_regular(files, resolution, f) {
        regular_marks_from(files, resolution, f, 0)
    } else {
        Seq::empty()
    }
}

/// A symbol and the property it gets from a library.
pub open spec fn dynamic_marks_from(
    files: Seq<ElfInput>,
    resolution: Resolution,
    f: int,
    local: int,
) -> Seq<(SymbolId, u32)>
    decreases resolution.ids_of(f).len() - local,
{
    if local < 0 || local >= resolution.ids_of(f).len() {
        Seq::empty()
    } else {
        seq![(resolution.ids_of(f)[local], dynamic_bits(shared_use(files[f], local)))]
            + dynamic_marks_from(files, resolution, f, local + 1)
    }
}

/// The property the references of `f` give symbols, when it is needed.
pub open spec fn dynamic_marks(
    files: Seq<ElfInput>,
    resolution: Resolution,
    needed: Seq<bool>,
    f: int,
) -> Seq<(SymbolId, u32)> {
    if is_set(needed, f) {
        dynamic_marks_from(files, resolution, f, 0)
    } else {
        Seq::empty()
    }
}

/// Symbols with the properties of `marks` from `i` on.
pub open spec fn marked_from(symbols: Seq<Symbol>, marks: Seq<(SymbolId, u32)>, i: int) -> Seq<
    Symbol,
>
    decreases marks.len() - i,
{
    if i < 0 || i >= marks.len() {
        symbols
    } else {
        marked_from(
            crate::symbols::with_flags(symbols, marks[i].0, marks[i].1),
            marks,
            i + 1,
        )
    }
}

/// Gives symbols properties.
fn apply_marks(symbols: &mut SymbolTable, marks: &Vec<(SymbolId, u32)>)
    ensures
        final(symbols).symbols@ == marked_from(old(symbols).symbols@, marks@, 0),
{
    let mut i: usize = 0;
    while i < marks.len()
        invariant
            i <= marks@.len(),
            marked_from(old(symbols).symbols@, marks@, 0) == marked_from(
                symbols.symbols@,
                marks@,
                i as int,
            ),
        decreases marks@.len() - i,
    {
        let (id, bits) = marks[i];
        symbols.set_flags(id, bits);
        i += 1;
    }
}

/// The properties the names of a regular object give symbols.
fn list_regular_marks(files: &[ElfInput], resolution: &Resolution, f: usize) -> (r: Vec<
    (SymbolId, u32),
>)
    requires
        f < files@.len(),
    ensures
        r@ == regular_marks(files@, *resolution, f as int),
{
    let mut out: Vec<(SymbolId, u32)> = Vec::new();
    if files[f].shared.is_some() || !resolution.is_live(FileId { position: f }) {
        return out;
    }
    let ghost whole = regular_marks_from(files@, *resolution, f as int, 0);
    assert(whole =~= out@ + whole);
    let total: usize = resolution.count(f);
    let mut local: usize = 0;
    while local < total
        invariant
            local <= total,
            f < files@.len(),
            total == resolution.ids_of(f as int).len(),
            whole == out@ + regular_marks_from(files@, *resolution, f as int, local as int),
        decreases total - local,
    {
        let ghost before = out@;
        let mark: (SymbolId, u32) = (
            resolution.symbol_id(f, local),
            regular_bits(find_use(&files[f], local)),
        );
        out.push(mark);
        proof {
            let rest = regular_marks_from(files@, *resolution, f as int, local + 1);
            assert(before + (seq![mark] + rest) =~= out@ + rest);
        }
        local += 1;
    }
    assert(whole =~= out@);
    out
}

/// The property the references of a needed library give symbols.
fn list_dynamic_marks(
    files: &[ElfInput],
    resolution: &Resolution,
    needed: &Vec<bool>,
    f: usize,
) -> (r: Vec<(SymbolId, u32)>)
    requires
        f < files@.len(),
    ensures
        r@ == dynamic_marks(files@, *resolution, needed@, f as int),
{
    let mut out: Vec<(SymbolId, u32)> = Vec::new();
    if f >= needed.len() || !needed[f] {
        return out;
    }
    let ghost whole = dynamic_marks_from(files@, *resolution, f as int, 0);
    assert(whole =~= out@ + whole);
    let total: usize = resolution.count(f);
    let mut local: usize = 0;
    while local < total
        invariant
            local <= total,
            f < files@.len(),
            total == resolution.ids_of(f as int).len(),
            whole == out@ + dynamic_marks_from(files@, *resolution, f as int, local as int),
        decreases total - local,
    {
        let ghost before = out@;
        let mark: (SymbolId, u32) = (
            resolution.symbol_id(f, local),
            dynamic_bits(find_shared_use(&files[f], local)),
        );
        out.push(mark);
        proof {
            let rest = dynamic_marks_from(files@, *resolution, f as int, local + 1);
            assert(before + (seq![mark] + rest) =~= out@ + rest);
        }
        local += 1;
    }
    assert(whole =~= out@);
    out
}

/// The properties that every regular object gives symbols, by file.
pub open spec fn all_regular_marks(files: Seq<ElfInput>, resolution: Resolution) -> Seq<
    Seq<(SymbolId, u32)>,
> {
    Seq::new(files.len(), |f: int| regular_marks(files, resolution, f))
}

/// The property that every needed library gives symbols, by file.
pub open spec fn all_dynamic_marks(
    files: Seq<ElfInput>,
    resolution: Resolution,
    needed: Seq<bool>,
) -> Seq<Seq<(SymbolId, u32)>> {
    Seq::new(files.len(), |f: int| dynamic_marks(files, resolution, needed, f))
}

/// The properties that every regular object gives symbols.
fn every_regular_mark(files: &[ElfInput], resolution: &Resolution) -> (r: Vec<(SymbolId, u32)>)
    ensures
        r@ == crate::parallel::flattened(all_regular_marks(files@, *resolution)),
{
    let positions: Vec<usize> = numbers(files.len());
    let each = |f: &usize| -> (one: Vec<(SymbolId, u32)>)
        requires
            *f < files@.len(),
        ensures
            one@ == regular_marks(files@, *resolution, *f as int),
        { list_regular_marks(files, resolution, *f) };
    let lists: Vec<Vec<(SymbolId, u32)>> = map_all(&positions, each);
    proof {
        assert forall|f: int| 0 <= f < lists@.len() implies (#[trigger] lists@[f])@
            == regular_marks(files@, *resolution, f) by {
            assert(each.ensures((&positions@[f],), lists@[f]));
        }
        assert(crate::parallel::lists_view(lists@) =~= all_regular_marks(files@, *resolution));
    }
    concatenated(&lists)
}

/// The property that every needed library gives symbols.
fn every_dynamic_mark(files: &[ElfInput], resolution: &Resolution, needed: &Vec<bool>) -> (r: Vec<
    (SymbolId, u32),
>)
    ensures
        r@ == crate::parallel::flattened(all_dynamic_marks(files@, *resolution, needed@)),
{
    let positions: Vec<usize> = numbers(files.len());
    let each = |f: &usize| -> (one: Vec<(SymbolId, u32)>)
        requires
            *f < files@.len(),
        ensures
            one@ == dynamic_marks(files@, *resolution, needed@, *f as int),
        { list_dynamic_marks(files, resolution, needed, *f) };
    let lists: Vec<Vec<(SymbolId, u32)>> = map_all(&positions, each);
    proof {
        assert forall|f: int| 0 <= f < lists@.len() implies (#[trigger] lists@[f])@
            == dynamic_marks(files@, *resolution, needed@, f) by {
            assert(each.ensures((&positions@[f],), lists@[f]));
        }
        assert(crate::parallel::lists_view(lists@) =~= all_dynamic_marks(
            files@,
            *resolution,
            needed@,
        ));
    }
    concatenated(&lists)
}

/// Whether name `local` of regular object `f` is a non-weak reference that
/// library `owner` satisfies.
pub open spec fn object_pulls(
    files: Seq<ElfInput>,
    symbols: Seq<Symbol>,
    resolution: Resolution,
    f: int,
    local: int,
    owner: int,
) -> bool {
    &&& 0 <= f < files.len()
    &&& is_regular(files, resolution, f)
    &&& 0 <= local < resolution.ids_of(f).len()
    &&& is_strong(use_of(files[f], local))
    &&& match owner_in(symbols, resolution.ids_of(f)[local]) {
        Some(o) => o == owner,
        None => false,
    }
}

/// Whether regular object `f` has a non-weak reference that library `owner`
/// satisfies.
pub open spec fn object_wants(
    files: Seq<ElfInput>,
    symbols: Seq<Symbol>,
    resolution: Resolution,
    f: int,
    owner: int,
) -> bool {
    exists|local: int| #[trigger] object_pulls(files, symbols, resolution, f, local, owner)
}

/// Whether library `shared` lists library `owner` in `DT_NEEDED` itself.
pub open spec fn lists_library(files: Seq<ElfInput>, shared: SharedInput, owner: int) -> bool {
    0 <= owner < files.len() && match files[owner].shared {
        Some(other) => exists|n: int|
            0 <= n < shared.elf.needed@.len() && (#[trigger] shared.elf.needed@[n])@
                == other.needed_name@,
        None => false,
    }
}

/// Whether name `local` of library `f` is a non-weak reference that library
/// `owner` satisfies, which `f` does not list itself.
pub open spec fn library_pulls(
    files: Seq<ElfInput>,
    symbols: Seq<Symbol>,
    resolution: Resolution,
    f: int,
    local: int,
    owner: int,
) -> bool {
    &&& 0 <= f < files.len()
    &&& 0 <= local < resolution.ids_of(f).len()
    &&& match files[f].shared {
        Some(shared) => is_strong(shared_use(files[f], local)) && !lists_library(
            files,
            shared,
            owner,
        ),
        None => false,
    }
    &&& match owner_in(symbols, resolution.ids_of(f)[local]) {
        Some(o) => o == owner,
        None => false,
    }
}

/// Whether library `f` makes library `owner` needed when it is itself.
pub open spec fn pulls(
    files: Seq<ElfInput>,
    symbols: Seq<Symbol>,
    resolution: Resolution,
    f: int,
    owner: int,
) -> bool {
    exists|local: int| #[trigger] library_pulls(files, symbols, resolution, f, local, owner)
}

/// Whether file `i` is needed without regard to other libraries: a library
/// that is not `--as-needed`, or one that a regular object refers to.
pub open spec fn is_base(
    files: Seq<ElfInput>,
    symbols: Seq<Symbol>,
    resolution: Resolution,
    i: int,
) -> bool {
    ||| match files[i].shared {
        Some(shared) => !shared.as_needed,
        None => false,
    }
    ||| exists|f: int| #[trigger] object_wants(files, symbols, resolution, f, i)
}

/// Whether file `i` is needed through a chain of at most `n` libraries.
pub open spec fn is_derived(
    files: Seq<ElfInput>,
    symbols: Seq<Symbol>,
    resolution: Resolution,
    n: nat,
    i: int,
) -> bool
    decreases n,
{
    if n == 0 {
        is_base(files, symbols, resolution, i)
    } else {
        ||| is_derived(files, symbols, resolution, (n - 1) as nat, i)
        ||| exists|j: int|
            0 <= j < files.len() && is_derived(
                files,
                symbols,
                resolution,
                (n - 1) as nat,
                j,
            ) && #[trigger] pulls(files, symbols, resolution, j, i)
    }
}

/// Whether file `i` is needed.
pub open spec fn is_needed_file(
    files: Seq<ElfInput>,
    symbols: Seq<Symbol>,
    resolution: Resolution,
    i: int,
) -> bool {
    exists|n: nat| #[trigger] is_derived(files, symbols, resolution, n, i)
}

/// The libraries that satisfy the non-weak references of a regular object.
fn object_owners(
    files: &[ElfInput],
    symbols: &SymbolTable,
    resolution: &Resolution,
    f: usize,
) -> (r:
    Vec<usize>)
    requires
        f < files@.len(),
    ensures
        forall|o: usize| #[trigger]
            r@.contains(o) <==> object_wants(
                files@,
                symbols.symbols@,
                *resolution,
                f as int,
                o as int,
            ),
{
    let mut out: Vec<usize> = Vec::new();
    if files[f].shared.is_some() || !resolution.is_live(FileId { position: f }) {
        return out;
    }
    let total: usize = resolution.count(f);
    let mut local: usize = 0;
    while local < total
        invariant
            local <= total,
            f < files@.len(),
            is_regular(files@, *resolution, f as int),
            total == resolution.ids_of(f as int).len(),
            forall|k: int|
                0 <= k < out@.len() ==> object_wants(
                    files@,
                    symbols.symbols@,
                    *resolution,
                    f as int,
                    #[trigger] out@[k] as int,
                ),
            forall|l: int, o: usize|
                0 <= l < local && #[trigger] object_pulls(
                    files@,
                    symbols.symbols@,
                    *resolution,
                    f as int,
                    l,
                    o as int,
                ) ==> out@.contains(o),
        decreases total - local,
    {
        let ghost before = out@;
        if is_strong(find_use(&files[f], local)) {
            if let Some(owner) = shared_owner(symbols, resolution.symbol_id(f, local)) {
                out.push(owner);
                assert(object_pulls(
                    files@,
                    symbols.symbols@,
                    *resolution,
                    f as int,
                    local as int,
                    owner as int,
                ));
                assert(out@[before.len() as int] == owner);
            }
        }
        proof {
            assert forall|k: int| 0 <= k < out@.len() implies object_wants(
                files@,
                symbols.symbols@,
                *resolution,
                f as int,
                #[trigger] out@[k] as int,
            ) by {
                if k < before.len() {
                    assert(before[k] == out@[k]);
                }
            }
            assert forall|l: int, o: usize|
                0 <= l < local + 1 && #[trigger] object_pulls(
                    files@,
                    symbols.symbols@,
                    *resolution,
                    f as int,
                    l,
                    o as int,
                ) implies out@.contains(o) by {
                if l < local {
                    assert(before.contains(o));
                    let n = choose|n: int| 0 <= n < before.len() && before[n] == o;
                    assert(out@[n] == o);
                }
            }
        }
        local += 1;
    }
    out
}

/// Whether a library lists another in `DT_NEEDED`.
fn lists(files: &[ElfInput], shared: &SharedInput, owner: usize) -> (r: bool)
    ensures
        r == lists_library(files@, *shared, owner as int),
{
    if owner >= files.len() {
        return false;
    }
    let Some(other) = &files[owner].shared else {
        return false;
    };
    let mut n: usize = 0;
    while n < shared.elf.needed.len()
        invariant
            n <= shared.elf.needed@.len(),
            owner < files@.len(),
            files@[owner as int].shared == Some(*other),
            forall|k: int|
                0 <= k < n ==> (#[trigger] shared.elf.needed@[k])@ != other.needed_name@,
        decreases shared.elf.needed@.len() - n,
    {
        if same(&shared.elf.needed[n], &other.needed_name) {
            assert(shared.elf.needed@[n as int]@ == other.needed_name@);
            return true;
        }
        n += 1;
    }
    false
}

/// The libraries that a needed library makes needed.
fn library_owners(
    files: &[ElfInput],
    symbols: &SymbolTable,
    resolution: &Resolution,
    f: usize,
) -> (r:
    Vec<usize>)
    requires
        f < files@.len(),
    ensures
        forall|o: usize| #[trigger]
            r@.contains(o) <==> pulls(files@, symbols.symbols@, *resolution, f as int, o as int),
{
    let mut out: Vec<usize> = Vec::new();
    let Some(shared) = &files[f].shared else {
        return out;
    };
    let total: usize = resolution.count(f);
    let mut local: usize = 0;
    while local < total
        invariant
            local <= total,
            f < files@.len(),
            files@[f as int].shared == Some(*shared),
            total == resolution.ids_of(f as int).len(),
            forall|k: int|
                0 <= k < out@.len() ==> pulls(
                    files@,
                    symbols.symbols@,
                    *resolution,
                    f as int,
                    #[trigger] out@[k] as int,
                ),
            forall|l: int, o: usize|
                0 <= l < local && #[trigger] library_pulls(
                    files@,
                    symbols.symbols@,
                    *resolution,
                    f as int,
                    l,
                    o as int,
                ) ==> out@.contains(o),
        decreases total - local,
    {
        let ghost before = out@;
        if is_strong(find_shared_use(&files[f], local)) {
            if let Some(owner) = shared_owner(symbols, resolution.symbol_id(f, local)) {
                if !lists(files, shared, owner) {
                    out.push(owner);
                    assert(library_pulls(
                        files@,
                        symbols.symbols@,
                        *resolution,
                        f as int,
                        local as int,
                        owner as int,
                    ));
                    assert(out@[before.len() as int] == owner);
                }
            }
        }
        proof {
            assert forall|k: int| 0 <= k < out@.len() implies pulls(
                files@,
                symbols.symbols@,
                *resolution,
                f as int,
                #[trigger] out@[k] as int,
            ) by {
                if k < before.len() {
                    assert(before[k] == out@[k]);
                }
            }
            assert forall|l: int, o: usize|
                0 <= l < local + 1 && #[trigger] library_pulls(
                    files@,
                    symbols.symbols@,
                    *resolution,
                    f as int,
                    l,
                    o as int,
                ) implies out@.contains(o) by {
                if l < local {
                    assert(before.contains(o));
                    let n = choose|n: int| 0 <= n < before.len() && before[n] == o;
                    assert(out@[n] == o);
                }
            }
        }
        local += 1;
    }
    out
}

/// Sets the flags at `positions`.
fn set_all(flags: &mut Vec<bool>, positions: &Vec<usize>)
    ensures
        final(flags)@.len() == old(flags)@.len(),
        forall|i: int|
            0 <= i < final(flags)@.len() ==> (#[trigger] final(flags)@[i] <==> old(flags)@[i]
                || positions@.contains(i as usize)),
{
    let mut k: usize = 0;
    while k < positions.len()
        invariant
            k <= positions@.len(),
            flags@.len() == old(flags)@.len(),
            forall|i: int|
                0 <= i < flags@.len() ==> (#[trigger] flags@[i] <==> old(flags)@[i]
                    || positions@.take(k as int).contains(i as usize)),
        decreases positions@.len() - k,
    {
        let at: usize = positions[k];
        let ghost before = flags@;
        if at < flags.len() {
            flags.set(at, true);
        }
        proof {
            let now = positions@.take(k + 1);
            let earlier = positions@.take(k as int);
            assert forall|i: int| 0 <= i < flags@.len() implies (#[trigger] flags@[i] <==> old(
                flags,
            )@[i] || now.contains(i as usize)) by {
                assert(before[i] <==> old(flags)@[i] || earlier.contains(i as usize));
                if earlier.contains(i as usize) {
                    let n = choose|n: int| 0 <= n < earlier.len() && earlier[n] == i as usize;
                    assert(now[n] == i as usize);
                }
                if now.contains(i as usize) {
                    let n = choose|n: int| 0 <= n < now.len() && now[n] == i as usize;
                    if n < k {
                        assert(earlier[n] == i as usize);
                    }
                }
                assert(now[k as int] == at);
            }
        }
        k += 1;
    }
    assert(positions@.take(k as int) =~= positions@);
}

/// The libraries that are needed without regard to other libraries.
fn base_needed(files: &[ElfInput], symbols: &SymbolTable, resolution: &Resolution) -> (r: Vec<bool>)
    ensures
        r@.len() == files@.len(),
        forall|i: int|
            0 <= i < r@.len() ==> (#[trigger] r@[i] <==> is_base(
                files@,
                symbols.symbols@,
                *resolution,
                i,
            )),
{
    let total: usize = files.len();
    let mut needed: Vec<bool> = Vec::new();
    let mut i: usize = 0;
    while i < total
        invariant
            i <= total,
            total == files@.len(),
            needed@.len() == i,
            forall|k: int|
                0 <= k < i ==> #[trigger] needed@[k] == (match files@[k].shared {
                    Some(shared) => !shared.as_needed,
                    None => false,
                }),
        decreases total - i,
    {
        let own: bool = match &files[i].shared {
            Some(shared) => !shared.as_needed,
            None => false,
        };
        needed.push(own);
        i += 1;
    }
    let positions: Vec<usize> = numbers(total);
    let each = |f: &usize| -> (one: Vec<usize>)
        requires
            *f < files@.len(),
        ensures
            forall|o: usize| #[trigger]
                one@.contains(o) <==> object_wants(
                    files@,
                    symbols.symbols@,
                    *resolution,
                    *f as int,
                    o as int,
                ),
        { object_owners(files, symbols, resolution, *f) };
    let found: Vec<Vec<usize>> = map_all(&positions, each);
    proof {
        assert forall|f: int, o: usize|
            0 <= f < found@.len() implies (#[trigger] found@[f]@.contains(o) <==> object_wants(
            files@,
            symbols.symbols@,
            *resolution,
            f,
            o as int,
        )) by {
            assert(each.ensures((&positions@[f],), found@[f]));
        }
    }
    let ghost own = needed@;
    let mut f: usize = 0;
    while f < found.len()
        invariant
            f <= found@.len(),
            found@.len() == files@.len(),
            total == files@.len(),
            own.len() == total,
            needed@.len() == total,
            forall|g: int, o: usize|
                0 <= g < found@.len() ==> (#[trigger] found@[g]@.contains(o) <==> object_wants(
                    files@,
                    symbols.symbols@,
                    *resolution,
                    g,
                    o as int,
                )),
            forall|k: int|
                0 <= k < total ==> (#[trigger] needed@[k] <==> own[k] || exists|g: int|
                    0 <= g < f && #[trigger] object_wants(
                        files@,
                        symbols.symbols@,
                        *resolution,
                        g,
                        k,
                    )),
        decreases found@.len() - f,
    {
        let ghost before = needed@;
        set_all(&mut needed, &found[f]);
        proof {
            assert forall|k: int| 0 <= k < total implies (#[trigger] needed@[k] <==> own[k]
                || exists|g: int|
                0 <= g < f + 1 && #[trigger] object_wants(
                    files@,
                    symbols.symbols@,
                    *resolution,
                    g,
                    k,
                )) by {
                assert(found@[f as int]@.contains(k as usize) <==> object_wants(
                    files@,
                    symbols.symbols@,
                    *resolution,
                    f as int,
                    k,
                ));
                assert(needed@[k] <==> before[k] || found@[f as int]@.contains(k as usize));
            }
        }
        f += 1;
    }
    proof {
        assert forall|k: int| 0 <= k < total implies (#[trigger] needed@[k] <==> is_base(
            files@,
            symbols.symbols@,
            *resolution,
            k,
        )) by {
            if exists|g: int| #[trigger]
                object_wants(files@, symbols.symbols@, *resolution, g, k) {
                let g = choose|g: int| #[trigger]
                    object_wants(files@, symbols.symbols@, *resolution, g, k);
                let local = choose|local: int| #[trigger]
                    object_pulls(files@, symbols.symbols@, *resolution, g, local, k);
                assert(object_pulls(files@, symbols.symbols@, *resolution, g, local, k));
                assert(0 <= g < f && object_wants(files@, symbols.symbols@, *resolution, g, k));
            }
        }
    }
    needed
}

/// The positions that are set in `needed` and not in `done`.
fn not_done(needed: &Vec<bool>, done: &Vec<bool>) -> (r: Vec<usize>)
    requires
        needed@.len() == done@.len(),
    ensures
        forall|i: usize| #[trigger]
            r@.contains(i) <==> (i < needed@.len() && needed@[i as int] && !done@[i as int]),
{
    let mut out: Vec<usize> = Vec::new();
    let mut i: usize = 0;
    while i < needed.len()
        invariant
            i <= needed@.len(),
            needed@.len() == done@.len(),
            forall|k: usize| #[trigger]
                out@.contains(k) <==> (k < i && needed@[k as int] && !done@[k as int]),
        decreases needed@.len() - i,
    {
        let ghost before = out@;
        if needed[i] && !done[i] {
            out.push(i);
            proof {
                assert forall|k: usize| #[trigger]
                    out@.contains(k) <==> (k < i + 1 && needed@[k as int] && !done@[k as int]) by {
                    if before.contains(k) {
                        let n = choose|n: int| 0 <= n < before.len() && before[n] == k;
                        assert(out@[n] == k);
                    }
                    assert(out@[before.len() as int] == i);
                    if out@.contains(k) {
                        let n = choose|n: int| 0 <= n < out@.len() && out@[n] == k;
                        if n < before.len() {
                            assert(before[n] == k);
                        }
                    }
                }
            }
        }
        i += 1;
    }
    out
}

/// A library that a needed one pulls is needed.
proof fn pulled_is_needed(
    files: Seq<ElfInput>,
    symbols: Seq<Symbol>,
    resolution: Resolution,
    j: int,
    i: int,
)
    requires
        0 <= j < files.len(),
        is_needed_file(files, symbols, resolution, j),
        pulls(files, symbols, resolution, j, i),
    ensures
        is_needed_file(files, symbols, resolution, i),
{
    let n = choose|n: nat| #[trigger] is_derived(files, symbols, resolution, n, j);
    assert(is_derived(files, symbols, resolution, n + 1, i));
}

/// A set that holds the base and all that it pulls holds every needed file.
proof fn closed_sets_hold_the_needed(
    files: Seq<ElfInput>,
    symbols: Seq<Symbol>,
    resolution: Resolution,
    needed: Seq<bool>,
    n: nat,
    i: int,
)
    requires
        needed.len() == files.len(),
        forall|k: int|
            0 <= k < files.len() && is_base(files, symbols, resolution, k) ==> #[trigger] needed[k],
        forall|j: int, k: int|
            0 <= j < files.len() && 0 <= k < files.len() && needed[j] && #[trigger] pulls(
                files,
                symbols,
                resolution,
                j,
                k,
            ) ==> needed[k],
        0 <= i < files.len(),
        is_derived(files, symbols, resolution, n, i),
    ensures
        needed[i],
    decreases n,
{
    if n > 0 {
        if is_derived(files, symbols, resolution, (n - 1) as nat, i) {
            closed_sets_hold_the_needed(files, symbols, resolution, needed, (n - 1) as nat, i);
        } else {
            let j = choose|j: int|
                0 <= j < files.len() && is_derived(
                    files,
                    symbols,
                    resolution,
                    (n - 1) as nat,
                    j,
                ) && #[trigger] pulls(files, symbols, resolution, j, i);
            closed_sets_hold_the_needed(files, symbols, resolution, needed, (n - 1) as nat, j);
        }
    }
}

/// How many flags are set in the first `n`.
spec fn count_set(flags: Seq<bool>, n: int) -> nat
    decreases n,
{
    if n <= 0 {
        0
    } else {
        count_set(flags, n - 1) + (if flags[n - 1] {
            1nat
        } else {
            0nat
        })
    }
}

/// Setting flags counts more of them.
proof fn more_are_counted(a: Seq<bool>, b: Seq<bool>, n: int)
    requires
        0 <= n <= a.len(),
        a.len() == b.len(),
        forall|i: int| 0 <= i < a.len() && #[trigger] a[i] ==> b[i],
    ensures
        count_set(a, n) <= count_set(b, n) <= n,
        (exists|i: int| 0 <= i < n && !a[i] && #[trigger] b[i]) ==> count_set(a, n) < count_set(
            b,
            n,
        ),
    decreases n,
{
    if n > 0 {
        more_are_counted(a, b, n - 1);
        if exists|i: int| 0 <= i < n && !a[i] && #[trigger] b[i] {
            let i = choose|i: int| 0 <= i < n && !a[i] && #[trigger] b[i];
            if i < n - 1 {
                assert(!a[i] && b[i]);
            }
        }
    }
}

/// Which files are needed.
fn find_needed(files: &[ElfInput], symbols: &SymbolTable, resolution: &Resolution) -> (r: Vec<bool>)
    ensures
        r@.len() == files@.len(),
        forall|i: int|
            0 <= i < r@.len() ==> (#[trigger] r@[i] <==> is_needed_file(
                files@,
                symbols.symbols@,
                *resolution,
                i,
            )),
{
    let total: usize = files.len();
    let mut needed: Vec<bool> = base_needed(files, symbols, resolution);
    let ghost all = symbols.symbols@;
    proof {
        assert forall|i: int| 0 <= i < total && #[trigger] needed@[i] implies is_needed_file(
            files@,
            all,
            *resolution,
            i,
        ) by {
            assert(is_derived(files@, all, *resolution, 0, i));
        }
    }
    let mut done: Vec<bool> = Vec::new();
    let mut k: usize = 0;
    while k < total
        invariant
            k <= total,
            done@ == Seq::new(k as nat, |i: int| false),
        decreases total - k,
    {
        done.push(false);
        k += 1;
        assert(done@ =~= Seq::new(k as nat, |i: int| false));
    }
    // Needed libraries' references, to a fixpoint. A reference does not make
    // a library needed when the referring library lists it in DT_NEEDED
    // itself.
    let mut round: Vec<usize> = not_done(&needed, &done);
    while round.len() > 0
        invariant
            total == files@.len(),
            needed@.len() == total,
            done@.len() == total,
            all == symbols.symbols@,
            forall|i: usize| #[trigger]
                round@.contains(i) <==> (i < total && needed@[i as int] && !done@[i as int]),
            forall|i: int|
                0 <= i < total && is_base(files@, all, *resolution, i) ==> #[trigger] needed@[i],
            forall|i: int|
                0 <= i < total && #[trigger] needed@[i] ==> is_needed_file(
                    files@,
                    all,
                    *resolution,
                    i,
                ),
            forall|i: int| 0 <= i < total && #[trigger] done@[i] ==> needed@[i],
            forall|j: int, i: int|
                0 <= j < total && 0 <= i < total && done@[j] && #[trigger] pulls(
                    files@,
                    all,
                    *resolution,
                    j,
                    i,
                ) ==> needed@[i],
        decreases total - count_set(done@, total as int),
    {
        let each = |f: &usize| -> (one: Vec<usize>)
            requires
                *f < files@.len(),
            ensures
                forall|o: usize| #[trigger]
                    one@.contains(o) <==> pulls(
                        files@,
                        symbols.symbols@,
                        *resolution,
                        *f as int,
                        o as int,
                    ),
            { library_owners(files, symbols, resolution, *f) };
        proof {
            assert forall|n: int| 0 <= n < round@.len() implies each.requires(
                (&#[trigger] round@[n],),
            ) by {
                assert(round@.contains(round@[n]));
            }
        }
        let found: Vec<Vec<usize>> = map_all(&round, each);
        let ghost done_before = done@;
        let ghost needed_before = needed@;
        set_all(&mut done, &round);
        proof {
            assert(round@.contains(round@[0]));
            assert(!done_before[round@[0] as int] && done@[round@[0] as int]);
            more_are_counted(done_before, done@, total as int);
            assert forall|n: int, o: usize|
                0 <= n < found@.len() implies (#[trigger] found@[n]@.contains(o) <==> pulls(
                files@,
                all,
                *resolution,
                round@[n] as int,
                o as int,
            )) by {
                assert(each.ensures((&round@[n],), found@[n]));
            }
        }
        let mut n: usize = 0;
        while n < found.len()
            invariant
                n <= found@.len(),
                found@.len() == round@.len(),
                total == files@.len(),
                needed@.len() == total,
                needed_before.len() == total,
                forall|i: usize| #[trigger]
                    round@.contains(i) <==> (i < total && needed_before[i as int]
                        && !done_before[i as int]),
                forall|i: int| 0 <= i < total && #[trigger] needed_before[i] ==> needed@[i],
                forall|i: int|
                    0 <= i < total && #[trigger] needed_before[i] ==> is_needed_file(
                        files@,
                        all,
                        *resolution,
                        i,
                    ),
                forall|i: int|
                    0 <= i < total && #[trigger] needed@[i] ==> is_needed_file(
                        files@,
                        all,
                        *resolution,
                        i,
                    ),
                forall|m: int, o: usize|
                    0 <= m < found@.len() ==> (#[trigger] found@[m]@.contains(o) <==> pulls(
                        files@,
                        all,
                        *resolution,
                        round@[m] as int,
                        o as int,
                    )),
                forall|m: int, i: int|
                    0 <= m < n && 0 <= i < total && #[trigger] pulls(
                        files@,
                        all,
                        *resolution,
                        round@[m] as int,
                        i,
                    ) ==> needed@[i],
            decreases found@.len() - n,
        {
            let ghost before = needed@;
            set_all(&mut needed, &found[n]);
            proof {
                assert forall|i: int| 0 <= i < total && #[trigger] needed@[i] implies is_needed_file(
                    files@,
                    all,
                    *resolution,
                    i,
                ) by {
                    if !before[i] {
                        assert(found@[n as int]@.contains(i as usize));
                        assert(round@.contains(round@[n as int]));
                        pulled_is_needed(files@, all, *resolution, round@[n as int] as int, i);
                    }
                }
                assert forall|m: int, i: int|
                    0 <= m < n + 1 && 0 <= i < total && #[trigger] pulls(
                        files@,
                        all,
                        *resolution,
                        round@[m] as int,
                        i,
                    ) implies needed@[i] by {
                    if m < n {
                        assert(before[i]);
                    } else {
                        assert(found@[m]@.contains(i as usize));
                    }
                }
            }
            n += 1;
        }
        proof {
            assert forall|j: int, i: int|
                0 <= j < total && 0 <= i < total && done@[j] && #[trigger] pulls(
                    files@,
                    all,
                    *resolution,
                    j,
                    i,
                ) implies needed@[i] by {
                if done_before[j] {
                    assert(needed_before[i]);
                } else {
                    assert(round@.contains(j as usize));
                    let m = choose|m: int| 0 <= m < round@.len() && round@[m] == j as usize;
                    assert(pulls(files@, all, *resolution, round@[m] as int, i));
                }
            }
            assert forall|i: int| 0 <= i < total && #[trigger] done@[i] implies needed@[i] by {
                if !done_before[i] {
                    assert(round@.contains(i as usize));
                    assert(needed_before[i]);
                }
            }
            assert forall|i: int|
                0 <= i < total && is_base(
                    files@,
                    all,
                    *resolution,
                    i,
                ) implies #[trigger] needed@[i] by {
                assert(needed_before[i]);
            }
        }
        round = not_done(&needed, &done);
    }
    proof {
        assert forall|i: int| 0 <= i < total && #[trigger] needed@[i] implies done@[i] by {
            if !done@[i] {
                assert(round@.contains(i as usize));
            }
        }
        assert forall|i: int|
            0 <= i < total && is_needed_file(files@, all, *resolution, i) implies #[trigger] needed@[i] by {
            let n = choose|n: nat| #[trigger] is_derived(files@, all, *resolution, n, i);
            closed_sets_hold_the_needed(files@, all, *resolution, needed@, n, i);
        }
    }
    needed
}

/// Whether a file is a shared object that is not needed.
pub open spec fn is_unneeded(files: Seq<ElfInput>, needed: Seq<bool>, f: int) -> bool {
    0 <= f < files.len() && files[f].shared is Some && !is_set(needed, f)
}

/// Whether a symbol's definition is in a shared object that is not needed.
pub open spec fn is_affected(
    files: Seq<ElfInput>,
    symbols: Seq<Symbol>,
    needed: Seq<bool>,
    id: SymbolId,
) -> bool {
    match owner_in(symbols, id) {
        Some(owner) => is_unneeded(files, needed, owner as int),
        None => false,
    }
}

/// The definition that name `local` of shared object `f` offers.
pub open spec fn offered_at(files: Seq<ElfInput>, f: int, local: int) -> Option<Definition> {
    if local > u32::MAX {
        None
    } else {
        match shared_use(files[f], local) {
            SymbolUse::Definition { kind, aux } => Some(
                Definition {
                    kind,
                    file: FileId { position: f as usize },
                    index: local as u32,
                    position: files[f].position,
                    aux,
                },
            ),
            _ => None,
        }
    }
}

/// The definition that name `local` of shared object `f` offers.
fn find_offered(files: &[ElfInput], f: usize, local: usize) -> (r: Option<Definition>)
    requires
        f < files@.len(),
    ensures
        r == offered_at(files@, f as int, local as int),
{
    if local as u64 > u32::MAX as u64 {
        return None;
    }
    match find_shared_use(&files[f], local) {
        SymbolUse::Definition { kind, aux } => Some(
            Definition {
                kind,
                file: FileId { position: f },
                index: local as u32,
                position: files[f].position,
                aux,
            },
        ),
        _ => None,
    }
}

/// The definitions that the names of shared object `f` from `local` on offer
/// for symbols that `wanted` says.
pub open spec fn candidates_from(
    files: Seq<ElfInput>,
    resolution: Resolution,
    wanted: Seq<bool>,
    f: int,
    local: int,
) -> Seq<(SymbolId, Definition)>
    decreases resolution.ids_of(f).len() - local,
{
    if local < 0 || local >= resolution.ids_of(f).len() {
        Seq::empty()
    } else {
        let rest = candidates_from(files, resolution, wanted, f, local + 1);
        let id = resolution.ids_of(f)[local];
        match offered_at(files, f, local) {
            Some(def) => if is_set(wanted, id.position as int) {
                seq![(id, def)] + rest
            } else {
                rest
            },
            None => rest,
        }
    }
}

/// The definitions that shared object `f` offers, when `chosen` says it
/// counts.
pub open spec fn candidates_in(
    files: Seq<ElfInput>,
    resolution: Resolution,
    chosen: Seq<bool>,
    wanted: Seq<bool>,
    f: int,
) -> Seq<(SymbolId, Definition)> {
    if is_set(chosen, f) {
        candidates_from(files, resolution, wanted, f, 0)
    } else {
        Seq::empty()
    }
}

/// The definitions that shared objects offer, by file.
pub open spec fn all_candidates(
    files: Seq<ElfInput>,
    resolution: Resolution,
    chosen: Seq<bool>,
    wanted: Seq<bool>,
) -> Seq<Seq<(SymbolId, Definition)>> {
    Seq::new(files.len(), |f: int| candidates_in(files, resolution, chosen, wanted, f))
}

/// The definitions that shared object `f` offers.
fn list_candidates(
    files: &[ElfInput],
    resolution: &Resolution,
    chosen: &Vec<bool>,
    wanted: &Vec<bool>,
    f: usize,
) -> (r: Vec<(SymbolId, Definition)>)
    requires
        f < files@.len(),
    ensures
        r@ == candidates_in(files@, *resolution, chosen@, wanted@, f as int),
{
    let mut out: Vec<(SymbolId, Definition)> = Vec::new();
    if f >= chosen.len() || !chosen[f] {
        return out;
    }
    let ghost whole = candidates_from(files@, *resolution, wanted@, f as int, 0);
    assert(whole =~= out@ + whole);
    let total: usize = resolution.count(f);
    let mut local: usize = 0;
    while local < total
        invariant
            local <= total,
            f < files@.len(),
            total == resolution.ids_of(f as int).len(),
            whole == out@ + candidates_from(files@, *resolution, wanted@, f as int, local as int),
        decreases total - local,
    {
        let ghost before = out@;
        let ghost rest = candidates_from(files@, *resolution, wanted@, f as int, local + 1);
        let id: SymbolId = resolution.symbol_id(f, local);
        if let Some(def) = find_offered(files, f, local) {
            if id.position < wanted.len() && wanted[id.position] {
                out.push((id, def));
                assert(before + (seq![(id, def)] + rest) =~= out@ + rest);
            }
        }
        local += 1;
    }
    assert(whole =~= out@);
    out
}

/// The definitions that shared objects offer.
fn every_candidate(
    files: &[ElfInput],
    resolution: &Resolution,
    chosen: &Vec<bool>,
    wanted: &Vec<bool>,
) -> (r: Vec<(SymbolId, Definition)>)
    ensures
        r@ == crate::parallel::flattened(all_candidates(files@, *resolution, chosen@, wanted@)),
{
    let positions: Vec<usize> = numbers(files.len());
    let each = |f: &usize| -> (one: Vec<(SymbolId, Definition)>)
        requires
            *f < files@.len(),
        ensures
            one@ == candidates_in(files@, *resolution, chosen@, wanted@, *f as int),
        { list_candidates(files, resolution, chosen, wanted, *f) };
    let lists: Vec<Vec<(SymbolId, Definition)>> = map_all(&positions, each);
    proof {
        assert forall|f: int| 0 <= f < lists@.len() implies (#[trigger] lists@[f])@
            == candidates_in(files@, *resolution, chosen@, wanted@, f) by {
            assert(each.ensures((&positions@[f],), lists@[f]));
        }
        assert(crate::parallel::lists_view(lists@) =~= all_candidates(
            files@,
            *resolution,
            chosen@,
            wanted@,
        ));
    }
    concatenated(&lists)
}

/// What candidates are sorted by: the symbol, then the place of the file on
/// the command line, then the order of the names in it.
pub open spec fn candidate_rows(candidates: Seq<(SymbolId, Definition)>) -> Seq<(u64, u64, u64)> {
    Seq::new(
        candidates.len(),
        |k: int| (candidates[k].0.position as u64, candidates[k].1.position, k as u64),
    )
}

/// Lists what candidates are sorted by.
fn list_candidate_rows(candidates: &Vec<(SymbolId, Definition)>) -> (r: Vec<(u64, u64, u64)>)
    ensures
        r@ == candidate_rows(candidates@),
{
    let mut rows: Vec<(u64, u64, u64)> = Vec::new();
    let mut k: usize = 0;
    while k < candidates.len()
        invariant
            k <= candidates@.len(),
            rows@ == candidate_rows(candidates@).take(k as int),
        decreases candidates@.len() - k,
    {
        let (id, def) = candidates[k];
        rows.push((id.position as u64, def.position, k as u64));
        k += 1;
        assert(rows@ =~= candidate_rows(candidates@).take(k as int));
    }
    assert(rows@ =~= candidate_rows(candidates@));
    rows
}

/// Whether `next` is the better of `current` and `other`, as `precedes`
/// says.
pub open spec fn is_better<P: Fn(&Definition, &Definition) -> bool>(
    precedes: P,
    current: Option<Definition>,
    other: Definition,
    next: Option<Definition>,
) -> bool {
    match current {
        None => next == Some(other),
        Some(c) => exists|b: bool| #[trigger]
            precedes.ensures((&other, &c), b) && next == Some(
                if b {
                    other
                } else {
                    c
                },
            ),
    }
}

/// Whether `best` is the best of `current` and the candidates for `id` that
/// rows from `i` on name, one after the other.
pub open spec fn is_best_from<P: Fn(&Definition, &Definition) -> bool>(
    candidates: Seq<(SymbolId, Definition)>,
    rows: Seq<(u64, u64, u64)>,
    precedes: P,
    id: SymbolId,
    i: int,
    current: Option<Definition>,
    best: Option<Definition>,
) -> bool
    decreases rows.len() - i,
{
    if i < 0 || i >= rows.len() || rows[i].0 != id.position {
        best == current
    } else {
        exists|next: Option<Definition>|
            #[trigger] is_better(precedes, current, candidates[rows[i].2 as int].1, next)
                && is_best_from(candidates, rows, precedes, id, i + 1, next, best)
    }
}

/// Whether `def` is what a symbol is bound to again: the best candidate for
/// it, or nothing.
pub open spec fn is_rebound<P: Fn(&Definition, &Definition) -> bool>(
    candidates: Seq<(SymbolId, Definition)>,
    rows: Seq<(u64, u64, u64)>,
    precedes: P,
    id: SymbolId,
    def: Definition,
) -> bool {
    exists|best: Option<Definition>| #[trigger]
        is_best_from(
            candidates,
            rows,
            precedes,
            id,
            crate::order::first_at_least(rows, id.position as u64, 0),
            None,
            best,
        ) && def == (match best {
            Some(d) => d,
            None => Definition::undefined(),
        })
}

/// The best candidate for a symbol.
fn rebound<P: Fn(&Definition, &Definition) -> bool>(
    candidates: &Vec<(SymbolId, Definition)>,
    rows: &Vec<(u64, u64, u64)>,
    precedes: &P,
    id: SymbolId,
) -> (r: Definition)
    requires
        crate::order::rows_sorted(rows@),
        forall|k: int| 0 <= k < rows@.len() ==> (#[trigger] rows@[k]).2 < candidates@.len(),
        forall|a: Definition, b: Definition| #[trigger] precedes.requires((&a, &b)),
    ensures
        is_rebound(candidates@, rows@, *precedes, id, r),
{
    let start: usize = lower_bound(rows, id.position as u64);
    let mut i: usize = start;
    let mut best: Option<Definition> = None;
    assert forall|last: Option<Definition>| #[trigger]
        is_best_from(candidates@, rows@, *precedes, id, i as int, best, last) implies is_best_from(
        candidates@,
        rows@,
        *precedes,
        id,
        start as int,
        None,
        last,
    ) by {}
    while i < rows.len() && rows[i].0 == id.position as u64
        invariant
            start <= i <= rows@.len(),
            forall|k: int| 0 <= k < rows@.len() ==> (#[trigger] rows@[k]).2 < candidates@.len(),
            forall|a: Definition, b: Definition| #[trigger] precedes.requires((&a, &b)),
            forall|last: Option<Definition>| #[trigger]
                is_best_from(candidates@, rows@, *precedes, id, i as int, best, last)
                    ==> is_best_from(
                    candidates@,
                    rows@,
                    *precedes,
                    id,
                    start as int,
                    None,
                    last,
                ),
        decreases rows@.len() - i,
    {
        let _count: usize = candidates.len();
        let other: Definition = candidates[rows[i].2 as usize].1;
        let ghost before = best;
        assert(other == candidates@[rows@[i as int].2 as int].1);
        match best {
            None => {
                best = Some(other);
            },
            Some(current) => {
                let better: bool = precedes(&other, &current);
                assert(precedes.ensures((&other, &current), better));
                if better {
                    best = Some(other);
                }
            },
        }
        proof {
            assert(is_better(*precedes, before, other, best));
            assert forall|last: Option<Definition>| #[trigger]
                is_best_from(
                    candidates@,
                    rows@,
                    *precedes,
                    id,
                    i + 1,
                    best,
                    last,
                ) implies is_best_from(
                candidates@,
                rows@,
                *precedes,
                id,
                start as int,
                None,
                last,
            ) by {
                assert(is_best_from(candidates@, rows@, *precedes, id, i as int, before, last));
            }
        }
        i += 1;
    }
    proof {
        assert(is_best_from(candidates@, rows@, *precedes, id, i as int, best, best));
        assert(is_best_from(candidates@, rows@, *precedes, id, start as int, None, best));
    }
    match best {
        Some(def) => def,
        None => Definition::undefined(),
    }
}

/// Whether each symbol's definition is in a shared object that is not
/// needed.
pub open spec fn affected_of(files: Seq<ElfInput>, symbols: Seq<Symbol>, needed: Seq<bool>) -> Seq<
    bool,
> {
    Seq::new(
        symbols.len(),
        |i: int| is_affected(files, symbols, needed, SymbolId { position: i as usize }),
    )
}

/// Whether `after` is `before` with every symbol whose definition is in an
/// unneeded shared object bound to the best definition in a needed one, or
/// undefined.
pub open spec fn are_rebound<P: Fn(&Definition, &Definition) -> bool>(
    files: Seq<ElfInput>,
    resolution: Resolution,
    needed: Seq<bool>,
    precedes: P,
    before: Seq<Symbol>,
    after: Seq<Symbol>,
) -> bool {
    let affected = affected_of(files, before, needed);
    let candidates = crate::parallel::flattened(
        all_candidates(files, resolution, needed, affected),
    );
    &&& after.len() == before.len()
    &&& exists|rows: Seq<(u64, u64, u64)>| #[trigger]
        crate::order::is_row_set(candidate_rows(candidates), rows) && forall|i: int|
            0 <= i < before.len() ==> if affected[i] {
                &&& is_rebound(
                    candidates,
                    rows,
                    precedes,
                    SymbolId { position: i as usize },
                    (#[trigger] after[i]).definition,
                )
                &&& after[i] == Symbol { definition: after[i].definition, ..before[i] }
            } else {
                after[i] == before[i]
            }
}

/// Whether each symbol's definition is in a shared object that is not
/// needed.
fn list_affected(files: &[ElfInput], symbols: &SymbolTable, needed: &Vec<bool>) -> (r: Vec<bool>)
    ensures
        r@ == affected_of(files@, symbols.symbols@, needed@),
{
    let positions: Vec<usize> = numbers(symbols.len());
    let each = |i: &usize| -> (one: bool)
        ensures
            one == is_affected(
                files@,
                symbols.symbols@,
                needed@,
                SymbolId { position: *i },
            ),
        {
            match shared_owner(symbols, SymbolId { position: *i }) {
                Some(owner) => owner < files.len() && files[owner].shared.is_some() && !(owner
                    < needed.len() && needed[owner]),
                None => false,
            }
        };
    let affected: Vec<bool> = map_all(&positions, each);
    proof {
        assert forall|i: int| 0 <= i < affected@.len() implies #[trigger] affected@[i]
            == is_affected(
            files@,
            symbols.symbols@,
            needed@,
            SymbolId { position: i as usize },
        ) by {
            assert(each.ensures((&positions@[i],), affected@[i]));
        }
        assert(affected@ =~= affected_of(files@, symbols.symbols@, needed@));
    }
    affected
}

/// Sorted sets of rows are sorted.
proof fn sets_are_sorted(list: Seq<(u64, u64, u64)>, rows: Seq<(u64, u64, u64)>)
    requires
        crate::order::is_row_set(list, rows),
    ensures
        crate::order::rows_sorted(rows),
{
    assert forall|i: int, j: int| 0 <= i < j < rows.len() implies !crate::order::row_less(
        #[trigger] rows[j],
        #[trigger] rows[i],
    ) by {
        assert(crate::order::row_less(rows[i], rows[j]));
    }
}

/// Binds symbols whose definition is in an unneeded shared object to the
/// best definition in a needed one, or leaves them undefined. `precedes`
/// tells whether its first argument takes precedence over its second.
pub fn rebind_unneeded<P: Fn(&Definition, &Definition) -> bool>(
    files: &[ElfInput],
    symbols: &mut SymbolTable,
    resolution: &Resolution,
    needed: &Vec<bool>,
    precedes: &P,
)
    requires
        forall|a: Definition, b: Definition| #[trigger] precedes.requires((&a, &b)),
    ensures
        are_rebound(
            files@,
            *resolution,
            needed@,
            *precedes,
            old(symbols).symbols@,
            final(symbols).symbols@,
        ),
{
    let affected: Vec<bool> = list_affected(files, symbols, needed);
    let candidates: Vec<(SymbolId, Definition)> = every_candidate(
        files,
        resolution,
        needed,
        &affected,
    );
    let listed: Vec<(u64, u64, u64)> = list_candidate_rows(&candidates);
    let rows: Vec<(u64, u64, u64)> = row_set(listed);
    proof {
        sets_are_sorted(candidate_rows(candidates@), rows@);
        assert forall|k: int| 0 <= k < rows@.len() implies (#[trigger] rows@[k]).2
            < candidates@.len() by {
            assert(rows@.contains(rows@[k]));
        }
    }
    let ghost before = symbols.symbols@;
    let mut i: usize = 0;
    while i < affected.len()
        invariant
            i <= affected@.len(),
            affected@ == affected_of(files@, before, needed@),
            symbols.symbols@.len() == before.len(),
            crate::order::rows_sorted(rows@),
            forall|k: int| 0 <= k < rows@.len() ==> (#[trigger] rows@[k]).2 < candidates@.len(),
            forall|a: Definition, b: Definition| #[trigger] precedes.requires((&a, &b)),
            forall|k: int| i <= k < before.len() ==> #[trigger] symbols.symbols@[k] == before[k],
            forall|k: int|
                0 <= k < i ==> if affected@[k] {
                    &&& is_rebound(
                        candidates@,
                        rows@,
                        *precedes,
                        SymbolId { position: k as usize },
                        (#[trigger] symbols.symbols@[k]).definition,
                    )
                    &&& symbols.symbols@[k] == Symbol {
                        definition: symbols.symbols@[k].definition,
                        ..before[k]
                    }
                } else {
                    symbols.symbols@[k] == before[k]
                },
        decreases affected@.len() - i,
    {
        if affected[i] {
            let id: SymbolId = SymbolId { position: i };
            let def: Definition = rebound(&candidates, &rows, precedes, id);
            symbols.replace_definition(id, def);
        }
        i += 1;
    }
}

/// Decides which shared objects are needed, rebinds symbols defined only by
/// unneeded ones, and sets [`REF_REGULAR`], [`REF_REGULAR_STRONG`] and
/// [`REF_DYNAMIC`]. `precedes` tells whether its first argument takes
/// precedence over its second.
pub fn plan_needed<P: Fn(&Definition, &Definition) -> bool>(
    files: &[ElfInput],
    symbols: &mut SymbolTable,
    resolution: &Resolution,
    precedes: &P,
) -> (r: Needed)
    requires
        forall|a: Definition, b: Definition| #[trigger] precedes.requires((&a, &b)),
    ensures
        r.shared == has_shared(files@),
        r.needed@.len() == files@.len(),
        forall|i: int|
            0 <= i < files@.len() ==> (#[trigger] r.needed@[i] <==> is_needed_file(
                files@,
                old(symbols).symbols@,
                *resolution,
                i,
            )),
        exists|middle: Seq<Symbol>| #[trigger]
            are_rebound(
                files@,
                *resolution,
                r.needed@,
                *precedes,
                marked_from(
                    old(symbols).symbols@,
                    crate::parallel::flattened(all_regular_marks(files@, *resolution)),
                    0,
                ),
                middle,
            ) && final(symbols).symbols@ == marked_from(
                middle,
                crate::parallel::flattened(all_dynamic_marks(files@, *resolution, r.needed@)),
                0,
            ),
{
    let needed: Vec<bool> = find_needed(files, symbols, resolution);
    // Regular objects: references and definitions.
    let regular: Vec<(SymbolId, u32)> = every_regular_mark(files, resolution);
    apply_marks(symbols, &regular);
    rebind_unneeded(files, symbols, resolution, &needed, precedes);
    let ghost middle = symbols.symbols@;
    // References from needed libraries.
    let dynamic: Vec<(SymbolId, u32)> = every_dynamic_mark(files, resolution, &needed);
    apply_marks(symbols, &dynamic);
    let result: Needed = Needed { needed, shared: find_shared(files) };
    assert(are_rebound(
        files@,
        *resolution,
        result.needed@,
        *precedes,
        marked_from(
            old(symbols).symbols@,
            crate::parallel::flattened(all_regular_marks(files@, *resolution)),
            0,
        ),
        middle,
    ));
    result
}

/// Whether each file is a shared object that takes part in the link.
pub open spec fn live_libraries(files: Seq<ElfInput>, resolution: Resolution) -> Seq<bool> {
    Seq::new(files.len(), |f: int| files[f].shared is Some && resolution.spec_is_live(f))
}

/// Whether each symbol's best definition is an archive member that was not
/// extracted.
pub open spec fn lazy_symbols(symbols: Seq<Symbol>) -> Seq<bool> {
    Seq::new(symbols.len(), |i: int| symbols[i].definition.kind == DefinitionKind::Lazy)
}

/// The definitions in shared libraries of symbols that would otherwise be
/// unextracted archive members.
pub open spec fn lazy_candidates(
    files: Seq<ElfInput>,
    symbols: Seq<Symbol>,
    resolution: Resolution,
) -> Seq<(SymbolId, Definition)> {
    crate::parallel::flattened(
        all_candidates(
            files,
            resolution,
            live_libraries(files, resolution),
            lazy_symbols(symbols),
        ),
    )
}

/// Symbols bound to the candidates that rows from `i` on name.
pub open spec fn bound_from(
    symbols: Seq<Symbol>,
    candidates: Seq<(SymbolId, Definition)>,
    rows: Seq<(u64, u64, u64)>,
    i: int,
) -> Seq<Symbol>
    decreases rows.len() - i,
{
    if i < 0 || i >= rows.len() {
        symbols
    } else {
        let (id, def) = candidates[rows[i].2 as int];
        bound_from(crate::symbols::with_definition(symbols, id, def), candidates, rows, i + 1)
    }
}

/// Binds symbols whose best definition after resolution is an unextracted
/// archive member to their earliest shared library definition, if any.
///
/// Resolution lets a member of an archive that comes before a shared
/// library win, so that a non-weak reference extracts it as in GNU ld. A
/// symbol with only weak references (or none) keeps the lazy definition,
/// which would leave it undefined; GNU ld binds it to the shared library,
/// and so does this. Returns the number of rebound symbols.
pub fn bind_unextracted(
    files: &[ElfInput],
    symbols: &mut SymbolTable,
    resolution: &Resolution,
) -> (r:
    usize)
    ensures
        exists|rows: Seq<(u64, u64, u64)>| #[trigger]
            crate::order::is_first_of_each(
                candidate_rows(lazy_candidates(files@, old(symbols).symbols@, *resolution)),
                rows,
            ) && r == rows.len() && final(symbols).symbols@ == bound_from(
                old(symbols).symbols@,
                lazy_candidates(files@, old(symbols).symbols@, *resolution),
                rows,
                0,
            ),
{
    let mut live: Vec<bool> = Vec::new();
    let mut f: usize = 0;
    while f < files.len()
        invariant
            f <= files@.len(),
            live@ == live_libraries(files@, *resolution).take(f as int),
        decreases files@.len() - f,
    {
        live.push(files[f].shared.is_some() && resolution.is_live(FileId { position: f }));
        f += 1;
        assert(live@ =~= live_libraries(files@, *resolution).take(f as int));
    }
    assert(live@ =~= live_libraries(files@, *resolution));
    let mut lazy: Vec<bool> = Vec::new();
    let mut i: usize = 0;
    while i < symbols.symbols.len()
        invariant
            i <= symbols.symbols@.len(),
            lazy@ == lazy_symbols(symbols.symbols@).take(i as int),
        decreases symbols.symbols@.len() - i,
    {
        lazy.push(symbols.definition_kind(SymbolId { position: i }) == DefinitionKind::Lazy);
        i += 1;
        assert(lazy@ =~= lazy_symbols(symbols.symbols@).take(i as int));
    }
    assert(lazy@ =~= lazy_symbols(symbols.symbols@));
    let candidates: Vec<(SymbolId, Definition)> = every_candidate(files, resolution, &live, &lazy);
    assert(candidates@ == lazy_candidates(files@, symbols.symbols@, *resolution));
    let listed: Vec<(u64, u64, u64)> = list_candidate_rows(&candidates);
    let rows: Vec<(u64, u64, u64)> = first_of_each(listed);
    proof {
        assert forall|k: int| 0 <= k < rows@.len() implies (#[trigger] rows@[k]).2
            < candidates@.len() by {
            assert(candidate_rows(candidates@).contains(rows@[k]));
        }
    }
    let mut k: usize = 0;
    while k < rows.len()
        invariant
            k <= rows@.len(),
            forall|m: int| 0 <= m < rows@.len() ==> (#[trigger] rows@[m]).2 < candidates@.len(),
            bound_from(old(symbols).symbols@, candidates@, rows@, 0) == bound_from(
                symbols.symbols@,
                candidates@,
                rows@,
                k as int,
            ),
        decreases rows@.len() - k,
    {
        let (id, def) = candidates[rows[k].2 as usize];
        symbols.replace_definition(id, def);
        k += 1;
    }
    rows.len()
}

/// A library that is not `--as-needed` is needed, and so is one that a
/// needed library refers to and does not list itself.
pub proof fn needed_libraries_are_closed(
    files: Seq<ElfInput>,
    symbols: Seq<Symbol>,
    resolution: Resolution,
    i: int,
    j: int,
)
    requires
        0 <= i < files.len(),
        0 <= j < files.len(),
    ensures
        (match files[i].shared {
            Some(shared) => !shared.as_needed,
            None => false,
        }) ==> is_needed_file(files, symbols, resolution, i),
        is_needed_file(files, symbols, resolution, j) && pulls(files, symbols, resolution, j, i)
            ==> is_needed_file(files, symbols, resolution, i),
{
    if is_base(files, symbols, resolution, i) {
        assert(is_derived(files, symbols, resolution, 0, i));
    }
    if is_needed_file(files, symbols, resolution, j) && pulls(files, symbols, resolution, j, i) {
        pulled_is_needed(files, symbols, resolution, j, i);
    }
}

/// Candidates come from the files that were chosen.
proof fn candidates_name_their_file(
    files: Seq<ElfInput>,
    resolution: Resolution,
    wanted: Seq<bool>,
    f: int,
    local: int,
    k: int,
)
    requires
        0 <= local,
        0 <= k < candidates_from(files, resolution, wanted, f, local).len(),
    ensures
        candidates_from(files, resolution, wanted, f, local)[k].1.file.position == f as usize,
    decreases resolution.ids_of(f).len() - local,
{
    let rest = candidates_from(files, resolution, wanted, f, local + 1);
    let id = resolution.ids_of(f)[local];
    match offered_at(files, f, local) {
        Some(def) => {
            if is_set(wanted, id.position as int) {
                if k > 0 {
                    candidates_name_their_file(files, resolution, wanted, f, local + 1, k - 1);
                }
            } else {
                candidates_name_their_file(files, resolution, wanted, f, local + 1, k);
            }
        },
        None => {
            candidates_name_their_file(files, resolution, wanted, f, local + 1, k);
        },
    }
}

/// What lists hold one after the other is in one of them.
proof fn flattened_comes_from_a_list<T>(lists: Seq<Seq<T>>, k: int) -> (place: (int, int))
    requires
        0 <= k < crate::parallel::flattened(lists).len(),
    ensures
        0 <= place.0 < lists.len(),
        0 <= place.1 < lists[place.0].len(),
        crate::parallel::flattened(lists)[k] == lists[place.0][place.1],
    decreases lists.len(),
{
    let before = crate::parallel::flattened(lists.drop_last());
    if k < before.len() {
        flattened_comes_from_a_list(lists.drop_last(), k)
    } else {
        (lists.len() - 1, k - before.len())
    }
}

/// Candidates are definitions in the files that were chosen.
proof fn candidates_are_chosen(
    files: Seq<ElfInput>,
    resolution: Resolution,
    chosen: Seq<bool>,
    wanted: Seq<bool>,
    k: int,
)
    requires
        files.len() <= usize::MAX,
        0 <= k < crate::parallel::flattened(
            all_candidates(files, resolution, chosen, wanted),
        ).len(),
    ensures
        is_set(
            chosen,
            crate::parallel::flattened(
                all_candidates(files, resolution, chosen, wanted),
            )[k].1.file.position as int,
        ),
{
    let lists = all_candidates(files, resolution, chosen, wanted);
    let (f, m) = flattened_comes_from_a_list(lists, k);
    assert(lists[f] == candidates_in(files, resolution, chosen, wanted, f));
    candidates_name_their_file(files, resolution, wanted, f, 0, m);
}

/// The best candidate is the one so far or another candidate.
proof fn best_is_a_candidate<P: Fn(&Definition, &Definition) -> bool>(
    candidates: Seq<(SymbolId, Definition)>,
    rows: Seq<(u64, u64, u64)>,
    precedes: P,
    id: SymbolId,
    i: int,
    current: Option<Definition>,
    best: Option<Definition>,
)
    requires
        is_best_from(candidates, rows, precedes, id, i, current, best),
        forall|k: int| 0 <= k < rows.len() ==> (#[trigger] rows[k]).2 < candidates.len(),
    ensures
        best == current || exists|k: int|
            0 <= k < candidates.len() && best == Some((#[trigger] candidates[k]).1),
    decreases rows.len() - i,
{
    if i < 0 || i >= rows.len() || rows[i].0 != id.position {
    } else {
        let other = rows[i].2 as int;
        let next = choose|next: Option<Definition>|
            #[trigger] is_better(precedes, current, candidates[other].1, next) && is_best_from(
                candidates,
                rows,
                precedes,
                id,
                i + 1,
                next,
                best,
            );
        best_is_a_candidate(candidates, rows, precedes, id, i + 1, next, best);
        assert(candidates[other].1 == candidates[other].1);
    }
}

/// Marks leave definitions as they are.
proof fn marks_keep_definitions(
    symbols: Seq<Symbol>,
    marks: Seq<(SymbolId, u32)>,
    i: int,
    id: SymbolId,
)
    ensures
        owner_in(marked_from(symbols, marks, i), id) == owner_in(symbols, id),
    decreases marks.len() - i,
{
    if 0 <= i < marks.len() {
        let next = crate::symbols::with_flags(symbols, marks[i].0, marks[i].1);
        marks_keep_definitions(next, marks, i + 1, id);
    }
}

/// Once symbols have been bound again and marked, none is defined by a
/// shared object that is not needed.
pub proof fn no_symbol_stays_with_an_unneeded_library<P: Fn(&Definition, &Definition) -> bool>(
    files: Seq<ElfInput>,
    resolution: Resolution,
    needed: Seq<bool>,
    precedes: P,
    before: Seq<Symbol>,
    after: Seq<Symbol>,
    marks: Seq<(SymbolId, u32)>,
    id: SymbolId,
)
    requires
        files.len() <= usize::MAX,
        are_rebound(files, resolution, needed, precedes, before, after),
    ensures
        !is_affected(files, marked_from(after, marks, 0), needed, id),
{
    marks_keep_definitions(after, marks, 0, id);
    let i = id.position as int;
    if i < before.len() {
        let affected = affected_of(files, before, needed);
        let candidates = crate::parallel::flattened(
            all_candidates(files, resolution, needed, affected),
        );
        let listed = candidate_rows(candidates);
        let rows = choose|rows: Seq<(u64, u64, u64)>| #[trigger]
            crate::order::is_row_set(listed, rows) && forall|i: int|
                0 <= i < before.len() ==> if affected[i] {
                    &&& is_rebound(
                        candidates,
                        rows,
                        precedes,
                        SymbolId { position: i as usize },
                        (#[trigger] after[i]).definition,
                    )
                    &&& after[i] == Symbol { definition: after[i].definition, ..before[i] }
                } else {
                    after[i] == before[i]
                };
        assert(after[i] == after[i]);
        assert(SymbolId { position: i as usize } == id);
        if affected[i] {
            assert forall|k: int| 0 <= k < rows.len() implies (#[trigger] rows[k]).2
                < candidates.len() by {
                assert(rows.contains(rows[k]));
                assert(listed.contains(rows[k]));
            }
            let first = crate::order::first_at_least(rows, id.position as u64, 0);
            let def = after[i].definition;
            let best = choose|best: Option<Definition>| #[trigger]
                is_best_from(candidates, rows, precedes, id, first, None, best) && def == (
                match best {
                    Some(d) => d,
                    None => Definition::undefined(),
                });
            best_is_a_candidate(candidates, rows, precedes, id, first, None, best);
            if best is Some {
                let k = choose|k: int|
                    0 <= k < candidates.len() && best == Some((#[trigger] candidates[k]).1);
                candidates_are_chosen(files, resolution, needed, affected, k);
            }
        }
    }
}

/// A reference or definition in an object is one from a regular object, and
/// a strong one is marked as such; a library marks what it refers to.
pub proof fn uses_are_marked(weak: bool, kind: DefinitionKind, aux: u64)
    ensures
        regular_bits(SymbolUse::Reference { weak }) == (if weak {
            0x10_0000u32
        } else {
            0x10_0000u32 | 0x20_0000
        }),
        regular_bits(SymbolUse::Definition { kind, aux }) == 0x10_0000,
        regular_bits(SymbolUse::Unused) == 0,
        dynamic_bits(SymbolUse::Reference { weak }) == 0x8_0000,
        dynamic_bits(SymbolUse::Definition { kind, aux }) == 0,
        dynamic_bits(SymbolUse::Unused) == 0,
        is_strong(SymbolUse::Reference { weak }) == !weak,
        !is_strong(SymbolUse::Definition { kind, aux }),
        !is_strong(SymbolUse::Unused),
{
}

/// Every symbol has the properties it was marked with, keeps those it had,
/// and keeps its definition.
pub proof fn marks_are_kept(symbols: Seq<Symbol>, marks: Seq<(SymbolId, u32)>, i: int, at: int)
    requires
        0 <= i <= marks.len(),
        0 <= at < symbols.len(),
    ensures
        marked_from(symbols, marks, i).len() == symbols.len(),
        marked_from(symbols, marks, i)[at].definition == symbols[at].definition,
        forall|bits: u32| #[trigger]
            symbols[at].flags.contains(bits) ==> marked_from(symbols, marks, i)[at].flags.contains(
                bits,
            ),
        forall|k: int|
            i <= k < marks.len() && (#[trigger] marks[k]).0.position == at ==> marked_from(
                symbols,
                marks,
                i,
            )[at].flags.contains(marks[k].1),
        (forall|k: int| i <= k < marks.len() ==> (#[trigger] marks[k]).0.position != at)
            ==> marked_from(symbols, marks, i)[at] == symbols[at],
    decreases marks.len() - i,
{
    if i < marks.len() {
        let next = crate::symbols::with_flags(symbols, marks[i].0, marks[i].1);
        crate::symbols::flags_change_one_symbol(symbols, marks[i].0, marks[i].1, at);
        marks_are_kept(next, marks, i + 1, at);
        assert forall|bits: u32| #[trigger] symbols[at].flags.contains(bits) implies next[at].flags.contains(
            bits,
        ) by {
            crate::symbols::flags_are_given_and_taken(symbols[at].flags, marks[i].1, bits);
        }
    }
}

/// A live object marks each of its symbols as it uses it.
pub proof fn objects_mark_what_they_use(
    files: Seq<ElfInput>,
    resolution: Resolution,
    f: int,
    local: int,
    k: int,
)
    requires
        0 <= local <= k < resolution.ids_of(f).len(),
    ensures
        regular_marks_from(files, resolution, f, local).len() == resolution.ids_of(f).len() - local,
        regular_marks_from(files, resolution, f, local)[k - local] == (
            resolution.ids_of(f)[k],
            regular_bits(use_of(files[f], k)),
        ),
        dynamic_marks_from(files, resolution, f, local).len() == resolution.ids_of(f).len() - local,
        dynamic_marks_from(files, resolution, f, local)[k - local] == (
            resolution.ids_of(f)[k],
            dynamic_bits(shared_use(files[f], k)),
        ),
    decreases resolution.ids_of(f).len() - local,
{
    if local < k {
        objects_mark_what_they_use(files, resolution, f, local + 1, k);
    } else {
        marks_have_their_length(files, resolution, f, local + 1);
    }
}

/// There is a mark for each symbol.
proof fn marks_have_their_length(
    files: Seq<ElfInput>,
    resolution: Resolution,
    f: int,
    local: int,
)
    requires
        0 <= local <= resolution.ids_of(f).len(),
    ensures
        regular_marks_from(files, resolution, f, local).len() == resolution.ids_of(f).len() - local,
        dynamic_marks_from(files, resolution, f, local).len() == resolution.ids_of(f).len() - local,
    decreases resolution.ids_of(f).len() - local,
{
    if local < resolution.ids_of(f).len() {
        marks_have_their_length(files, resolution, f, local + 1);
    }
}

/// A library is needed that was not linked as needed, or that a live object
/// has a strong reference into; one that is linked as needed and that
/// nothing refers to is not.
pub proof fn libraries_are_needed_for_a_reason(
    files: Seq<ElfInput>,
    symbols: Seq<Symbol>,
    resolution: Resolution,
    i: int,
    f: int,
    local: int,
)
    requires
        0 <= i < files.len(),
    ensures
        (files[i].shared matches Some(shared) && !shared.as_needed) ==> is_needed_file(
            files,
            symbols,
            resolution,
            i,
        ),
        0 <= f < files.len() && files[f].shared is None && resolution.spec_is_live(f) && 0 <= local
            < resolution.ids_of(f).len() && use_of(files[f], local) == (SymbolUse::Reference {
            weak: false,
        }) && resolution.ids_of(f)[local].position < symbols.len()
            && symbols[resolution.ids_of(f)[local].position as int].definition.kind
            == DefinitionKind::Shared
            && symbols[resolution.ids_of(f)[local].position as int].definition.file.position == i
            ==> is_needed_file(files, symbols, resolution, i),
{
    if is_base(files, symbols, resolution, i) {
        assert(is_derived(files, symbols, resolution, 0, i));
    }
    if object_pulls(files, symbols, resolution, f, local, i) {
        assert(object_wants(files, symbols, resolution, f, i));
    }
}

} // verus!
