//! The planned dynamic symbol table and `.dynamic` section.

use vstd::prelude::*;

use super::{DynValue, Entry, Exports, Synth, Synthetic, VersionDef, DYNAMIC_SIZE, DYNSYM_SIZE};
use super::chosen::{choose_symbols, with_strong_aliases};
use super::dynamic::{dynamic_entries, DynamicStrings, DynamicTables, ScanResult};
use super::hash::{build_gnu_hash, build_sysv_hash, gnu_hash, sysv_hash};
use super::strtab::{StrTab, Table};
use super::versions::{
    add_need, add_need_strings, import_version, list_defs_names, list_need_files, need_index,
    relr_version_provider, verdef, verneed, Need, GLIBC_ABI_DT_RELR,
};
use crate::bytes::{copied, push_all};
use crate::elf::consts::VER_NDX_GLOBAL;
use crate::elf::dso::Needed;
use crate::elf::inputs::ElfInput;
use crate::elf::refs::Refs;
use crate::error::Error;
use crate::ids::SymbolId;
use crate::options::{HashStyle, LinkOptions, Mode};
use crate::parallel::{map_all, sorted};
use crate::symbols::{DefinitionKind, SymbolTable, NEEDS_CANONICAL_PLT};

verus! {

/// The planned dynamic symbol table and `.dynamic` section.
#[derive(Debug, PartialEq, Eq)]
pub struct DynamicPlan {
    /// Whether the output has dynamic sections at all.
    pub enabled: bool,
    /// The entries after the null symbol; entry `i` has index `i + 1`.
    pub entries: Vec<Entry>,
    /// Index in `entries` of the first hashed (defined) symbol.
    pub first_hashed: usize,
    /// `.dynsym` index of each symbol (0 when not in the table), by ID.
    pub index: Vec<u32>,
    /// `.dynstr` offset of each entry's name.
    pub names: Vec<u32>,
    /// `.gnu.version` of each entry, including the null entry; empty when
    /// the output has no versions.
    pub versym: Vec<u16>,
    /// `.dynstr` contents.
    pub dynstr: Vec<u8>,
    /// `.gnu.hash` contents (empty if not written).
    pub gnu_hash: Vec<u8>,
    /// `.hash` contents (empty if not written).
    pub sysv_hash: Vec<u8>,
    /// `.gnu.version_r` contents.
    pub verneed: Vec<u8>,
    /// Number of `.gnu.version_r` file entries.
    pub verneed_count: u64,
    /// `.gnu.version_d` contents.
    pub verdef: Vec<u8>,
    /// Number of `.gnu.version_d` entries.
    pub verdef_count: u64,
    /// `.dynamic` entries, `DT_NULL` included.
    pub dynamic: Vec<(i64, DynValue)>,
}

/// Whether a plan has nothing.
pub open spec fn is_empty_plan(plan: DynamicPlan) -> bool {
    &&& !plan.enabled
    &&& plan.entries@.len() == 0
    &&& plan.first_hashed == 0
    &&& plan.index@.len() == 0
    &&& plan.names@.len() == 0
    &&& plan.versym@.len() == 0
    &&& plan.dynstr@.len() == 0
    &&& plan.gnu_hash@.len() == 0
    &&& plan.sysv_hash@.len() == 0
    &&& plan.verneed@.len() == 0
    &&& plan.verneed_count == 0
    &&& plan.verdef@.len() == 0
    &&& plan.verdef_count == 0
    &&& plan.dynamic@.len() == 0
}

impl Default for DynamicPlan {
    fn default() -> (r: DynamicPlan)
        ensures
            is_empty_plan(r),
    {
        DynamicPlan {
            enabled: false,
            entries: Vec::new(),
            first_hashed: 0,
            index: Vec::new(),
            names: Vec::new(),
            versym: Vec::new(),
            dynstr: Vec::new(),
            gnu_hash: Vec::new(),
            sysv_hash: Vec::new(),
            verneed: Vec::new(),
            verneed_count: 0,
            verdef: Vec::new(),
            verdef_count: 0,
            dynamic: Vec::new(),
        }
    }
}

/// `n` times `size`, or as much as fits.
#[verifier::allow_in_spec]
pub fn times(n: u64, size: u64) -> u64
    requires
        size > 0,
    returns
        (if n > u64::MAX / size {
            u64::MAX
        } else {
            (n * size) as u64
        }),
{
    if n > u64::MAX / size {
        u64::MAX
    } else {
        proof {
            assert(n * size <= u64::MAX) by (nonlinear_arith)
                requires
                    n <= u64::MAX / size,
                    size > 0,
            ;
        }
        n * size
    }
}

impl DynamicPlan {
    /// The `.dynsym` index of `id`, or 0.
    pub open spec fn spec_index_of(self, id: SymbolId) -> u32 {
        if id.position < self.index@.len() {
            self.index@[id.position as int]
        } else {
            0
        }
    }

    /// The `.dynsym` index of `id`, or 0.
    pub fn index_of(&self, id: SymbolId) -> (r: u32)
        ensures
            r == self.spec_index_of(id),
    {
        if id.position < self.index.len() {
            self.index[id.position]
        } else {
            0
        }
    }

    /// The number of `.dynsym` entries, the null entry included.
    pub open spec fn spec_count(self) -> u64 {
        if self.entries@.len() < u64::MAX {
            (self.entries@.len() + 1) as u64
        } else {
            u64::MAX
        }
    }

    /// The number of `.dynsym` entries, the null entry included.
    pub fn count(&self) -> (r: u64)
        ensures
            r == self.spec_count(),
    {
        let n: usize = self.entries.len();
        (n as u64).saturating_add(1)
    }

    /// Sizes and alignments of the planned sections.
    pub fn sizes(&self) -> (r: Vec<(Synthetic, u64, u64)>)
        ensures
            r@ == (if !self.enabled {
                Seq::empty()
            } else {
                seq![
                    (
                        Synthetic::DynSym,
                        times(self.spec_count(), DYNSYM_SIZE),
                        8u64,
                    ),
                    (Synthetic::DynStr, self.dynstr@.len() as u64, 1u64),
                    (Synthetic::GnuHash, self.gnu_hash@.len() as u64, 8u64),
                    (Synthetic::Hash, self.sysv_hash@.len() as u64, 4u64),
                    (Synthetic::VerSym, times(self.versym@.len() as u64, 2), 2u64),
                    (Synthetic::VerNeed, self.verneed@.len() as u64, 8u64),
                    (Synthetic::VerDef, self.verdef@.len() as u64, 8u64),
                    (Synthetic::Dynamic, times(self.dynamic@.len() as u64, DYNAMIC_SIZE), 8u64),
                ]
            }),
    {
        let mut out: Vec<(Synthetic, u64, u64)> = Vec::new();
        if !self.enabled {
            assert(out@ =~= Seq::empty());
            return out;
        }
        out.push((Synthetic::DynSym, times(self.count(), DYNSYM_SIZE), 8));
        out.push((Synthetic::DynStr, self.dynstr.len() as u64, 1));
        out.push((Synthetic::GnuHash, self.gnu_hash.len() as u64, 8));
        out.push((Synthetic::Hash, self.sysv_hash.len() as u64, 4));
        out.push((Synthetic::VerSym, times(self.versym.len() as u64, 2), 2));
        out.push((Synthetic::VerNeed, self.verneed.len() as u64, 8));
        out.push((Synthetic::VerDef, self.verdef.len() as u64, 8));
        out.push((Synthetic::Dynamic, times(self.dynamic.len() as u64, DYNAMIC_SIZE), 8));
        out
    }
}

/// What the planner needs from the rest of the link.
#[derive(Clone, Copy, Debug)]
pub struct PlanInput<'p> {
    /// Needed shared objects.
    pub needed: &'p Needed,
    /// The output mode.
    pub mode: Mode,
    /// Options.
    pub options: &'p LinkOptions,
    /// Synthetic sections (GOT, PLT, copies, relocation counts).
    pub synth: &'p Synth,
    /// Exports and versions.
    pub exports: &'p Exports,
    /// The relocation scan.
    pub scan: ScanResult,
    /// The output sections that have contents, by name.
    pub outputs: &'p Vec<Vec<u8>>,
    /// The `DT_SONAME` of a shared object output, or its file name.
    pub soname: &'p Option<Vec<u8>>,
}

/// Whether a chosen symbol is hashed: a defined one is, and one with a
/// canonical PLT entry, which gives an undefined symbol an address the
/// dynamic linker must find by hash.
pub open spec fn is_hashed(symbols: SymbolTable, choice: (SymbolId, bool)) -> bool {
    choice.1 || symbols.flags_of(choice.0).contains(NEEDS_CANONICAL_PLT)
}

/// The entries of the chosen symbols from `i` on that are hashed, or of
/// those that are not.
pub open spec fn split_from(
    symbols: SymbolTable,
    chosen: Seq<(SymbolId, bool)>,
    hashed: bool,
    i: int,
) -> Seq<Entry>
    decreases chosen.len() - i,
{
    if i < 0 || i >= chosen.len() {
        Seq::empty()
    } else if is_hashed(symbols, chosen[i]) == hashed {
        seq![Entry::Symbol(chosen[i].0)] + split_from(symbols, chosen, hashed, i + 1)
    } else {
        split_from(symbols, chosen, hashed, i + 1)
    }
}

/// The entries of the chosen symbols that are hashed, or of those that are
/// not.
fn split(symbols: &SymbolTable, chosen: &Vec<(SymbolId, bool)>, hashed: bool) -> (r: Vec<Entry>)
    ensures
        r@ == split_from(*symbols, chosen@, hashed, 0),
{
    let mut out: Vec<Entry> = Vec::new();
    let ghost whole = split_from(*symbols, chosen@, hashed, 0);
    assert(whole =~= out@ + whole);
    let mut i: usize = 0;
    while i < chosen.len()
        invariant
            i <= chosen@.len(),
            whole == out@ + split_from(*symbols, chosen@, hashed, i as int),
        decreases chosen@.len() - i,
    {
        let ghost before = out@;
        let (id, defined) = chosen[i];
        if (defined || symbols.flags(id).contains(NEEDS_CANONICAL_PLT)) == hashed {
            out.push(Entry::Symbol(id));
            proof {
                let rest = split_from(*symbols, chosen@, hashed, i + 1);
                assert(before + (seq![Entry::Symbol(id)] + rest) =~= out@ + rest);
            }
        }
        i += 1;
    }
    assert(whole =~= out@);
    out
}

/// The hashed entries in ID order, then one for each version.
pub open spec fn hashed_entries(
    symbols: SymbolTable,
    chosen: Seq<(SymbolId, bool)>,
    versions: nat,
) -> Seq<Entry> {
    split_from(symbols, chosen, true, 0) + Seq::new(
        versions,
        |i: int| Entry::Version((i + 2) as u16),
    )
}

/// The name of an entry.
pub open spec fn entry_name(symbols: SymbolTable, defs: Seq<VersionDef>, entry: Entry) -> Seq<u8> {
    match entry {
        Entry::Symbol(id) => symbols.name_of(id),
        Entry::Version(version) => {
            let at = if version < 2 {
                0int
            } else {
                version - 2
            };
            if at < defs.len() {
                defs[at].name@
            } else {
                Seq::empty()
            }
        },
    }
}

/// The name of an entry.
fn find_name<'a>(
    symbols: &'a SymbolTable,
    defs: &'a Vec<VersionDef>,
    nothing: &'a Vec<u8>,
    entry: Entry,
) -> (r: &'a Vec<u8>)
    requires
        nothing@.len() == 0,
    ensures
        r@ == entry_name(*symbols, defs@, entry),
{
    assert(nothing@ =~= Seq::empty());
    match entry {
        Entry::Symbol(id) => if id.position < symbols.symbols.len() {
            &symbols.symbols[id.position].name.bytes
        } else {
            nothing
        },
        Entry::Version(version) => {
            let at: usize = if version < 2 {
                0
            } else {
                version as usize - 2
            };
            if at < defs.len() {
                &defs[at].name
            } else {
                nothing
            }
        },
    }
}

/// The number of buckets of `.gnu.hash` for `n` symbols.
pub open spec fn bucket_count(gnu: bool, n: int) -> int {
    if gnu && n / 4 > 1 {
        n / 4
    } else {
        1
    }
}

/// What hashed entries are sorted by: bucket, symbols before versions, then
/// number.
pub open spec fn entry_row(
    symbols: SymbolTable,
    defs: Seq<VersionDef>,
    buckets: u32,
    entry: Entry,
) -> (u64, u64, u64) {
    let bucket = (super::hash::spec_gnu_hash(entry_name(symbols, defs, entry)) % buckets) as u64;
    match entry {
        Entry::Symbol(id) => (bucket, 0, id.position as u64),
        Entry::Version(version) => (bucket, 1, version as u64),
    }
}

/// The entry of a row.
#[verifier::allow_in_spec]
pub fn row_entry(row: (u64, u64, u64)) -> Entry
    returns
        (if row.1 == 0 {
            Entry::Symbol(SymbolId { position: row.2 as usize })
        } else {
            Entry::Version(row.2 as u16)
        }),
{
    if row.1 == 0 {
        Entry::Symbol(SymbolId { position: row.2 as usize })
    } else {
        Entry::Version(row.2 as u16)
    }
}

/// Entries in the order their hash table asks for.
pub open spec fn in_hash_order(
    symbols: SymbolTable,
    defs: Seq<VersionDef>,
    gnu: bool,
    buckets: u32,
    entries: Seq<Entry>,
) -> Seq<Entry> {
    if gnu {
        let rows = crate::order::sorted_rows(
            Seq::new(entries.len(), |i: int| entry_row(symbols, defs, buckets, entries[i])),
        );
        Seq::new(rows.len(), |i: int| row_entry(rows[i]))
    } else {
        entries
    }
}

/// Entries in the order their hash table asks for.
fn order_entries(
    symbols: &SymbolTable,
    defs: &Vec<VersionDef>,
    gnu: bool,
    buckets: u32,
    entries: Vec<Entry>,
) -> (r: Vec<Entry>)
    requires
        buckets > 0,
    ensures
        r@ == in_hash_order(*symbols, defs@, gnu, buckets, entries@),
{
    if !gnu {
        return entries;
    }
    let nothing: Vec<u8> = Vec::new();
    let each = |entry: &Entry| -> (row: (u64, u64, u64))
        requires
            nothing@.len() == 0,
            buckets > 0,
        ensures
            row == entry_row(*symbols, defs@, buckets, *entry),
        {
            let bucket: u64 = (gnu_hash(find_name(symbols, defs, &nothing, *entry)) % buckets) as u64;
            match *entry {
                Entry::Symbol(id) => (bucket, 0, id.position as u64),
                Entry::Version(version) => (bucket, 1, version as u64),
            }
        };
    let rows: Vec<(u64, u64, u64)> = map_all(&entries, each);
    proof {
        assert forall|i: int| 0 <= i < rows@.len() implies #[trigger] rows@[i] == entry_row(
            *symbols,
            defs@,
            buckets,
            entries@[i],
        ) by {
            assert(each.ensures((&entries@[i],), rows@[i]));
        }
        assert(rows@ =~= Seq::new(
            entries@.len(),
            |i: int| entry_row(*symbols, defs@, buckets, entries@[i]),
        ));
    }
    let ordered: Vec<(u64, u64, u64)> = sorted(rows);
    let mut out: Vec<Entry> = Vec::new();
    let ghost whole = Seq::new(ordered@.len(), |i: int| row_entry(ordered@[i]));
    let mut i: usize = 0;
    while i < ordered.len()
        invariant
            i <= ordered@.len(),
            whole == Seq::new(ordered@.len(), |i: int| row_entry(ordered@[i])),
            out@ =~= whole.take(i as int),
        decreases ordered@.len() - i,
    {
        out.push(row_entry(ordered[i]));
        i += 1;
    }
    assert(out@ =~= whole);
    out
}

/// The number of a symbol among the first `n` entries, 0 where it is not
/// there; the null entry has number 0.
pub open spec fn number_of(entries: Seq<Entry>, id: SymbolId, n: int) -> u32
    decreases n,
{
    if n <= 0 {
        0
    } else if entries[n - 1] == Entry::Symbol(id) {
        n as u32
    } else {
        number_of(entries, id, n - 1)
    }
}

/// The number of each symbol.
fn index_entries(entries: &Vec<Entry>, count: usize) -> (r: Vec<u32>)
    requires
        entries@.len() < u32::MAX,
    ensures
        r@ == Seq::new(
            count as nat,
            |i: int|
                number_of(entries@, SymbolId { position: i as usize }, entries@.len() as int),
        ),
{
    let mut index: Vec<u32> = Vec::new();
    let mut k: usize = 0;
    while k < count
        invariant
            k <= count,
            index@ =~= Seq::new(k as nat, |i: int| 0u32),
        decreases count - k,
    {
        index.push(0);
        k += 1;
    }
    let mut n: usize = 0;
    while n < entries.len()
        invariant
            n <= entries@.len(),
            entries@.len() < u32::MAX,
            index@.len() == count,
            forall|i: int|
                0 <= i < count ==> #[trigger] index@[i] == number_of(
                    entries@,
                    SymbolId { position: i as usize },
                    n as int,
                ),
        decreases entries@.len() - n,
    {
        if let Entry::Symbol(id) = entries[n] {
            if id.position < index.len() {
                index.set(id.position, n as u32 + 1);
            }
        }
        n += 1;
    }
    assert(index@ =~= Seq::new(
        count as nat,
        |i: int| number_of(entries@, SymbolId { position: i as usize }, entries@.len() as int),
    ));
    index
}

/// The version an entry imports.
pub open spec fn entry_version(refs: Refs, entry: Entry) -> Option<(usize, Seq<u8>)> {
    match entry {
        Entry::Symbol(id) => super::versions::imported_version(refs, id),
        Entry::Version(_) => None,
    }
}

/// The version that was found.
pub open spec fn version_view(found: Option<(usize, Vec<u8>)>) -> Option<(usize, Seq<u8>)> {
    match found {
        Some((file, name)) => Some((file, name@)),
        None => None,
    }
}

/// The version each entry imports.
fn list_imported(refs: &Refs, entries: &Vec<Entry>) -> (r: Vec<Option<(usize, Vec<u8>)>>)
    ensures
        r@.len() == entries@.len(),
        forall|i: int|
            0 <= i < entries@.len() ==> version_view(#[trigger] r@[i]) == entry_version(
                *refs,
                entries@[i],
            ),
{
    let each = |entry: &Entry| -> (one: Option<(usize, Vec<u8>)>)
        ensures
            version_view(one) == entry_version(*refs, *entry),
        {
            match *entry {
                Entry::Symbol(id) => match import_version(refs, id) {
                    Some((file, name)) => Some((file, copied(name))),
                    None => None,
                },
                Entry::Version(_) => None,
            }
        };
    let found: Vec<Option<(usize, Vec<u8>)>> = map_all(entries, each);
    assert forall|i: int| 0 <= i < entries@.len() implies version_view(#[trigger] found@[i])
        == entry_version(*refs, entries@[i]) by {
        assert(each.ensures((&entries@[i],), found@[i]));
    }
    found
}

/// The versions needed of shared libraries; glibc refuses `DT_RELR` without
/// a need of a version its libc defines for that purpose.
pub open spec fn plan_needs(refs: Refs, needed: Seq<bool>, relr: bool, entries: Seq<Entry>) -> Seq<
    (usize, Seq<u8>),
> {
    let needs = super::versions::with_needs(
        Seq::empty(),
        Seq::new(entries.len(), |i: int| entry_version(refs, entries[i])),
        0,
    );
    match super::versions::relr_provider_from(refs.files@, needed, 0) {
        Some(libc) => if relr {
            super::versions::with_need(needs, (libc, super::versions::relr_version()))
        } else {
            needs
        },
        None => needs,
    }
}

/// The versions needed of shared libraries, given the one each entry
/// imports.
fn list_needs(
    refs: &Refs,
    needed: &Needed,
    relr: bool,
    entries: &Vec<Entry>,
    imported: &Vec<Option<(usize, Vec<u8>)>>,
) -> (r: Vec<Need>)
    requires
        imported@.len() == entries@.len(),
        forall|i: int|
            0 <= i < entries@.len() ==> version_view(#[trigger] imported@[i]) == entry_version(
                *refs,
                entries@[i],
            ),
    ensures
        super::versions::needs_view(r@) == plan_needs(*refs, needed.needed@, relr, entries@),
{
    let ghost all = Seq::new(entries@.len(), |i: int| entry_version(*refs, entries@[i]));
    let mut needs: Vec<Need> = Vec::new();
    let ghost whole = super::versions::with_needs(Seq::empty(), all, 0);
    assert(super::versions::needs_view(needs@) =~= Seq::empty());
    let mut i: usize = 0;
    while i < imported.len()
        invariant
            i <= imported@.len(),
            imported@.len() == entries@.len(),
            all == Seq::new(entries@.len(), |i: int| entry_version(*refs, entries@[i])),
            forall|k: int|
                0 <= k < entries@.len() ==> version_view(#[trigger] imported@[k])
                    == entry_version(*refs, entries@[k]),
            whole == super::versions::with_needs(
                super::versions::needs_view(needs@),
                all,
                i as int,
            ),
        decreases imported@.len() - i,
    {
        assert(version_view(imported@[i as int]) == all[i as int]);
        if let Some((file, name)) = &imported[i] {
            assert(all[i as int] == Some((*file, name@)));
            add_need(&mut needs, *file, name);
        }
        i += 1;
    }
    if relr {
        if let Some(libc) = relr_version_provider(&refs.files, needed) {
            add_need(&mut needs, libc, GLIBC_ABI_DT_RELR.as_bytes());
        }
    }
    needs
}

/// The names of the needed libraries from `i` on.
pub open spec fn needed_names(files: Seq<ElfInput>, needed: Seq<bool>, i: int) -> Seq<Seq<u8>>
    decreases files.len() - i,
{
    if i < 0 || i >= files.len() {
        Seq::empty()
    } else {
        let rest = needed_names(files, needed, i + 1);
        match files[i].shared {
            Some(shared) => if crate::elf::dso::needed::is_set(needed, i) {
                seq![shared.needed_name@] + rest
            } else {
                rest
            },
            None => rest,
        }
    }
}

/// The names of the needed libraries.
fn list_needed_names<'a>(files: &'a Vec<ElfInput>, needed: &Needed) -> (r: Vec<&'a [u8]>)
    ensures
        super::strtab::texts_view(r@) == needed_names(files@, needed.needed@, 0),
{
    let mut out: Vec<&[u8]> = Vec::new();
    let ghost whole = needed_names(files@, needed.needed@, 0);
    assert(whole =~= super::strtab::texts_view(out@) + whole);
    let mut i: usize = 0;
    while i < files.len()
        invariant
            i <= files@.len(),
            whole == super::strtab::texts_view(out@) + needed_names(
                files@,
                needed.needed@,
                i as int,
            ),
        decreases files@.len() - i,
    {
        let ghost before = super::strtab::texts_view(out@);
        if let Some(shared) = &files[i].shared {
            if needed.is_needed(i) {
                out.push(shared.needed_name.as_slice());
                proof {
                    let rest = needed_names(files@, needed.needed@, i + 1);
                    assert(super::strtab::texts_view(out@) =~= before.push(shared.needed_name@));
                    assert(before + (seq![shared.needed_name@] + rest)
                        =~= super::strtab::texts_view(out@) + rest);
                }
            }
        }
        i += 1;
    }
    assert(whole =~= super::strtab::texts_view(out@));
    out
}

/// Directories from `i` on, parted by colons.
pub open spec fn joined(paths: Seq<Vec<u8>>, i: int) -> Seq<u8>
    decreases paths.len() - i,
{
    if i < 0 || i >= paths.len() {
        Seq::empty()
    } else if i + 1 == paths.len() {
        paths[i]@
    } else {
        paths[i]@ + seq![0x3au8] + joined(paths, i + 1)
    }
}

/// Directories parted by colons.
fn join(paths: &Vec<Vec<u8>>) -> (r: Vec<u8>)
    ensures
        r@ == joined(paths@, 0),
{
    let mut out: Vec<u8> = Vec::new();
    let ghost whole = joined(paths@, 0);
    assert(whole =~= out@ + whole);
    let mut i: usize = 0;
    while i < paths.len()
        invariant
            i <= paths@.len(),
            whole == out@ + joined(paths@, i as int),
        decreases paths@.len() - i,
    {
        let ghost before = out@;
        push_all(&mut out, &paths[i]);
        if i + 1 < paths.len() {
            out.push(0x3a);
            proof {
                let rest = joined(paths@, i + 1);
                assert(before + (paths@[i as int]@ + seq![0x3au8] + rest) =~= out@ + rest);
            }
        } else {
            assert(joined(paths@, i + 1) =~= Seq::empty());
            assert(whole =~= out@ + joined(paths@, i + 1));
        }
        i += 1;
    }
    assert(whole =~= out@);
    out
}

/// A list of names.
pub open spec fn names_view(names: Seq<Vec<u8>>) -> Seq<Seq<u8>> {
    Seq::new(names.len(), |i: int| names[i]@)
}

/// A list of names.
fn list_names(names: &Vec<Vec<u8>>) -> (r: Vec<&[u8]>)
    ensures
        super::strtab::texts_view(r@) == names_view(names@),
{
    let mut out: Vec<&[u8]> = Vec::new();
    let mut i: usize = 0;
    while i < names.len()
        invariant
            i <= names@.len(),
            out@.len() == i,
            forall|k: int| 0 <= k < i ==> (#[trigger] out@[k])@ == names@[k]@,
        decreases names@.len() - i,
    {
        out.push(names[i].as_slice());
        i += 1;
    }
    assert(super::strtab::texts_view(out@) =~= names_view(names@));
    out
}

/// A name, if there is one.
pub open spec fn name_of_option(on: bool, name: Seq<u8>) -> Seq<Seq<u8>> {
    if on {
        seq![name]
    } else {
        Seq::empty()
    }
}

/// The output's own name, if it gets one.
pub open spec fn own_name(options: LinkOptions, mode: Mode) -> Seq<Seq<u8>> {
    match options.soname {
        Some(name) => name_of_option(!mode.executable, name@),
        None => Seq::empty(),
    }
}

/// The string table with the names of libraries, the output's name, the run
/// path and the names of filters, unless it becomes too large.
pub open spec fn library_strings(files: Seq<ElfInput>, input: PlanInput) -> Option<Table> {
    match Table::empty().add_each(needed_names(files, input.needed.needed@, 0), 0) {
        None => None,
        Some(a) => match a.add_each(own_name(*input.options, input.mode), 0) {
            None => None,
            Some(b) => match b.add_each(
                name_of_option(
                    input.options.rpaths@.len() > 0,
                    joined(input.options.rpaths@, 0),
                ),
                0,
            ) {
                None => None,
                Some(c) => match c.add_each(names_view(input.options.auxiliary@), 0) {
                    None => None,
                    Some(d) => d.add_each(names_view(input.options.filter@), 0),
                },
            },
        },
    }
}

/// Whether offsets are those of texts in a table.
pub open spec fn are_offsets(t: Table, texts: Seq<Seq<u8>>, offsets: Seq<u32>) -> bool {
    &&& offsets.len() == texts.len()
    &&& forall|i: int|
        0 <= i < texts.len() ==> t.has(#[trigger] texts[i]) && offsets[i] == t.at(texts[i])
}

/// Whether an offset is that of the only text there is, if there is one.
pub open spec fn is_offset(t: Table, texts: Seq<Seq<u8>>, offset: Option<u32>) -> bool {
    match offset {
        Some(o) => texts.len() == 1 && t.has(texts[0]) && o == t.at(texts[0]),
        None => texts.len() == 0,
    }
}

/// Whether string offsets are those of a table.
pub open spec fn are_strings(
    files: Seq<ElfInput>,
    input: PlanInput,
    t: Table,
    strings: DynamicStrings,
) -> bool {
    &&& are_offsets(t, needed_names(files, input.needed.needed@, 0), strings.needed@)
    &&& is_offset(t, own_name(*input.options, input.mode), strings.soname)
    &&& is_offset(
        t,
        name_of_option(input.options.rpaths@.len() > 0, joined(input.options.rpaths@, 0)),
        strings.run_path,
    )
    &&& are_offsets(t, names_view(input.options.auxiliary@), strings.auxiliary@)
    &&& are_offsets(t, names_view(input.options.filter@), strings.filters@)
}

/// Offsets hold in a table that extends theirs.
proof fn strings_extend(
    files: Seq<ElfInput>,
    input: PlanInput,
    t: Table,
    u: Table,
    s: DynamicStrings,
)
    requires
        are_strings(files, input, t, s),
        u.extends(t),
    ensures
        are_strings(files, input, u, s),
{
}

/// Adds texts, and gives their offsets.
fn add_texts(table: &mut StrTab, texts: &Vec<&[u8]>) -> (r: Result<Vec<u32>, Error>)
    ensures
        match r {
            Ok(offsets) => old(table)@.add_each(super::strtab::texts_view(texts@), 0) == Some(
                final(table)@,
            ) && are_offsets(final(table)@, super::strtab::texts_view(texts@), offsets@)
                && final(table)@.extends(old(table)@),
            Err(e) => old(table)@.add_each(super::strtab::texts_view(texts@), 0) is None && e
                == Error::Limit("dynamic string table larger than 4 GiB"),
        },
{
    let ghost views = super::strtab::texts_view(texts@);
    proof {
        super::strtab::additions_extend(table@, views);
    }
    let offsets: Vec<u32> = table.add_each(texts)?;
    proof {
        assert forall|i: int| 0 <= i < views.len() implies table@.has(#[trigger] views[i])
            && offsets@[i] == table@.at(views[i]) by {
            assert(views[i] == texts@[i]@);
        }
    }
    Ok(offsets)
}

/// Adds a text, if there is one, and gives its offset.
fn add_text_if(table: &mut StrTab, text: Option<&Vec<u8>>) -> (r: Result<Option<u32>, Error>)
    ensures
        ({
            let texts = match text {
                Some(t) => seq![t@],
                None => Seq::empty(),
            };
            match r {
                Ok(offset) => old(table)@.add_each(texts, 0) == Some(final(table)@) && is_offset(
                    final(table)@,
                    texts,
                    offset,
                ) && final(table)@.extends(old(table)@),
                Err(e) => old(table)@.add_each(texts, 0) is None && e == Error::Limit(
                    "dynamic string table larger than 4 GiB",
                ),
            }
        }),
{
    match text {
        Some(t) => {
            let ghost before = table@;
            let ghost texts = seq![t@];
            proof {
                super::strtab::additions_extend(before, texts);
                reveal_with_fuel(Table::add_each, 2);
            }
            let offset: u32 = table.add(t)?;
            Ok(Some(offset))
        },
        None => Ok(None),
    }
}

/// Adds the names of libraries, the output's name, the run path and the
/// names of filters.
fn add_library_strings(files: &Vec<ElfInput>, input: &PlanInput, table: &mut StrTab) -> (r: Result<
    DynamicStrings,
    Error,
>)
    requires
        old(table)@ == Table::empty(),
    ensures
        match r {
            Ok(strings) => library_strings(files@, *input) == Some(final(table)@) && are_strings(
                files@,
                *input,
                final(table)@,
                strings,
            ),
            Err(e) => library_strings(files@, *input) is None && e == Error::Limit(
                "dynamic string table larger than 4 GiB",
            ),
        },
{
    let options: &LinkOptions = input.options;
    let names: Vec<&[u8]> = list_needed_names(files, input.needed);
    let needed: Vec<u32> = add_texts(table, &names)?;
    let ghost a = table@;
    let own: Option<&Vec<u8>> = if !input.mode.executable {
        options.soname.as_ref()
    } else {
        None
    };
    let soname: Option<u32> = add_text_if(table, own)?;
    let ghost b = table@;
    let path: Vec<u8> = join(&options.rpaths);
    let run_path: Option<u32> = add_text_if(
        table,
        if options.rpaths.len() > 0 {
            Some(&path)
        } else {
            None
        },
    )?;
    let ghost c = table@;
    let auxiliary_names: Vec<&[u8]> = list_names(&options.auxiliary);
    let auxiliary: Vec<u32> = add_texts(table, &auxiliary_names)?;
    let ghost d = table@;
    let filter_names: Vec<&[u8]> = list_names(&options.filter);
    let filters: Vec<u32> = add_texts(table, &filter_names)?;
    proof {
        assert(b.extends(a));
        assert(c.extends(b));
        assert(d.extends(c));
        assert(table@.extends(d));
        assert(table@.extends(a));
        assert(table@.extends(b));
        assert(table@.extends(c));
    }
    Ok(DynamicStrings { needed, soname, run_path, auxiliary, filters })
}

/// Sorting leaves as many rows.
proof fn sorting_keeps_the_count(rows: Seq<(u64, u64, u64)>)
    ensures
        crate::order::sorted_rows(rows).len() == rows.len(),
{
    let after = crate::order::sorted_rows(rows);
    crate::order::sorting_is_unique(rows, after);
    rows.to_multiset_ensures();
    after.to_multiset_ensures();
}

/// The hash order has every entry.
proof fn hash_order_keeps_the_count(
    symbols: SymbolTable,
    defs: Seq<VersionDef>,
    gnu: bool,
    buckets: u32,
    entries: Seq<Entry>,
)
    ensures
        in_hash_order(symbols, defs, gnu, buckets, entries).len() == entries.len(),
{
    sorting_keeps_the_count(
        Seq::new(entries.len(), |i: int| entry_row(symbols, defs, buckets, entries[i])),
    );
}

/// What a plan is made from.
#[verifier::ext_equal]
pub struct Outline {
    /// The entries.
    pub entries: Seq<Entry>,
    /// The position of the first hashed one.
    pub first: nat,
    /// The buckets of `.gnu.hash`.
    pub buckets: u32,
    /// The versions needed.
    pub needs: Seq<(usize, Seq<u8>)>,
    /// The number of the first of them.
    pub first_need: u16,
    /// The string table.
    pub table: Table,
}

/// The string table of a plan.
pub open spec fn plan_strings(
    refs: Refs,
    input: PlanInput,
    entries: Seq<Entry>,
    needs: Seq<(usize, Seq<u8>)>,
) -> Result<Table, &'static str> {
    let defs = input.exports.spec_defs();
    let base = match *input.soname {
        Some(name) => name@,
        None => Seq::empty(),
    };
    match library_strings(refs.files@, input) {
        None => Err("dynamic string table larger than 4 GiB"),
        Some(a) => match a.add_all(
            Seq::new(entries.len(), |i: int| entry_name(refs.symbols, defs, entries[i])),
        ) {
            None => Err("dynamic string table larger than 4 GiB"),
            Some(b) => match super::versions::need_strings(
                refs.files@,
                needs,
                super::versions::need_files(needs, 0),
                0,
                b,
            ) {
                Err(text) => Err(text),
                Ok(c) => if defs.len() == 0 {
                    Ok(c)
                } else {
                    match c.add_each(seq![base] + super::versions::defs_names(defs, 0), 0) {
                        None => Err("dynamic string table larger than 4 GiB"),
                        Some(d) => if super::versions::too_many_parents(defs, 0) {
                            Err("too many version parents")
                        } else {
                            Ok(d)
                        },
                    }
                },
            },
        },
    }
}

/// What the plan of chosen symbols is made from, or which table exceeds its
/// format.
pub open spec fn outline(refs: Refs, input: PlanInput, chosen: Seq<(SymbolId, bool)>) -> Result<
    Outline,
    &'static str,
> {
    let defs = input.exports.spec_defs();
    let gnu = input.options.hash_style != HashStyle::Sysv;
    let hashed = hashed_entries(refs.symbols, chosen, defs.len());
    let buckets = bucket_count(gnu, hashed.len() as int);
    let imports = split_from(refs.symbols, chosen, false, 0);
    let entries = imports + in_hash_order(refs.symbols, defs, gnu, buckets as u32, hashed);
    let needs = plan_needs(
        refs,
        input.needed.needed@,
        input.synth.relr_count > 0,
        entries,
    );
    if defs.len() + 1 > u16::MAX {
        Err("too many symbol versions")
    } else if buckets > u32::MAX || entries.len() + 1 > u32::MAX {
        Err("too many dynamic symbols")
    } else if defs.len() + 2 > u16::MAX {
        Err("too many symbol versions")
    } else {
        match plan_strings(refs, input, entries, needs) {
            Err(text) => Err(text),
            Ok(table) => Ok(
                Outline {
                    entries,
                    first: imports.len(),
                    buckets: buckets as u32,
                    needs,
                    first_need: (defs.len() + 2) as u16,
                    table,
                },
            ),
        }
    }
}

/// The version of an entry.
pub open spec fn spec_versym(
    refs: Refs,
    exports: Exports,
    needs: Seq<(usize, Seq<u8>)>,
    first_need: u16,
    entry: Entry,
) -> u16 {
    match entry {
        Entry::Version(version) => version,
        Entry::Symbol(id) => match super::versions::imported_version(refs, id) {
            Some(need) => super::versions::need_number(needs, need, first_need),
            None => {
                let kind = refs.symbols.definition_of(id).kind;
                if kind == DefinitionKind::Regular || kind == DefinitionKind::Weak || kind
                    == DefinitionKind::Common {
                    if exports.spec_version(id) == 0 {
                        VER_NDX_GLOBAL
                    } else {
                        exports.spec_version(id)
                    }
                } else {
                    0
                }
            },
        },
    }
}

/// Whether `plan` is the plan of an outline.
pub open spec fn is_plan(refs: Refs, input: PlanInput, o: Outline, plan: DynamicPlan) -> bool {
    let defs = input.exports.spec_defs();
    let gnu = input.options.hash_style != HashStyle::Sysv;
    let sysv = input.options.hash_style != HashStyle::Gnu;
    let group = super::versions::need_files(o.needs, 0);
    let base = match *input.soname {
        Some(name) => name@,
        None => Seq::empty(),
    };
    let names = Seq::new(o.entries.len(), |i: int| entry_name(refs.symbols, defs, o.entries[i]));
    let tables = DynamicTables {
        gnu_hash: plan.gnu_hash@.len() > 0,
        sysv_hash: plan.sysv_hash@.len() > 0,
        versym: plan.versym@.len() > 0,
        verdef_count: plan.verdef_count,
        verneed_count: plan.verneed_count,
    };
    &&& plan.enabled
    &&& plan.entries@ == o.entries
    &&& plan.first_hashed == o.first
    &&& plan.index@ == Seq::new(
        refs.symbols.symbols@.len(),
        |i: int|
            number_of(o.entries, SymbolId { position: i as usize }, o.entries.len() as int),
    )
    &&& plan.names@ == Seq::new(o.entries.len(), |i: int| o.table.lookup(names[i]))
    &&& plan.versym@ == (if defs.len() > 0 || o.needs.len() > 0 {
        seq![0u16] + Seq::new(
            o.entries.len(),
            |i: int| spec_versym(refs, *input.exports, o.needs, o.first_need, o.entries[i]),
        )
    } else {
        Seq::empty()
    })
    &&& plan.dynstr@ == o.table.data
    &&& plan.gnu_hash@ == (if gnu {
        super::hash::gnu_table(
            Seq::new(
                (o.entries.len() - o.first) as nat,
                |i: int| super::hash::spec_gnu_hash(names[o.first + i]),
            ),
            o.buckets,
            o.first as int + 1,
        )
    } else {
        Seq::empty()
    })
    &&& plan.sysv_hash@ == (if sysv {
        super::hash::sysv_table(
            Seq::new(o.entries.len(), |i: int| super::hash::spec_sysv_hash(names[i])),
        )
    } else {
        Seq::empty()
    })
    &&& plan.verneed@ == super::versions::need_records(
        refs.files@,
        o.needs,
        o.first_need,
        group,
        0,
        o.table,
    )
    &&& plan.verneed_count == group.len()
    &&& plan.verdef@ == (if defs.len() > 0 {
        super::versions::verdef_bytes(base, defs, o.table)
    } else {
        Seq::empty()
    })
    &&& plan.verdef_count == (if defs.len() > 0 {
        defs.len() + 1
    } else {
        0
    })
    &&& exists|strings: DynamicStrings| #[trigger]
        are_strings(refs.files@, input, o.table, strings) && plan.dynamic@
            == super::dynamic::spec_dynamic_entries(
            refs,
            *input.options,
            input.mode,
            *input.synth,
            input.scan,
            input.outputs@,
            tables,
            strings,
        )
}

/// Names of a table that others extend are where they were.
proof fn names_extend(t: Table, u: Table, texts: Seq<Seq<u8>>)
    requires
        u.extends(t),
        forall|i: int| 0 <= i < texts.len() ==> t.has(#[trigger] texts[i]),
    ensures
        forall|i: int| 0 <= i < texts.len() ==> #[trigger] t.at(texts[i]) == u.lookup(texts[i]),
{
    assert forall|i: int| 0 <= i < texts.len() implies #[trigger] t.at(texts[i]) == u.lookup(
        texts[i],
    ) by {
        assert(t.has(texts[i]));
    }
}

/// The names of the versions that were added are not too many.
proof fn needs_can_be_counted(
    files: Seq<ElfInput>,
    needs: Seq<(usize, Seq<u8>)>,
    group: Seq<usize>,
    k: int,
    t: Table,
)
    requires
        0 <= k,
        super::versions::need_strings(files, needs, group, k, t) is Ok,
    ensures
        forall|m: int|
            k <= m < group.len() ==> super::versions::versions_in(
                needs,
                #[trigger] group[m],
                0,
            ).len() <= u16::MAX,
    decreases group.len() - k,
{
    if k < group.len() {
        let versions = super::versions::versions_in(needs, group[k], 0);
        let texts = seq![super::versions::needed_name(files, group[k] as int)] + versions;
        if let Some(next) = t.add_each(texts, 0) {
            needs_can_be_counted(files, needs, group, k + 1, next);
        }
    }
}

/// The names of entries.
fn list_entry_names<'a>(
    symbols: &'a SymbolTable,
    defs: &'a Vec<VersionDef>,
    nothing: &'a Vec<u8>,
    entries: &Vec<Entry>,
) -> (r: Vec<&'a [u8]>)
    requires
        nothing@.len() == 0,
    ensures
        r@.len() == entries@.len(),
        super::strtab::texts_view(r@) == Seq::new(
            entries@.len(),
            |i: int| entry_name(*symbols, defs@, entries@[i]),
        ),
{
    let mut out: Vec<&[u8]> = Vec::new();
    let mut i: usize = 0;
    while i < entries.len()
        invariant
            i <= entries@.len(),
            nothing@.len() == 0,
            out@.len() == i,
            forall|k: int|
                0 <= k < i ==> (#[trigger] out@[k])@ == entry_name(*symbols, defs@, entries@[k]),
        decreases entries@.len() - i,
    {
        out.push(find_name(symbols, defs, nothing, entries[i]).as_slice());
        i += 1;
    }
    assert(super::strtab::texts_view(out@) =~= Seq::new(
        entries@.len(),
        |i: int| entry_name(*symbols, defs@, entries@[i]),
    ));
    out
}

/// The GNU hashes of names from `first` on.
fn gnu_hashes(names: &Vec<&[u8]>, first: usize) -> (r: Vec<u32>)
    requires
        first <= names@.len(),
    ensures
        r@ == Seq::new(
            (names@.len() - first) as nat,
            |i: int| super::hash::spec_gnu_hash(names@[first + i]@),
        ),
{
    let mut out: Vec<u32> = Vec::new();
    let ghost whole = Seq::new(
        (names@.len() - first) as nat,
        |i: int| super::hash::spec_gnu_hash(names@[first + i]@),
    );
    let mut i: usize = first;
    while i < names.len()
        invariant
            first <= i <= names@.len(),
            whole == Seq::new(
                (names@.len() - first) as nat,
                |i: int| super::hash::spec_gnu_hash(names@[first + i]@),
            ),
            out@ =~= whole.take(i - first),
        decreases names@.len() - i,
    {
        out.push(gnu_hash(names[i]));
        i += 1;
    }
    assert(out@ =~= whole);
    out
}

/// The System V hashes of names.
fn sysv_hashes(names: &Vec<&[u8]>) -> (r: Vec<u32>)
    ensures
        r@ == Seq::new(names@.len(), |i: int| super::hash::spec_sysv_hash(names@[i]@)),
{
    let mut out: Vec<u32> = Vec::new();
    let ghost whole = Seq::new(names@.len(), |i: int| super::hash::spec_sysv_hash(names@[i]@));
    let mut i: usize = 0;
    while i < names.len()
        invariant
            i <= names@.len(),
            whole == Seq::new(names@.len(), |i: int| super::hash::spec_sysv_hash(names@[i]@)),
            out@ =~= whole.take(i as int),
        decreases names@.len() - i,
    {
        out.push(sysv_hash(names[i]));
        i += 1;
    }
    assert(out@ =~= whole);
    out
}

/// The version of each entry, the null entry first.
fn list_versym(
    refs: &Refs,
    exports: &Exports,
    needs: &Vec<Need>,
    first_need: u16,
    entries: &Vec<Entry>,
) -> (r: Vec<u16>)
    ensures
        r@ == seq![0u16] + Seq::new(
            entries@.len(),
            |i: int|
                spec_versym(
                    *refs,
                    *exports,
                    super::versions::needs_view(needs@),
                    first_need,
                    entries@[i],
                ),
        ),
{
    let each = |entry: &Entry| -> (one: u16)
        ensures
            one == spec_versym(
                *refs,
                *exports,
                super::versions::needs_view(needs@),
                first_need,
                *entry,
            ),
        {
            match *entry {
                Entry::Version(version) => version,
                Entry::Symbol(id) => match import_version(refs, id) {
                    Some((file, name)) => need_index(needs, file, name, first_need),
                    None => match refs.symbols.definition_kind(id) {
                        DefinitionKind::Regular | DefinitionKind::Weak | DefinitionKind::Common => {
                            let version: u16 = exports.version(id);
                            if version == 0 {
                                VER_NDX_GLOBAL
                            } else {
                                version
                            }
                        },
                        _ => 0,
                    },
                },
            }
        };
    let versions: Vec<u16> = map_all(entries, each);
    let ghost whole = Seq::new(
        entries@.len(),
        |i: int|
            spec_versym(
                *refs,
                *exports,
                super::versions::needs_view(needs@),
                first_need,
                entries@[i],
            ),
    );
    proof {
        assert forall|i: int| 0 <= i < versions@.len() implies #[trigger] versions@[i]
            == whole[i] by {
            assert(each.ensures((&entries@[i],), versions@[i]));
        }
        assert(versions@ =~= whole);
    }
    let mut out: Vec<u16> = Vec::new();
    out.push(0);
    let mut i: usize = 0;
    while i < versions.len()
        invariant
            i <= versions@.len(),
            out@ =~= seq![0u16] + versions@.take(i as int),
        decreases versions@.len() - i,
    {
        out.push(versions[i]);
        i += 1;
    }
    assert(versions@.take(i as int) =~= versions@);
    out
}

/// The entries of chosen symbols, where the hashed ones start, and the
/// buckets of `.gnu.hash`.
fn list_entries(
    symbols: &SymbolTable,
    defs: &Vec<VersionDef>,
    gnu: bool,
    chosen: &Vec<(SymbolId, bool)>,
) -> (r: Result<(Vec<Entry>, usize, u32), Error>)
    requires
        defs@.len() + 1 <= u16::MAX,
    ensures
        ({
            let hashed = hashed_entries(*symbols, chosen@, defs@.len());
            let buckets = bucket_count(gnu, hashed.len() as int);
            let imports = split_from(*symbols, chosen@, false, 0);
            let entries = imports + in_hash_order(*symbols, defs@, gnu, buckets as u32, hashed);
            match r {
                Ok((list, first, n)) => list@ == entries && first == imports.len() && n == buckets
                    && n > 0 && first <= list@.len() && list@.len() + 1 <= u32::MAX,
                Err(e) => (buckets > u32::MAX || entries.len() + 1 > u32::MAX) && e
                    == Error::Limit("too many dynamic symbols"),
            }
        }),
{
    let mut entries: Vec<Entry> = split(symbols, chosen, false);
    let first: usize = entries.len();
    let mut hashed: Vec<Entry> = split(symbols, chosen, true);
    let ghost named = hashed@;
    let mut i: usize = 0;
    while i < defs.len()
        invariant
            i <= defs@.len(),
            defs@.len() + 1 <= u16::MAX,
            hashed@ =~= named + Seq::new(i as nat, |k: int| Entry::Version((k + 2) as u16)),
        decreases defs@.len() - i,
    {
        hashed.push(Entry::Version(i as u16 + 2));
        i += 1;
    }
    assert(hashed@ == hashed_entries(*symbols, chosen@, defs@.len()));
    let count: usize = hashed.len();
    let least: usize = if gnu && count / 4 > 1 {
        count / 4
    } else {
        1
    };
    if least as u64 > u32::MAX as u64 {
        return Err(Error::Limit("too many dynamic symbols"));
    }
    let buckets: u32 = least as u32;
    proof {
        hash_order_keeps_the_count(*symbols, defs@, gnu, buckets, hashed@);
    }
    let ghost imports = entries@;
    let ordered: Vec<Entry> = order_entries(symbols, defs, gnu, buckets, hashed);
    let mut k: usize = 0;
    while k < ordered.len()
        invariant
            k <= ordered@.len(),
            entries@ =~= imports + ordered@.take(k as int),
        decreases ordered@.len() - k,
    {
        entries.push(ordered[k]);
        k += 1;
    }
    assert(ordered@.take(k as int) =~= ordered@);
    let total: usize = entries.len();
    if total as u64 >= u32::MAX as u64 {
        return Err(Error::Limit("too many dynamic symbols"));
    }
    Ok((entries, first, buckets))
}

/// Adds the strings of a plan, and gives those of `.dynamic` and of the
/// names.
fn add_plan_strings(
    refs: &Refs,
    input: &PlanInput,
    defs: &Vec<VersionDef>,
    base: &Vec<u8>,
    entries: &Vec<Entry>,
    names: &Vec<&[u8]>,
    needs: &Vec<Need>,
    group: &Vec<usize>,
    table: &mut StrTab,
) -> (r: Result<(DynamicStrings, Vec<u32>), Error>)
    requires
        old(table)@ == Table::empty(),
        defs@ == input.exports.spec_defs(),
        base@ == (match *input.soname {
            Some(name) => name@,
            None => Seq::empty(),
        }),
        super::strtab::texts_view(names@) == Seq::new(
            entries@.len(),
            |i: int| entry_name(refs.symbols, defs@, entries@[i]),
        ),
        group@ == super::versions::need_files(super::versions::needs_view(needs@), 0),
    ensures
        ({
            let view = super::versions::needs_view(needs@);
            match (r, plan_strings(*refs, *input, entries@, view)) {
                (Ok((strings, offsets)), Ok(t)) => {
                    &&& final(table)@ == t
                    &&& are_strings(refs.files@, *input, t, strings)
                    &&& offsets@ == Seq::new(
                        entries@.len(),
                        |i: int| t.lookup(entry_name(refs.symbols, defs@, entries@[i])),
                    )
                    &&& forall|k: int|
                        0 <= k < group@.len() ==> super::versions::versions_in(
                            view,
                            #[trigger] group@[k],
                            0,
                        ).len() <= u16::MAX
                    &&& defs@.len() > 0 ==> !super::versions::too_many_parents(defs@, 0)
                },
                (Err(e), Err(text)) => e == Error::Limit(text),
                _ => false,
            }
        }),
{
    let ghost view = super::versions::needs_view(needs@);
    let ghost texts = Seq::new(
        entries@.len(),
        |i: int| entry_name(refs.symbols, defs@, entries@[i]),
    );
    let strings: DynamicStrings = add_library_strings(&refs.files, input, table)?;
    let ghost a = table@;
    let offsets: Vec<u32> = table.add_all(names)?;
    let ghost b = table@;
    proof {
        super::strtab::additions_extend(a, texts);
        assert(super::strtab::texts_view(names@).len() == names@.len());
        assert forall|i: int| 0 <= i < texts.len() implies b.has(#[trigger] texts[i])
            && offsets@[i] == b.at(texts[i]) by {
            super::strtab::strings_are_there(a, texts, 0, i);
            assert(super::strtab::texts_view(names@)[i] == names@[i]@);
        }
    }
    match add_need_strings(&refs.files, needs, group, table) {
        Ok(()) => {},
        Err(e) => {
            return Err(e);
        },
    }
    let ghost c = table@;
    proof {
        super::versions::need_strings_extend(refs.files@, view, group@, 0, b);
        needs_can_be_counted(refs.files@, view, group@, 0, b);
        assert(c.extends(b));
    }
    if defs.len() > 0 {
        let def_names: Vec<&[u8]> = list_defs_names(base, defs);
        proof {
            super::strtab::additions_extend(c, super::strtab::texts_view(def_names@));
        }
        let _ = table.add_each(&def_names)?;
        let mut i: usize = 0;
        while i < defs.len()
            invariant
                i <= defs@.len(),
                super::versions::too_many_parents(defs@, 0) == super::versions::too_many_parents(
                    defs@,
                    i as int,
                ),
                defs@ == input.exports.spec_defs(),
                defs@.len() > 0,
                view == super::versions::needs_view(needs@),
                plan_strings(*refs, *input, entries@, view) == (
                if super::versions::too_many_parents(defs@, 0) {
                    Err::<Table, &'static str>("too many version parents")
                } else {
                    Ok::<Table, &'static str>(table@)
                }),
            decreases defs@.len() - i,
        {
            if defs[i].parents.len() as u64 >= u16::MAX as u64 {
                return Err(Error::Limit("too many version parents"));
            }
            i += 1;
        }
    }
    let ghost d = table@;
    proof {
        assert(d.extends(c));
        assert(d.extends(b));
        assert(d.extends(a));
        strings_extend(refs.files@, *input, a, d, strings);
        names_extend(b, d, texts);
        assert(offsets@ =~= Seq::new(
            entries@.len(),
            |i: int| d.lookup(entry_name(refs.symbols, defs@, entries@[i])),
        )) by {
            assert forall|i: int| 0 <= i < texts.len() implies #[trigger] offsets@[i] == d.lookup(
                texts[i],
            ) by {
                assert(b.has(texts[i]));
                assert(b.at(texts[i]) == d.lookup(texts[i]));
            }
        }
    }
    Ok((strings, offsets))
}

/// The symbols that are dynamic, with their aliases.
pub open spec fn plan_choice(refs: Refs, input: PlanInput) -> Seq<(SymbolId, bool)> {
    let chosen = super::chosen::chosen_from(
        refs,
        input.mode,
        input.options.gc_sections,
        *input.synth,
        0,
    );
    super::chosen::with_imports(
        chosen,
        super::chosen::aliases_of(refs, *input.synth, chosen).added,
        0,
    )
}

/// The symbols, with the references of the aliases set.
pub open spec fn plan_symbols(refs: Refs, input: PlanInput) -> Seq<crate::symbols::Symbol> {
    let chosen = super::chosen::chosen_from(
        refs,
        input.mode,
        input.options.gc_sections,
        *input.synth,
        0,
    );
    super::chosen::aliases_of(refs, *input.synth, chosen).symbols
}

/// Plans the dynamic symbol table; see the [module documentation](super).
/// Sets on aliases the references that lead to them.
pub fn plan(input: &PlanInput, refs: &mut Refs) -> (r: Result<DynamicPlan, Error>)
    ensures
        !input.mode.dynamic ==> *final(refs) == *old(refs) && (match r {
            Ok(plan) => is_empty_plan(plan),
            Err(_) => false,
        }),
        input.mode.dynamic ==> final(refs).symbols.symbols@ == plan_symbols(*old(refs), *input)
            && match (r, outline(*final(refs), *input, plan_choice(*old(refs), *input))) {
            (Ok(plan), Ok(o)) => is_plan(*final(refs), *input, o, plan),
            (Err(e), Err(text)) => e == Error::Limit(text),
            _ => false,
        },
        final(refs).files == old(refs).files,
        final(refs).sections == old(refs).sections,
        final(refs).resolution == old(refs).resolution,
        final(refs).targets == old(refs).targets,
        final(refs).globals == old(refs).globals,
{
    let options: &LinkOptions = input.options;
    if !input.mode.dynamic {
        return Ok(DynamicPlan::default());
    }
    let first_choice: Vec<(SymbolId, bool)> = choose_symbols(
        refs,
        input.mode,
        options.gc_sections,
        input.synth,
    );
    let chosen: Vec<(SymbolId, bool)> = with_strong_aliases(refs, input.synth, first_choice);
    plan_chosen(input, refs, &chosen)
}

/// Plans the dynamic symbol table of chosen symbols.
fn plan_chosen(input: &PlanInput, refs: &Refs, chosen: &Vec<(SymbolId, bool)>) -> (r: Result<
    DynamicPlan,
    Error,
>)
    ensures
        match (r, outline(*refs, *input, chosen@)) {
            (Ok(plan), Ok(o)) => is_plan(*refs, *input, o, plan),
            (Err(e), Err(text)) => e == Error::Limit(text),
            _ => false,
        },
{
    let options: &LinkOptions = input.options;
    let nothing: Vec<u8> = Vec::new();
    let no_defs: Vec<VersionDef> = Vec::new();
    let defs: &Vec<VersionDef> = match &input.exports.script {
        Some(script) => &script.defs,
        None => &no_defs,
    };
    assert(defs@ =~= input.exports.spec_defs());
    let base: &Vec<u8> = match input.soname {
        Some(name) => name,
        None => &nothing,
    };
    assert(nothing@ =~= Seq::empty());
    let gnu: bool = options.hash_style != HashStyle::Sysv;
    let def_count: usize = defs.len();
    if def_count as u64 >= u16::MAX as u64 {
        return Err(Error::Limit("too many symbol versions"));
    }
    let (entries, first, buckets) = list_entries(&refs.symbols, defs, gnu, chosen)?;
    let imported: Vec<Option<(usize, Vec<u8>)>> = list_imported(refs, &entries);
    let needs: Vec<Need> = list_needs(
        refs,
        input.needed,
        input.synth.relr_count > 0,
        &entries,
        &imported,
    );
    if def_count as u64 >= u16::MAX as u64 - 1 {
        return Err(Error::Limit("too many symbol versions"));
    }
    let first_need: u16 = def_count as u16 + 2;
    let group: Vec<usize> = list_need_files(&needs);
    let names: Vec<&[u8]> = list_entry_names(&refs.symbols, defs, &nothing, &entries);
    let mut table: StrTab = StrTab::new();
    let (strings, offsets) = add_plan_strings(
        refs,
        input,
        defs,
        base,
        &entries,
        &names,
        &needs,
        &group,
        &mut table,
    )?;
    let ghost o = outline(*refs, *input, chosen@)->Ok_0;
    fill_plan(
        input,
        refs,
        defs,
        base,
        entries,
        first,
        buckets,
        &needs,
        first_need,
        &group,
        &names,
        &table,
        &strings,
        offsets,
        Ghost(o),
    )
}

/// Fills the tables of a plan.
fn fill_plan(
    input: &PlanInput,
    refs: &Refs,
    defs: &Vec<VersionDef>,
    base: &Vec<u8>,
    entries: Vec<Entry>,
    first: usize,
    buckets: u32,
    needs: &Vec<Need>,
    first_need: u16,
    group: &Vec<usize>,
    names: &Vec<&[u8]>,
    table: &StrTab,
    strings: &DynamicStrings,
    offsets: Vec<u32>,
    Ghost(o): Ghost<Outline>,
) -> (r: Result<DynamicPlan, Error>)
    requires
        defs@ == input.exports.spec_defs(),
        defs@.len() + 2 <= u16::MAX,
        base@ == (match *input.soname {
            Some(name) => name@,
            None => Seq::empty(),
        }),
        entries@ == o.entries,
        entries@.len() + 1 <= u32::MAX,
        first == o.first,
        first <= entries@.len(),
        buckets == o.buckets,
        buckets > 0,
        super::versions::needs_view(needs@) == o.needs,
        first_need == o.first_need,
        group@ == super::versions::need_files(o.needs, 0),
        names@.len() == entries@.len(),
        super::strtab::texts_view(names@) == Seq::new(
            entries@.len(),
            |i: int| entry_name(refs.symbols, defs@, entries@[i]),
        ),
        table@ == o.table,
        are_strings(refs.files@, *input, o.table, *strings),
        offsets@ == Seq::new(
            entries@.len(),
            |i: int| o.table.lookup(entry_name(refs.symbols, defs@, entries@[i])),
        ),
        forall|k: int|
            0 <= k < group@.len() ==> super::versions::versions_in(
                o.needs,
                #[trigger] group@[k],
                0,
            ).len() <= u16::MAX,
        defs@.len() > 0 ==> !super::versions::too_many_parents(defs@, 0),
    ensures
        match r {
            Ok(plan) => is_plan(*refs, *input, o, plan),
            Err(_) => false,
        },
{
    let options: &LinkOptions = input.options;
    let gnu: bool = options.hash_style != HashStyle::Sysv;
    let sysv: bool = options.hash_style != HashStyle::Gnu;
    let def_count: usize = defs.len();
    let versym: Vec<u16> = if def_count > 0 || needs.len() > 0 {
        list_versym(refs, input.exports, needs, first_need, &entries)
    } else {
        Vec::new()
    };
    let verneed_data: Vec<u8> = verneed(&refs.files, needs, first_need, group, table);
    let verdef_data: Vec<u8> = if def_count > 0 {
        verdef(base, defs, table)?
    } else {
        Vec::new()
    };
    let verdef_count: u64 = if def_count > 0 {
        def_count as u64 + 1
    } else {
        0
    };
    let gnu_data: Vec<u8> = if gnu {
        let hashes: Vec<u32> = gnu_hashes(names, first);
        build_gnu_hash(&hashes, buckets, first)?
    } else {
        Vec::new()
    };
    let sysv_data: Vec<u8> = if sysv {
        let hashes: Vec<u32> = sysv_hashes(names);
        build_sysv_hash(&hashes)?
    } else {
        Vec::new()
    };
    let index: Vec<u32> = index_entries(&entries, refs.symbols.len());
    let tables: DynamicTables = DynamicTables {
        gnu_hash: gnu_data.len() > 0,
        sysv_hash: sysv_data.len() > 0,
        versym: versym.len() > 0,
        verdef_count,
        verneed_count: group.len() as u64,
    };
    let dynamic: Vec<(i64, DynValue)> = dynamic_entries(
        refs,
        options,
        input.mode,
        input.synth,
        input.scan,
        input.outputs,
        tables,
        strings,
    );
    let plan: DynamicPlan = DynamicPlan {
        enabled: true,
        entries,
        first_hashed: first,
        index,
        names: offsets,
        versym,
        dynstr: copied(table.bytes()),
        gnu_hash: gnu_data,
        sysv_hash: sysv_data,
        verneed: verneed_data,
        verneed_count: group.len() as u64,
        verdef: verdef_data,
        verdef_count,
        dynamic,
    };
    proof {
        let all = Seq::new(o.entries.len(), |i: int| entry_name(refs.symbols, defs@, o.entries[i]));
        assert forall|i: int| 0 <= i < all.len() implies names@[i]@ == #[trigger] all[i] by {
            assert(super::strtab::texts_view(names@)[i] == names@[i]@);
        }
        assert(plan.names@ =~= Seq::new(o.entries.len(), |i: int| o.table.lookup(all[i])));
        if gnu {
            assert(Seq::new(
                (names@.len() - first) as nat,
                |i: int| super::hash::spec_gnu_hash(names@[first + i]@),
            ) =~= Seq::new(
                (o.entries.len() - o.first) as nat,
                |i: int| super::hash::spec_gnu_hash(all[o.first + i]),
            ));
        }
        if sysv {
            assert(Seq::new(names@.len(), |i: int| super::hash::spec_sysv_hash(names@[i]@))
                =~= Seq::new(o.entries.len(), |i: int| super::hash::spec_sysv_hash(all[i])));
        }
        assert(are_strings(refs.files@, *input, o.table, *strings));
        assert(is_plan(*refs, *input, o, plan));
    }
    Ok(plan)
}

/// With `.gnu.hash` the hashed entries are those there are, in the order of
/// their buckets, so that lookups find them.
pub proof fn hashed_entries_are_in_bucket_order(
    symbols: SymbolTable,
    defs: Seq<VersionDef>,
    buckets: u32,
    entries: Seq<Entry>,
)
    requires
        buckets > 0,
    ensures
        ({
            let r = in_hash_order(symbols, defs, true, buckets, entries);
            &&& super::hash::in_bucket_order(
                Seq::new(
                    r.len(),
                    |i: int| super::hash::spec_gnu_hash(entry_name(symbols, defs, r[i])),
                ),
                buckets,
            )
            &&& forall|entry: Entry| #[trigger] r.contains(entry) <==> entries.contains(entry)
        }),
{
    let listed = Seq::new(entries.len(), |i: int| entry_row(symbols, defs, buckets, entries[i]));
    let rows = crate::order::sorted_rows(listed);
    let r = in_hash_order(symbols, defs, true, buckets, entries);
    let hashes = Seq::new(
        r.len(),
        |i: int| super::hash::spec_gnu_hash(entry_name(symbols, defs, r[i])),
    );
    crate::order::sorting_is_unique(listed, rows);
    listed.to_multiset_ensures();
    rows.to_multiset_ensures();
    assert forall|i: int| 0 <= i < rows.len() implies entries.contains(r[i])
        && #[trigger] rows[i] == entry_row(symbols, defs, buckets, r[i]) by {
        assert(rows.contains(rows[i]));
        assert(rows.to_multiset().count(rows[i]) > 0);
        assert(listed.contains(rows[i]));
        let j = choose|j: int| 0 <= j < listed.len() && listed[j] == rows[i];
        assert(r[i] == entries[j]);
    }
    assert forall|p: int, q: int| 0 <= p <= q < hashes.len() implies (#[trigger] hashes[p])
        % buckets <= (#[trigger] hashes[q]) % buckets by {
        assert(rows[p].0 == hashes[p] % buckets);
        assert(rows[q].0 == hashes[q] % buckets);
        if p < q {
            assert(!crate::order::row_less(rows[q], rows[p]));
        }
    }
    assert forall|entry: Entry| #[trigger] r.contains(entry) <==> entries.contains(entry) by {
        if entries.contains(entry) {
            let j = choose|j: int| 0 <= j < entries.len() && entries[j] == entry;
            assert(listed.contains(listed[j]));
            assert(rows.to_multiset().count(listed[j]) > 0);
            assert(rows.contains(listed[j]));
            let i = choose|i: int| 0 <= i < rows.len() && rows[i] == listed[j];
            assert(r[i] == entry);
        }
        if r.contains(entry) {
            let i = choose|i: int| 0 <= i < r.len() && r[i] == entry;
            assert(rows[i] == entry_row(symbols, defs, buckets, r[i]));
        }
    }
}

/// A symbol's number names its entry, and every symbol that has an entry has
/// a number.
pub proof fn numbers_name_entries(entries: Seq<Entry>, id: SymbolId, n: int)
    requires
        0 <= n <= entries.len(),
        entries.len() < u32::MAX,
    ensures
        number_of(entries, id, n) <= n,
        number_of(entries, id, n) > 0 ==> entries[number_of(entries, id, n) - 1] == Entry::Symbol(
            id,
        ),
        number_of(entries, id, n) == 0 ==> forall|i: int|
            0 <= i < n ==> #[trigger] entries[i] != Entry::Symbol(id),
    decreases n,
{
    if n > 0 {
        numbers_name_entries(entries, id, n - 1);
    }
}

/// The strings of libraries stand where the index says.
proof fn library_strings_are_held(files: Seq<ElfInput>, input: PlanInput)
    ensures
        match library_strings(files, input) {
            Some(t) => t.is_sound(),
            None => true,
        },
{
    let run_path = name_of_option(
        input.options.rpaths@.len() > 0,
        joined(input.options.rpaths@, 0),
    );
    let names = needed_names(files, input.needed.needed@, 0);
    super::strtab::each_is_held(Table::empty(), names, 0);
    if let Some(a) = Table::empty().add_each(names, 0) {
        super::strtab::each_is_held(a, own_name(*input.options, input.mode), 0);
        if let Some(b) = a.add_each(own_name(*input.options, input.mode), 0) {
            super::strtab::each_is_held(b, run_path, 0);
            if let Some(c) = b.add_each(run_path, 0) {
                super::strtab::each_is_held(c, names_view(input.options.auxiliary@), 0);
                if let Some(d) = c.add_each(names_view(input.options.auxiliary@), 0) {
                    super::strtab::each_is_held(d, names_view(input.options.filter@), 0);
                }
            }
        }
    }
}

/// The string table of a plan holds the name of every entry, with its
/// terminator, at the offset the plan gives.
pub proof fn entry_names_are_held(
    refs: Refs,
    input: PlanInput,
    entries: Seq<Entry>,
    needs: Seq<(usize, Seq<u8>)>,
    i: int,
)
    requires
        0 <= i < entries.len(),
        plan_strings(refs, input, entries, needs) is Ok,
    ensures
        ({
            let t = plan_strings(refs, input, entries, needs)->Ok_0;
            let name = entry_name(refs.symbols, input.exports.spec_defs(), entries[i]);
            super::strtab::holds(t.data, t.lookup(name) as int, name)
        }),
{
    let defs = input.exports.spec_defs();
    let base = match *input.soname {
        Some(name) => name@,
        None => Seq::empty(),
    };
    let texts = Seq::new(entries.len(), |i: int| entry_name(refs.symbols, defs, entries[i]));
    let group = super::versions::need_files(needs, 0);
    let def_names = seq![base] + super::versions::defs_names(defs, 0);
    let name = texts[i];
    let a = library_strings(refs.files@, input)->Some_0;
    library_strings_are_held(refs.files@, input);
    let b = a.add_all(texts)->Some_0;
    super::strtab::all_is_one_by_one(a, texts);
    super::strtab::each_is_held(a, texts, 0);
    super::strtab::strings_are_there(a, texts, 0, i);
    super::versions::need_strings_are_held(refs.files@, needs, group, 0, b);
    super::versions::need_strings_extend(refs.files@, needs, group, 0, b);
    let c = super::versions::need_strings(refs.files@, needs, group, 0, b)->Ok_0;
    super::strtab::each_is_held(c, def_names, 0);
    super::strtab::additions_extend(c, def_names);
    let t = plan_strings(refs, input, entries, needs)->Ok_0;
    assert(b.has(name));
    assert(c.has(name));
    super::strtab::sound_tables_hold(t, name);
}

/// The dynamic loader finds every entry of a plan by its name: the hashed
/// ones in `.gnu.hash` where there is one, and all of them in `.hash`.
pub proof fn lookups_find_every_entry(
    refs: Refs,
    input: PlanInput,
    chosen: Seq<(SymbolId, bool)>,
    i: int,
)
    requires
        outline(refs, input, chosen) is Ok,
        0 <= i < outline(refs, input, chosen)->Ok_0.entries.len(),
    ensures
        ({
            let o = outline(refs, input, chosen)->Ok_0;
            let defs = input.exports.spec_defs();
            let names = Seq::new(
                o.entries.len(),
                |i: int| entry_name(refs.symbols, defs, o.entries[i]),
            );
            &&& o.first <= i && input.options.hash_style != HashStyle::Sysv
                ==> super::hash::gnu_finds(
                Seq::new(
                    (o.entries.len() - o.first) as nat,
                    |i: int| super::hash::spec_gnu_hash(names[o.first + i]),
                ),
                o.buckets,
                o.first as int + 1,
                i - o.first,
            )
            &&& super::hash::sysv_finds(
                Seq::new(o.entries.len(), |i: int| super::hash::spec_sysv_hash(names[i])),
                i + 1,
            )
        }),
{
    let o = outline(refs, input, chosen)->Ok_0;
    let defs = input.exports.spec_defs();
    let names = Seq::new(o.entries.len(), |i: int| entry_name(refs.symbols, defs, o.entries[i]));
    let all = Seq::new(o.entries.len(), |i: int| super::hash::spec_sysv_hash(names[i]));
    super::hash::sysv_lookups_find(all, i + 1);
    if o.first <= i && input.options.hash_style != HashStyle::Sysv {
        let hashed = hashed_entries(refs.symbols, chosen, defs.len());
        let imports = split_from(refs.symbols, chosen, false, 0);
        let ordered = in_hash_order(refs.symbols, defs, true, o.buckets, hashed);
        let hashes = Seq::new(
            (o.entries.len() - o.first) as nat,
            |i: int| super::hash::spec_gnu_hash(names[o.first + i]),
        );
        hashed_entries_are_in_bucket_order(refs.symbols, defs, o.buckets, hashed);
        assert(o.entries == imports + ordered);
        assert(hashes =~= Seq::new(
            ordered.len(),
            |i: int| super::hash::spec_gnu_hash(entry_name(refs.symbols, defs, ordered[i])),
        ));
        super::hash::gnu_lookups_find(hashes, o.buckets, o.first as int + 1, i - o.first);
    }
}

/// A symbol that is defined is hashed; one that is not, only where its PLT
/// entry stands for it. The entries of either kind are those of the chosen
/// symbols.
pub proof fn chosen_symbols_are_split(
    symbols: SymbolTable,
    chosen: Seq<(SymbolId, bool)>,
    hashed: bool,
    i: int,
    entry: Entry,
)
    requires
        0 <= i <= chosen.len(),
    ensures
        split_from(symbols, chosen, hashed, i).contains(entry) <==> exists|k: int|
            i <= k < chosen.len() && entry == Entry::Symbol((#[trigger] chosen[k]).0) && hashed == (
            chosen[k].1 || symbols.flags_of(chosen[k].0).bits & 0x400 == 0x400),
    decreases chosen.len() - i,
{
    if i < chosen.len() {
        chosen_symbols_are_split(symbols, chosen, hashed, i + 1, entry);
        let rest = split_from(symbols, chosen, hashed, i + 1);
        let all = split_from(symbols, chosen, hashed, i);
        if is_hashed(symbols, chosen[i]) == hashed {
            assert(all[0] == Entry::Symbol(chosen[i].0));
            if rest.contains(entry) {
                let k = choose|k: int| 0 <= k < rest.len() && rest[k] == entry;
                assert(all[k + 1] == entry);
            }
            if all.contains(entry) {
                let k = choose|k: int| 0 <= k < all.len() && all[k] == entry;
                if k > 0 {
                    assert(rest[k - 1] == entry);
                }
            }
        }
    }
}

/// Every chosen symbol and every version has an entry, and nothing else has;
/// the entries that are hashed stand behind the others.
pub proof fn every_chosen_symbol_has_an_entry(
    refs: Refs,
    input: PlanInput,
    chosen: Seq<(SymbolId, bool)>,
    entry: Entry,
)
    requires
        outline(refs, input, chosen) is Ok,
    ensures
        ({
            let o = outline(refs, input, chosen)->Ok_0;
            let defs = input.exports.spec_defs();
            &&& o.entries.contains(entry) <==> match entry {
                Entry::Symbol(id) => exists|k: int|
                    0 <= k < chosen.len() && (#[trigger] chosen[k]).0 == id,
                Entry::Version(v) => 2 <= v < defs.len() + 2,
            }
            &&& o.first <= o.entries.len()
            &&& forall|i: int|
                o.first <= i < o.entries.len() ==> ((#[trigger] o.entries[i]) matches Entry::Symbol(id)
                    ==> exists|k: int|
                    0 <= k < chosen.len() && (#[trigger] chosen[k]).0 == id && (chosen[k].1
                        || refs.symbols.flags_of(id).bits & 0x400 == 0x400))
        }),
{
    let o = outline(refs, input, chosen)->Ok_0;
    let defs = input.exports.spec_defs();
    let gnu = input.options.hash_style != HashStyle::Sysv;
    let defined = split_from(refs.symbols, chosen, true, 0);
    let hashed = hashed_entries(refs.symbols, chosen, defs.len());
    let imports = split_from(refs.symbols, chosen, false, 0);
    let ordered = in_hash_order(refs.symbols, defs, gnu, o.buckets, hashed);
    let versions = Seq::new(defs.len(), |i: int| Entry::Version((i + 2) as u16));
    if gnu {
        hashed_entries_are_in_bucket_order(refs.symbols, defs, o.buckets, hashed);
    }
    assert forall|e: Entry| #[trigger] o.entries.contains(e) == (imports.contains(e)
        || ordered.contains(e)) by {
        lists_of_entries(imports, ordered, e);
    }
    assert forall|e: Entry| #[trigger] hashed.contains(e) == (defined.contains(e)
        || versions.contains(e)) by {
        lists_of_entries(defined, versions, e);
    }
    assert forall|e: Entry| #[trigger] versions.contains(e) == (e matches Entry::Version(v) && 2 <= v
        < defs.len() + 2) by {
        if let Entry::Version(v) = e {
            if 2 <= v < defs.len() + 2 {
                assert(versions[v - 2] == e);
            }
        }
    }
    chosen_symbols_are_split(refs.symbols, chosen, true, 0, entry);
    chosen_symbols_are_split(refs.symbols, chosen, false, 0, entry);
    assert(ordered.contains(entry) <==> hashed.contains(entry));
    assert forall|i: int| o.first <= i < o.entries.len() implies ((
    #[trigger] o.entries[i]) matches Entry::Symbol(id) ==> exists|k: int|
        0 <= k < chosen.len() && (#[trigger] chosen[k]).0 == id && (chosen[k].1
            || refs.symbols.flags_of(id).bits & 0x400 == 0x400)) by {
        assert(ordered[i - o.first] == o.entries[i]);
        assert(ordered.contains(o.entries[i]));
        assert(hashed.contains(o.entries[i]));
        chosen_symbols_are_split(refs.symbols, chosen, true, 0, o.entries[i]);
    }
}

/// What one list of entries followed by another contains.
proof fn lists_of_entries(a: Seq<Entry>, b: Seq<Entry>, e: Entry)
    ensures
        (a + b).contains(e) <==> a.contains(e) || b.contains(e),
{
    let all = a + b;
    if a.contains(e) {
        let i = choose|i: int| 0 <= i < a.len() && a[i] == e;
        assert(all[i] == e);
    }
    if b.contains(e) {
        let i = choose|i: int| 0 <= i < b.len() && b[i] == e;
        assert(all[a.len() + i] == e);
    }
    if all.contains(e) {
        let i = choose|i: int| 0 <= i < all.len() && all[i] == e;
        if i < a.len() {
            assert(a[i] == e);
        } else {
            assert(b[i - a.len()] == e);
        }
    }
}

/// The names of needed libraries are those of the libraries that are needed,
/// in their order.
pub proof fn needed_libraries_are_named(
    files: Seq<ElfInput>,
    needed: Seq<bool>,
    i: int,
    name: Seq<u8>,
)
    requires
        0 <= i <= files.len(),
    ensures
        needed_names(files, needed, i).contains(name) <==> exists|k: int|
            i <= k < files.len() && k < needed.len() && needed[k] && ((
            #[trigger] files[k]).shared matches Some(shared) && shared.needed_name@ == name),
    decreases files.len() - i,
{
    if i < files.len() {
        needed_libraries_are_named(files, needed, i + 1, name);
        let rest = needed_names(files, needed, i + 1);
        let all = needed_names(files, needed, i);
        if let Some(shared) = files[i].shared {
            if crate::elf::dso::needed::is_set(needed, i) {
                assert(all[0] == shared.needed_name@);
                if rest.contains(name) {
                    let k = choose|k: int| 0 <= k < rest.len() && rest[k] == name;
                    assert(all[k + 1] == name);
                }
                if all.contains(name) {
                    let k = choose|k: int| 0 <= k < all.len() && all[k] == name;
                    if k > 0 {
                        assert(rest[k - 1] == name);
                    }
                }
            }
        }
    }
}

/// Search paths are joined by a colon: one more path comes behind one more
/// colon.
pub proof fn paths_are_joined_by_colons(paths: Seq<Vec<u8>>, path: Vec<u8>, i: int)
    requires
        0 <= i < paths.len(),
    ensures
        joined(paths.push(path), i) == joined(paths, i).push(0x3a) + path@,
        joined(seq![path], 0) == path@,
    decreases paths.len() - i,
{
    let more = paths.push(path);
    reveal_with_fuel(joined, 2);
    if i + 1 < paths.len() {
        paths_are_joined_by_colons(paths, path, i + 1);
        assert(joined(more, i) =~= joined(paths, i).push(0x3a) + path@);
    } else {
        assert(joined(more, i) =~= joined(paths, i).push(0x3a) + path@);
    }
}

/// The version number of an entry: that of the version it stands for, that
/// of the version it is imported with, that of its export, 1 for a defined
/// symbol without a version and 0 for an undefined one.
pub proof fn entries_have_their_version(
    refs: Refs,
    exports: Exports,
    needs: Seq<(usize, Seq<u8>)>,
    first: u16,
    id: SymbolId,
    version: u16,
)
    ensures
        spec_versym(refs, exports, needs, first, Entry::Version(version)) == version,
        match super::versions::imported_version(refs, id) {
            Some(need) => spec_versym(refs, exports, needs, first, Entry::Symbol(id))
                == super::versions::need_number(needs, need, first),
            None => {
                let v = spec_versym(refs, exports, needs, first, Entry::Symbol(id));
                match refs.symbols.definition_of(id).kind {
                    DefinitionKind::Regular | DefinitionKind::Weak | DefinitionKind::Common => v
                        != 0 && (exports.spec_version(id) != 0 ==> v == exports.spec_version(id))
                        && (exports.spec_version(id) == 0 ==> v == 1),
                    _ => v == 0,
                }
            },
        },
{
}

/// An imported symbol with an entry has its version among the needs.
pub proof fn versions_of_entries_are_needed(
    refs: Refs,
    needed: Seq<bool>,
    relr: bool,
    entries: Seq<Entry>,
    k: int,
    id: SymbolId,
    need: (usize, Seq<u8>),
)
    requires
        0 <= k < entries.len(),
        entries[k] == Entry::Symbol(id),
        super::versions::imported_version(refs, id) == Some(need),
    ensures
        plan_needs(refs, needed, relr, entries).contains(need),
{
    let imported = Seq::new(entries.len(), |i: int| entry_version(refs, entries[i]));
    assert(imported[k] == Some(need));
    super::versions::imported_versions_are_needed(Seq::empty(), imported, 0, need);
    let needs = super::versions::with_needs(Seq::empty(), imported, 0);
    if let Some(libc) = super::versions::relr_provider_from(refs.files@, needed, 0) {
        super::versions::one_need_is_added(
            needs,
            (libc, super::versions::relr_version()),
            need,
        );
    }
}

/// A hash table has one bucket for every four entries, and one at least.
pub proof fn buckets_follow_the_entries(n: int)
    requires
        0 <= n,
    ensures
        bucket_count(true, n) >= 1,
        n >= 8 ==> 4 * bucket_count(true, n) <= n < 4 * bucket_count(true, n) + 4,
        n < 8 ==> bucket_count(true, n) == 1,
{
}

/// Only a library has a name of its own, and it is the one that was given.
pub proof fn libraries_have_the_given_name(options: LinkOptions, mode: Mode)
    ensures
        mode.executable ==> own_name(options, mode).len() == 0,
        !mode.executable ==> match options.soname {
            Some(name) => own_name(options, mode) == seq![name@],
            None => own_name(options, mode).len() == 0,
        },
{
}

} // verus!
