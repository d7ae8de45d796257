//! The version tables: `.gnu.version_r`, `.gnu.version_d` and the versions
//! of the entries.

use vstd::prelude::*;

use super::VersionDef;
use super::hash::sysv_hash;
use super::strtab::{StrTab, Table};
use crate::bytes::{copied, le16, le32, less, push_all, same};
use crate::elf::consts::{VER_FLG_BASE, VER_NDX_GLOBAL};
use crate::elf::dso::{Needed, SharedInput, VersionKind};
use crate::elf::inputs::ElfInput;
use crate::elf::refs::Refs;
use crate::error::Error;
use crate::ids::SymbolId;
use crate::symbols::{Definition, DefinitionKind};

verus! {

/// For a symbol a shared library defines under a non-base version, the
/// library's file index and the version name.
pub open spec fn imported_version(refs: Refs, id: SymbolId) -> Option<(usize, Seq<u8>)> {
    let def = refs.symbols.definition_of(id);
    let file = def.file.position;
    if def.kind != DefinitionKind::Shared || file >= refs.files@.len() {
        None
    } else {
        match refs.files@[file as int].shared {
            Some(shared) => if def.index < shared.symbols@.len()
                && shared.symbols@[def.index as int] < shared.elf.symbols@.len() {
                match shared.elf.symbols@[shared.symbols@[def.index as int] as int].version {
                    Some(version) => match crate::elf::dso::offered_version(version) {
                        Some(name) => Some((file, name)),
                        None => None,
                    },
                    None => None,
                }
            } else {
                None
            },
            None => None,
        }
    }
}

/// Whether a version that was found is the one there is.
pub open spec fn is_version(
    found: Option<(usize, &Vec<u8>)>,
    version: Option<(usize, Seq<u8>)>,
) -> bool {
    match (found, version) {
        (Some(a), Some(b)) => a.0 == b.0 && a.1@ == b.1,
        (None, None) => true,
        _ => false,
    }
}

/// For a symbol a shared library defines under a non-base version, the
/// library's file index and the version name.
pub fn import_version(refs: &Refs, id: SymbolId) -> (r: Option<(usize, &Vec<u8>)>)
    ensures
        is_version(r, imported_version(*refs, id)),
{
    let def: Definition = refs.symbols.definition(id);
    let file: usize = def.file.position;
    if def.kind != DefinitionKind::Shared || file >= refs.files.len() {
        return None;
    }
    if let Some(shared) = &refs.files[file].shared {
        let local: usize = def.index as usize;
        if local < shared.symbols.len() {
            let index: u32 = shared.symbols[local];
            let count: usize = shared.elf.symbols.len();
            if (index as u64) < count as u64 {
                if let Some(version) = &shared.elf.symbols[index as usize].version {
                    if let Some(info) = &version.info {
                        if version.index > VER_NDX_GLOBAL && !info.base && info.kind
                            == VersionKind::Defined {
                            return Some((file, &info.name));
                        }
                    }
                }
            }
        }
    }
    None
}

/// The version glibc requires of objects that use `DT_RELR`.
pub const GLIBC_ABI_DT_RELR: &'static str = "GLIBC_ABI_DT_RELR";

/// The bytes of [`GLIBC_ABI_DT_RELR`].
pub open spec fn relr_version() -> Seq<u8> {
    vstd::utf8::encode_utf8(GLIBC_ABI_DT_RELR@)
}

/// Whether a library defines a version.
pub open spec fn defines_version(shared: SharedInput, name: Seq<u8>) -> bool {
    exists|i: int|
        0 <= i < shared.elf.versions@.len() && (#[trigger] shared.elf.versions@[i]).name@ == name
            && shared.elf.versions@[i].kind == VersionKind::Defined
}

/// Whether a library defines a version.
fn has_version(shared: &SharedInput, name: &[u8]) -> (r: bool)
    ensures
        r == defines_version(*shared, name@),
{
    let mut i: usize = 0;
    while i < shared.elf.versions.len()
        invariant
            i <= shared.elf.versions@.len(),
            forall|k: int|
                0 <= k < i ==> !((#[trigger] shared.elf.versions@[k]).name@ == name@
                    && shared.elf.versions@[k].kind == VersionKind::Defined),
        decreases shared.elf.versions@.len() - i,
    {
        if same(&shared.elf.versions[i].name, name) && shared.elf.versions[i].kind
            == VersionKind::Defined {
            assert(shared.elf.versions@[i as int].name@ == name@);
            return true;
        }
        i += 1;
    }
    false
}

/// Whether file `i` is a needed library that defines the version for
/// `DT_RELR`.
pub open spec fn provides_relr(files: Seq<ElfInput>, needed: Seq<bool>, i: int) -> bool {
    crate::elf::dso::needed::is_set(needed, i) && match files[i].shared {
        Some(shared) => defines_version(shared, relr_version()),
        None => false,
    }
}

/// The first needed shared library from `i` on that defines the version for
/// `DT_RELR`.
pub open spec fn relr_provider_from(
    files: Seq<ElfInput>,
    needed: Seq<bool>,
    i: int,
) -> Option<usize>
    decreases files.len() - i,
{
    if i < 0 || i >= files.len() {
        None
    } else if provides_relr(files, needed, i) {
        Some(i as usize)
    } else {
        relr_provider_from(files, needed, i + 1)
    }
}

/// The needed shared library that defines the `GLIBC_ABI_DT_RELR` version.
pub fn relr_version_provider(files: &Vec<ElfInput>, needed: &Needed) -> (r: Option<usize>)
    ensures
        r == relr_provider_from(files@, needed.needed@, 0),
{
    let mut i: usize = 0;
    while i < files.len()
        invariant
            i <= files@.len(),
            relr_provider_from(files@, needed.needed@, 0) == relr_provider_from(
                files@,
                needed.needed@,
                i as int,
            ),
        decreases files@.len() - i,
    {
        if needed.is_needed(i) {
            if let Some(shared) = &files[i].shared {
                if has_version(shared, GLIBC_ABI_DT_RELR.as_bytes()) {
                    return Some(i);
                }
            }
        }
        i += 1;
    }
    None
}

/// A version that is needed of a file.
#[derive(Debug, PartialEq, Eq)]
pub struct Need {
    /// The file.
    pub file: usize,
    /// The version.
    pub name: Vec<u8>,
}

/// What needs hold.
pub open spec fn needs_view(needs: Seq<Need>) -> Seq<(usize, Seq<u8>)> {
    Seq::new(needs.len(), |i: int| (needs[i].file, needs[i].name@))
}

/// Whether need `a` comes before need `b`: by file, then by name.
pub open spec fn need_less(a: (usize, Seq<u8>), b: (usize, Seq<u8>)) -> bool {
    a.0 < b.0 || (a.0 == b.0 && crate::bytes::less_from(a.1, b.1, 0))
}

/// The first position from `i` on of a need that does not come before
/// `need`.
pub open spec fn need_place(needs: Seq<(usize, Seq<u8>)>, need: (usize, Seq<u8>), i: int) -> int
    decreases needs.len() - i,
{
    if 0 <= i < needs.len() && need_less(needs[i], need) {
        need_place(needs, need, i + 1)
    } else {
        i
    }
}

/// Needs in order with one more, unless it is among them.
pub open spec fn with_need(needs: Seq<(usize, Seq<u8>)>, need: (usize, Seq<u8>)) -> Seq<
    (usize, Seq<u8>),
> {
    let at = need_place(needs, need, 0);
    if 0 <= at < needs.len() && needs[at] == need {
        needs
    } else {
        needs.insert(at, need)
    }
}

/// Needs with the versions imported from `i` on.
pub open spec fn with_needs(
    needs: Seq<(usize, Seq<u8>)>,
    imported: Seq<Option<(usize, Seq<u8>)>>,
    i: int,
) -> Seq<(usize, Seq<u8>)>
    decreases imported.len() - i,
{
    if i < 0 || i >= imported.len() {
        needs
    } else {
        let next = match imported[i] {
            Some(need) => with_need(needs, need),
            None => needs,
        };
        with_needs(next, imported, i + 1)
    }
}

/// Whether needs are in order, each there once.
pub open spec fn in_need_order(needs: Seq<(usize, Seq<u8>)>) -> bool {
    forall|i: int, j: int|
        0 <= i < j < needs.len() ==> need_less(#[trigger] needs[i], #[trigger] needs[j])
}

/// The order of bytes is strict, transitive and total.
proof fn bytes_are_ordered(a: Seq<u8>, b: Seq<u8>, c: Seq<u8>, i: int)
    requires
        0 <= i,
        i <= a.len(),
        i <= b.len(),
        a.take(i) == b.take(i),
    ensures
        crate::bytes::less_from(a, b, i) && crate::bytes::less_from(b, c, i)
            ==> crate::bytes::less_from(a, c, i),
        !crate::bytes::less_from(a, b, i) && !crate::bytes::less_from(b, a, i) ==> a == b,
    decreases a.len() + b.len() - i,
{
    if i < a.len() && i < b.len() && a[i] == b[i] {
        assert(a.take(i + 1) =~= b.take(i + 1)) by {
            assert(a.take(i + 1) =~= a.take(i).push(a[i]));
            assert(b.take(i + 1) =~= b.take(i).push(b[i]));
        }
        bytes_are_ordered(a, b, c, i + 1);
    } else if i == a.len() && i == b.len() {
        assert(a =~= a.take(i));
        assert(b =~= b.take(i));
    }
}

/// The place of a need is in the list, after those before it.
proof fn need_place_is_inside(needs: Seq<(usize, Seq<u8>)>, need: (usize, Seq<u8>), i: int)
    requires
        0 <= i <= needs.len(),
        forall|k: int| 0 <= k < i ==> need_less(#[trigger] needs[k], need),
    ensures
        i <= need_place(needs, need, i) <= needs.len(),
        forall|k: int|
            0 <= k < need_place(needs, need, i) ==> need_less(#[trigger] needs[k], need),
        need_place(needs, need, i) < needs.len() ==> !need_less(
            needs[need_place(needs, need, i)],
            need,
        ),
    decreases needs.len() - i,
{
    if i < needs.len() && need_less(needs[i], need) {
        need_place_is_inside(needs, need, i + 1);
    }
}

/// The order of needs is transitive and total.
proof fn needs_are_ordered(a: (usize, Seq<u8>), b: (usize, Seq<u8>), c: (usize, Seq<u8>))
    ensures
        need_less(a, b) && need_less(b, c) ==> need_less(a, c),
        !need_less(a, b) && !need_less(b, a) ==> a == b,
{
    assert(a.1.take(0) =~= b.1.take(0));
    bytes_are_ordered(a.1, b.1, c.1, 0);
}

/// Needed versions are listed in file order, then by name, each once.
pub proof fn needs_stay_in_order(
    needs: Seq<(usize, Seq<u8>)>,
    imported: Seq<Option<(usize, Seq<u8>)>>,
    i: int,
)
    requires
        in_need_order(needs),
    ensures
        in_need_order(with_needs(needs, imported, i)),
    decreases imported.len() - i,
{
    if 0 <= i < imported.len() {
        if let Some(need) = imported[i] {
            one_need_keeps_the_order(needs, need);
            needs_stay_in_order(with_need(needs, need), imported, i + 1);
        } else {
            needs_stay_in_order(needs, imported, i + 1);
        }
    }
}

/// One more need keeps needs in order.
pub proof fn one_need_keeps_the_order(needs: Seq<(usize, Seq<u8>)>, need: (usize, Seq<u8>))
    requires
        in_need_order(needs),
    ensures
        in_need_order(with_need(needs, need)),
{
    need_place_is_inside(needs, need, 0);
    let at = need_place(needs, need, 0);
    let next = with_need(needs, need);
    if !(at < needs.len() && needs[at] == need) {
        assert forall|a: int, b: int| 0 <= a < b < next.len() implies need_less(
            #[trigger] next[a],
            #[trigger] next[b],
        ) by {
            if a < at {
                if b < at {
                    assert(need_less(needs[a], needs[b]));
                } else if b > at {
                    assert(need_less(needs[a], needs[b - 1]));
                }
            } else if a == at {
                needs_are_ordered(need, needs[at], needs[at]);
                if b - 1 > at {
                    assert(need_less(needs[at], needs[b - 1]));
                    needs_are_ordered(need, needs[at], needs[b - 1]);
                }
            } else {
                assert(need_less(needs[a - 1], needs[b - 1]));
            }
        }
    }
}

/// Adds a need to needs in order, unless it is among them.
pub fn add_need(needs: &mut Vec<Need>, file: usize, name: &[u8])
    ensures
        needs_view(final(needs)@) == with_need(needs_view(old(needs)@), (file, name@)),
{
    let ghost view = needs_view(needs@);
    let ghost need = (file, name@);
    proof {
        need_place_is_inside(view, need, 0);
    }
    let mut at: usize = 0;
    while at < needs.len() && (needs[at].file < file || (needs[at].file == file && less(
        &needs[at].name,
        name,
    )))
        invariant
            at <= needs@.len(),
            needs@ == old(needs)@,
            view == needs_view(needs@),
            need == (file, name@),
            need_place(view, need, 0) == need_place(view, need, at as int),
        decreases needs@.len() - at,
    {
        at += 1;
    }
    if at < needs.len() && needs[at].file == file && same(&needs[at].name, name) {
        assert(view[at as int] == need);
        return;
    }
    needs.insert(at, Need { file, name: copied(name) });
    assert(needs_view(needs@) =~= view.insert(at as int, need));
}

/// Where a need is, from `i` on.
pub open spec fn need_at(
    needs: Seq<(usize, Seq<u8>)>,
    need: (usize, Seq<u8>),
    i: int,
) -> Option<int>
    decreases needs.len() - i,
{
    if i < 0 || i >= needs.len() {
        None
    } else if needs[i] == need {
        Some(i)
    } else {
        need_at(needs, need, i + 1)
    }
}

/// The version number of a need, `first` being that of the first; 0 where
/// there is none.
pub open spec fn need_number(
    needs: Seq<(usize, Seq<u8>)>,
    need: (usize, Seq<u8>),
    first: u16,
) -> u16 {
    match need_at(needs, need, 0) {
        Some(at) => if at + first <= u16::MAX {
            (at + first) as u16
        } else {
            0
        },
        None => 0,
    }
}

/// The version number of a need.
pub fn need_index(needs: &Vec<Need>, file: usize, name: &[u8], first: u16) -> (r: u16)
    ensures
        r == need_number(needs_view(needs@), (file, name@), first),
{
    let ghost view = needs_view(needs@);
    let mut at: usize = 0;
    while at < needs.len()
        invariant
            at <= needs@.len(),
            view == needs_view(needs@),
            need_at(view, (file, name@), 0) == need_at(view, (file, name@), at as int),
        decreases needs@.len() - at,
    {
        if needs[at].file == file && same(&needs[at].name, name) {
            assert(view[at as int] == (file, name@));
            if at as u64 <= (u16::MAX - first) as u64 {
                return at as u16 + first;
            }
            return 0;
        }
        assert(view[at as int] != (file, name@));
        at += 1;
    }
    0
}

/// The files of needs from `i` on, each once for needs that follow one
/// another.
pub open spec fn need_files(needs: Seq<(usize, Seq<u8>)>, i: int) -> Seq<usize>
    decreases needs.len() - i,
{
    if i < 0 || i >= needs.len() {
        Seq::empty()
    } else if i > 0 && needs[i - 1].0 == needs[i].0 {
        need_files(needs, i + 1)
    } else {
        seq![needs[i].0] + need_files(needs, i + 1)
    }
}

/// The files of needs.
pub fn list_need_files(needs: &Vec<Need>) -> (r: Vec<usize>)
    ensures
        r@ == need_files(needs_view(needs@), 0),
{
    let ghost view = needs_view(needs@);
    let ghost whole = need_files(view, 0);
    let mut out: Vec<usize> = Vec::new();
    assert(whole =~= out@ + whole);
    let mut i: usize = 0;
    while i < needs.len()
        invariant
            i <= needs@.len(),
            view == needs_view(needs@),
            whole == out@ + need_files(view, i as int),
        decreases needs@.len() - i,
    {
        let ghost before = out@;
        let file: usize = needs[i].file;
        assert(view[i as int].0 == file);
        if !(i > 0 && needs[i - 1].file == file) {
            out.push(file);
            proof {
                let rest = need_files(view, i + 1);
                assert(before + (seq![file] + rest) =~= out@ + rest);
            }
        }
        i += 1;
    }
    assert(whole =~= out@);
    out
}

/// The versions needed of a file, from `i` on.
pub open spec fn versions_in(needs: Seq<(usize, Seq<u8>)>, file: usize, i: int) -> Seq<Seq<u8>>
    decreases needs.len() - i,
{
    if i < 0 || i >= needs.len() {
        Seq::empty()
    } else if needs[i].0 == file {
        seq![needs[i].1] + versions_in(needs, file, i + 1)
    } else {
        versions_in(needs, file, i + 1)
    }
}

/// The versions needed of a file.
fn list_versions(needs: &Vec<Need>, file: usize) -> (r: Vec<&[u8]>)
    ensures
        super::strtab::texts_view(r@) == versions_in(needs_view(needs@), file, 0),
{
    let ghost view = needs_view(needs@);
    let ghost whole = versions_in(view, file, 0);
    let mut out: Vec<&[u8]> = Vec::new();
    assert(whole =~= super::strtab::texts_view(out@) + whole);
    let mut i: usize = 0;
    while i < needs.len()
        invariant
            i <= needs@.len(),
            view == needs_view(needs@),
            whole == super::strtab::texts_view(out@) + versions_in(view, file, i as int),
        decreases needs@.len() - i,
    {
        let ghost before = super::strtab::texts_view(out@);
        let need: &Need = &needs[i];
        assert(view[i as int] == (need.file, need.name@));
        if need.file == file {
            out.push(need.name.as_slice());
            proof {
                let rest = versions_in(view, file, i + 1);
                assert(super::strtab::texts_view(out@) =~= before.push(need.name@));
                assert(before + (seq![need.name@] + rest) =~= super::strtab::texts_view(out@)
                    + rest);
            }
        }
        i += 1;
    }
    assert(whole =~= super::strtab::texts_view(out@));
    out
}

/// The name a shared object is needed by.
pub open spec fn needed_name(files: Seq<ElfInput>, file: int) -> Seq<u8> {
    if 0 <= file < files.len() {
        match files[file].shared {
            Some(shared) => shared.needed_name@,
            None => Seq::empty(),
        }
    } else {
        Seq::empty()
    }
}

/// The string table with the names of the files from `k` on and of the
/// versions needed of them.
pub open spec fn need_strings(
    files: Seq<ElfInput>,
    needs: Seq<(usize, Seq<u8>)>,
    group: Seq<usize>,
    k: int,
    t: Table,
) -> Result<Table, &'static str>
    decreases group.len() - k,
{
    if k < 0 || k >= group.len() {
        Ok(t)
    } else {
        let versions = versions_in(needs, group[k], 0);
        if versions.len() > u16::MAX {
            Err("too many needed versions")
        } else {
            match t.add_each(seq![needed_name(files, group[k] as int)] + versions, 0) {
                Some(next) => need_strings(files, needs, group, k + 1, next),
                None => Err("dynamic string table larger than 4 GiB"),
            }
        }
    }
}

/// Adding the names of needs keeps the others.
pub proof fn need_strings_extend(
    files: Seq<ElfInput>,
    needs: Seq<(usize, Seq<u8>)>,
    group: Seq<usize>,
    k: int,
    t: Table,
)
    ensures
        match need_strings(files, needs, group, k, t) {
            Ok(r) => r.extends(t),
            Err(_) => true,
        },
    decreases group.len() - k,
{
    if 0 <= k < group.len() {
        let versions = versions_in(needs, group[k], 0);
        let texts = seq![needed_name(files, group[k] as int)] + versions;
        super::strtab::additions_extend(t, texts);
        if let Some(next) = t.add_each(texts, 0) {
            need_strings_extend(files, needs, group, k + 1, next);
        }
    }
}

/// The name a shared object is needed by.
fn find_needed_name<'a>(
    files: &'a Vec<ElfInput>,
    file: usize,
    nothing: &'a Vec<u8>,
) -> (r: &'a Vec<u8>)
    requires
        nothing@.len() == 0,
    ensures
        r@ == needed_name(files@, file as int),
{
    if file < files.len() {
        if let Some(shared) = &files[file].shared {
            return &shared.needed_name;
        }
    }
    assert(nothing@ =~= Seq::empty());
    nothing
}

/// Adds the names of the files of needs and of the versions.
pub(crate) fn add_need_strings(
    files: &Vec<ElfInput>,
    needs: &Vec<Need>,
    group: &Vec<usize>,
    strings: &mut StrTab,
) -> (r: Result<(), Error>)
    ensures
        match r {
            Ok(()) => need_strings(files@, needs_view(needs@), group@, 0, old(strings)@) == Ok::<
                Table,
                &'static str,
            >(final(strings)@),
            Err(e) => match need_strings(files@, needs_view(needs@), group@, 0, old(strings)@) {
                Ok(_) => false,
                Err(text) => e == Error::Limit(text),
            },
        },
{
    let ghost view = needs_view(needs@);
    let ghost whole = need_strings(files@, view, group@, 0, strings@);
    let nothing: Vec<u8> = Vec::new();
    let mut k: usize = 0;
    while k < group.len()
        invariant
            k <= group@.len(),
            nothing@.len() == 0,
            view == needs_view(needs@),
            whole == need_strings(files@, view, group@, 0, old(strings)@),
            whole == need_strings(files@, view, group@, k as int, strings@),
        decreases group@.len() - k,
    {
        let versions: Vec<&[u8]> = list_versions(needs, group[k]);
        let mut texts: Vec<&[u8]> = Vec::new();
        texts.push(find_needed_name(files, group[k], &nothing).as_slice());
        let mut j: usize = 0;
        while j < versions.len()
            invariant
                j <= versions@.len(),
                texts@.len() == j + 1,
                texts@[0]@ == needed_name(files@, group@[k as int] as int),
                forall|m: int| 0 <= m < j ==> #[trigger] texts@[m + 1]@ == versions@[m]@,
            decreases versions@.len() - j,
        {
            texts.push(versions[j]);
            j += 1;
        }
        proof {
            let all = seq![needed_name(files@, group@[k as int] as int)] + versions_in(
                view,
                group@[k as int],
                0,
            );
            assert forall|m: int| 0 <= m < all.len() implies super::strtab::texts_view(texts@)[m]
                == #[trigger] all[m] by {
                if m > 0 {
                    assert(texts@[m - 1 + 1]@ == versions@[m - 1]@);
                    assert(super::strtab::texts_view(versions@)[m - 1] == versions@[m - 1]@);
                }
            }
            assert(super::strtab::texts_view(texts@) =~= all);
            assert(super::strtab::texts_view(versions@).len() == versions@.len());
        }
        if versions.len() as u64 > u16::MAX as u64 {
            return Err(Error::Limit("too many needed versions"));
        }
        let _ = strings.add_each(&texts)?;
        k += 1;
    }
    Ok(())
}

/// The records of the versions needed of a file, from `j` on.
pub open spec fn version_records(
    needs: Seq<(usize, Seq<u8>)>,
    first: u16,
    file: usize,
    versions: Seq<Seq<u8>>,
    j: int,
    t: Table,
) -> Seq<u8>
    decreases versions.len() - j,
{
    if j < 0 || j >= versions.len() {
        Seq::empty()
    } else {
        let name = versions[j];
        crate::bytes::spec_le32(super::hash::spec_sysv_hash(name)) + crate::bytes::spec_le16(0)
            + crate::bytes::spec_le16(need_number(needs, (file, name), first))
            + crate::bytes::spec_le32(t.lookup(name)) + crate::bytes::spec_le32(
            if j + 1 == versions.len() {
                0
            } else {
                16
            },
        ) + version_records(needs, first, file, versions, j + 1, t)
    }
}

/// The record of a file that versions are needed of.
pub open spec fn file_record(name: Seq<u8>, count: int, last: bool, t: Table) -> Seq<u8> {
    crate::bytes::spec_le16(1) + crate::bytes::spec_le16(count as u16) + crate::bytes::spec_le32(
        t.lookup(name),
    ) + crate::bytes::spec_le32(16) + crate::bytes::spec_le32(
        if last {
            0
        } else {
            (count * 16 + 16) as u32
        },
    )
}

/// The contents of `.gnu.version_r` for the files from `k` on.
pub open spec fn need_records(
    files: Seq<ElfInput>,
    needs: Seq<(usize, Seq<u8>)>,
    first: u16,
    group: Seq<usize>,
    k: int,
    t: Table,
) -> Seq<u8>
    decreases group.len() - k,
{
    if k < 0 || k >= group.len() {
        Seq::empty()
    } else {
        let versions = versions_in(needs, group[k], 0);
        file_record(
            needed_name(files, group[k] as int),
            versions.len() as int,
            k + 1 == group.len(),
            t,
        ) + version_records(needs, first, group[k], versions, 0, t) + need_records(
            files,
            needs,
            first,
            group,
            k + 1,
            t,
        )
    }
}

/// Appends the records of the versions needed of a file.
fn push_version_records(
    out: &mut Vec<u8>,
    needs: &Vec<Need>,
    first: u16,
    file: usize,
    versions: &Vec<&[u8]>,
    strings: &StrTab,
)
    ensures
        final(out)@ == old(out)@ + version_records(
            needs_view(needs@),
            first,
            file,
            super::strtab::texts_view(versions@),
            0,
            strings@,
        ),
{
    let ghost view = needs_view(needs@);
    let ghost names = super::strtab::texts_view(versions@);
    let ghost whole = out@ + version_records(view, first, file, names, 0, strings@);
    let mut j: usize = 0;
    while j < versions.len()
        invariant
            j <= versions@.len(),
            view == needs_view(needs@),
            names == super::strtab::texts_view(versions@),
            whole == out@ + version_records(view, first, file, names, j as int, strings@),
        decreases versions@.len() - j,
    {
        let ghost before = out@;
        let name: &[u8] = versions[j];
        assert(names[j as int] == name@);
        let next: u32 = if j + 1 == versions.len() {
            0
        } else {
            16
        };
        push_all(out, &le32(sysv_hash(name)));
        push_all(out, &le16(0));
        push_all(out, &le16(need_index(needs, file, name, first)));
        push_all(out, &le32(strings.offset_of(name)));
        push_all(out, &le32(next));
        proof {
            let rest = version_records(view, first, file, names, j + 1, strings@);
            let here = crate::bytes::spec_le32(super::hash::spec_sysv_hash(name@))
                + crate::bytes::spec_le16(0) + crate::bytes::spec_le16(
                need_number(view, (file, name@), first),
            ) + crate::bytes::spec_le32(strings@.lookup(name@)) + crate::bytes::spec_le32(next);
            assert(out@ =~= before + here);
            assert(before + (here + rest) =~= out@ + rest);
        }
        j += 1;
    }
    assert(whole =~= out@);
}

/// The contents of `.gnu.version_r`.
pub fn verneed(
    files: &Vec<ElfInput>,
    needs: &Vec<Need>,
    first: u16,
    group: &Vec<usize>,
    strings: &StrTab,
) -> (r: Vec<u8>)
    requires
        forall|k: int|
            0 <= k < group@.len() ==> versions_in(
                needs_view(needs@),
                #[trigger] group@[k],
                0,
            ).len() <= u16::MAX,
    ensures
        r@ == need_records(files@, needs_view(needs@), first, group@, 0, strings@),
{
    let ghost view = needs_view(needs@);
    let ghost whole = need_records(files@, view, first, group@, 0, strings@);
    let nothing: Vec<u8> = Vec::new();
    let mut out: Vec<u8> = Vec::new();
    assert(whole =~= out@ + whole);
    let mut k: usize = 0;
    while k < group.len()
        invariant
            k <= group@.len(),
            nothing@.len() == 0,
            view == needs_view(needs@),
            forall|m: int|
                0 <= m < group@.len() ==> versions_in(view, #[trigger] group@[m], 0).len()
                    <= u16::MAX,
            whole == out@ + need_records(files@, view, first, group@, k as int, strings@),
        decreases group@.len() - k,
    {
        let ghost before = out@;
        let file: usize = group[k];
        let versions: Vec<&[u8]> = list_versions(needs, file);
        let ghost names = super::strtab::texts_view(versions@);
        assert(names == versions_in(view, group@[k as int], 0));
        assert(names.len() == versions@.len());
        let count: u16 = versions.len() as u16;
        let name: &Vec<u8> = find_needed_name(files, file, &nothing);
        let next: u32 = if k + 1 == group.len() {
            0
        } else {
            count as u32 * 16 + 16
        };
        push_all(&mut out, &le16(1));
        push_all(&mut out, &le16(count));
        push_all(&mut out, &le32(strings.offset_of(name)));
        push_all(&mut out, &le32(16));
        push_all(&mut out, &le32(next));
        let ghost header = file_record(
            name@,
            names.len() as int,
            k + 1 == group@.len(),
            strings@,
        );
        assert(out@ =~= before + header);
        push_version_records(&mut out, needs, first, file, &versions, strings);
        proof {
            let records = version_records(view, first, file, names, 0, strings@);
            let rest = need_records(files@, view, first, group@, k + 1, strings@);
            assert(before + (header + records + rest) =~= out@ + rest);
        }
        k += 1;
    }
    assert(whole =~= out@);
    out
}

/// What lists of bytes hold.
pub open spec fn parents_view(parents: Seq<Vec<u8>>) -> Seq<Seq<u8>> {
    Seq::new(parents.len(), |i: int| parents[i]@)
}

/// The names of a version definition: its own and its parents'.
pub open spec fn def_names(def: VersionDef) -> Seq<Seq<u8>> {
    seq![def.name@] + parents_view(def.parents@)
}

/// The names of the version definitions from `i` on.
pub open spec fn defs_names(defs: Seq<VersionDef>, i: int) -> Seq<Seq<u8>>
    decreases defs.len() - i,
{
    if i < 0 || i >= defs.len() {
        Seq::empty()
    } else {
        def_names(defs[i]) + defs_names(defs, i + 1)
    }
}

/// The names of version definitions.
pub fn list_defs_names<'a>(base: &'a Vec<u8>, defs: &'a Vec<VersionDef>) -> (r: Vec<&'a [u8]>)
    ensures
        super::strtab::texts_view(r@) == seq![base@] + defs_names(defs@, 0),
{
    let mut out: Vec<&[u8]> = Vec::new();
    out.push(base.as_slice());
    let ghost whole = seq![base@] + defs_names(defs@, 0);
    assert(super::strtab::texts_view(out@) =~= seq![base@]);
    let mut i: usize = 0;
    while i < defs.len()
        invariant
            i <= defs@.len(),
            whole == super::strtab::texts_view(out@) + defs_names(defs@, i as int),
        decreases defs@.len() - i,
    {
        let ghost before = super::strtab::texts_view(out@);
        let def: &VersionDef = &defs[i];
        out.push(def.name.as_slice());
        assert(super::strtab::texts_view(out@) =~= before + seq![def.name@]);
        let mut j: usize = 0;
        while j < def.parents.len()
            invariant
                j <= def.parents@.len(),
                super::strtab::texts_view(out@) == before + (seq![def.name@] + parents_view(
                    def.parents@,
                ).take(j as int)),
            decreases def.parents@.len() - j,
        {
            let ghost now = super::strtab::texts_view(out@);
            out.push(def.parents[j].as_slice());
            proof {
                assert(super::strtab::texts_view(out@) =~= now.push(def.parents@[j as int]@));
                assert(parents_view(def.parents@).take(j + 1) =~= parents_view(def.parents@).take(
                    j as int,
                ).push(def.parents@[j as int]@));
            }
            j += 1;
            assert(super::strtab::texts_view(out@) =~= before + (seq![def.name@] + parents_view(
                def.parents@,
            ).take(j as int)));
        }
        proof {
            assert(parents_view(def.parents@).take(j as int) =~= parents_view(def.parents@));
            let rest = defs_names(defs@, i + 1);
            assert(before + (def_names(*def) + rest) =~= super::strtab::texts_view(out@) + rest);
        }
        i += 1;
    }
    assert(whole =~= super::strtab::texts_view(out@));
    out
}

/// Whether a definition from `i` on has more names than its record can
/// count.
pub open spec fn too_many_parents(defs: Seq<VersionDef>, i: int) -> bool
    decreases defs.len() - i,
{
    if i < 0 || i >= defs.len() {
        false
    } else {
        defs[i].parents@.len() >= u16::MAX || too_many_parents(defs, i + 1)
    }
}

/// The name records of a version definition, from `k` on.
pub open spec fn name_records(names: Seq<Seq<u8>>, k: int, t: Table) -> Seq<u8>
    decreases names.len() - k,
{
    if k < 0 || k >= names.len() {
        Seq::empty()
    } else {
        crate::bytes::spec_le32(t.lookup(names[k])) + crate::bytes::spec_le32(
            if k + 1 == names.len() {
                0
            } else {
                8
            },
        ) + name_records(names, k + 1, t)
    }
}

/// The record of a version definition.
pub open spec fn def_record(
    flags: u16,
    index: u16,
    names: Seq<Seq<u8>>,
    last: bool,
    t: Table,
) -> Seq<
    u8,
> {
    crate::bytes::spec_le16(1) + crate::bytes::spec_le16(flags) + crate::bytes::spec_le16(index)
        + crate::bytes::spec_le16(names.len() as u16) + crate::bytes::spec_le32(
        super::hash::spec_sysv_hash(names[0]),
    ) + crate::bytes::spec_le32(20) + crate::bytes::spec_le32(
        if last {
            0
        } else {
            (20 + names.len() * 8) as u32
        },
    ) + name_records(names, 0, t)
}

/// The records of the version definitions from `i` on.
pub open spec fn def_records(defs: Seq<VersionDef>, i: int, t: Table) -> Seq<u8>
    decreases defs.len() - i,
{
    if i < 0 || i >= defs.len() {
        Seq::empty()
    } else {
        def_record(0, (i + 2) as u16, def_names(defs[i]), i + 1 == defs.len(), t) + def_records(
            defs,
            i + 1,
            t,
        )
    }
}

/// The contents of `.gnu.version_d`: a base version named after the output,
/// then the versions of the script.
pub open spec fn verdef_bytes(base: Seq<u8>, defs: Seq<VersionDef>, t: Table) -> Seq<u8> {
    def_record(VER_FLG_BASE, 1, seq![base], defs.len() == 0, t) + def_records(defs, 0, t)
}

/// Appends the name records of a version definition.
fn push_name_records(out: &mut Vec<u8>, names: &Vec<&[u8]>, strings: &StrTab)
    ensures
        final(out)@ == old(out)@ + name_records(super::strtab::texts_view(names@), 0, strings@),
{
    let ghost views = super::strtab::texts_view(names@);
    let ghost whole = out@ + name_records(views, 0, strings@);
    let mut k: usize = 0;
    while k < names.len()
        invariant
            k <= names@.len(),
            views == super::strtab::texts_view(names@),
            whole == out@ + name_records(views, k as int, strings@),
        decreases names@.len() - k,
    {
        let ghost before = out@;
        assert(views[k as int] == names@[k as int]@);
        let next: u32 = if k + 1 == names.len() {
            0
        } else {
            8
        };
        push_all(out, &le32(strings.offset_of(names[k])));
        push_all(out, &le32(next));
        proof {
            let here = crate::bytes::spec_le32(strings@.lookup(views[k as int]))
                + crate::bytes::spec_le32(next);
            let rest = name_records(views, k + 1, strings@);
            assert(out@ =~= before + here);
            assert(before + (here + rest) =~= out@ + rest);
        }
        k += 1;
    }
    assert(whole =~= out@);
}

/// Appends the record of a version definition.
fn push_def_record(
    out: &mut Vec<u8>,
    flags: u16,
    index: u16,
    names: &Vec<&[u8]>,
    last: bool,
    strings: &StrTab,
)
    requires
        0 < names@.len() <= u16::MAX,
    ensures
        final(out)@ == old(out)@ + def_record(
            flags,
            index,
            super::strtab::texts_view(names@),
            last,
            strings@,
        ),
{
    let ghost start = out@;
    let ghost views = super::strtab::texts_view(names@);
    let count: u16 = names.len() as u16;
    let next: u32 = if last {
        0
    } else {
        20 + count as u32 * 8
    };
    push_all(out, &le16(1));
    push_all(out, &le16(flags));
    push_all(out, &le16(index));
    push_all(out, &le16(count));
    push_all(out, &le32(sysv_hash(names[0])));
    push_all(out, &le32(20));
    push_all(out, &le32(next));
    proof {
        assert(views[0] == names@[0]@);
        assert(views.len() == names@.len());
        let here = crate::bytes::spec_le16(1) + crate::bytes::spec_le16(flags)
            + crate::bytes::spec_le16(index) + crate::bytes::spec_le16(count)
            + crate::bytes::spec_le32(super::hash::spec_sysv_hash(views[0]))
            + crate::bytes::spec_le32(20) + crate::bytes::spec_le32(next);
        assert(out@ =~= start + here);
    }
    push_name_records(out, names, strings);
    assert(out@ =~= start + def_record(flags, index, views, last, strings@));
}

/// The names of a version definition.
fn list_def_names(def: &VersionDef) -> (r: Vec<&[u8]>)
    ensures
        super::strtab::texts_view(r@) == def_names(*def),
{
    let mut out: Vec<&[u8]> = Vec::new();
    out.push(def.name.as_slice());
    let mut j: usize = 0;
    while j < def.parents.len()
        invariant
            j <= def.parents@.len(),
            out@.len() == j + 1,
            out@[0]@ == def.name@,
            forall|m: int| 0 <= m < j ==> #[trigger] out@[m + 1]@ == def.parents@[m]@,
        decreases def.parents@.len() - j,
    {
        out.push(def.parents[j].as_slice());
        j += 1;
    }
    proof {
        let all = def_names(*def);
        assert forall|m: int| 0 <= m < all.len() implies super::strtab::texts_view(out@)[m]
            == #[trigger] all[m] by {
            if m > 0 {
                assert(out@[m - 1 + 1]@ == def.parents@[m - 1]@);
            }
        }
        assert(super::strtab::texts_view(out@) =~= all);
    }
    out
}

/// The contents of `.gnu.version_d`.
pub fn verdef(
    base: &Vec<u8>,
    defs: &Vec<VersionDef>,
    strings: &StrTab,
) -> (r: Result<Vec<u8>, Error>)
    requires
        defs@.len() + 1 <= u16::MAX,
    ensures
        match r {
            Ok(data) => !too_many_parents(defs@, 0) && data@ == verdef_bytes(
                base@,
                defs@,
                strings@,
            ),
            Err(e) => too_many_parents(defs@, 0) && e == Error::Limit("too many version parents"),
        },
{
    let mut out: Vec<u8> = Vec::new();
    let mut first: Vec<&[u8]> = Vec::new();
    first.push(base.as_slice());
    assert(super::strtab::texts_view(first@) =~= seq![base@]);
    push_def_record(&mut out, VER_FLG_BASE, 1, &first, defs.len() == 0, strings);
    let ghost whole = verdef_bytes(base@, defs@, strings@);
    assert(whole =~= out@ + def_records(defs@, 0, strings@));
    let mut i: usize = 0;
    while i < defs.len()
        invariant
            i <= defs@.len(),
            defs@.len() + 1 <= u16::MAX,
            too_many_parents(defs@, 0) == too_many_parents(defs@, i as int),
            whole == out@ + def_records(defs@, i as int, strings@),
        decreases defs@.len() - i,
    {
        let ghost before = out@;
        let def: &VersionDef = &defs[i];
        if def.parents.len() as u64 >= u16::MAX as u64 {
            return Err(Error::Limit("too many version parents"));
        }
        let names: Vec<&[u8]> = list_def_names(def);
        assert(super::strtab::texts_view(names@).len() == names@.len());
        push_def_record(&mut out, 0, i as u16 + 2, &names, i + 1 == defs.len(), strings);
        proof {
            let here = def_record(
                0,
                (i + 2) as u16,
                def_names(*def),
                i + 1 == defs@.len(),
                strings@,
            );
            let rest = def_records(defs@, i + 1, strings@);
            assert(before + (here + rest) =~= out@ + rest);
        }
        i += 1;
    }
    assert(whole =~= out@);
    Ok(out)
}

/// The names of needs stand where the index says, and so do the others.
pub proof fn need_strings_are_held(
    files: Seq<ElfInput>,
    needs: Seq<(usize, Seq<u8>)>,
    group: Seq<usize>,
    k: int,
    t: Table,
)
    requires
        t.is_sound(),
    ensures
        match need_strings(files, needs, group, k, t) {
            Ok(r) => r.is_sound(),
            Err(_) => true,
        },
    decreases group.len() - k,
{
    if 0 <= k < group.len() {
        let versions = versions_in(needs, group[k], 0);
        let texts = seq![needed_name(files, group[k] as int)] + versions;
        super::strtab::each_is_held(t, texts, 0);
        if let Some(next) = t.add_each(texts, 0) {
            need_strings_are_held(files, needs, group, k + 1, next);
        }
    }
}

/// What one more need makes of the needs: it is among them, and nothing else
/// comes or goes.
pub proof fn one_need_is_added(
    needs: Seq<(usize, Seq<u8>)>,
    need: (usize, Seq<u8>),
    other: (usize, Seq<u8>),
)
    ensures
        with_need(needs, need).contains(other) <==> (other == need || needs.contains(other)),
{
    let at = need_place(needs, need, 0);
    places_are_inside(needs, need, 0);
    if 0 <= at < needs.len() && needs[at] == need {
        assert(needs.contains(needs[at]));
    } else {
        let more = needs.insert(at, need);
        assert(more[at] == need);
        if needs.contains(other) {
            let i = choose|i: int| 0 <= i < needs.len() && needs[i] == other;
            if i < at {
                assert(more[i] == other);
            } else {
                assert(more[i + 1] == other);
            }
        }
        if more.contains(other) {
            let i = choose|i: int| 0 <= i < more.len() && more[i] == other;
            if i < at {
                assert(needs[i] == other);
            } else if i > at {
                assert(needs[i - 1] == other);
            }
        }
    }
}

/// The place of a need is among the needs or behind them.
proof fn places_are_inside(needs: Seq<(usize, Seq<u8>)>, need: (usize, Seq<u8>), i: int)
    requires
        0 <= i <= needs.len(),
    ensures
        i <= need_place(needs, need, i) <= needs.len(),
    decreases needs.len() - i,
{
    if i < needs.len() && need_less(needs[i], need) {
        places_are_inside(needs, need, i + 1);
    }
}

/// The needs are the versions of the imported symbols and what was needed
/// before, and nothing else.
pub proof fn imported_versions_are_needed(
    needs: Seq<(usize, Seq<u8>)>,
    imported: Seq<Option<(usize, Seq<u8>)>>,
    i: int,
    need: (usize, Seq<u8>),
)
    requires
        0 <= i <= imported.len(),
    ensures
        with_needs(needs, imported, i).contains(need) <==> needs.contains(need) || exists|k: int|
            i <= k < imported.len() && #[trigger] imported[k] == Some(need),
    decreases imported.len() - i,
{
    if i < imported.len() {
        match imported[i] {
            Some(first) => {
                one_need_is_added(needs, first, need);
                imported_versions_are_needed(with_need(needs, first), imported, i + 1, need);
            },
            None => imported_versions_are_needed(needs, imported, i + 1, need),
        }
    }
}

/// Where the first need that is `need` is.
proof fn first_need(needs: Seq<(usize, Seq<u8>)>, need: (usize, Seq<u8>), i: int)
    requires
        0 <= i <= needs.len(),
    ensures
        match need_at(needs, need, i) {
            Some(at) => i <= at < needs.len() && needs[at] == need,
            None => forall|k: int| i <= k < needs.len() ==> #[trigger] needs[k] != need,
        },
    decreases needs.len() - i,
{
    if i < needs.len() {
        first_need(needs, need, i + 1);
    }
}

/// The needs are numbered one after the other from `first`, so that two of
/// them never share a number; what is not needed has number 0.
pub proof fn needs_have_numbers_of_their_own(needs: Seq<(usize, Seq<u8>)>, first: u16, k: int)
    requires
        in_need_order(needs),
        first + needs.len() <= 0x1_0000,
    ensures
        0 <= k < needs.len() ==> need_number(needs, needs[k], first) == first + k,
        forall|need: (usize, Seq<u8>)|
            !needs.contains(need) ==> #[trigger] need_number(needs, need, first) == 0,
{
    if 0 <= k < needs.len() {
        first_need(needs, needs[k], 0);
        let at = need_at(needs, needs[k], 0)->0;
        crate::bytes::the_first_difference_decides(
            needs[k].1,
            needs[k].1,
            0,
            needs[k].1.len() as int,
        );
        if at != k {
            assert(needs[at] == needs[k]);
            if at < k {
                assert(need_less(needs[at], needs[k]));
            } else {
                assert(need_less(needs[k], needs[at]));
            }
        }
    }
    assert forall|need: (usize, Seq<u8>)| !needs.contains(need) implies #[trigger] need_number(
        needs,
        need,
        first,
    ) == 0 by {
        first_need(needs, need, 0);
    }
}

/// The versions needed of a library are those the needs name.
pub proof fn libraries_have_their_versions(
    needs: Seq<(usize, Seq<u8>)>,
    file: usize,
    i: int,
    name: Seq<u8>,
)
    requires
        0 <= i <= needs.len(),
    ensures
        versions_in(needs, file, i).contains(name) <==> exists|k: int|
            i <= k < needs.len() && #[trigger] needs[k] == (file, name),
    decreases needs.len() - i,
{
    if i < needs.len() {
        libraries_have_their_versions(needs, file, i + 1, name);
        let rest = versions_in(needs, file, i + 1);
        if needs[i].0 == file {
            let all = versions_in(needs, file, i);
            assert(all[0] == needs[i].1);
            if rest.contains(name) {
                let k = choose|k: int| 0 <= k < rest.len() && rest[k] == name;
                assert(all[k + 1] == name);
            }
            if all.contains(name) {
                let k = choose|k: int| 0 <= k < all.len() && all[k] == name;
                if k > 0 {
                    assert(rest[k - 1] == name);
                } else {
                    assert(needs[i] == (file, name));
                }
            }
        }
    }
}

/// Every library that a version is needed of is in the group, and no other.
pub proof fn groups_have_every_library(needs: Seq<(usize, Seq<u8>)>, i: int, file: usize)
    requires
        0 <= i <= needs.len(),
    ensures
        need_files(needs, i).contains(file) ==> exists|k: int|
            i <= k < needs.len() && (#[trigger] needs[k]).0 == file,
        (exists|k: int| i <= k < needs.len() && (#[trigger] needs[k]).0 == file) ==> need_files(
            needs,
            i,
        ).contains(file) || i > 0 && needs[i - 1].0 == file,
    decreases needs.len() - i,
{
    if i < needs.len() {
        groups_have_every_library(needs, i + 1, file);
        let rest = need_files(needs, i + 1);
        let all = need_files(needs, i);
        if !(i > 0 && needs[i - 1].0 == needs[i].0) {
            assert(all[0] == needs[i].0);
            if rest.contains(file) {
                let k = choose|k: int| 0 <= k < rest.len() && rest[k] == file;
                assert(all[k + 1] == file);
            }
            if all.contains(file) {
                let k = choose|k: int| 0 <= k < all.len() && all[k] == file;
                if k > 0 {
                    assert(rest[k - 1] == file);
                }
            }
        }
    }
}

/// The record of a needed version holds the hash of its name, its number and
/// where its name is, and leads to the record of the next, 16 bytes on.
pub proof fn version_records_hold_their_parts(
    needs: Seq<(usize, Seq<u8>)>,
    first: u16,
    file: usize,
    versions: Seq<Seq<u8>>,
    j: int,
    t: Table,
)
    requires
        0 <= j < versions.len(),
    ensures
        ({
            let s = version_records(needs, first, file, versions, j, t);
            &&& crate::bytes::u32_at(s, 0) == Some(super::hash::spec_sysv_hash(versions[j]))
            &&& crate::bytes::u16_at(s, 4) == Some(0u16)
            &&& crate::bytes::u16_at(s, 6) == Some(need_number(needs, (file, versions[j]), first))
            &&& crate::bytes::u32_at(s, 8) == Some(t.lookup(versions[j]))
            &&& crate::bytes::u32_at(s, 12) == Some(
                if j == versions.len() - 1 {
                    0u32
                } else {
                    16u32
                },
            )
            &&& s.skip(16) == version_records(needs, first, file, versions, j + 1, t)
        }),
{
    let s = version_records(needs, first, file, versions, j, t);
    let number = need_number(needs, (file, versions[j]), first);
    let next: u32 = if j == versions.len() - 1 {
        0
    } else {
        16
    };
    assert(s.subrange(0, 4) =~= crate::bytes::spec_le32(super::hash::spec_sysv_hash(versions[j])));
    crate::bytes::words_are_read(s, 0, super::hash::spec_sysv_hash(versions[j]));
    assert(s.subrange(4, 6) =~= crate::bytes::spec_le16(0));
    crate::bytes::halves_are_read(s, 4, 0);
    assert(s.subrange(6, 8) =~= crate::bytes::spec_le16(number));
    crate::bytes::halves_are_read(s, 6, number);
    assert(s.subrange(8, 12) =~= crate::bytes::spec_le32(t.lookup(versions[j])));
    crate::bytes::words_are_read(s, 8, t.lookup(versions[j]));
    assert(s.subrange(12, 16) =~= crate::bytes::spec_le32(next));
    crate::bytes::words_are_read(s, 12, next);
    assert(s.skip(16) =~= version_records(needs, first, file, versions, j + 1, t));
}

/// How long the records of needed versions are.
proof fn version_records_take_sixteen(
    needs: Seq<(usize, Seq<u8>)>,
    first: u16,
    file: usize,
    versions: Seq<Seq<u8>>,
    j: int,
    t: Table,
)
    requires
        0 <= j <= versions.len(),
    ensures
        version_records(needs, first, file, versions, j, t).len() == 16 * (versions.len() - j),
    decreases versions.len() - j,
{
    if j < versions.len() {
        version_records_take_sixteen(needs, first, file, versions, j + 1, t);
    }
}

/// The record of a library holds how many versions are needed of it and
/// where its name is; its versions follow, 16 bytes on, and it leads to the
/// record of the next library, behind them.
pub proof fn library_records_lead_to_the_next(
    files: Seq<ElfInput>,
    needs: Seq<(usize, Seq<u8>)>,
    first: u16,
    group: Seq<usize>,
    k: int,
    t: Table,
)
    requires
        0 <= k < group.len(),
        versions_in(needs, group[k], 0).len() <= u16::MAX,
    ensures
        ({
            let s = need_records(files, needs, first, group, k, t);
            let versions = versions_in(needs, group[k], 0);
            let records = version_records(needs, first, group[k], versions, 0, t);
            &&& crate::bytes::u16_at(s, 0) == Some(1u16)
            &&& crate::bytes::u16_at(s, 2) == Some(versions.len() as u16)
            &&& crate::bytes::u32_at(s, 4) == Some(
                t.lookup(needed_name(files, group[k] as int)),
            )
            &&& crate::bytes::u32_at(s, 8) == Some(16u32)
            &&& s.skip(16) == records + need_records(files, needs, first, group, k + 1, t)
            &&& crate::bytes::u32_at(s, 12) matches Some(next)
            &&& if k == group.len() - 1 {
                next == 0
            } else {
                s.skip(next as int) == need_records(files, needs, first, group, k + 1, t)
            }
        }),
{
    let s = need_records(files, needs, first, group, k, t);
    let versions = versions_in(needs, group[k], 0);
    let records = version_records(needs, first, group[k], versions, 0, t);
    version_records_take_sixteen(needs, first, group[k], versions, 0, t);
    let rest = need_records(files, needs, first, group, k + 1, t);
    let name = t.lookup(needed_name(files, group[k] as int));
    let next: u32 = if k == group.len() - 1 {
        0
    } else {
        (versions.len() * 16 + 16) as u32
    };
    assert(s.subrange(0, 2) =~= crate::bytes::spec_le16(1));
    crate::bytes::halves_are_read(s, 0, 1);
    assert(s.subrange(2, 4) =~= crate::bytes::spec_le16(versions.len() as u16));
    crate::bytes::halves_are_read(s, 2, versions.len() as u16);
    assert(s.subrange(4, 8) =~= crate::bytes::spec_le32(name));
    crate::bytes::words_are_read(s, 4, name);
    assert(s.subrange(8, 12) =~= crate::bytes::spec_le32(16));
    crate::bytes::words_are_read(s, 8, 16);
    assert(s.subrange(12, 16) =~= crate::bytes::spec_le32(next));
    crate::bytes::words_are_read(s, 12, next);
    assert(s.skip(16) =~= records + rest);
    if k < group.len() - 1 {
        assert(s.skip(next as int) =~= rest);
    }
}

/// How long the names of a version are.
proof fn name_records_take_eight(names: Seq<Seq<u8>>, k: int, t: Table)
    requires
        0 <= k <= names.len(),
    ensures
        name_records(names, k, t).len() == 8 * (names.len() - k),
    decreases names.len() - k,
{
    if k < names.len() {
        name_records_take_eight(names, k + 1, t);
    }
}

/// A name of a version definition is where the string table has it, and the
/// next follows.
pub proof fn name_records_hold_their_parts(names: Seq<Seq<u8>>, k: int, t: Table)
    requires
        0 <= k < names.len(),
    ensures
        ({
            let s = name_records(names, k, t);
            &&& crate::bytes::u32_at(s, 0) == Some(t.lookup(names[k]))
            &&& crate::bytes::u32_at(s, 4) == Some(
                if k == names.len() - 1 {
                    0u32
                } else {
                    8u32
                },
            )
            &&& s.skip(8) == name_records(names, k + 1, t)
        }),
{
    let s = name_records(names, k, t);
    let next: u32 = if k == names.len() - 1 {
        0
    } else {
        8
    };
    assert(s.subrange(0, 4) =~= crate::bytes::spec_le32(t.lookup(names[k])));
    crate::bytes::words_are_read(s, 0, t.lookup(names[k]));
    assert(s.subrange(4, 8) =~= crate::bytes::spec_le32(next));
    crate::bytes::words_are_read(s, 4, next);
    assert(s.skip(8) =~= name_records(names, k + 1, t));
}

/// One version definition, followed by others.
proof fn definition_parts(
    flags: u16,
    index: u16,
    names: Seq<Seq<u8>>,
    last: bool,
    t: Table,
    rest: Seq<u8>,
)
    requires
        0 < names.len() <= u16::MAX,
    ensures
        ({
            let s = def_record(flags, index, names, last, t) + rest;
            &&& crate::bytes::u16_at(s, 0) == Some(1u16)
            &&& crate::bytes::u16_at(s, 2) == Some(flags)
            &&& crate::bytes::u16_at(s, 4) == Some(index)
            &&& crate::bytes::u16_at(s, 6) == Some(names.len() as u16)
            &&& crate::bytes::u32_at(s, 8) == Some(super::hash::spec_sysv_hash(names[0]))
            &&& crate::bytes::u32_at(s, 12) == Some(20u32)
            &&& s.skip(20) == name_records(names, 0, t) + rest
            &&& crate::bytes::u32_at(s, 16) matches Some(next)
            &&& if last {
                next == 0
            } else {
                s.skip(next as int) == rest
            }
        }),
{
    let s = def_record(flags, index, names, last, t) + rest;
    name_records_take_eight(names, 0, t);
    let hash = super::hash::spec_sysv_hash(names[0]);
    let next: u32 = if last {
        0
    } else {
        (20 + names.len() * 8) as u32
    };
    assert(s.subrange(0, 2) =~= crate::bytes::spec_le16(1));
    crate::bytes::halves_are_read(s, 0, 1);
    assert(s.subrange(2, 4) =~= crate::bytes::spec_le16(flags));
    crate::bytes::halves_are_read(s, 2, flags);
    assert(s.subrange(4, 6) =~= crate::bytes::spec_le16(index));
    crate::bytes::halves_are_read(s, 4, index);
    assert(s.subrange(6, 8) =~= crate::bytes::spec_le16(names.len() as u16));
    crate::bytes::halves_are_read(s, 6, names.len() as u16);
    assert(s.subrange(8, 12) =~= crate::bytes::spec_le32(hash));
    crate::bytes::words_are_read(s, 8, hash);
    assert(s.subrange(12, 16) =~= crate::bytes::spec_le32(20));
    crate::bytes::words_are_read(s, 12, 20);
    assert(s.subrange(16, 20) =~= crate::bytes::spec_le32(next));
    crate::bytes::words_are_read(s, 16, next);
    assert(s.skip(20) =~= name_records(names, 0, t) + rest);
    if !last {
        assert(s.skip(next as int) =~= rest);
    }
}

/// A version definition holds its number, which counts from 2, how many
/// names it has, the hash of its own and then the names: its own, then its
/// parents'. It leads to the next definition.
pub proof fn definitions_lead_to_the_next(defs: Seq<VersionDef>, i: int, t: Table)
    requires
        0 <= i < defs.len(),
        defs.len() < 0xfffe,
        defs[i].parents@.len() < u16::MAX,
    ensures
        ({
            let s = def_records(defs, i, t);
            let names = seq![defs[i].name@] + parents_view(defs[i].parents@);
            &&& crate::bytes::u16_at(s, 0) == Some(1u16)
            &&& crate::bytes::u16_at(s, 2) == Some(0u16)
            &&& crate::bytes::u16_at(s, 4) == Some((i + 2) as u16)
            &&& crate::bytes::u16_at(s, 6) == Some((defs[i].parents@.len() + 1) as u16)
            &&& crate::bytes::u32_at(s, 8) == Some(super::hash::spec_sysv_hash(defs[i].name@))
            &&& crate::bytes::u32_at(s, 12) == Some(20u32)
            &&& s.skip(20) == name_records(names, 0, t) + def_records(defs, i + 1, t)
            &&& crate::bytes::u32_at(s, 16) matches Some(next)
            &&& if i == defs.len() - 1 {
                next == 0
            } else {
                s.skip(next as int) == def_records(defs, i + 1, t)
            }
        }),
{
    definition_parts(
        0,
        (i + 2) as u16,
        def_names(defs[i]),
        i + 1 == defs.len(),
        t,
        def_records(defs, i + 1, t),
    );
}

/// The first definition is that of the library itself: number 1, flagged as
/// the base, with one name.
pub proof fn the_base_comes_first(base: Seq<u8>, defs: Seq<VersionDef>, t: Table)
    ensures
        ({
            let s = verdef_bytes(base, defs, t);
            &&& crate::bytes::u16_at(s, 2) == Some(1u16)
            &&& crate::bytes::u16_at(s, 4) == Some(1u16)
            &&& crate::bytes::u16_at(s, 6) == Some(1u16)
            &&& crate::bytes::u32_at(s, 8) == Some(super::hash::spec_sysv_hash(base))
            &&& crate::bytes::u32_at(s, 20) == Some(t.lookup(base))
            &&& crate::bytes::u32_at(s, 16) == Some(
                if defs.len() == 0 {
                    0u32
                } else {
                    28u32
                },
            )
            &&& s.skip(28) == def_records(defs, 0, t)
        }),
{
    let s = verdef_bytes(base, defs, t);
    let rest = def_records(defs, 0, t);
    definition_parts(VER_FLG_BASE, 1, seq![base], defs.len() == 0, t, rest);
    name_records_take_eight(seq![base], 0, t);
    assert(s.subrange(20, 24) =~= crate::bytes::spec_le32(t.lookup(base)));
    crate::bytes::words_are_read(s, 20, t.lookup(base));
    let next: u32 = if defs.len() == 0 {
        0
    } else {
        28
    };
    assert(s.subrange(16, 20) =~= crate::bytes::spec_le32(next));
    crate::bytes::words_are_read(s, 16, next);
    assert(s.skip(28) =~= rest);
}

/// The provider of the RELR version is the first needed library that defines
/// it, and there is one where any does.
pub proof fn the_first_provider_is_found(
    files: Seq<ElfInput>,
    needed: Seq<bool>,
    i: int,
    k: int,
)
    requires
        0 <= i <= k < files.len(),
        files.len() <= usize::MAX,
        provides_relr(files, needed, k),
    ensures
        relr_provider_from(files, needed, i) matches Some(at) && i <= at <= k && provides_relr(
            files,
            needed,
            at as int,
        ),
    decreases k - i,
{
    if !provides_relr(files, needed, i) {
        the_first_provider_is_found(files, needed, i + 1, k);
    }
}

} // verus!
