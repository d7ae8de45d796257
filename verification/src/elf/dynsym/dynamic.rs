//! The `.dynamic` entries.

use vstd::prelude::*;

use super::{DynValue, Synth, Synthetic, DYNSYM_SIZE};
use super::chosen::present;
use crate::bytes::same;
use crate::elf::consts::{
    DF_1_GLOBAL, DF_1_INITFIRST, DF_1_INTERPOSE, DF_1_LOADFLTR, DF_1_NODEFLIB, DF_1_NODELETE,
    DF_1_NODUMP, DF_1_NOOPEN, DF_1_NOW, DF_1_ORIGIN, DF_1_PIE, DF_1_SINGLETON, DF_BIND_NOW,
    DF_ORIGIN, DF_STATIC_TLS, DF_SYMBOLIC, DF_TEXTREL, DT_AUXILIARY, DT_DEBUG, DT_FILTER, DT_FINI,
    DT_FINI_ARRAY, DT_FINI_ARRAYSZ, DT_FLAGS, DT_FLAGS_1, DT_GNU_HASH, DT_HASH, DT_INIT,
    DT_INIT_ARRAY, DT_INIT_ARRAYSZ, DT_JMPREL, DT_NEEDED, DT_NULL, DT_PLTGOT, DT_PLTREL,
    DT_PLTRELSZ, DT_PREINIT_ARRAY, DT_PREINIT_ARRAYSZ, DT_RELA, DT_RELACOUNT, DT_RELAENT,
    DT_RELASZ, DT_RELR, DT_RELRENT, DT_RELRSZ, DT_RPATH, DT_RUNPATH, DT_SONAME, DT_STRSZ,
    DT_STRTAB, DT_SYMBOLIC, DT_SYMENT, DT_SYMTAB, DT_TEXTREL, DT_VERDEF, DT_VERDEFNUM, DT_VERNEED,
    DT_VERNEEDNUM, DT_VERSYM,
};
use crate::elf::refs::Refs;
use crate::ids::SymbolId;
use crate::options::{DynamicFlags, LinkOptions, Mode, SymbolicMode};
use crate::symbols::DefinitionKind;

verus! {

/// What the relocation scan found.
#[derive(Clone, Copy, Debug, PartialEq, Eq, Structural)]
pub struct ScanResult {
    /// There are relocations against read-only sections.
    pub text_relocs: bool,
    /// There are initial-exec TLS accesses.
    pub static_tls: bool,
}

/// String offsets `.dynamic` needs.
#[derive(Debug, PartialEq, Eq)]
pub struct DynamicStrings {
    /// Of the needed libraries.
    pub needed: Vec<u32>,
    /// Of the output's own name.
    pub soname: Option<u32>,
    /// Of the run path.
    pub run_path: Option<u32>,
    /// Of `--auxiliary` names.
    pub auxiliary: Vec<u32>,
    /// Of `--filter` names.
    pub filters: Vec<u32>,
}

/// What of the plan `.dynamic` tells.
#[derive(Clone, Copy, Debug, PartialEq, Eq, Structural)]
pub struct DynamicTables {
    /// There is a `.gnu.hash`.
    pub gnu_hash: bool,
    /// There is a `.hash`.
    pub sysv_hash: bool,
    /// There is a `.gnu.version`.
    pub versym: bool,
    /// The entries of `.gnu.version_d`.
    pub verdef_count: u64,
    /// The file entries of `.gnu.version_r`.
    pub verneed_count: u64,
}

/// The symbol `name` if a regular object defines it and it is in the
/// output.
pub open spec fn spec_defined_symbol(refs: Refs, name: Seq<u8>) -> Option<SymbolId> {
    match refs.symbols.found(name, 0) {
        Some(id) => {
            let kind = refs.symbols.definition_of(id).kind;
            if (kind == DefinitionKind::Regular || kind == DefinitionKind::Weak)
                && super::chosen::is_present(refs, id) {
                Some(id)
            } else {
                None
            }
        },
        None => None,
    }
}

/// The symbol `name` if a regular object defines it and it is in the
/// output.
pub fn defined_symbol(refs: &Refs, name: &[u8]) -> (r: Option<SymbolId>)
    ensures
        r == spec_defined_symbol(*refs, name@),
{
    match refs.symbols.lookup(name) {
        Some(id) => {
            let kind: DefinitionKind = refs.symbols.definition_kind(id);
            if (kind == DefinitionKind::Regular || kind == DefinitionKind::Weak) && present(
                refs,
                id,
            ) {
                Some(id)
            } else {
                None
            }
        },
        None => None,
    }
}

/// A name given by an option, or the default one.
pub open spec fn name_or(option: Option<Vec<u8>>, default: Seq<char>) -> Seq<u8> {
    match option {
        Some(name) => name@,
        None => vstd::utf8::encode_utf8(default),
    }
}

/// The symbol that an option names, or the default one.
fn named_symbol(refs: &Refs, option: &Option<Vec<u8>>, default: &str) -> (r: Option<SymbolId>)
    ensures
        r == spec_defined_symbol(*refs, name_or(*option, default@)),
{
    match option {
        Some(name) => defined_symbol(refs, name),
        None => defined_symbol(refs, default.as_bytes()),
    }
}

/// Whether an output section has contents.
pub open spec fn has_output(outputs: Seq<Vec<u8>>, name: Seq<char>) -> bool {
    exists|i: int|
        0 <= i < outputs.len() && (#[trigger] outputs[i])@ == vstd::utf8::encode_utf8(name)
}

/// Whether an output section has contents.
fn find_output(outputs: &Vec<Vec<u8>>, name: &str) -> (r: bool)
    ensures
        r == has_output(outputs@, name@),
{
    let mut i: usize = 0;
    while i < outputs.len()
        invariant
            i <= outputs@.len(),
            forall|k: int|
                0 <= k < i ==> (#[trigger] outputs@[k])@ != vstd::utf8::encode_utf8(name@),
        decreases outputs@.len() - i,
    {
        if same(&outputs[i], name.as_bytes()) {
            assert(outputs@[i as int]@ == vstd::utf8::encode_utf8(name@));
            return true;
        }
        i += 1;
    }
    false
}

/// `bit` if `on`.
#[verifier::allow_in_spec]
pub fn flag(on: bool, bit: u64) -> u64
    returns
        (if on {
            bit
        } else {
            0u64
        }),
{
    if on {
        bit
    } else {
        0u64
    }
}

/// The value of `DT_FLAGS`.
#[verifier::allow_in_spec]
pub fn dt_flags(
    z: DynamicFlags,
    symbolic: bool,
    text: bool,
    bind_now: bool,
    static_tls: bool,
) -> u64
    returns
        (flag(z.origin, DF_ORIGIN) | flag(symbolic, DF_SYMBOLIC) | flag(text, DF_TEXTREL) | flag(
            bind_now,
            DF_BIND_NOW,
        ) | flag(static_tls, DF_STATIC_TLS)),
{
    flag(z.origin, DF_ORIGIN) | flag(symbolic, DF_SYMBOLIC) | flag(text, DF_TEXTREL) | flag(
        bind_now,
        DF_BIND_NOW,
    ) | flag(static_tls, DF_STATIC_TLS)
}

/// The value of `DT_FLAGS_1`.
#[verifier::allow_in_spec]
pub fn dt_flags_1(z: DynamicFlags, bind_now: bool, pie: bool) -> u64
    returns
        (flag(bind_now, DF_1_NOW) | flag(pie, DF_1_PIE) | flag(z.nodelete, DF_1_NODELETE) | flag(
            z.nodlopen,
            DF_1_NOOPEN,
        ) | flag(z.nodump, DF_1_NODUMP) | flag(z.initfirst, DF_1_INITFIRST) | flag(
            z.interpose,
            DF_1_INTERPOSE,
        ) | flag(z.global, DF_1_GLOBAL) | flag(z.nodefaultlib, DF_1_NODEFLIB) | flag(
            z.loadfltr,
            DF_1_LOADFLTR,
        ) | flag(z.origin, DF_1_ORIGIN) | flag(z.singleton, DF_1_SINGLETON)),
{
    flag(bind_now, DF_1_NOW) | flag(pie, DF_1_PIE) | flag(z.nodelete, DF_1_NODELETE) | flag(
        z.nodlopen,
        DF_1_NOOPEN,
    ) | flag(z.nodump, DF_1_NODUMP) | flag(z.initfirst, DF_1_INITFIRST) | flag(
        z.interpose,
        DF_1_INTERPOSE,
    ) | flag(z.global, DF_1_GLOBAL) | flag(z.nodefaultlib, DF_1_NODEFLIB) | flag(
        z.loadfltr,
        DF_1_LOADFLTR,
    ) | flag(z.origin, DF_1_ORIGIN) | flag(z.singleton, DF_1_SINGLETON)
}

/// An entry if `on`.
pub open spec fn entry_if(on: bool, tag: i64, value: DynValue) -> Seq<(i64, DynValue)> {
    if on {
        seq![(tag, value)]
    } else {
        Seq::empty()
    }
}

/// Appends an entry if `on`.
fn push_if(entries: &mut Vec<(i64, DynValue)>, on: bool, tag: i64, value: DynValue)
    ensures
        final(entries)@ == old(entries)@ + entry_if(on, tag, value),
{
    if on {
        entries.push((tag, value));
        assert(entries@ =~= old(entries)@ + entry_if(on, tag, value));
    } else {
        assert(entries@ =~= old(entries)@ + entry_if(on, tag, value));
    }
}

/// An entry for a string, if there is one.
pub open spec fn string_entry(tag: i64, offset: Option<u32>) -> Seq<(i64, DynValue)> {
    match offset {
        Some(o) => seq![(tag, DynValue::Value(o as u64))],
        None => Seq::empty(),
    }
}

/// Appends an entry for a string, if there is one.
fn push_string(entries: &mut Vec<(i64, DynValue)>, tag: i64, offset: Option<u32>)
    ensures
        final(entries)@ == old(entries)@ + string_entry(tag, offset),
{
    if let Some(o) = offset {
        entries.push((tag, DynValue::Value(o as u64)));
    }
    assert(entries@ =~= old(entries)@ + string_entry(tag, offset));
}

/// Entries for strings.
pub open spec fn string_entries(tag: i64, offsets: Seq<u32>) -> Seq<(i64, DynValue)> {
    Seq::new(offsets.len(), |i: int| (tag, DynValue::Value(offsets[i] as u64)))
}

/// Appends entries for strings.
fn push_strings(entries: &mut Vec<(i64, DynValue)>, tag: i64, offsets: &Vec<u32>)
    ensures
        final(entries)@ == old(entries)@ + string_entries(tag, offsets@),
{
    let ghost start = entries@;
    let mut i: usize = 0;
    while i < offsets.len()
        invariant
            i <= offsets@.len(),
            entries@ =~= start + string_entries(tag, offsets@).take(i as int),
        decreases offsets@.len() - i,
    {
        entries.push((tag, DynValue::Value(offsets[i] as u64)));
        i += 1;
    }
    assert(string_entries(tag, offsets@).take(i as int) =~= string_entries(tag, offsets@));
}

/// An entry for a symbol, if there is one.
pub open spec fn symbol_entry(tag: i64, symbol: Option<SymbolId>) -> Seq<(i64, DynValue)> {
    match symbol {
        Some(id) => seq![(tag, DynValue::Symbol(id))],
        None => Seq::empty(),
    }
}

/// Appends an entry for a symbol, if there is one.
fn push_symbol(entries: &mut Vec<(i64, DynValue)>, tag: i64, symbol: Option<SymbolId>)
    ensures
        final(entries)@ == old(entries)@ + symbol_entry(tag, symbol),
{
    if let Some(id) = symbol {
        entries.push((tag, DynValue::Symbol(id)));
    }
    assert(entries@ =~= old(entries)@ + symbol_entry(tag, symbol));
}

/// How many `DT_NULL` entries end `.dynamic`: the spare ones and the last.
#[verifier::allow_in_spec]
pub fn null_count(spare: Option<u32>) -> u32
    returns
        (match spare {
            Some(n) => if n > 64 {
                65u32
            } else {
                (n + 1) as u32
            },
            None => 1u32,
        }),
{
    match spare {
        Some(n) => if n > 64 {
            65u32
        } else {
            n + 1
        },
        None => 1u32,
    }
}

/// The entries for strings and for what runs at start and exit.
pub open spec fn run_entries(
    refs: Refs,
    options: LinkOptions,
    mode: Mode,
    outputs: Seq<Vec<u8>>,
    strings: DynamicStrings,
) -> Seq<(i64, DynValue)> {
    let preinit = mode.executable && has_output(outputs, ".preinit_array"@);
    let init = has_output(outputs, ".init_array"@);
    let fini = has_output(outputs, ".fini_array"@);
    Seq::empty() + string_entries(DT_NEEDED, strings.needed@) + string_entries(
        DT_AUXILIARY,
        strings.auxiliary@,
    ) + string_entries(DT_FILTER, strings.filters@) + string_entry(DT_SONAME, strings.soname)
        + string_entry(
        if options.new_dtags == Some(false) {
            DT_RPATH
        } else {
            DT_RUNPATH
        },
        strings.run_path,
    ) + symbol_entry(DT_INIT, spec_defined_symbol(refs, name_or(options.init, "_init"@)))
        + symbol_entry(DT_FINI, spec_defined_symbol(refs, name_or(options.fini, "_fini"@)))
        + entry_if(preinit, DT_PREINIT_ARRAY, DynValue::OutputAddress(".preinit_array"))
        + entry_if(preinit, DT_PREINIT_ARRAYSZ, DynValue::OutputSize(".preinit_array")) + entry_if(
        init,
        DT_INIT_ARRAY,
        DynValue::OutputAddress(".init_array"),
    ) + entry_if(init, DT_INIT_ARRAYSZ, DynValue::OutputSize(".init_array")) + entry_if(
        fini,
        DT_FINI_ARRAY,
        DynValue::OutputAddress(".fini_array"),
    ) + entry_if(fini, DT_FINI_ARRAYSZ, DynValue::OutputSize(".fini_array"))
}

/// The entries for the symbol table, the PLT and the relocations.
pub open spec fn table_entries(mode: Mode, synth: Synth, tables: DynamicTables) -> Seq<
    (i64, DynValue),
> {
    let plt = synth.plt_entries > 0;
    let rela = synth.rela_dyn_count > 0;
    let relr = synth.relr_count > 0;
    Seq::empty() + entry_if(tables.gnu_hash, DT_GNU_HASH, DynValue::Address(Synthetic::GnuHash))
        + entry_if(tables.sysv_hash, DT_HASH, DynValue::Address(Synthetic::Hash)) + entry_if(
        true,
        DT_STRTAB,
        DynValue::Address(Synthetic::DynStr),
    ) + entry_if(true, DT_SYMTAB, DynValue::Address(Synthetic::DynSym)) + entry_if(
        true,
        DT_STRSZ,
        DynValue::Size(Synthetic::DynStr),
    ) + entry_if(true, DT_SYMENT, DynValue::Value(DYNSYM_SIZE)) + entry_if(
        mode.executable,
        DT_DEBUG,
        DynValue::Value(0),
    ) + entry_if(
        synth.got_plt_reserved > 0,
        DT_PLTGOT,
        DynValue::Address(Synthetic::GotPlt),
    ) + entry_if(plt, DT_PLTRELSZ, DynValue::Size(Synthetic::RelaPlt)) + entry_if(
        plt,
        DT_PLTREL,
        DynValue::Value(7),
    ) + entry_if(plt, DT_JMPREL, DynValue::Address(Synthetic::RelaPlt)) + entry_if(
        rela,
        DT_RELA,
        DynValue::Address(Synthetic::RelaDyn),
    ) + entry_if(rela, DT_RELASZ, DynValue::Size(Synthetic::RelaDyn)) + entry_if(
        rela,
        DT_RELAENT,
        DynValue::Value(24),
    ) + entry_if(relr, DT_RELR, DynValue::Address(Synthetic::RelrDyn)) + entry_if(
        relr,
        DT_RELRSZ,
        DynValue::Size(Synthetic::RelrDyn),
    ) + entry_if(relr, DT_RELRENT, DynValue::Value(8))
}

/// The entries for flags and versions, and the end.
pub open spec fn flag_entries(
    options: LinkOptions,
    mode: Mode,
    synth: Synth,
    scan: ScanResult,
    tables: DynamicTables,
) -> Seq<(i64, DynValue)> {
    let symbolic = options.symbolic == SymbolicMode::All && !mode.executable;
    let flags = dt_flags(
        options.dynamic_flags,
        symbolic,
        scan.text_relocs,
        options.bind_now,
        !mode.executable && scan.static_tls,
    );
    let flags_1 = dt_flags_1(options.dynamic_flags, options.bind_now, mode.pic && mode.executable);
    let verdef = tables.verdef_count > 0;
    let verneed = tables.verneed_count > 0;
    Seq::empty() + entry_if(scan.text_relocs, DT_TEXTREL, DynValue::Value(0)) + entry_if(
        symbolic,
        DT_SYMBOLIC,
        DynValue::Value(0),
    ) + entry_if(flags != 0, DT_FLAGS, DynValue::Value(flags)) + entry_if(
        flags_1 != 0,
        DT_FLAGS_1,
        DynValue::Value(flags_1),
    ) + entry_if(verdef, DT_VERDEF, DynValue::Address(Synthetic::VerDef)) + entry_if(
        verdef,
        DT_VERDEFNUM,
        DynValue::Value(tables.verdef_count),
    ) + entry_if(verneed, DT_VERNEED, DynValue::Address(Synthetic::VerNeed)) + entry_if(
        verneed,
        DT_VERNEEDNUM,
        DynValue::Value(tables.verneed_count),
    ) + entry_if(tables.versym, DT_VERSYM, DynValue::Address(Synthetic::VerSym)) + entry_if(
        options.combine_relocs && synth.relative_count > 0,
        DT_RELACOUNT,
        DynValue::Value(synth.relative_count),
    ) + Seq::new(
        null_count(options.spare_dynamic_tags) as nat,
        |i: int| (DT_NULL, DynValue::Value(0)),
    )
}

/// The entries for strings and for what runs at start and exit.
fn list_run_entries(
    refs: &Refs,
    options: &LinkOptions,
    mode: Mode,
    outputs: &Vec<Vec<u8>>,
    strings: &DynamicStrings,
) -> (r: Vec<(i64, DynValue)>)
    ensures
        r@ == run_entries(*refs, *options, mode, outputs@, *strings),
{
    let mut entries: Vec<(i64, DynValue)> = Vec::new();
    push_strings(&mut entries, DT_NEEDED, &strings.needed);
    push_strings(&mut entries, DT_AUXILIARY, &strings.auxiliary);
    push_strings(&mut entries, DT_FILTER, &strings.filters);
    push_string(&mut entries, DT_SONAME, strings.soname);
    let old_tag: bool = match options.new_dtags {
        Some(new) => !new,
        None => false,
    };
    let tag: i64 = if old_tag {
        DT_RPATH
    } else {
        DT_RUNPATH
    };
    push_string(&mut entries, tag, strings.run_path);
    push_symbol(&mut entries, DT_INIT, named_symbol(refs, &options.init, "_init"));
    push_symbol(&mut entries, DT_FINI, named_symbol(refs, &options.fini, "_fini"));
    let preinit: bool = mode.executable && find_output(outputs, ".preinit_array");
    push_if(
        &mut entries,
        preinit,
        DT_PREINIT_ARRAY,
        DynValue::OutputAddress(".preinit_array"),
    );
    push_if(
        &mut entries,
        preinit,
        DT_PREINIT_ARRAYSZ,
        DynValue::OutputSize(".preinit_array"),
    );
    let init: bool = find_output(outputs, ".init_array");
    push_if(&mut entries, init, DT_INIT_ARRAY, DynValue::OutputAddress(".init_array"));
    push_if(&mut entries, init, DT_INIT_ARRAYSZ, DynValue::OutputSize(".init_array"));
    let fini: bool = find_output(outputs, ".fini_array");
    push_if(&mut entries, fini, DT_FINI_ARRAY, DynValue::OutputAddress(".fini_array"));
    push_if(&mut entries, fini, DT_FINI_ARRAYSZ, DynValue::OutputSize(".fini_array"));
    entries
}

/// Appends the entries for the symbol table, the PLT and the relocations.
fn list_table_entries(mode: Mode, synth: &Synth, tables: DynamicTables) -> (r: Vec<(i64, DynValue)>)
    ensures
        r@ == table_entries(mode, *synth, tables),
{
    let mut entries: Vec<(i64, DynValue)> = Vec::new();
    push_if(&mut entries, tables.gnu_hash, DT_GNU_HASH, DynValue::Address(Synthetic::GnuHash));
    push_if(&mut entries, tables.sysv_hash, DT_HASH, DynValue::Address(Synthetic::Hash));
    push_if(&mut entries, true, DT_STRTAB, DynValue::Address(Synthetic::DynStr));
    push_if(&mut entries, true, DT_SYMTAB, DynValue::Address(Synthetic::DynSym));
    push_if(&mut entries, true, DT_STRSZ, DynValue::Size(Synthetic::DynStr));
    push_if(&mut entries, true, DT_SYMENT, DynValue::Value(DYNSYM_SIZE));
    push_if(&mut entries, mode.executable, DT_DEBUG, DynValue::Value(0));
    push_if(
        &mut entries,
        synth.got_plt_reserved > 0,
        DT_PLTGOT,
        DynValue::Address(Synthetic::GotPlt),
    );
    let plt: bool = synth.plt_entries > 0;
    push_if(&mut entries, plt, DT_PLTRELSZ, DynValue::Size(Synthetic::RelaPlt));
    push_if(&mut entries, plt, DT_PLTREL, DynValue::Value(7));
    push_if(&mut entries, plt, DT_JMPREL, DynValue::Address(Synthetic::RelaPlt));
    let rela: bool = synth.rela_dyn_count > 0;
    push_if(&mut entries, rela, DT_RELA, DynValue::Address(Synthetic::RelaDyn));
    push_if(&mut entries, rela, DT_RELASZ, DynValue::Size(Synthetic::RelaDyn));
    push_if(&mut entries, rela, DT_RELAENT, DynValue::Value(24));
    let relr: bool = synth.relr_count > 0;
    push_if(&mut entries, relr, DT_RELR, DynValue::Address(Synthetic::RelrDyn));
    push_if(&mut entries, relr, DT_RELRSZ, DynValue::Size(Synthetic::RelrDyn));
    push_if(&mut entries, relr, DT_RELRENT, DynValue::Value(8));
    entries
}

/// The entries for flags and versions, and the end.
fn list_flag_entries(
    options: &LinkOptions,
    mode: Mode,
    synth: &Synth,
    scan: ScanResult,
    tables: DynamicTables,
) -> (r: Vec<(i64, DynValue)>)
    ensures
        r@ == flag_entries(*options, mode, *synth, scan, tables),
{
    let symbolic: bool = options.symbolic == SymbolicMode::All && !mode.executable;
    let flags: u64 = dt_flags(
        options.dynamic_flags,
        symbolic,
        scan.text_relocs,
        options.bind_now,
        !mode.executable && scan.static_tls,
    );
    let flags_1: u64 = dt_flags_1(
        options.dynamic_flags,
        options.bind_now,
        mode.pic && mode.executable,
    );
    let verdef: bool = tables.verdef_count > 0;
    let verneed: bool = tables.verneed_count > 0;
    let mut entries: Vec<(i64, DynValue)> = Vec::new();
    push_if(&mut entries, scan.text_relocs, DT_TEXTREL, DynValue::Value(0));
    push_if(&mut entries, symbolic, DT_SYMBOLIC, DynValue::Value(0));
    push_if(&mut entries, flags != 0, DT_FLAGS, DynValue::Value(flags));
    push_if(&mut entries, flags_1 != 0, DT_FLAGS_1, DynValue::Value(flags_1));
    push_if(&mut entries, verdef, DT_VERDEF, DynValue::Address(Synthetic::VerDef));
    push_if(&mut entries, verdef, DT_VERDEFNUM, DynValue::Value(tables.verdef_count));
    push_if(&mut entries, verneed, DT_VERNEED, DynValue::Address(Synthetic::VerNeed));
    push_if(&mut entries, verneed, DT_VERNEEDNUM, DynValue::Value(tables.verneed_count));
    push_if(&mut entries, tables.versym, DT_VERSYM, DynValue::Address(Synthetic::VerSym));
    push_if(
        &mut entries,
        options.combine_relocs && synth.relative_count > 0,
        DT_RELACOUNT,
        DynValue::Value(synth.relative_count),
    );
    let ghost before = entries@;
    let nulls: u32 = null_count(options.spare_dynamic_tags);
    let mut i: u32 = 0;
    while i < nulls
        invariant
            i <= nulls,
            entries@ =~= before + Seq::new(i as nat, |k: int| (DT_NULL, DynValue::Value(0))),
        decreases nulls - i,
    {
        entries.push((DT_NULL, DynValue::Value(0)));
        i += 1;
    }
    entries
}

/// Appends entries.
fn push_entries(entries: &mut Vec<(i64, DynValue)>, more: &Vec<(i64, DynValue)>)
    ensures
        final(entries)@ == old(entries)@ + more@,
{
    let ghost start = entries@;
    let mut i: usize = 0;
    while i < more.len()
        invariant
            i <= more@.len(),
            entries@ =~= start + more@.take(i as int),
        decreases more@.len() - i,
    {
        entries.push(more[i]);
        i += 1;
    }
    assert(more@.take(i as int) =~= more@);
}

/// The `.dynamic` entries, `DT_NULL` included.
pub open spec fn spec_dynamic_entries(
    refs: Refs,
    options: LinkOptions,
    mode: Mode,
    synth: Synth,
    scan: ScanResult,
    outputs: Seq<Vec<u8>>,
    tables: DynamicTables,
    strings: DynamicStrings,
) -> Seq<(i64, DynValue)> {
    run_entries(refs, options, mode, outputs, strings) + table_entries(mode, synth, tables)
        + flag_entries(options, mode, synth, scan, tables)
}

/// The `.dynamic` entries, `DT_NULL` included; `outputs` names the output
/// sections that have contents.
pub fn dynamic_entries(
    refs: &Refs,
    options: &LinkOptions,
    mode: Mode,
    synth: &Synth,
    scan: ScanResult,
    outputs: &Vec<Vec<u8>>,
    tables: DynamicTables,
    strings: &DynamicStrings,
) -> (r: Vec<(i64, DynValue)>)
    ensures
        r@ == spec_dynamic_entries(
            *refs,
            *options,
            mode,
            *synth,
            scan,
            outputs@,
            tables,
            *strings,
        ),
{
    let mut entries: Vec<(i64, DynValue)> = list_run_entries(
        refs,
        options,
        mode,
        outputs,
        strings,
    );
    push_entries(&mut entries, &list_table_entries(mode, synth, tables));
    push_entries(&mut entries, &list_flag_entries(options, mode, synth, scan, tables));
    entries
}

/// `.dynamic` ends with `DT_NULL`.
pub proof fn dynamic_ends_with_null(
    refs: Refs,
    options: LinkOptions,
    mode: Mode,
    synth: Synth,
    scan: ScanResult,
    outputs: Seq<Vec<u8>>,
    tables: DynamicTables,
    strings: DynamicStrings,
)
    ensures
        ({
            let entries = spec_dynamic_entries(
                refs,
                options,
                mode,
                synth,
                scan,
                outputs,
                tables,
                strings,
            );
            entries.len() > 0 && entries.last() == (DT_NULL, DynValue::Value(0))
        }),
{
}

/// Whether a list has an entry.
#[verifier::opaque]
pub open spec fn is_in(list: Seq<(i64, DynValue)>, e: (i64, DynValue)) -> bool {
    list.contains(e)
}

/// What lists have: one entry or none, entries for strings and symbols, and
/// one list followed by another.
proof fn lists_have(e: (i64, DynValue))
    ensures
        !is_in(Seq::empty(), e),
        forall|a: Seq<(i64, DynValue)>, b: Seq<(i64, DynValue)>| #[trigger]
            is_in(a + b, e) == (is_in(a, e) || is_in(b, e)),
        forall|on: bool, t: i64, v: DynValue| #[trigger]
            is_in(entry_if(on, t, v), e) == (on && e == (t, v)),
        forall|t: i64, o: Option<u32>| #[trigger]
            is_in(string_entry(t, o), e) == (o matches Some(n) && e == (t, DynValue::Value(
                n as u64,
            ))),
        forall|t: i64, o: Option<SymbolId>| #[trigger]
            is_in(symbol_entry(t, o), e) == (o matches Some(n) && e == (t, DynValue::Symbol(n))),
        forall|t: i64, l: Seq<u32>| #[trigger]
            is_in(string_entries(t, l), e) == (e.0 == t && exists|i: int|
                0 <= i < l.len() && e.1 == DynValue::Value(#[trigger] l[i] as u64)),
{
    reveal(is_in);
    assert forall|a: Seq<(i64, DynValue)>, b: Seq<(i64, DynValue)>| #[trigger]
        is_in(a + b, e) == (is_in(a, e) || is_in(b, e)) by {
        let all = a + b;
        if a.contains(e) {
            let i = choose|i: int| 0 <= i < a.len() && a[i] == e;
            assert(all[i] == e);
        }
        if b.contains(e) {
            let i = choose|i: int| 0 <= i < b.len() && b[i] == e;
            assert(all[a.len() + i] == e);
        }
        if all.contains(e) {
            let i = choose|i: int| 0 <= i < all.len() && all[i] == e;
            if i < a.len() {
                assert(a[i] == e);
            } else {
                assert(b[i - a.len()] == e);
            }
        }
    }
    assert forall|on: bool, t: i64, v: DynValue| #[trigger]
        is_in(entry_if(on, t, v), e) == (on && e == (t, v)) by {
        if on {
            assert(entry_if(on, t, v)[0] == (t, v));
        }
    }
    assert forall|t: i64, o: Option<u32>| #[trigger]
        is_in(string_entry(t, o), e) == (o matches Some(n) && e == (t, DynValue::Value(
            n as u64,
        ))) by {
        if let Some(n) = o {
            assert(string_entry(t, o)[0] == (t, DynValue::Value(n as u64)));
        }
    }
    assert forall|t: i64, o: Option<SymbolId>| #[trigger]
        is_in(symbol_entry(t, o), e) == (o matches Some(n) && e == (t, DynValue::Symbol(n))) by {
        if let Some(n) = o {
            assert(symbol_entry(t, o)[0] == (t, DynValue::Symbol(n)));
        }
    }
    assert forall|t: i64, l: Seq<u32>| #[trigger]
        is_in(string_entries(t, l), e) == (e.0 == t && exists|i: int|
            0 <= i < l.len() && e.1 == DynValue::Value(#[trigger] l[i] as u64)) by {
        let list = string_entries(t, l);
        if list.contains(e) {
            let i = choose|i: int| 0 <= i < list.len() && list[i] == e;
            assert(e.1 == DynValue::Value(l[i] as u64));
        }
        if e.0 == t && exists|i: int|
            0 <= i < l.len() && e.1 == DynValue::Value(#[trigger] l[i] as u64) {
            let i = choose|i: int|
                0 <= i < l.len() && e.1 == DynValue::Value(#[trigger] l[i] as u64);
            assert(list[i] == e);
        }
    }
}

/// What an entry for a table of the output holds, by the number of its tag.
pub open spec fn table_value(mode: Mode, synth: Synth, tables: DynamicTables, tag: i64) -> Option<
    DynValue,
> {
    match tag {
        2 => if synth.plt_entries > 0 {
            Some(DynValue::Size(Synthetic::RelaPlt))
        } else {
            None
        },
        3 => if synth.got_plt_reserved > 0 {
            Some(DynValue::Address(Synthetic::GotPlt))
        } else {
            None
        },
        4 => if tables.sysv_hash {
            Some(DynValue::Address(Synthetic::Hash))
        } else {
            None
        },
        5 => Some(DynValue::Address(Synthetic::DynStr)),
        6 => Some(DynValue::Address(Synthetic::DynSym)),
        7 => if synth.rela_dyn_count > 0 {
            Some(DynValue::Address(Synthetic::RelaDyn))
        } else {
            None
        },
        8 => if synth.rela_dyn_count > 0 {
            Some(DynValue::Size(Synthetic::RelaDyn))
        } else {
            None
        },
        9 => if synth.rela_dyn_count > 0 {
            Some(DynValue::Value(24))
        } else {
            None
        },
        10 => Some(DynValue::Size(Synthetic::DynStr)),
        11 => Some(DynValue::Value(24)),
        20 => if synth.plt_entries > 0 {
            Some(DynValue::Value(7))
        } else {
            None
        },
        21 => if mode.executable {
            Some(DynValue::Value(0))
        } else {
            None
        },
        23 => if synth.plt_entries > 0 {
            Some(DynValue::Address(Synthetic::RelaPlt))
        } else {
            None
        },
        35 => if synth.relr_count > 0 {
            Some(DynValue::Size(Synthetic::RelrDyn))
        } else {
            None
        },
        36 => if synth.relr_count > 0 {
            Some(DynValue::Address(Synthetic::RelrDyn))
        } else {
            None
        },
        37 => if synth.relr_count > 0 {
            Some(DynValue::Value(8))
        } else {
            None
        },
        0x6fff_fef5 => if tables.gnu_hash {
            Some(DynValue::Address(Synthetic::GnuHash))
        } else {
            None
        },
        _ => None,
    }
}

/// The entries for the tables of the output are those of the tables there
/// are, each with its value, and no others.
#[verifier::rlimit(60)]
pub proof fn tables_have_their_entries(
    mode: Mode,
    synth: Synth,
    tables: DynamicTables,
    tag: i64,
    value: DynValue,
)
    ensures
        is_in(table_entries(mode, synth, tables), (tag, value)) <==> table_value(
            mode,
            synth,
            tables,
            tag,
        ) == Some(value),
{
    lists_have((tag, value));
}

/// The bits of what a library asks of the loader.
proof fn flag_bits(
    origin: u64,
    symbolic: u64,
    text: u64,
    now: u64,
    static_tls: u64,
    now1: u64,
    pie: u64,
    nodelete: u64,
    nodlopen: u64,
    nodump: u64,
    initfirst: u64,
    interpose: u64,
    global: u64,
    nodefaultlib: u64,
    loadfltr: u64,
    origin1: u64,
    singleton: u64,
    flags: u64,
    flags_1: u64,
)
    by (bit_vector)
    requires
        origin == 0 || origin == 0x1,
        symbolic == 0 || symbolic == 0x2,
        text == 0 || text == 0x4,
        now == 0 || now == 0x8,
        static_tls == 0 || static_tls == 0x10,
        now1 == 0 || now1 == 0x1,
        pie == 0 || pie == 0x800_0000,
        nodelete == 0 || nodelete == 0x8,
        nodlopen == 0 || nodlopen == 0x40,
        nodump == 0 || nodump == 0x1000,
        initfirst == 0 || initfirst == 0x20,
        interpose == 0 || interpose == 0x400,
        global == 0 || global == 0x2,
        nodefaultlib == 0 || nodefaultlib == 0x800,
        loadfltr == 0 || loadfltr == 0x10,
        origin1 == 0 || origin1 == 0x80,
        singleton == 0 || singleton == 0x200_0000,
    ensures
        flags == origin | symbolic | text | now | static_tls ==> (flags & 0x1 != 0) == (origin != 0) && (flags & 0x2 != 0) == (symbolic != 0) && (flags & 0x4 != 0) == (text != 0) && (flags & 0x8 != 0) == (now != 0) && (flags & 0x10 != 0) == (static_tls != 0) && flags & !0x1fu64 == 0,
        flags_1 == now1 | pie | nodelete | nodlopen | nodump | initfirst | interpose | global | nodefaultlib | loadfltr | origin1 | singleton ==> (flags_1 & 0x1 != 0) == (now1 != 0) && (flags_1 & 0x800_0000 != 0) == (pie != 0) && (flags_1 & 0x8 != 0) == (nodelete != 0) && (flags_1 & 0x40 != 0) == (nodlopen != 0) && (flags_1 & 0x1000 != 0) == (nodump != 0) && (flags_1 & 0x20 != 0) == (initfirst != 0) && (flags_1 & 0x400 != 0) == (interpose != 0) && (flags_1 & 0x2 != 0) == (global != 0) && (flags_1 & 0x800 != 0) == (nodefaultlib != 0) && (flags_1 & 0x10 != 0) == (loadfltr != 0) && (flags_1 & 0x80 != 0) == (origin1 != 0) && (flags_1 & 0x200_0000 != 0) == (singleton != 0) && flags_1 & !0xa00_1cfbu64 == 0,
{
}

/// Each bit of `DT_FLAGS` is set where the option asks for it, and no bit
/// else.
#[verifier::rlimit(60)]
#[verifier::spinoff_prover]
pub proof fn flags_say_what_is_asked(
    z: DynamicFlags,
    symbolic: bool,
    text: bool,
    now: bool,
    static_tls: bool,
)
    ensures
        ({
            let flags = dt_flags(z, symbolic, text, now, static_tls);
            &&& (flags & 0x1 != 0) == z.origin
            &&& (flags & 0x2 != 0) == symbolic
            &&& (flags & 0x4 != 0) == text
            &&& (flags & 0x8 != 0) == now
            &&& (flags & 0x10 != 0) == static_tls
            &&& flags & !0x1fu64 == 0
        }),
{
    let flags = dt_flags(z, symbolic, text, now, static_tls);
    let f0: u64 = flag(z.origin, 0x1);
    let f1: u64 = flag(symbolic, 0x2);
    let f2: u64 = flag(text, 0x4);
    let f3: u64 = flag(now, 0x8);
    let f4: u64 = flag(static_tls, 0x10);
    flag_bits(
        f0,
        f1,
        f2,
        f3,
        f4,
        0,
        0,
        0,
        0,
        0,
        0,
        0,
        0,
        0,
        0,
        0,
        0,
        flags,
        0,
    );
}

/// Each bit of `DT_FLAGS_1` is set where the option asks for it, and no bit
/// else.
#[verifier::rlimit(60)]
#[verifier::spinoff_prover]
pub proof fn more_flags_say_what_is_asked(z: DynamicFlags, now: bool, pie: bool)
    ensures
        ({
            let flags = dt_flags_1(z, now, pie);
            &&& (flags & 0x1 != 0) == now
            &&& (flags & 0x800_0000 != 0) == pie
            &&& (flags & 0x8 != 0) == z.nodelete
            &&& (flags & 0x40 != 0) == z.nodlopen
            &&& (flags & 0x1000 != 0) == z.nodump
            &&& (flags & 0x20 != 0) == z.initfirst
            &&& (flags & 0x400 != 0) == z.interpose
            &&& (flags & 0x2 != 0) == z.global
            &&& (flags & 0x800 != 0) == z.nodefaultlib
            &&& (flags & 0x10 != 0) == z.loadfltr
            &&& (flags & 0x80 != 0) == z.origin
            &&& (flags & 0x200_0000 != 0) == z.singleton
            &&& flags & !0xa00_1cfbu64 == 0
        }),
{
    let flags = dt_flags_1(z, now, pie);
    let f0: u64 = flag(now, 0x1);
    let f1: u64 = flag(pie, 0x800_0000);
    let f2: u64 = flag(z.nodelete, 0x8);
    let f3: u64 = flag(z.nodlopen, 0x40);
    let f4: u64 = flag(z.nodump, 0x1000);
    let f5: u64 = flag(z.initfirst, 0x20);
    let f6: u64 = flag(z.interpose, 0x400);
    let f7: u64 = flag(z.global, 0x2);
    let f8: u64 = flag(z.nodefaultlib, 0x800);
    let f9: u64 = flag(z.loadfltr, 0x10);
    let f10: u64 = flag(z.origin, 0x80);
    let f11: u64 = flag(z.singleton, 0x200_0000);
    flag_bits(
        0,
        0,
        0,
        0,
        0,
        f0,
        f1,
        f2,
        f3,
        f4,
        f5,
        f6,
        f7,
        f8,
        f9,
        f10,
        f11,
        0,
        flags,
    );
}

/// What an entry for a property of the output holds, by the number of its
/// tag.
pub open spec fn flag_value(
    options: LinkOptions,
    mode: Mode,
    synth: Synth,
    scan: ScanResult,
    tables: DynamicTables,
    tag: i64,
) -> Option<DynValue> {
    let symbolic = options.symbolic == SymbolicMode::All && !mode.executable;
    let flags = dt_flags(
        options.dynamic_flags,
        symbolic,
        scan.text_relocs,
        options.bind_now,
        scan.static_tls && !mode.executable,
    );
    let flags_1 = dt_flags_1(options.dynamic_flags, options.bind_now, mode.executable && mode.pic);
    match tag {
        0 => Some(DynValue::Value(0)),
        16 => if symbolic {
            Some(DynValue::Value(0))
        } else {
            None
        },
        22 => if scan.text_relocs {
            Some(DynValue::Value(0))
        } else {
            None
        },
        30 => if flags != 0 {
            Some(DynValue::Value(flags))
        } else {
            None
        },
        0x6fff_fff0 => if tables.versym {
            Some(DynValue::Address(Synthetic::VerSym))
        } else {
            None
        },
        0x6fff_fff9 => if options.combine_relocs && synth.relative_count > 0 {
            Some(DynValue::Value(synth.relative_count))
        } else {
            None
        },
        0x6fff_fffb => if flags_1 != 0 {
            Some(DynValue::Value(flags_1))
        } else {
            None
        },
        0x6fff_fffc => if tables.verdef_count > 0 {
            Some(DynValue::Address(Synthetic::VerDef))
        } else {
            None
        },
        0x6fff_fffd => if tables.verdef_count > 0 {
            Some(DynValue::Value(tables.verdef_count))
        } else {
            None
        },
        0x6fff_fffe => if tables.verneed_count > 0 {
            Some(DynValue::Address(Synthetic::VerNeed))
        } else {
            None
        },
        0x6fff_ffff => if tables.verneed_count > 0 {
            Some(DynValue::Value(tables.verneed_count))
        } else {
            None
        },
        _ => None,
    }
}

/// The entries for the properties of the output are those that hold, each
/// with its value, and no others.
#[verifier::rlimit(60)]
pub proof fn properties_have_their_entries(
    options: LinkOptions,
    mode: Mode,
    synth: Synth,
    scan: ScanResult,
    tables: DynamicTables,
    tag: i64,
    value: DynValue,
)
    ensures
        is_in(flag_entries(options, mode, synth, scan, tables), (tag, value)) <==> flag_value(
            options,
            mode,
            synth,
            scan,
            tables,
            tag,
        ) == Some(value),
{
    lists_have((tag, value));
    let nulls = Seq::new(
        null_count(options.spare_dynamic_tags) as nat,
        |i: int| (DT_NULL, DynValue::Value(0)),
    );
    assert(is_in(nulls, (tag, value)) <==> tag == 0 && value == DynValue::Value(0)) by {
        reveal(is_in);
        assert(nulls[0] == (DT_NULL, DynValue::Value(0)));
    }
}

/// Whether an entry is for a string or for what runs at start or exit, by
/// the number of its tag.
pub open spec fn is_run_entry(
    refs: Refs,
    options: LinkOptions,
    mode: Mode,
    outputs: Seq<Vec<u8>>,
    strings: DynamicStrings,
    tag: i64,
    value: DynValue,
) -> bool {
    match tag {
        1 => exists|i: int|
            0 <= i < strings.needed@.len() && value == DynValue::Value(
                #[trigger] strings.needed@[i] as u64,
            ),
        0x7fff_fffd => exists|i: int|
            0 <= i < strings.auxiliary@.len() && value == DynValue::Value(
                #[trigger] strings.auxiliary@[i] as u64,
            ),
        0x7fff_ffff => exists|i: int|
            0 <= i < strings.filters@.len() && value == DynValue::Value(
                #[trigger] strings.filters@[i] as u64,
            ),
        12 => spec_defined_symbol(refs, name_or(options.init, "_init"@)) matches Some(id) && value
            == DynValue::Symbol(id),
        13 => spec_defined_symbol(refs, name_or(options.fini, "_fini"@)) matches Some(id) && value
            == DynValue::Symbol(id),
        14 => strings.soname matches Some(o) && value == DynValue::Value(o as u64),
        15 => options.new_dtags == Some(false) && (strings.run_path matches Some(o) && value
            == DynValue::Value(o as u64)),
        25 => has_output(outputs, ".init_array"@) && value == DynValue::OutputAddress(
            ".init_array",
        ),
        26 => has_output(outputs, ".fini_array"@) && value == DynValue::OutputAddress(
            ".fini_array",
        ),
        27 => has_output(outputs, ".init_array"@) && value == DynValue::OutputSize(".init_array"),
        28 => has_output(outputs, ".fini_array"@) && value == DynValue::OutputSize(".fini_array"),
        29 => options.new_dtags != Some(false) && (strings.run_path matches Some(o) && value
            == DynValue::Value(o as u64)),
        32 => mode.executable && has_output(outputs, ".preinit_array"@) && value
            == DynValue::OutputAddress(".preinit_array"),
        33 => mode.executable && has_output(outputs, ".preinit_array"@) && value
            == DynValue::OutputSize(".preinit_array"),
        _ => false,
    }
}

/// The entries for strings and for what runs are those there is something
/// for, and no others.
#[verifier::rlimit(80)]
pub proof fn strings_and_functions_have_their_entries(
    refs: Refs,
    options: LinkOptions,
    mode: Mode,
    outputs: Seq<Vec<u8>>,
    strings: DynamicStrings,
    tag: i64,
    value: DynValue,
)
    ensures
        is_in(run_entries(refs, options, mode, outputs, strings), (tag, value)) <==> is_run_entry(
            refs,
            options,
            mode,
            outputs,
            strings,
            tag,
            value,
        ),
{
    lists_have((tag, value));
}

/// All entries are those of the three kinds.
pub proof fn entries_are_of_three_kinds(
    refs: Refs,
    options: LinkOptions,
    mode: Mode,
    synth: Synth,
    scan: ScanResult,
    outputs: Seq<Vec<u8>>,
    tables: DynamicTables,
    strings: DynamicStrings,
    tag: i64,
    value: DynValue,
)
    ensures
        spec_dynamic_entries(
            refs,
            options,
            mode,
            synth,
            scan,
            outputs,
            tables,
            strings,
        ).contains((tag, value)) <==> is_run_entry(
            refs,
            options,
            mode,
            outputs,
            strings,
            tag,
            value,
        ) || table_value(mode, synth, tables, tag) == Some(value) || flag_value(
            options,
            mode,
            synth,
            scan,
            tables,
            tag,
        ) == Some(value),
{
    let a = run_entries(refs, options, mode, outputs, strings);
    let b = table_entries(mode, synth, tables);
    let c = flag_entries(options, mode, synth, scan, tables);
    lists_have((tag, value));
    assert(is_in(a + b + c, (tag, value)) == (a + b + c).contains((tag, value))) by {
        reveal(is_in);
    }
    strings_and_functions_have_their_entries(refs, options, mode, outputs, strings, tag, value);
    tables_have_their_entries(mode, synth, tables, tag, value);
    properties_have_their_entries(options, mode, synth, scan, tables, tag, value);
}

} // verus!
