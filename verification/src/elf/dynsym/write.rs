//! Writing `.dynsym` and `.dynamic` once everything has an address.

use vstd::prelude::*;

use super::{DynValue, Entry, Synth, Synthetic};
use super::plan::DynamicPlan;
use crate::bytes::{le64, same, write_over};
use crate::elf::consts::{
    SHN_ABS, SHN_UNDEF, STB_GLOBAL, STB_WEAK, STT_FUNC, STT_GNU_IFUNC, STT_NOTYPE, STT_OBJECT,
    STT_TLS, STV_DEFAULT, STV_PROTECTED,
};
use crate::elf::format::{Format, SymbolRecord};
use crate::elf::inputs::RawSymbol;
use crate::elf::layout::{Layout, OutputSection};
use crate::elf::refs::{Def, Refs, Target};
use crate::ids::SymbolId;
use crate::symbols::{
    Definition, SymbolFlags, ABSOLUTE, AUX_COMDAT, LINKER_POSITION, NEEDS_CANONICAL_PLT,
    REF_REGULAR_STRONG,
};

verus! {

/// Where everything is.
#[derive(Clone, Copy, Debug)]
pub struct Addresses<'a> {
    /// What the link refers to.
    pub refs: &'a Refs,
    /// The output sections.
    pub layout: &'a Layout,
    /// The synthetic sections.
    pub synth: &'a Synth,
    /// The value of each global symbol.
    pub globals: &'a Vec<u64>,
    /// The address and size of each synthetic part.
    pub synthetic: &'a Vec<(Synthetic, u64, u64)>,
}

/// The sum of two numbers, or as much as fits.
#[verifier::allow_in_spec]
pub fn sum(a: u64, b: u64) -> u64
    returns
        (if a > u64::MAX - b {
            u64::MAX
        } else {
            (a + b) as u64
        }),
{
    if a > u64::MAX - b {
        u64::MAX
    } else {
        a + b
    }
}

/// Whether a section holds an address.
pub open spec fn covers(s: OutputSection, address: u64) -> bool {
    s.alloc && s.addr <= address && address < sum(s.addr, s.size)
}

/// Whether a section starts before an address.
pub open spec fn precedes(s: OutputSection, address: u64) -> bool {
    s.alloc && s.addr <= address && s.addr != 0
}

/// The first section from `i` on that holds an address.
pub open spec fn covering_from(sections: Seq<OutputSection>, address: u64, i: int) -> Option<int>
    decreases sections.len() - i,
{
    if i < 0 || i >= sections.len() {
        None
    } else if covers(sections[i], address) {
        Some(i)
    } else {
        covering_from(sections, address, i + 1)
    }
}

/// The last of the first `n` sections that starts before an address.
pub open spec fn preceding(sections: Seq<OutputSection>, address: u64, n: int) -> Option<int>
    decreases n,
{
    if n <= 0 {
        None
    } else if precedes(sections[n - 1], address) {
        Some(n - 1)
    } else {
        preceding(sections, address, n - 1)
    }
}

/// The header index of a section.
pub open spec fn header_index(position: Option<int>) -> u16 {
    match position {
        Some(p) => if p < u16::MAX {
            (p + 1) as u16
        } else {
            SHN_ABS
        },
        None => SHN_ABS,
    }
}

/// The output section header index holding `address`, or `SHN_ABS`; past
/// the end of a section (`_end`) it is that of the last section before it.
pub open spec fn shndx_at(sections: Seq<OutputSection>, address: u64) -> u16 {
    match covering_from(sections, address, 0) {
        Some(p) => header_index(Some(p)),
        None => header_index(preceding(sections, address, sections.len() as int)),
    }
}

/// The header index of a section.
fn index_of_position(position: usize) -> (r: u16)
    ensures
        r == header_index(Some(position as int)),
{
    if (position as u64) < u16::MAX as u64 {
        position as u16 + 1
    } else {
        SHN_ABS
    }
}

/// The output section header index holding `address`, or `SHN_ABS`.
pub fn shndx_of_address(layout: &Layout, address: u64) -> (r: u16)
    ensures
        r == shndx_at(layout.sections@, address),
{
    let count: usize = layout.sections.len();
    let mut i: usize = 0;
    while i < count
        invariant
            i <= count,
            count == layout.sections@.len(),
            covering_from(layout.sections@, address, 0) == covering_from(
                layout.sections@,
                address,
                i as int,
            ),
        decreases count - i,
    {
        let s: &OutputSection = &layout.sections[i];
        if s.alloc && s.addr <= address && address < sum(s.addr, s.size) {
            return index_of_position(i);
        }
        i += 1;
    }
    let mut n: usize = count;
    while n > 0
        invariant
            n <= count,
            count == layout.sections@.len(),
            covering_from(layout.sections@, address, 0) is None,
            preceding(layout.sections@, address, count as int) == preceding(
                layout.sections@,
                address,
                n as int,
            ),
        decreases n,
    {
        let s: &OutputSection = &layout.sections[n - 1];
        if s.alloc && s.addr <= address && s.addr != 0 {
            return index_of_position(n - 1);
        }
        n -= 1;
    }
    SHN_ABS
}

/// The header index of the output section that holds an input section.
pub open spec fn shndx_for(refs: Refs, layout: Layout, file: usize, section: u32) -> u16 {
    match refs.sections.spec_id(file as int, section as int) {
        Some(id) => match layout.position_of(id) {
            Some(p) => header_index(Some(p as int)),
            None => SHN_UNDEF,
        },
        None => SHN_UNDEF,
    }
}

/// The header index of the output section that holds an input section.
fn find_shndx(addresses: &Addresses, file: usize, section: u32) -> (r: u16)
    ensures
        r == shndx_for(*addresses.refs, *addresses.layout, file, section),
{
    match addresses.refs.sections.id(file, section) {
        Some(id) => match addresses.layout.find_position(id) {
            Some(p) => if p < u16::MAX as u32 {
                p as u16 + 1
            } else {
                SHN_ABS
            },
            None => SHN_UNDEF,
        },
        None => SHN_UNDEF,
    }
}

/// The value of a global symbol.
pub open spec fn value_of(globals: Seq<u64>, id: SymbolId) -> u64 {
    if id.position < globals.len() {
        globals[id.position as int]
    } else {
        0
    }
}

/// The value of a global symbol.
fn find_value(globals: &Vec<u64>, id: SymbolId) -> (r: u64)
    ensures
        r == value_of(globals@, id),
{
    if id.position < globals.len() {
        globals[id.position]
    } else {
        0
    }
}

/// Binding and type as they stand in an entry.
#[verifier::allow_in_spec]
pub fn symbol_info(binding: u8, kind: u8) -> u8
    returns
        ((binding << 4) | kind),
{
    (binding << 4) | kind
}

/// Whether a symbol is imported: a shared library defines it and no copy of
/// it is in the output, or nothing does.
#[verifier::allow_in_spec]
pub fn is_import(def: Def, copy: bool) -> bool
    returns
        (match def {
            Def::Shared(_) => !copy,
            Def::Undefined { .. } => true,
            _ => false,
        }),
{
    match def {
        Def::Shared(_) => !copy,
        Def::Undefined { .. } => true,
        _ => false,
    }
}

/// The entry of an imported symbol. An imported IFUNC is a plain function to
/// its users, and a symbol with a canonical PLT entry has its address.
#[verifier::allow_in_spec]
pub fn import_record(
    name: u32,
    flags: SymbolFlags,
    def: Def,
    raw: RawSymbol,
    value: u64,
) -> SymbolRecord
    returns
        (SymbolRecord {
            st_name: name,
            st_info: symbol_info(
                if flags.contains(REF_REGULAR_STRONG) {
                    STB_GLOBAL
                } else {
                    STB_WEAK
                },
                match def {
                    Def::Shared(_) => if raw.kind() == STT_GNU_IFUNC {
                        STT_FUNC
                    } else {
                        raw.kind()
                    },
                    _ => STT_NOTYPE,
                },
            ),
            st_other: STV_DEFAULT,
            st_shndx: SHN_UNDEF,
            st_value: if flags.contains(NEEDS_CANONICAL_PLT) {
                value
            } else {
                0u64
            },
            st_size: 0,
        }),
{
    SymbolRecord {
        st_name: name,
        st_info: symbol_info(
            if flags.contains(REF_REGULAR_STRONG) {
                STB_GLOBAL
            } else {
                STB_WEAK
            },
            match def {
                Def::Shared(_) => if raw.kind() == STT_GNU_IFUNC {
                    STT_FUNC
                } else {
                    raw.kind()
                },
                _ => STT_NOTYPE,
            },
        ),
        st_other: STV_DEFAULT,
        st_shndx: SHN_UNDEF,
        st_value: if flags.contains(NEEDS_CANONICAL_PLT) {
            value
        } else {
            0u64
        },
        st_size: 0,
    }
}

/// The entry of a version.
#[verifier::allow_in_spec]
pub fn version_record(name: u32) -> SymbolRecord
    returns
        (SymbolRecord {
            st_name: name,
            st_info: symbol_info(STB_GLOBAL, STT_OBJECT),
            st_other: STV_DEFAULT,
            st_shndx: SHN_ABS,
            st_value: 0,
            st_size: 0,
        }),
{
    SymbolRecord {
        st_name: name,
        st_info: symbol_info(STB_GLOBAL, STT_OBJECT),
        st_other: STV_DEFAULT,
        st_shndx: SHN_ABS,
        st_value: 0,
        st_size: 0,
    }
}

/// What a definition's entry tells besides its name and value.
#[derive(Clone, Copy, Debug, PartialEq, Eq, Structural)]
pub struct Described {
    /// The binding.
    pub binding: u8,
    /// The type.
    pub kind: u8,
    /// The size.
    pub size: u64,
    /// The section header index.
    pub shndx: u16,
}

/// What the entry of a symbol of the output tells. A copy keeps the library
/// definition's binding. A symbol in a section goes by the section rather
/// than by its address: in a section that is not in memory it has none but
/// keeps its section.
pub open spec fn described(
    refs: Refs,
    layout: Layout,
    flags: SymbolFlags,
    definition: Definition,
    target: Target,
    raw: RawSymbol,
    copy: bool,
    value: u64,
) -> Described {
    let here = shndx_at(layout.sections@, value);
    if copy {
        Described { binding: raw.binding(), kind: raw.kind(), size: raw.st_size, shndx: here }
    } else {
        match target.def {
            Def::Section { file, section, value: offset } => Described {
                binding: raw.binding(),
                kind: raw.kind(),
                size: match refs.sections.spec_id(file as int, section as int) {
                    Some(id) => layout.relax.spec_symbol_size(id, offset, raw.st_size),
                    None => raw.st_size,
                },
                shndx: {
                    let shndx = shndx_for(refs, layout, file, section);
                    if shndx == SHN_UNDEF || shndx == SHN_ABS {
                        here
                    } else {
                        shndx
                    }
                },
            },
            Def::Absolute(_) => Described {
                binding: raw.binding(),
                kind: raw.kind(),
                size: raw.st_size,
                shndx: SHN_ABS,
            },
            Def::Common(_) => Described {
                binding: STB_GLOBAL,
                kind: STT_OBJECT,
                size: definition.aux & !AUX_COMDAT,
                shndx: here,
            },
            Def::Linker(_) => Described {
                binding: STB_GLOBAL,
                kind: STT_NOTYPE,
                size: 0,
                shndx: if flags.contains(ABSOLUTE) && definition.file.position != LINKER_POSITION {
                    SHN_ABS
                } else {
                    here
                },
            },
            _ => Described { binding: STB_GLOBAL, kind: STT_NOTYPE, size: 0, shndx: SHN_UNDEF },
        }
    }
}

/// What the entry of a symbol of the output tells.
fn describe(
    addresses: &Addresses,
    flags: SymbolFlags,
    definition: Definition,
    target: Target,
    raw: RawSymbol,
    copy: bool,
    value: u64,
) -> (r: Described)
    requires
        addresses.layout.relax.valid(),
    ensures
        r == described(
            *addresses.refs,
            *addresses.layout,
            flags,
            definition,
            target,
            raw,
            copy,
            value,
        ),
{
    let here: u16 = shndx_of_address(addresses.layout, value);
    if copy {
        return Described {
            binding: raw.binding(),
            kind: raw.kind(),
            size: raw.st_size,
            shndx: here,
        };
    }
    match target.def {
        Def::Section { file, section, value: offset } => {
            let size: u64 = match addresses.refs.sections.id(file, section) {
                Some(id) => addresses.layout.relax.symbol_size(id, offset, raw.st_size),
                None => raw.st_size,
            };
            let by_section: u16 = find_shndx(addresses, file, section);
            let shndx: u16 = if by_section == SHN_UNDEF || by_section == SHN_ABS {
                here
            } else {
                by_section
            };
            Described { binding: raw.binding(), kind: raw.kind(), size, shndx }
        },
        Def::Absolute(_) => Described {
            binding: raw.binding(),
            kind: raw.kind(),
            size: raw.st_size,
            shndx: SHN_ABS,
        },
        Def::Common(_) => Described {
            binding: STB_GLOBAL,
            kind: STT_OBJECT,
            size: definition.aux & !AUX_COMDAT,
            shndx: here,
        },
        Def::Linker(_) => Described {
            binding: STB_GLOBAL,
            kind: STT_NOTYPE,
            size: 0,
            shndx: if flags.contains(ABSOLUTE) && definition.file.position != LINKER_POSITION {
                SHN_ABS
            } else {
                here
            },
        },
        _ => Described { binding: STB_GLOBAL, kind: STT_NOTYPE, size: 0, shndx: SHN_UNDEF },
    }
}

/// The entry of a symbol of the output. A TLS symbol's value is its offset
/// in the TLS template.
pub open spec fn output_record(
    name: u32,
    d: Described,
    visibility: u8,
    value: u64,
    tls: u64,
) -> SymbolRecord {
    SymbolRecord {
        st_name: name,
        st_info: symbol_info(d.binding, d.kind),
        st_other: if visibility == STV_PROTECTED {
            STV_PROTECTED
        } else {
            STV_DEFAULT
        },
        st_shndx: d.shndx,
        st_value: if d.kind == STT_TLS {
            value.wrapping_sub(tls)
        } else {
            value
        },
        st_size: d.size,
    }
}

/// The visibility of a symbol.
pub open spec fn visibility_of(refs: Refs, id: SymbolId) -> u8 {
    if id.position < refs.symbols.symbols@.len() {
        refs.symbols.symbols@[id.position as int].visibility
    } else {
        STV_DEFAULT
    }
}

/// A `.dynsym` entry.
pub open spec fn entry_record(addresses: Addresses, entry: Entry, name: u32) -> SymbolRecord {
    let refs = *addresses.refs;
    let layout = *addresses.layout;
    match entry {
        Entry::Version(_) => version_record(name),
        Entry::Symbol(id) => {
            let flags = refs.symbols.flags_of(id);
            let value = value_of(addresses.globals@, id);
            let target = refs.spec_global_target(id);
            let raw = match target.raw {
                Some(raw) => raw,
                None => RawSymbol::null(),
            };
            let copy = addresses.synth.copies@.contains(id);
            if is_import(target.def, copy) {
                import_record(name, flags, target.def, raw, value)
            } else {
                output_record(
                    name,
                    described(
                        refs,
                        layout,
                        flags,
                        refs.symbols.definition_of(id),
                        target,
                        raw,
                        copy,
                        value,
                    ),
                    visibility_of(refs, id),
                    value,
                    match layout.tls {
                        Some(tls) => tls.start,
                        None => 0,
                    },
                )
            }
        },
    }
}

/// A `.dynsym` entry.
fn find_record(addresses: &Addresses, entry: Entry, name: u32) -> (r: SymbolRecord)
    requires
        addresses.layout.relax.valid(),
    ensures
        r == entry_record(*addresses, entry, name),
{
    let id: SymbolId = match entry {
        Entry::Version(_) => {
            return version_record(name);
        },
        Entry::Symbol(id) => id,
    };
    let refs: &Refs = addresses.refs;
    let flags: SymbolFlags = refs.symbols.flags(id);
    let value: u64 = find_value(addresses.globals, id);
    let target: Target = refs.global_target(id);
    let raw: RawSymbol = match target.raw {
        Some(raw) => raw,
        None => RawSymbol::null(),
    };
    let copy: bool = addresses.synth.has_copy(id);
    if is_import(target.def, copy) {
        return import_record(name, flags, target.def, raw, value);
    }
    let visibility: u8 = if id.position < refs.symbols.symbols.len() {
        refs.symbols.symbols[id.position].visibility
    } else {
        STV_DEFAULT
    };
    let d: Described = describe(
        addresses,
        flags,
        refs.symbols.definition(id),
        target,
        raw,
        copy,
        value,
    );
    let tls: u64 = match addresses.layout.tls {
        Some(tls) => tls.start,
        None => 0,
    };
    SymbolRecord {
        st_name: name,
        st_info: symbol_info(d.binding, d.kind),
        st_other: if visibility == STV_PROTECTED {
            STV_PROTECTED
        } else {
            STV_DEFAULT
        },
        st_shndx: d.shndx,
        st_value: if d.kind == STT_TLS {
            value.wrapping_sub(tls)
        } else {
            value
        },
        st_size: d.size,
    }
}

/// The format of `.dynsym`: 64-bit, least significant byte first.
pub open spec fn dynsym_format() -> Format {
    Format { wide: true, big: false }
}

/// How many entries after the null one are written: those that there are,
/// as far as they fit.
pub open spec fn written_count(entries: int, names: int, room: int) -> int {
    let both = if entries < names {
        entries
    } else {
        names
    };
    if both < room / 24 - 1 {
        both
    } else {
        room / 24 - 1
    }
}

/// `.dynsym` with the null entry and the first `n` others written.
pub open spec fn dynsym_written(
    s: Seq<u8>,
    addresses: Addresses,
    entries: Seq<Entry>,
    names: Seq<u32>,
    n: int,
) -> Seq<u8>
    decreases n,
{
    if n <= 0 {
        crate::bytes::overlay(s, 0, dynsym_format().symbol(SymbolRecord::null()))
    } else {
        crate::bytes::overlay(
            dynsym_written(s, addresses, entries, names, n - 1),
            24 * n,
            dynsym_format().symbol(entry_record(addresses, entries[n - 1], names[n - 1])),
        )
    }
}

/// A `.dynsym` entry has its size.
proof fn record_size(record: SymbolRecord)
    ensures
        dynsym_format().symbol(record).len() == 24,
{
    reveal(Format::symbol);
}

/// Writes an entry at `at`.
fn put_sym(out: &mut [u8], at: usize, record: SymbolRecord)
    requires
        at + 24 <= old(out)@.len(),
    ensures
        final(out)@ == crate::bytes::overlay(
            old(out)@,
            at as int,
            dynsym_format().symbol(record),
        ),
{
    let format: Format = Format { wide: true, big: false };
    let mut bytes: Vec<u8> = Vec::new();
    format.push_symbol(&mut bytes, record);
    proof {
        record_size(record);
        assert(bytes@ =~= dynsym_format().symbol(record));
    }
    write_over(out, at, &bytes);
}

/// Writes `.dynsym`.
pub fn write_dynsym(plan: &DynamicPlan, addresses: &Addresses, out: &mut [u8])
    requires
        addresses.layout.relax.valid(),
    ensures
        final(out)@ == (if old(out)@.len() < 24 {
            old(out)@
        } else {
            dynsym_written(
                old(out)@,
                *addresses,
                plan.entries@,
                plan.names@,
                written_count(
                    plan.entries@.len() as int,
                    plan.names@.len() as int,
                    old(out)@.len() as int,
                ),
            )
        }),
{
    let room: usize = out.len();
    if room < 24 {
        return;
    }
    let both: usize = if plan.entries.len() < plan.names.len() {
        plan.entries.len()
    } else {
        plan.names.len()
    };
    let count: usize = if both < room / 24 - 1 {
        both
    } else {
        room / 24 - 1
    };
    put_sym(out, 0, SymbolRecord::null());
    let mut n: usize = 0;
    while n < count
        invariant
            n <= count,
            count <= plan.entries@.len(),
            count <= plan.names@.len(),
            count <= room / 24 - 1,
            24 <= room,
            out@.len() == room,
            addresses.layout.relax.valid(),
            out@ == dynsym_written(old(out)@, *addresses, plan.entries@, plan.names@, n as int),
        decreases count - n,
    {
        put_sym(out, 24 * (n + 1), find_record(addresses, plan.entries[n], plan.names[n]));
        n += 1;
    }
}

/// The place of a synthetic part, from `i` on.
pub open spec fn synthetic_at(
    parts: Seq<(Synthetic, u64, u64)>,
    kind: Synthetic,
    i: int,
) -> (u64, u64)
    decreases parts.len() - i,
{
    if i < 0 || i >= parts.len() {
        (0, 0)
    } else if parts[i].0 == kind {
        (parts[i].1, parts[i].2)
    } else {
        synthetic_at(parts, kind, i + 1)
    }
}

/// The address and size of a synthetic part.
fn find_synthetic(parts: &Vec<(Synthetic, u64, u64)>, kind: Synthetic) -> (r: (u64, u64))
    ensures
        r == synthetic_at(parts@, kind, 0),
{
    let mut i: usize = 0;
    while i < parts.len()
        invariant
            i <= parts@.len(),
            synthetic_at(parts@, kind, 0) == synthetic_at(parts@, kind, i as int),
        decreases parts@.len() - i,
    {
        if parts[i].0 == kind {
            return (parts[i].1, parts[i].2);
        }
        i += 1;
    }
    (0, 0)
}

/// The address and size of the output section of a name, from `i` on.
pub open spec fn output_at(sections: Seq<OutputSection>, name: Seq<u8>, i: int) -> (u64, u64)
    decreases sections.len() - i,
{
    if i < 0 || i >= sections.len() {
        (0, 0)
    } else if sections[i].name@ == name {
        (sections[i].addr, sections[i].size)
    } else {
        output_at(sections, name, i + 1)
    }
}

/// The address and size of the output section of a name.
fn find_output_section(layout: &Layout, name: &str) -> (r: (u64, u64))
    ensures
        r == output_at(layout.sections@, vstd::utf8::encode_utf8(name@), 0),
{
    let bytes: &[u8] = name.as_bytes();
    let mut i: usize = 0;
    while i < layout.sections.len()
        invariant
            i <= layout.sections@.len(),
            bytes@ == vstd::utf8::encode_utf8(name@),
            output_at(layout.sections@, bytes@, 0) == output_at(
                layout.sections@,
                bytes@,
                i as int,
            ),
        decreases layout.sections@.len() - i,
    {
        if same(&layout.sections[i].name, bytes) {
            return (layout.sections[i].addr, layout.sections[i].size);
        }
        i += 1;
    }
    (0, 0)
}

/// The value of a `.dynamic` entry.
pub open spec fn resolved(addresses: Addresses, value: DynValue) -> u64 {
    match value {
        DynValue::Value(v) => v,
        DynValue::Address(kind) => synthetic_at(addresses.synthetic@, kind, 0).0,
        DynValue::Size(kind) => synthetic_at(addresses.synthetic@, kind, 0).1,
        DynValue::OutputAddress(name) => output_at(
            addresses.layout.sections@,
            vstd::utf8::encode_utf8(name@),
            0,
        ).0,
        DynValue::OutputSize(name) => output_at(
            addresses.layout.sections@,
            vstd::utf8::encode_utf8(name@),
            0,
        ).1,
        DynValue::Symbol(id) => value_of(addresses.globals@, id),
    }
}

/// The value of a `.dynamic` entry.
fn resolve(addresses: &Addresses, value: DynValue) -> (r: u64)
    ensures
        r == resolved(*addresses, value),
{
    match value {
        DynValue::Value(v) => v,
        DynValue::Address(kind) => find_synthetic(addresses.synthetic, kind).0,
        DynValue::Size(kind) => find_synthetic(addresses.synthetic, kind).1,
        DynValue::OutputAddress(name) => find_output_section(addresses.layout, name).0,
        DynValue::OutputSize(name) => find_output_section(addresses.layout, name).1,
        DynValue::Symbol(id) => find_value(addresses.globals, id),
    }
}

/// The bytes of a `.dynamic` entry.
pub open spec fn dynamic_bytes(addresses: Addresses, entry: (i64, DynValue)) -> Seq<u8> {
    crate::bytes::spec_le64(entry.0 as u64) + crate::bytes::spec_le64(
        resolved(addresses, entry.1),
    )
}

/// `.dynamic` with the first `n` entries written.
pub open spec fn dynamic_written(
    s: Seq<u8>,
    addresses: Addresses,
    entries: Seq<(i64, DynValue)>,
    n: int,
) -> Seq<u8>
    decreases n,
{
    if n <= 0 {
        s
    } else {
        crate::bytes::overlay(
            dynamic_written(s, addresses, entries, n - 1),
            16 * (n - 1),
            dynamic_bytes(addresses, entries[n - 1]),
        )
    }
}

/// Writes `.dynamic`: every entry, as far as they fit.
pub fn write_dynamic(plan: &DynamicPlan, addresses: &Addresses, out: &mut [u8])
    ensures
        final(out)@ == dynamic_written(
            old(out)@,
            *addresses,
            plan.dynamic@,
            if plan.dynamic@.len() < old(out)@.len() / 16 {
                plan.dynamic@.len() as int
            } else {
                old(out)@.len() as int / 16
            },
        ),
{
    let room: usize = out.len();
    let count: usize = if plan.dynamic.len() < room / 16 {
        plan.dynamic.len()
    } else {
        room / 16
    };
    let mut n: usize = 0;
    while n < count
        invariant
            n <= count,
            count <= plan.dynamic@.len(),
            count <= room / 16,
            out@.len() == room,
            out@ == dynamic_written(old(out)@, *addresses, plan.dynamic@, n as int),
        decreases count - n,
    {
        let (tag, value) = plan.dynamic[n];
        let ghost before = out@;
        let first: [u8; 8] = le64(tag as u64);
        let second: [u8; 8] = le64(resolve(addresses, value));
        write_over(out, 16 * n, &first);
        write_over(out, 16 * n + 8, &second);
        assert(out@ =~= crate::bytes::overlay(
            before,
            16 * n,
            dynamic_bytes(*addresses, plan.dynamic@[n as int]),
        ));
        n += 1;
    }
}

/// Whether a 64-bit symbol table entry with these fields stands at `at`.
pub open spec fn holds_entry(
    out: Seq<u8>,
    at: int,
    st_name: u32,
    st_info: u8,
    st_other: u8,
    st_shndx: u16,
    st_value: u64,
    st_size: u64,
) -> bool {
    &&& crate::bytes::inside(out, at, 24)
    &&& crate::bytes::u32_at(out, at) == Some(st_name)
    &&& out[at + 4] == st_info
    &&& out[at + 5] == st_other
    &&& crate::bytes::u16_at(out, at + 6) == Some(st_shndx)
    &&& out.subrange(at + 8, at + 16) == crate::bytes::spec_le64(st_value)
    &&& out.subrange(at + 16, at + 24) == crate::bytes::spec_le64(st_size)
}

/// Bytes that hold a record hold its fields.
proof fn records_hold_their_fields(out: Seq<u8>, at: int, r: SymbolRecord)
    requires
        crate::bytes::inside(out, at, 24),
        out.subrange(at, at + 24) == dynsym_format().symbol(r),
    ensures
        holds_entry(
            out,
            at,
            r.st_name,
            r.st_info,
            r.st_other,
            r.st_shndx,
            r.st_value,
            r.st_size,
        ),
{
    reveal(Format::symbol);
    let b = dynsym_format().symbol(r);
    let name = crate::bytes::spec_le32(r.st_name);
    let shndx = crate::bytes::spec_le16(r.st_shndx);
    let value = crate::bytes::spec_le64(r.st_value);
    let size = crate::bytes::spec_le64(r.st_size);
    assert(b =~= name + seq![r.st_info, r.st_other] + shndx + value + size);
    assert forall|k: int| 0 <= k < 24 implies out[at + k] == b[k] by {
        assert(out.subrange(at, at + 24)[k] == b[k]);
    }
    assert(out[at] == b[0] && out[at + 1] == b[1] && out[at + 2] == b[2] && out[at + 3] == b[3]);
    assert(out[at + 4] == b[4] && out[at + 5] == b[5]);
    assert(out[at + 6] == b[6] && out[at + 7] == b[7]);
    crate::bytes::u32_round_trip(out, at, r.st_name);
    assert(crate::bytes::stored(out, at, name) =~= out);
    crate::bytes::u16_round_trip(out, at + 6, r.st_shndx);
    assert(crate::bytes::stored(out, at + 6, shndx) =~= out);
    assert(out.subrange(at + 8, at + 16) =~= value) by {
        assert forall|k: int| 0 <= k < 8 implies out[at + 8 + k] == value[k] by {
            assert(out[at + (8 + k)] == b[8 + k]);
        }
    }
    assert(out.subrange(at + 16, at + 24) =~= size) by {
        assert forall|k: int| 0 <= k < 8 implies out[at + 16 + k] == size[k] by {
            assert(out[at + (16 + k)] == b[16 + k]);
        }
    }
}

/// Entry `k` stands behind the null one and those before it.
proof fn entries_stay(
    s: Seq<u8>,
    addresses: Addresses,
    entries: Seq<Entry>,
    names: Seq<u32>,
    n: int,
    k: int,
)
    requires
        0 <= k < n,
        24 * (n + 1) <= s.len(),
    ensures
        dynsym_written(s, addresses, entries, names, n).len() == s.len(),
        dynsym_written(s, addresses, entries, names, n).subrange(24 * (k + 1), 24 * (k + 2))
            == dynsym_format().symbol(entry_record(addresses, entries[k], names[k])),
    decreases n,
{
    let r = entry_record(addresses, entries[n - 1], names[n - 1]);
    record_size(r);
    record_size(SymbolRecord::null());
    let before = dynsym_written(s, addresses, entries, names, n - 1);
    let all = dynsym_written(s, addresses, entries, names, n);
    if k < n - 1 {
        entries_stay(s, addresses, entries, names, n - 1, k);
        assert(all.subrange(24 * (k + 1), 24 * (k + 2)) =~= before.subrange(
            24 * (k + 1),
            24 * (k + 2),
        ));
    } else {
        if n > 1 {
            entries_stay(s, addresses, entries, names, n - 1, 0);
        }
        assert(before.len() == s.len());
        assert(all.subrange(24 * (k + 1), 24 * (k + 2)) =~= dynsym_format().symbol(r));
    }
}

/// Binding and type come back from where they were put together.
proof fn info_is_whole(x: u8, b: u8, t: u8)
    by (bit_vector)
    ensures
        ((x >> 4) << 4) | (x & 0xf) == x,
        b < 16 && t < 16 ==> ((b << 4) | t) >> 4 == b && ((b << 4) | t) & 0xf == t,
        x & 0xf < 16,
        0u8 & 0xf == 0,
{
}

/// Every symbol the output defines in an input section is written as a
/// definition: its entry has the header index of the output section that
/// holds the input section, the binding and type of the symbol table entry
/// that defines it, its address (or for a thread-local one its offset in the
/// TLS template), and its size where nothing of the section is deleted.
pub proof fn exported_symbols_name_their_section(
    s: Seq<u8>,
    addresses: Addresses,
    entries: Seq<Entry>,
    names: Seq<u32>,
    n: int,
    k: int,
    id: SymbolId,
    section: crate::ids::SectionId,
)
    requires
        0 <= k < n,
        24 * (n + 1) <= s.len(),
        entries[k] == Entry::Symbol(id),
        id.position < addresses.refs.globals@.len(),
        id.position < addresses.globals@.len(),
        !addresses.synth.copies@.contains(id),
        addresses.refs.globals@[id.position as int].def matches Def::Section {
            file,
            section: index,
            ..
        } && {
            &&& file < addresses.refs.sections.ids@.len()
            &&& index < addresses.refs.sections.ids@[file as int]@.len()
            &&& addresses.refs.sections.ids@[file as int]@[index as int] == Some(section)
        },
        addresses.refs.globals@[id.position as int].raw is Some,
        section.position < addresses.layout.section_shndx@.len(),
        0 < addresses.layout.section_shndx@[section.position as int] < 0xff00,
    ensures
        ({
            let out = dynsym_written(s, addresses, entries, names, n);
            let at = 24 * (k + 1);
            let raw = addresses.refs.globals@[id.position as int].raw->0;
            let address = addresses.globals@[id.position as int];
            &&& crate::bytes::u32_at(out, at) == Some(names[k])
            &&& out[at + 4] == raw.st_info
            &&& crate::bytes::u16_at(out, at + 6) == Some(
                addresses.layout.section_shndx@[section.position as int] as u16,
            )
            &&& out.subrange(at + 8, at + 16) == crate::bytes::spec_le64(
                if raw.st_info & 0xf != 6 {
                    address
                } else {
                    match addresses.layout.tls {
                        Some(tls) => address.wrapping_sub(tls.start),
                        None => address,
                    }
                },
            )
            &&& addresses.layout.relax.sections@.len() == 0
                && addresses.layout.relax.index@.len() == 0 ==> out.subrange(at + 16, at + 24)
                == crate::bytes::spec_le64(raw.st_size)
        }),
{
    let r = entry_record(addresses, entries[k], names[k]);
    entries_stay(s, addresses, entries, names, n, k);
    let out = dynsym_written(s, addresses, entries, names, n);
    records_hold_their_fields(out, 24 * (k + 1), r);
    let raw = addresses.refs.globals@[id.position as int].raw->0;
    info_is_whole(raw.st_info, 0, 0);
    let address = addresses.globals@[id.position as int];
    assert(address.wrapping_sub(0) == address);
}

/// An address in the output has a header index: `SHN_ABS` where no section
/// holds it.
proof fn addresses_have_an_index(sections: Seq<OutputSection>, address: u64)
    ensures
        shndx_at(sections, address) != SHN_UNDEF,
{
    covering_is_a_position(sections, address, 0);
    preceding_is_a_position(sections, address, sections.len() as int);
}

proof fn covering_is_a_position(sections: Seq<OutputSection>, address: u64, i: int)
    requires
        0 <= i,
    ensures
        covering_from(sections, address, i) matches Some(p) ==> i <= p < sections.len(),
    decreases sections.len() - i,
{
    if i < sections.len() {
        covering_is_a_position(sections, address, i + 1);
    }
}

proof fn preceding_is_a_position(sections: Seq<OutputSection>, address: u64, n: int)
    ensures
        preceding(sections, address, n) matches Some(p) ==> 0 <= p < n,
    decreases n,
{
    if n > 0 {
        preceding_is_a_position(sections, address, n - 1);
    }
}

/// No symbol that the output defines is written as undefined: not one in a
/// section, an absolute, a common or a copied one, nor one of the linker's.
/// An absolute symbol is written as such, with its own type and size.
pub proof fn no_definition_is_written_as_undefined(
    s: Seq<u8>,
    addresses: Addresses,
    entries: Seq<Entry>,
    names: Seq<u32>,
    n: int,
    k: int,
    id: SymbolId,
)
    requires
        0 <= k < n,
        24 * (n + 1) <= s.len(),
        entries[k] == Entry::Symbol(id),
        id.position < addresses.refs.globals@.len(),
        match addresses.refs.globals@[id.position as int].def {
            Def::Section { .. } | Def::Absolute(_) | Def::Common(_) | Def::Linker(_) => true,
            Def::Shared(_) => addresses.synth.copies@.contains(id),
            Def::Undefined { .. } => false,
        },
    ensures
        ({
            let out = dynsym_written(s, addresses, entries, names, n);
            let at = 24 * (k + 1);
            let target = addresses.refs.globals@[id.position as int];
            &&& crate::bytes::u16_at(out, at + 6) matches Some(shndx) && shndx != 0
            &&& target.def is Absolute && !addresses.synth.copies@.contains(id)
                ==> crate::bytes::u16_at(out, at + 6) == Some(0xfff1u16) && (
            target.raw matches Some(raw) ==> out[at + 4] == raw.st_info && out.subrange(
                at + 16,
                at + 24,
            ) == crate::bytes::spec_le64(raw.st_size))
        }),
{
    let r = entry_record(addresses, entries[k], names[k]);
    entries_stay(s, addresses, entries, names, n, k);
    let out = dynsym_written(s, addresses, entries, names, n);
    records_hold_their_fields(out, 24 * (k + 1), r);
    addresses_have_an_index(
        addresses.layout.sections@,
        value_of(addresses.globals@, id),
    );
    if let Some(raw) = addresses.refs.globals@[id.position as int].raw {
        info_is_whole(raw.st_info, 0, 0);
    }
}

/// A symbol that another module has to define is written as undefined: no
/// section, no size, no value but that of its canonical PLT entry; weak
/// unless something refers to it otherwise, and with the type its library
/// gives it, an IFUNC being a function to its users.
pub proof fn imported_symbols_are_written_as_undefined(
    s: Seq<u8>,
    addresses: Addresses,
    entries: Seq<Entry>,
    names: Seq<u32>,
    n: int,
    k: int,
    id: SymbolId,
)
    requires
        0 <= k < n,
        24 * (n + 1) <= s.len(),
        entries[k] == Entry::Symbol(id),
        id.position < addresses.refs.globals@.len(),
        id.position < addresses.refs.symbols.symbols@.len(),
        id.position < addresses.globals@.len(),
        match addresses.refs.globals@[id.position as int].def {
            Def::Shared(_) => !addresses.synth.copies@.contains(id),
            Def::Undefined { .. } => true,
            _ => false,
        },
    ensures
        ({
            let out = dynsym_written(s, addresses, entries, names, n);
            let at = 24 * (k + 1);
            let target = addresses.refs.globals@[id.position as int];
            let bits = addresses.refs.symbols.symbols@[id.position as int].flags.bits;
            &&& crate::bytes::u32_at(out, at) == Some(names[k])
            &&& crate::bytes::u16_at(out, at + 6) == Some(0u16)
            &&& out[at + 4] >> 4 == (if bits & 0x20_0000 == 0x20_0000 {
                1u8
            } else {
                2u8
            })
            &&& target.def is Undefined ==> out[at + 4] & 0xf == 0
            &&& target.def is Shared && target.raw is Some ==> out[at + 4] & 0xf == (
            if target.raw->0.st_info & 0xf == 10 {
                2u8
            } else {
                target.raw->0.st_info & 0xf
            })
            &&& out.subrange(at + 8, at + 16) == crate::bytes::spec_le64(
                if bits & 0x400 == 0x400 {
                    addresses.globals@[id.position as int]
                } else {
                    0
                },
            )
            &&& out.subrange(at + 16, at + 24) == crate::bytes::spec_le64(0)
        }),
{
    let r = entry_record(addresses, entries[k], names[k]);
    entries_stay(s, addresses, entries, names, n, k);
    let out = dynsym_written(s, addresses, entries, names, n);
    records_hold_their_fields(out, 24 * (k + 1), r);
    let target = addresses.refs.globals@[id.position as int];
    let x = match target.raw {
        Some(raw) => raw.st_info & 0xf,
        None => 0,
    };
    if let Some(raw) = target.raw {
        info_is_whole(raw.st_info, 0, 0);
    }
    info_is_whole(0, 1, x);
    info_is_whole(0, 2, x);
    info_is_whole(0, 1, 2);
    info_is_whole(0, 2, 2);
    info_is_whole(0, 1, 0);
    info_is_whole(0, 2, 0);
}

/// The section that an address lies in is the one its header index names,
/// where no earlier section in memory holds it; the index of a section is
/// one more than its position.
pub proof fn addresses_name_their_section(sections: Seq<OutputSection>, address: u64, p: int)
    requires
        0 <= p < sections.len(),
        p + 1 < 0xff00,
        sections[p].alloc,
        sections[p].addr <= address < sections[p].addr + sections[p].size,
        address < u64::MAX,
        forall|q: int|
            0 <= q < p ==> !((#[trigger] sections[q]).alloc && sections[q].addr <= address < sections[q].addr
                + sections[q].size),
    ensures
        shndx_at(sections, address) == p + 1,
{
    first_covers(sections, address, 0, p);
}

/// The first section that holds an address is the one that is found.
proof fn first_covers(sections: Seq<OutputSection>, address: u64, i: int, p: int)
    requires
        0 <= i <= p < sections.len(),
        covers(sections[p], address),
        address < u64::MAX,
        forall|q: int|
            0 <= q < p ==> !((#[trigger] sections[q]).alloc && sections[q].addr <= address < sections[q].addr
                + sections[q].size),
    ensures
        covering_from(sections, address, i) == Some(p),
    decreases p - i,
{
    if i < p {
        assert(!covers(sections[i], address));
        first_covers(sections, address, i + 1, p);
    }
}

/// An entry of `.dynamic` is its tag and its value, 8 bytes each: the address
/// or size of the part or output section it names, or the address of the
/// symbol.
pub proof fn dynamic_entries_hold_tag_and_value(
    s: Seq<u8>,
    addresses: Addresses,
    entries: Seq<(i64, DynValue)>,
    n: int,
    k: int,
)
    requires
        0 <= k < n <= entries.len(),
        16 * n <= s.len(),
    ensures
        ({
            let out = dynamic_written(s, addresses, entries, n);
            let value = out.subrange(16 * k + 8, 16 * k + 16);
            &&& out.len() == s.len()
            &&& out.subrange(16 * k, 16 * k + 8) == crate::bytes::spec_le64(entries[k].0 as u64)
            &&& entries[k].1 matches DynValue::Value(v) ==> value == crate::bytes::spec_le64(v)
            &&& entries[k].1 matches DynValue::Symbol(id) ==> (id.position
                < addresses.globals@.len() ==> value == crate::bytes::spec_le64(
                addresses.globals@[id.position as int],
            ))
            &&& entries[k].1 matches DynValue::Address(kind) ==> forall|p: int|
                #![trigger addresses.synthetic@[p]]
                0 <= p < addresses.synthetic@.len() && addresses.synthetic@[p].0 == kind && (
                forall|q: int| 0 <= q < p ==> (#[trigger] addresses.synthetic@[q]).0 != kind)
                    ==> value == crate::bytes::spec_le64(addresses.synthetic@[p].1)
            &&& entries[k].1 matches DynValue::Size(kind) ==> forall|p: int|
                #![trigger addresses.synthetic@[p]]
                0 <= p < addresses.synthetic@.len() && addresses.synthetic@[p].0 == kind && (
                forall|q: int| 0 <= q < p ==> (#[trigger] addresses.synthetic@[q]).0 != kind)
                    ==> value == crate::bytes::spec_le64(addresses.synthetic@[p].2)
        }),
    decreases n,
{
    let out = dynamic_written(s, addresses, entries, n);
    let before = dynamic_written(s, addresses, entries, n - 1);
    let b = dynamic_bytes(addresses, entries[n - 1]);
    assert(b.len() == 16);
    if n > 1 {
        dynamic_entries_hold_tag_and_value(s, addresses, entries, n - 1, 0);
    }
    if k < n - 1 {
        dynamic_entries_hold_tag_and_value(s, addresses, entries, n - 1, k);
        assert(out.subrange(16 * k, 16 * k + 8) =~= before.subrange(16 * k, 16 * k + 8));
        assert(out.subrange(16 * k + 8, 16 * k + 16) =~= before.subrange(
            16 * k + 8,
            16 * k + 16,
        ));
    } else {
        assert(out.subrange(16 * k, 16 * k + 8) =~= crate::bytes::spec_le64(entries[k].0 as u64));
        assert(out.subrange(16 * k + 8, 16 * k + 16) =~= crate::bytes::spec_le64(
            resolved(addresses, entries[k].1),
        ));
        match entries[k].1 {
            DynValue::Address(kind) | DynValue::Size(kind) => {
                assert forall|p: int|
                    #![trigger addresses.synthetic@[p]]
                    0 <= p < addresses.synthetic@.len() && addresses.synthetic@[p].0 == kind && (
                    forall|q: int|
                        0 <= q < p ==> (#[trigger] addresses.synthetic@[q]).0
                            != kind) implies synthetic_at(addresses.synthetic@, kind, 0) == (
                    addresses.synthetic@[p].1,
                    addresses.synthetic@[p].2,
                ) by {
                    first_part(addresses.synthetic@, kind, 0, p);
                }
            },
            _ => {},
        }
    }
}

/// The first part of a kind is the one that is found.
proof fn first_part(parts: Seq<(Synthetic, u64, u64)>, kind: Synthetic, i: int, p: int)
    requires
        0 <= i <= p < parts.len(),
        parts[p].0 == kind,
        forall|q: int| 0 <= q < p ==> (#[trigger] parts[q]).0 != kind,
    ensures
        synthetic_at(parts, kind, i) == (parts[p].1, parts[p].2),
    decreases p - i,
{
    if i < p {
        assert(parts[i].0 != kind);
        first_part(parts, kind, i + 1, p);
    }
}

} // verus!
