//! Linker-defined symbols.
//!
//! GNU ld's default script defines symbols that mark layout boundaries
//! (`_end`, `__bss_start`, `__init_array_start`, ...) with `PROVIDE`
//! semantics: only when something references them and nothing defines them.
//! qld does the same after resolution, by replacing the (undefined or lazy)
//! definition with one of the linker's own, whose index is a slot in
//! [`LinkerSymbols`]. `__start_SEC`/`__stop_SEC` are defined for every output
//! section whose name is a C identifier. Values are computed after layout.
//!
//! `--defsym name=expr` takes any linker script expression, as in GNU ld.
//! Under a linker script the script engine evaluates it (it is an
//! assignment before the script's statements); otherwise
//! [`defsym::evaluate_defsyms`] does after layout, with GNU ld's rules for
//! which values are absolute. A symbol assigned from an expression that
//! reads one symbol gets that symbol's type ([`linker_type`]).

pub mod defsym;
pub mod script;

use vstd::prelude::*;

use super::arch::Arch;
use super::consts::{SHN_LORESERVE, STT_NOTYPE, STT_OBJECT, STT_TLS};
use super::inputs::{ElfInput, SymbolSection};
use super::layout::{PlannedOutput, Placement};
use super::refs::{Def, Refs, Target};
use crate::bytes::same;
use crate::ids::{FileId, SymbolId};
use crate::options::{LinkOptions, Mode, OutputKind};
use crate::order::{first_of_each, row_set};
use crate::parallel::{map_all, numbers};
use crate::symbols::{
    Definition, DefinitionKind, Symbol, SymbolTable, ABSOLUTE, LINKER_POSITION, REFERENCED,
    REF_REGULAR, WEAK_REFERENCED,
};
use defsym::{Assignment, Classify, ExprValue};
use script::{ResolvedSymbols, ScriptPlacement};

verus! {

/// What a linker-defined symbol's value is.
#[derive(Clone, Copy, Debug, PartialEq, Eq)]
pub enum Value {
    /// The ELF header (`__ehdr_start`).
    EhdrStart,
    /// The start of the image (`__executable_start`).
    ExecutableStart,
    /// End of the text segment (`_etext`, `etext`, `__etext`).
    Etext,
    /// End of initialized data (`_edata`, `edata`).
    Edata,
    /// Start of `.bss` (`__bss_start`).
    BssStart,
    /// End of the image (`_end`, `end`).
    End,
    /// Start of the named output section of the default rules.
    SectionStart(&'static str),
    /// End of the named output section of the default rules.
    SectionEnd(&'static str),
    /// Start of output section (by placement index): `__start_SEC`.
    OutputStart(u32),
    /// End of output section (by placement index): `__stop_SEC`.
    OutputEnd(u32),
    /// `_GLOBAL_OFFSET_TABLE_`.
    GotBase,
    /// `__rela_iplt_start`.
    RelaIpltStart,
    /// `__rela_iplt_end`.
    RelaIpltEnd,
    /// `_DYNAMIC`: the `.dynamic` section.
    Dynamic,
    /// `_TLS_MODULE_BASE_`: the start of the output's TLS block, which
    /// local-dynamic TLS descriptor code takes offsets from.
    TlsModuleBase,
    /// RISC-V `__global_pointer$`: 0x800 past the start of `.sdata`, or of
    /// the image when there is none (lld's definition).
    GlobalPointer,
    /// `--defsym`, by index in the options.
    Defsym(usize),
    /// A linker script symbol, by slot in the script placement's symbol
    /// names.
    Script {
        /// The slot.
        slot: u32,
        /// `HIDDEN` or `PROVIDE_HIDDEN`.
        hidden: bool,
    },
}

/// Whether a symbol gets hidden visibility (`PROVIDE_HIDDEN`).
#[verifier::allow_in_spec]
pub fn is_hidden(value: Value) -> bool
    returns
        (match value {
            Value::EhdrStart => true,
            Value::SectionStart(_) => true,
            Value::SectionEnd(_) => true,
            Value::RelaIpltStart => true,
            Value::RelaIpltEnd => true,
            Value::GotBase => true,
            Value::Dynamic => true,
            Value::TlsModuleBase => true,
            Value::Script { hidden, .. } => hidden,
            _ => false,
        }),
{
    match value {
        Value::EhdrStart => true,
        Value::SectionStart(_) => true,
        Value::SectionEnd(_) => true,
        Value::RelaIpltStart => true,
        Value::RelaIpltEnd => true,
        Value::GotBase => true,
        Value::Dynamic => true,
        Value::TlsModuleBase => true,
        Value::Script { hidden, .. } => hidden,
        _ => false,
    }
}

/// A symbol of the default rules.
#[derive(Clone, Copy, Debug, PartialEq, Eq)]
pub struct Fixed {
    /// Its name.
    pub name: &'static str,
    /// Its value.
    pub value: Value,
}

/// How many symbols every architecture has.
pub const FIXED_COUNT: usize = 27;

/// How many symbols AArch64 and Arm have.
pub const EXTRA_COUNT: usize = 31;

/// Symbol `i` of the default rules. The last four are boundary symbols GNU
/// ld's AArch64 and Arm default scripts assign besides the common ones
/// (`__bss_start__ = .;` before `.bss`, `_bss_end__` and `__bss_end__` after
/// it, `__end__` with `_end`). qld's `.bss` ends at `_end`, so the last
/// three take its value.
#[verifier::allow_in_spec]
pub fn fixed(i: usize) -> Fixed
    returns
        (match i {
            0 => Fixed { name: "__ehdr_start", value: Value::EhdrStart },
            1 => Fixed { name: "__executable_start", value: Value::ExecutableStart },
            2 => Fixed { name: "_etext", value: Value::Etext },
            3 => Fixed { name: "etext", value: Value::Etext },
            4 => Fixed { name: "__etext", value: Value::Etext },
            5 => Fixed { name: "_edata", value: Value::Edata },
            6 => Fixed { name: "edata", value: Value::Edata },
            7 => Fixed { name: "__bss_start", value: Value::BssStart },
            8 => Fixed { name: "_end", value: Value::End },
            9 => Fixed { name: "end", value: Value::End },
            10 => Fixed { name: "__preinit_array_start", value: Value::SectionStart(".preinit_array") },
            11 => Fixed { name: "__preinit_array_end", value: Value::SectionEnd(".preinit_array") },
            12 => Fixed { name: "__init_array_start", value: Value::SectionStart(".init_array") },
            13 => Fixed { name: "__init_array_end", value: Value::SectionEnd(".init_array") },
            14 => Fixed { name: "__fini_array_start", value: Value::SectionStart(".fini_array") },
            15 => Fixed { name: "__fini_array_end", value: Value::SectionEnd(".fini_array") },
            16 => Fixed { name: "__tdata_start", value: Value::SectionStart(".tdata") },
            17 => Fixed { name: "_GLOBAL_OFFSET_TABLE_", value: Value::GotBase },
            // PowerPC64's TOC pointer, which takes the place of the GOT base.
            18 => Fixed { name: ".TOC.", value: Value::GotBase },
            19 => Fixed { name: "__rela_iplt_start", value: Value::RelaIpltStart },
            20 => Fixed { name: "__rela_iplt_end", value: Value::RelaIpltEnd },
            // The same bounds where `IRELATIVE` relocations are `SHT_REL` (i386
            // glibc's static startup reads these names).
            21 => Fixed { name: "__rel_iplt_start", value: Value::RelaIpltStart },
            22 => Fixed { name: "__rel_iplt_end", value: Value::RelaIpltEnd },
            23 => Fixed { name: "_DYNAMIC", value: Value::Dynamic },
            // Arm: the exception index, which unwinders read in static
            // executables.
            24 => Fixed { name: "__exidx_start", value: Value::SectionStart(".ARM.exidx") },
            25 => Fixed { name: "__exidx_end", value: Value::SectionEnd(".ARM.exidx") },
            26 => Fixed { name: "_TLS_MODULE_BASE_", value: Value::TlsModuleBase },
            27 => Fixed { name: "__bss_start__", value: Value::BssStart },
            28 => Fixed { name: "_bss_end__", value: Value::End },
            29 => Fixed { name: "__bss_end__", value: Value::End },
            _ => Fixed { name: "__end__", value: Value::End },
        }),
{
    match i {
        0 => Fixed { name: "__ehdr_start", value: Value::EhdrStart },
        1 => Fixed { name: "__executable_start", value: Value::ExecutableStart },
        2 => Fixed { name: "_etext", value: Value::Etext },
        3 => Fixed { name: "etext", value: Value::Etext },
        4 => Fixed { name: "__etext", value: Value::Etext },
        5 => Fixed { name: "_edata", value: Value::Edata },
        6 => Fixed { name: "edata", value: Value::Edata },
        7 => Fixed { name: "__bss_start", value: Value::BssStart },
        8 => Fixed { name: "_end", value: Value::End },
        9 => Fixed { name: "end", value: Value::End },
        10 => Fixed { name: "__preinit_array_start", value: Value::SectionStart(".preinit_array") },
        11 => Fixed { name: "__preinit_array_end", value: Value::SectionEnd(".preinit_array") },
        12 => Fixed { name: "__init_array_start", value: Value::SectionStart(".init_array") },
        13 => Fixed { name: "__init_array_end", value: Value::SectionEnd(".init_array") },
        14 => Fixed { name: "__fini_array_start", value: Value::SectionStart(".fini_array") },
        15 => Fixed { name: "__fini_array_end", value: Value::SectionEnd(".fini_array") },
        16 => Fixed { name: "__tdata_start", value: Value::SectionStart(".tdata") },
        17 => Fixed { name: "_GLOBAL_OFFSET_TABLE_", value: Value::GotBase },
        // PowerPC64's TOC pointer, which takes the place of the GOT base.
        18 => Fixed { name: ".TOC.", value: Value::GotBase },
        19 => Fixed { name: "__rela_iplt_start", value: Value::RelaIpltStart },
        20 => Fixed { name: "__rela_iplt_end", value: Value::RelaIpltEnd },
        // The same bounds where `IRELATIVE` relocations are `SHT_REL` (i386
        // glibc's static startup reads these names).
        21 => Fixed { name: "__rel_iplt_start", value: Value::RelaIpltStart },
        22 => Fixed { name: "__rel_iplt_end", value: Value::RelaIpltEnd },
        23 => Fixed { name: "_DYNAMIC", value: Value::Dynamic },
        // Arm: the exception index, which unwinders read in static
        // executables.
        24 => Fixed { name: "__exidx_start", value: Value::SectionStart(".ARM.exidx") },
        25 => Fixed { name: "__exidx_end", value: Value::SectionEnd(".ARM.exidx") },
        26 => Fixed { name: "_TLS_MODULE_BASE_", value: Value::TlsModuleBase },
        27 => Fixed { name: "__bss_start__", value: Value::BssStart },
        28 => Fixed { name: "_bss_end__", value: Value::End },
        29 => Fixed { name: "__bss_end__", value: Value::End },
        _ => Fixed { name: "__end__", value: Value::End },
    }
}

/// Whether a link has the boundary symbols of AArch64 and Arm.
pub open spec fn has_boundaries(files: Seq<ElfInput>) -> bool {
    match Arch::first_of(files, 0) {
        Some(Arch::AArch64) => true,
        Some(Arch::Arm) => true,
        _ => false,
    }
}

/// Whether a link has the boundary symbols of AArch64 and Arm.
fn boundaries(files: &[ElfInput]) -> (r: bool)
    ensures
        r == has_boundaries(files@),
{
    match Arch::of_files(files) {
        Some(Arch::AArch64) => true,
        Some(Arch::Arm) => true,
        _ => false,
    }
}

/// What [`always_defined`] lists.
pub open spec fn spec_always_defined(mode: Mode, script: bool, files: Seq<ElfInput>) -> Seq<
    &'static str,
> {
    (if mode.executable && !script {
        Seq::<&'static str>::empty().push("_edata").push("__bss_start").push("_end") + (
        if has_boundaries(files) {
            Seq::<&'static str>::empty().push("__bss_start__").push("_bss_end__").push(
                "__bss_end__",
            ).push("__end__")
        } else {
            Seq::empty()
        })
    } else {
        Seq::empty()
    }) + (if mode.dynamic {
        Seq::<&'static str>::empty().push("_DYNAMIC")
    } else {
        Seq::empty()
    })
}

/// The linker symbols a link defines even when nothing refers to them, as
/// GNU ld does: its default scripts for executables assign `_edata`,
/// `__bss_start` and `_end` outside `PROVIDE` (on AArch64 and Arm also
/// their boundary symbols), and its ELF backend defines `_DYNAMIC` whenever
/// it creates dynamic sections. They are in `.symtab` (`_DYNAMIC` as a
/// local), and in `.dynsym` only when exported.
pub fn always_defined(mode: Mode, script: bool, files: &[ElfInput]) -> (r: Vec<&'static str>)
    ensures
        r@ == spec_always_defined(mode, script, files@),
{
    let mut names: Vec<&'static str> = Vec::new();
    if mode.executable && !script {
        names.push("_edata");
        names.push("__bss_start");
        names.push("_end");
        if boundaries(files) {
            names.push("__bss_start__");
            names.push("_bss_end__");
            names.push("__bss_end__");
            names.push("__end__");
        }
    }
    if mode.dynamic {
        names.push("_DYNAMIC");
    }
    assert(names@ =~= spec_always_defined(mode, script, files@));
    names
}

/// The linker-defined symbols of a link.
#[derive(Debug, PartialEq, Eq)]
pub struct LinkerSymbols {
    /// `(symbol, value)`, in slot order.
    pub entries: Vec<(SymbolId, Value)>,
    /// Output sections referenced by `__start_`/`__stop_` symbols, which
    /// GC keeps.
    pub start_stop_outputs: Vec<u32>,
    /// `(symbol, source)`, sorted: the symbol whose type a script or
    /// `--defsym` symbol copies ([`linker_type`]).
    pub type_sources: Vec<(SymbolId, SymbolId)>,
}

impl Default for LinkerSymbols {
    fn default() -> (r: LinkerSymbols)
        ensures
            r.entries@.len() == 0,
            r.start_stop_outputs@.len() == 0,
            r.type_sources@.len() == 0,
    {
        LinkerSymbols {
            entries: Vec::new(),
            start_stop_outputs: Vec::new(),
            type_sources: Vec::new(),
        }
    }
}

/// Whether a symbol is the GOT base.
#[verifier::allow_in_spec]
pub fn is_got_base(value: Value) -> bool
    returns
        (match value {
            Value::GotBase => true,
            _ => false,
        }),
{
    match value {
        Value::GotBase => true,
        _ => false,
    }
}

/// The value of the first entry of a symbol from `i` on.
pub open spec fn value_from(entries: Seq<(SymbolId, Value)>, id: SymbolId, i: int) -> Option<Value>
    decreases entries.len() - i,
{
    if i < 0 || i >= entries.len() {
        None
    } else if entries[i].0 == id {
        Some(entries[i].1)
    } else {
        value_from(entries, id, i + 1)
    }
}

impl LinkerSymbols {
    /// The value kind of slot `index`.
    pub fn get(&self, index: u32) -> (r: Option<(SymbolId, Value)>)
        ensures
            r == (if index < self.entries@.len() {
                Some(self.entries@[index as int])
            } else {
                None
            }),
    {
        let len: usize = self.entries.len();
        if (index as u64) < len as u64 {
            Some(self.entries[index as usize])
        } else {
            None
        }
    }

    /// Whether `_GLOBAL_OFFSET_TABLE_` is defined.
    pub fn uses_got_base(&self) -> (r: bool)
        ensures
            r == exists|i: int|
                0 <= i < self.entries@.len() && is_got_base((#[trigger] self.entries@[i]).1),
    {
        let mut i: usize = 0;
        while i < self.entries.len()
            invariant
                i <= self.entries@.len(),
                forall|k: int| 0 <= k < i ==> !is_got_base((#[trigger] self.entries@[k]).1),
            decreases self.entries@.len() - i,
        {
            if is_got_base(self.entries[i].1) {
                assert(is_got_base(self.entries@[i as int].1));
                return true;
            }
            i += 1;
        }
        false
    }

    /// The value of a symbol.
    fn value_of(&self, id: SymbolId) -> (r: Option<Value>)
        ensures
            r == value_from(self.entries@, id, 0),
    {
        let mut i: usize = 0;
        while i < self.entries.len()
            invariant
                value_from(self.entries@, id, 0) == value_from(self.entries@, id, i as int),
            decreases self.entries@.len() - i,
        {
            if self.entries[i].0 == id {
                return Some(self.entries[i].1);
            }
            i += 1;
        }
        None
    }
}

/// Whether a symbol is not defined by an object.
#[verifier::allow_in_spec]
pub fn is_open(kind: DefinitionKind) -> bool
    returns
        (kind == DefinitionKind::Undefined || kind == DefinitionKind::Lazy || kind
            == DefinitionKind::Shared),
{
    kind == DefinitionKind::Undefined || kind == DefinitionKind::Lazy || kind
        == DefinitionKind::Shared
}

/// Whether a symbol is referenced and not otherwise defined.
pub open spec fn wanted_in(symbols: Seq<Symbol>, id: SymbolId) -> bool {
    let kind = crate::symbols::definition_in(symbols, id).kind;
    let flags = crate::symbols::flags_in(symbols, id);
    is_open(kind) && flags.intersects(REF_REGULAR | REFERENCED | WEAK_REFERENCED) && (kind
        != DefinitionKind::Shared || flags.contains(REF_REGULAR))
}

/// Whether a symbol is referenced and not otherwise defined.
pub fn wanted(symbols: &SymbolTable, id: SymbolId) -> (r: bool)
    ensures
        r == wanted_in(symbols.symbols@, id),
{
    let kind: DefinitionKind = symbols.definition_kind(id);
    is_open(kind) && symbols.flags(id).intersects(REF_REGULAR | REFERENCED | WEAK_REFERENCED) && (
    kind != DefinitionKind::Shared || symbols.flags(id).contains(REF_REGULAR))
}

/// The definition the linker gives the symbol of a slot.
#[verifier::allow_in_spec]
pub fn linker_definition(slot: usize) -> Definition
    returns
        (Definition {
            kind: DefinitionKind::Regular,
            file: FileId { position: LINKER_POSITION },
            index: if slot > 0xffff_ffff {
                0xffff_ffffu32
            } else {
                slot as u32
            },
            position: u64::MAX,
            aux: 0,
        }),
{
    Definition {
        kind: DefinitionKind::Regular,
        file: FileId { position: LINKER_POSITION },
        index: if slot > 0xffff_ffff {
            0xffff_ffffu32
        } else {
            slot as u32
        },
        position: u64::MAX,
        aux: 0,
    }
}

/// What defining linker symbols makes of a link.
#[verifier::ext_equal]
pub struct Registry {
    /// The symbols.
    pub symbols: Seq<Symbol>,
    /// The linker's symbols, in slot order.
    pub entries: Seq<(SymbolId, Value)>,
    /// The output sections that start and stop symbols name.
    pub outputs: Seq<u32>,
    /// The symbols whose types others copy.
    pub types: Seq<(SymbolId, SymbolId)>,
}

impl Registry {
    /// With a symbol defined.
    pub open spec fn define(self, id: SymbolId, value: Value) -> Registry {
        Registry {
            symbols: crate::symbols::with_definition(
                self.symbols,
                id,
                linker_definition(self.entries.len() as usize),
            ),
            entries: self.entries.push((id, value)),
            ..self
        }
    }
}

/// The linker's symbols while they are defined.
#[derive(Debug)]
pub struct Building {
    /// The linker's symbols, in slot order.
    pub entries: Vec<(SymbolId, Value)>,
    /// The output sections that start and stop symbols name.
    pub outputs: Vec<u32>,
    /// The symbols whose types others copy.
    pub types: Vec<(SymbolId, SymbolId)>,
}

impl Building {
    /// With the symbols as they are.
    pub open spec fn registry(self, symbols: SymbolTable) -> Registry {
        Registry {
            symbols: symbols.symbols@,
            entries: self.entries@,
            outputs: self.outputs@,
            types: self.types@,
        }
    }

    /// Defines a symbol.
    pub fn define(&mut self, symbols: &mut SymbolTable, id: SymbolId, value: Value)
        ensures
            final(self).registry(*final(symbols)) == old(self).registry(*old(symbols)).define(
                id,
                value,
            ),
    {
        symbols.replace_definition(id, linker_definition(self.entries.len()));
        self.entries.push((id, value));
    }
}

/// What decides which symbols are defined.
pub struct Setup {
    /// The output is dynamic.
    pub dynamic: bool,
    /// There is a linker script.
    pub script: bool,
    /// The names that are defined even when nothing refers to them.
    pub always: Seq<Seq<u8>>,
}

/// The bytes of a name.
pub open spec fn name_bytes(name: &str) -> Seq<u8> {
    vstd::utf8::encode_utf8(name@)
}

/// The bytes of names.
pub open spec fn names_bytes(names: Seq<&str>) -> Seq<Seq<u8>> {
    Seq::new(names.len(), |i: int| name_bytes(names[i]))
}

/// Whether a symbol of the default rules is not for this link. Under a
/// linker script, only the symbols the ELF backend itself defines are; the
/// others come from the default script.
#[verifier::allow_in_spec]
pub fn is_skipped(value: Value, dynamic: bool, script: bool) -> bool
    returns
        (match value {
            Value::RelaIpltStart => dynamic || script,
            Value::RelaIpltEnd => dynamic || script,
            Value::Dynamic => !dynamic,
            Value::EhdrStart => false,
            Value::GotBase => false,
            _ => script,
        }),
{
    match value {
        Value::RelaIpltStart => dynamic || script,
        Value::RelaIpltEnd => dynamic || script,
        Value::Dynamic => !dynamic,
        Value::EhdrStart => false,
        Value::GotBase => false,
        _ => script,
    }
}

/// With a symbol of the default rules defined, if it is to be.
pub open spec fn fixed_step(setup: Setup, reg: Registry, f: Fixed) -> Registry {
    if is_skipped(f.value, setup.dynamic, setup.script) {
        reg
    } else {
        match crate::symbols::found_in(reg.symbols, name_bytes(f.name), 0) {
            Some(id) => if wanted_in(reg.symbols, id) || (setup.always.contains(
                name_bytes(f.name),
            ) && is_open(crate::symbols::definition_in(reg.symbols, id).kind)) {
                reg.define(id, f.value)
            } else {
                reg
            },
            None => reg,
        }
    }
}

/// With the symbols of the default rules from `i` up to `count` defined.
pub open spec fn fixed_from(setup: Setup, reg: Registry, count: int, i: int) -> Registry
    decreases count - i,
{
    if i < 0 || i >= count {
        reg
    } else {
        fixed_from(setup, fixed_step(setup, reg, fixed(i as usize)), count, i + 1)
    }
}

/// Whether a name is among others.
fn is_among(names: &[&str], name: &str) -> (r: bool)
    ensures
        r == names_bytes(names@).contains(name_bytes(name)),
{
    let mut i: usize = 0;
    while i < names.len()
        invariant
            i <= names@.len(),
            forall|k: int| 0 <= k < i ==> #[trigger] names_bytes(names@)[k] != name_bytes(name),
        decreases names@.len() - i,
    {
        if same(names[i].as_bytes(), name.as_bytes()) {
            assert(names_bytes(names@)[i as int] == name_bytes(name));
            return true;
        }
        i += 1;
    }
    false
}

/// Defines the symbols of the default rules.
fn define_fixed(
    symbols: &mut SymbolTable,
    result: &mut Building,
    dynamic: bool,
    script: bool,
    always: &[&str],
    count: usize,
)
    ensures
        final(result).registry(*final(symbols)) == fixed_from(
            (Setup { dynamic, script, always: names_bytes(always@) }),
            old(result).registry(*old(symbols)),
            count as int,
            0,
        ),
{
    let ghost setup = Setup { dynamic, script, always: names_bytes(always@) };
    let mut i: usize = 0;
    while i < count
        invariant
            i <= count,
            setup == (Setup { dynamic, script, always: names_bytes(always@) }),
            fixed_from(setup, old(result).registry(*old(symbols)), count as int, 0) == fixed_from(
                setup,
                result.registry(*symbols),
                count as int,
                i as int,
            ),
        decreases count - i,
    {
        let f: Fixed = fixed(i);
        if !is_skipped(f.value, dynamic, script) {
            if let Some(id) = symbols.lookup(f.name.as_bytes()) {
                if wanted(symbols, id) || (is_among(always, f.name) && is_open(
                    symbols.definition_kind(id),
                )) {
                    result.define(symbols, id, f.value);
                }
            }
        }
        i += 1;
    }
}

/// With `__global_pointer$` defined, in a RISC-V executable that wants it.
pub open spec fn with_global_pointer(
    reg: Registry,
    shared: bool,
    files: Seq<ElfInput>,
) -> Registry {
    if shared || Arch::first_of(files, 0) != Some(Arch::RiscV64) {
        reg
    } else {
        match crate::symbols::found_in(reg.symbols, name_bytes("__global_pointer$"), 0) {
            Some(id) => if wanted_in(reg.symbols, id) {
                reg.define(id, Value::GlobalPointer)
            } else {
                reg
            },
            None => reg,
        }
    }
}

/// `__start_`.
pub open spec fn start_prefix() -> Seq<u8> {
    seq![0x5f, 0x5f, 0x73, 0x74, 0x61, 0x72, 0x74, 0x5f]
}

/// `__stop_`.
pub open spec fn stop_prefix() -> Seq<u8> {
    seq![0x5f, 0x5f, 0x73, 0x74, 0x6f, 0x70, 0x5f]
}

/// Whether a byte may be in a C identifier.
#[verifier::allow_in_spec]
pub fn is_identifier_byte(b: u8) -> bool
    returns
        (b == 0x5f || (0x30 <= b && b <= 0x39) || (0x41 <= b && b <= 0x5a) || (0x61 <= b && b <= 0x7a)),
{
    b == 0x5f || (0x30 <= b && b <= 0x39) || (0x41 <= b && b <= 0x5a) || (0x61 <= b && b <= 0x7a)
}

/// Whether a name is a C identifier.
pub open spec fn is_identifier(name: Seq<u8>) -> bool {
    &&& name.len() > 0
    &&& !(0x30 <= name[0] <= 0x39)
    &&& forall|i: int| 0 <= i < name.len() ==> is_identifier_byte(#[trigger] name[i])
}

/// Whether the part of a name from `from` on is a C identifier.
pub fn is_c_identifier(name: &[u8], from: usize) -> (r: bool)
    requires
        from <= name@.len(),
    ensures
        r == is_identifier(name@.skip(from as int)),
{
    let ghost rest = name@.skip(from as int);
    if from >= name.len() {
        return false;
    }
    assert(rest[0] == name@[from as int]);
    if 0x30 <= name[from] && name[from] <= 0x39 {
        return false;
    }
    let mut i: usize = from;
    while i < name.len()
        invariant
            from <= i <= name@.len(),
            rest == name@.skip(from as int),
            forall|k: int| 0 <= k < i - from ==> is_identifier_byte(#[trigger] rest[k]),
        decreases name@.len() - i,
    {
        if !is_identifier_byte(name[i]) {
            assert(!is_identifier_byte(rest[i - from]));
            return false;
        }
        i += 1;
    }
    true
}

/// What a `__start_SEC` or `__stop_SEC` symbol names: whether it is the
/// start, and the section.
pub open spec fn bound_of(name: Seq<u8>) -> Option<(bool, Seq<u8>)> {
    if start_prefix().is_prefix_of(name) {
        Some((true, name.skip(8)))
    } else if stop_prefix().is_prefix_of(name) {
        Some((false, name.skip(7)))
    } else {
        None
    }
}

/// Whether a name starts with `prefix`.
fn has_prefix(name: &[u8], prefix: &[u8]) -> (r: bool)
    ensures
        r == prefix@.is_prefix_of(name@),
{
    if prefix.len() > name.len() {
        return false;
    }
    let mut i: usize = 0;
    while i < prefix.len()
        invariant
            i <= prefix@.len() <= name@.len(),
            forall|k: int| 0 <= k < i ==> #[trigger] prefix@[k] == name@[k],
        decreases prefix@.len() - i,
    {
        if prefix[i] != name[i] {
            assert(prefix@[i as int] != name@.take(prefix@.len() as int)[i as int]);
            return false;
        }
        i += 1;
    }
    assert(prefix@ =~= name@.subrange(0, prefix@.len() as int));
    true
}

/// What a `__start_SEC` or `__stop_SEC` symbol names: whether it is the
/// start, and where the section's name starts in the symbol's.
fn bound(name: &[u8]) -> (r: Option<(bool, usize)>)
    ensures
        match (r, bound_of(name@)) {
            (Some((start, from)), Some((s, section))) => start == s && from <= name@.len()
                && section == name@.skip(from as int),
            (None, None) => true,
            _ => false,
        },
{
    let start: [u8; 8] = [0x5f, 0x5f, 0x73, 0x74, 0x61, 0x72, 0x74, 0x5f];
    let stop: [u8; 7] = [0x5f, 0x5f, 0x73, 0x74, 0x6f, 0x70, 0x5f];
    assert(start@ =~= start_prefix());
    assert(stop@ =~= stop_prefix());
    if has_prefix(name, &start) {
        Some((true, 8))
    } else if has_prefix(name, &stop) {
        Some((false, 7))
    } else {
        None
    }
}

/// The first of the planned outputs from `i` on that is named `name`.
pub open spec fn output_named(outputs: Seq<PlannedOutput>, name: Seq<u8>, i: int) -> Option<u32>
    decreases outputs.len() - i,
{
    if i < 0 || i >= outputs.len() || i > u32::MAX {
        None
    } else if outputs[i].name@ == name {
        Some(i as u32)
    } else {
        output_named(outputs, name, i + 1)
    }
}

/// The first of the planned outputs that is named as the part of `name`
/// from `from` on.
fn find_output(outputs: &Vec<PlannedOutput>, name: &[u8], from: usize) -> (r: Option<u32>)
    requires
        from <= name@.len(),
    ensures
        r == output_named(outputs@, name@.skip(from as int), 0),
{
    let section: &[u8] = vstd::slice::slice_subrange(name, from, name.len());
    assert(section@ =~= name@.skip(from as int));
    let mut i: usize = 0;
    while i < outputs.len() && i <= u32::MAX as usize
        invariant
            i <= outputs@.len(),
            section@ == name@.skip(from as int),
            output_named(outputs@, section@, 0) == output_named(outputs@, section@, i as int),
        decreases outputs@.len() - i,
    {
        if same(&outputs[i].name, section) {
            return Some(i as u32);
        }
        i += 1;
    }
    None
}

/// The output section that start or stop symbol `i` marks, and which of the
/// two it is; nothing when it is no such symbol, is not wanted, or there is
/// no such section.
pub open spec fn marked_by(symbols: Seq<Symbol>, outputs: Seq<PlannedOutput>, i: int) -> Option<
    (bool, u32),
> {
    if symbols[i].name.version is Some {
        None
    } else {
        match bound_of(symbols[i].name.bytes@) {
            Some((start, section)) => if is_identifier(section) && wanted_in(
                symbols,
                SymbolId { position: i as usize },
            ) {
                match output_named(outputs, section, 0) {
                    Some(output) => Some((start, output)),
                    None => None,
                }
            } else {
                None
            },
            None => None,
        }
    }
}

/// The output section that symbol `i` marks.
fn mark(symbols: &SymbolTable, outputs: &Vec<PlannedOutput>, i: usize) -> (r: Option<(bool, u32)>)
    requires
        i < symbols.symbols@.len(),
    ensures
        r == marked_by(symbols.symbols@, outputs@, i as int),
{
    if symbols.symbols[i].name.version.is_some() {
        return None;
    }
    let name: &[u8] = symbols.symbols[i].name.bytes.as_slice();
    let Some((start, from)) = bound(name) else {
        return None;
    };
    if !is_c_identifier(name, from) || !wanted(symbols, SymbolId { position: i }) {
        return None;
    }
    match find_output(outputs, name, from) {
        Some(output) => Some((start, output)),
        None => None,
    }
}

/// With start and stop symbols from `i` on defined; `before` holds the
/// symbols as they were when the first of them was looked at.
pub open spec fn bounds_from(
    before: Seq<Symbol>,
    outputs: Seq<PlannedOutput>,
    reg: Registry,
    i: int,
) -> Registry
    decreases before.len() - i,
{
    if i < 0 || i >= before.len() {
        reg
    } else {
        let next = match marked_by(before, outputs, i) {
            Some((start, output)) => Registry {
                outputs: reg.outputs.push(output),
                ..reg.define(
                    SymbolId { position: i as usize },
                    if start {
                        Value::OutputStart(output)
                    } else {
                        Value::OutputEnd(output)
                    },
                )
            },
            None => reg,
        };
        bounds_from(before, outputs, next, i + 1)
    }
}

/// Defines `__start_SEC` and `__stop_SEC`.
fn define_bounds(symbols: &mut SymbolTable, result: &mut Building, outputs: &Vec<PlannedOutput>)
    ensures
        final(result).registry(*final(symbols)) == bounds_from(
            old(symbols).symbols@,
            outputs@,
            old(result).registry(*old(symbols)),
            0,
        ),
{
    let ghost before = symbols.symbols@;
    let marks: Vec<Option<(bool, u32)>> = marks_of(symbols, outputs);
    let mut i: usize = 0;
    while i < marks.len()
        invariant
            i <= marks@.len(),
            marks@.len() == before.len(),
            forall|k: int|
                0 <= k < marks@.len() ==> #[trigger] marks@[k] == marked_by(before, outputs@, k),
            bounds_from(before, outputs@, old(result).registry(*old(symbols)), 0) == bounds_from(
                before,
                outputs@,
                result.registry(*symbols),
                i as int,
            ),
        decreases marks@.len() - i,
    {
        if let Some((start, output)) = marks[i] {
            let value: Value = if start {
                Value::OutputStart(output)
            } else {
                Value::OutputEnd(output)
            };
            result.define(symbols, SymbolId { position: i }, value);
            result.outputs.push(output);
        }
        i += 1;
    }
}

/// The output section each symbol marks.
fn marks_of(symbols: &SymbolTable, outputs: &Vec<PlannedOutput>) -> (r: Vec<Option<(bool, u32)>>)
    ensures
        r@.len() == symbols.symbols@.len(),
        forall|k: int|
            0 <= k < r@.len() ==> #[trigger] r@[k] == marked_by(symbols.symbols@, outputs@, k),
{
    let positions: Vec<usize> = numbers(symbols.len());
    let each = |i: &usize| -> (one: Option<(bool, u32)>)
        requires
            *i < symbols.symbols@.len(),
        ensures
            one == marked_by(symbols.symbols@, outputs@, *i as int),
        { mark(symbols, outputs, *i) };
    let marks: Vec<Option<(bool, u32)>> = map_all(&positions, each);
    proof {
        assert forall|k: int| 0 <= k < marks@.len() implies #[trigger] marks@[k] == marked_by(
            symbols.symbols@,
            outputs@,
            k,
        ) by {
            assert(each.ensures((&positions@[k],), marks@[k]));
        }
    }
    marks
}

/// Whether `r` holds the numbers of `list`, each once, in order.
pub open spec fn is_number_set(list: Seq<u32>, r: Seq<u32>) -> bool {
    &&& forall|i: int, j: int| 0 <= i < j < r.len() ==> #[trigger] r[i] < #[trigger] r[j]
    &&& forall|n: u32| #[trigger] r.contains(n) <==> list.contains(n)
}

/// Sorts numbers and drops repeated ones.
pub fn number_set(list: &Vec<u32>) -> (r: Vec<u32>)
    ensures
        is_number_set(list@, r@),
{
    let mut rows: Vec<(u64, u64, u64)> = Vec::new();
    let mut i: usize = 0;
    while i < list.len()
        invariant
            i <= list@.len(),
            rows@ == Seq::new(i as nat, |k: int| (list@[k] as u64, 0u64, 0u64)),
        decreases list@.len() - i,
    {
        rows.push((list[i] as u64, 0, 0));
        i += 1;
        assert(rows@ =~= Seq::new(i as nat, |k: int| (list@[k] as u64, 0u64, 0u64)));
    }
    let ghost listed = rows@;
    let sorted: Vec<(u64, u64, u64)> = row_set(rows);
    let mut out: Vec<u32> = Vec::new();
    let mut k: usize = 0;
    while k < sorted.len()
        invariant
            k <= sorted@.len(),
            listed == Seq::new(list@.len(), |m: int| (list@[m] as u64, 0u64, 0u64)),
            crate::order::is_row_set(listed, sorted@),
            out@.len() == k,
            forall|m: int|
                0 <= m < k ==> sorted@[m] == (#[trigger] out@[m] as u64, 0u64, 0u64),
        decreases sorted@.len() - k,
    {
        assert(sorted@.contains(sorted@[k as int]));
        out.push(sorted[k].0 as u32);
        k += 1;
    }
    proof {
        assert forall|a: int, b: int| 0 <= a < b < out@.len() implies #[trigger] out@[a]
            < #[trigger] out@[b] by {
            assert(crate::order::row_less(sorted@[a], sorted@[b]));
        }
        assert forall|n: u32| #[trigger] out@.contains(n) <==> list@.contains(n) by {
            let row = (n as u64, 0u64, 0u64);
            if out@.contains(n) {
                let m = choose|m: int| 0 <= m < out@.len() && out@[m] == n;
                assert(sorted@.contains(sorted@[m]));
                let j = choose|j: int| 0 <= j < listed.len() && listed[j] == row;
                assert(list@[j] == n);
            }
            if list@.contains(n) {
                let j = choose|j: int| 0 <= j < list@.len() && list@[j] == n;
                assert(listed[j] == row);
                assert(sorted@.contains(row));
                let m = choose|m: int| 0 <= m < sorted@.len() && sorted@[m] == row;
                assert(out@[m] == n);
            }
        }
    }
    out
}

/// Whether `r` holds one source for each symbol of `list`, the first of
/// them, by symbol.
pub open spec fn is_source_set(
    list: Seq<(SymbolId, SymbolId)>,
    r: Seq<(SymbolId, SymbolId)>,
) -> bool {
    &&& forall|i: int, j: int|
        0 <= i < j < r.len() ==> (#[trigger] r[i]).0.position < (#[trigger] r[j]).0.position
    &&& forall|i: int| 0 <= i < r.len() ==> list.contains(#[trigger] r[i])
    &&& forall|e: (SymbolId, SymbolId)| #[trigger]
        list.contains(e) ==> exists|i: int|
            0 <= i < r.len() && (#[trigger] r[i]).0 == e.0 && r[i].1.position <= e.1.position
}

/// Sorts sources by symbol and keeps the first of each symbol.
pub fn source_set(list: &Vec<(SymbolId, SymbolId)>) -> (r: Vec<(SymbolId, SymbolId)>)
    ensures
        is_source_set(list@, r@),
{
    let mut rows: Vec<(u64, u64, u64)> = Vec::new();
    let mut i: usize = 0;
    while i < list.len()
        invariant
            i <= list@.len(),
            rows@ == Seq::new(
                i as nat,
                |k: int| (list@[k].0.position as u64, list@[k].1.position as u64, 0u64),
            ),
        decreases list@.len() - i,
    {
        rows.push((list[i].0.position as u64, list[i].1.position as u64, 0));
        i += 1;
        assert(rows@ =~= Seq::new(
            i as nat,
            |k: int| (list@[k].0.position as u64, list@[k].1.position as u64, 0u64),
        ));
    }
    let ghost listed = rows@;
    let first: Vec<(u64, u64, u64)> = first_of_each(rows);
    let mut out: Vec<(SymbolId, SymbolId)> = Vec::new();
    let mut k: usize = 0;
    while k < first.len()
        invariant
            k <= first@.len(),
            listed == Seq::new(
                list@.len(),
                |m: int| (list@[m].0.position as u64, list@[m].1.position as u64, 0u64),
            ),
            crate::order::is_first_of_each(listed, first@),
            out@.len() == k,
            forall|a: int| 0 <= a < k ==> list@.contains(#[trigger] out@[a]),
            forall|a: int|
                0 <= a < k ==> first@[a] == (
                    (#[trigger] out@[a]).0.position as u64,
                    out@[a].1.position as u64,
                    0u64,
                ),
        decreases first@.len() - k,
    {
        let row: (u64, u64, u64) = first[k];
        let entry: (SymbolId, SymbolId) = (
            SymbolId { position: row.0 as usize },
            SymbolId { position: row.1 as usize },
        );
        proof {
            assert(listed.contains(first@[k as int]));
            let j = choose|j: int| 0 <= j < listed.len() && listed[j] == row;
            assert(entry == list@[j]);
        }
        out.push(entry);
        k += 1;
    }
    proof {
        assert forall|a: int, b: int| 0 <= a < b < out@.len() implies (
        #[trigger] out@[a]).0.position < (#[trigger] out@[b]).0.position by {
            assert(first@[a].0 < first@[b].0);
        }
        assert forall|e: (SymbolId, SymbolId)| #[trigger] list@.contains(e) implies exists|a: int|
            0 <= a < out@.len() && (#[trigger] out@[a]).0 == e.0 && out@[a].1.position
                <= e.1.position by {
            let j = choose|j: int| 0 <= j < list@.len() && list@[j] == e;
            assert(listed.contains(listed[j]));
            assert(crate::order::has_earlier(first@, listed[j]));
            let a = choose|a: int|
                0 <= a < first@.len() && (#[trigger] first@[a]).0 == listed[j].0
                    && !crate::order::row_less(listed[j], first@[a]);
            assert(out@[a].0 == e.0);
        }
    }
    out
}

/// Where a symbol is defined, as script expressions see it.
#[derive(Clone, Copy, Debug, PartialEq, Eq, Structural)]
pub enum SymbolDef {
    /// Nowhere.
    Undefined,
    /// In a section of an object.
    Section {
        /// The file.
        file: usize,
        /// The section.
        section: u32,
        /// The offset in it.
        value: u64,
    },
    /// Nowhere: an absolute value.
    Absolute(u64),
    /// By the linker.
    Linker,
    /// In a shared library or the common block, or in no section.
    Other,
}

/// Where symbol `id` is defined, for script expressions.
pub open spec fn def_of(symbols: Seq<Symbol>, files: Seq<ElfInput>, id: SymbolId) -> SymbolDef {
    let def = crate::symbols::definition_in(symbols, id);
    match def.kind {
        DefinitionKind::Undefined | DefinitionKind::Lazy => SymbolDef::Undefined,
        DefinitionKind::Shared | DefinitionKind::Common => SymbolDef::Other,
        DefinitionKind::Regular | DefinitionKind::Weak => if def.file.position == LINKER_POSITION {
            SymbolDef::Linker
        } else if def.file.position >= files.len() {
            SymbolDef::Other
        } else {
            match files[def.file.position as int].object {
                None => SymbolDef::Other,
                Some(object) => {
                    let index = def.index + object.first_global;
                    if index >= object.symbols@.len() {
                        SymbolDef::Undefined
                    } else {
                        match object.symbols@[index].section {
                            SymbolSection::Section(section) => SymbolDef::Section {
                                file: def.file.position,
                                section,
                                value: object.symbols@[index].raw.st_value,
                            },
                            SymbolSection::Absolute => SymbolDef::Absolute(
                                object.symbols@[index].raw.st_value,
                            ),
                            SymbolSection::Elsewhere => SymbolDef::Other,
                        }
                    }
                },
            }
        },
    }
}

/// Where symbol `id` is defined, for script expressions.
pub fn symbol_def(symbols: &SymbolTable, files: &[ElfInput], id: SymbolId) -> (r: SymbolDef)
    ensures
        r == def_of(symbols.symbols@, files@, id),
{
    let def: Definition = symbols.definition(id);
    match def.kind {
        DefinitionKind::Undefined | DefinitionKind::Lazy => SymbolDef::Undefined,
        DefinitionKind::Shared | DefinitionKind::Common => SymbolDef::Other,
        DefinitionKind::Regular | DefinitionKind::Weak => {
            if def.file.position == LINKER_POSITION {
                return SymbolDef::Linker;
            }
            if def.file.position >= files.len() {
                return SymbolDef::Other;
            }
            let Some(object) = &files[def.file.position].object else {
                return SymbolDef::Other;
            };
            let total: usize = object.symbols.len();
            if object.first_global >= total || def.index as u64 >= (total
                - object.first_global) as u64 {
                return SymbolDef::Undefined;
            }
            let index: usize = def.index as usize + object.first_global;
            let value: u64 = object.symbols[index].raw.st_value;
            match object.symbols[index].section {
                SymbolSection::Section(section) => SymbolDef::Section {
                    file: def.file.position,
                    section,
                    value,
                },
                SymbolSection::Absolute => SymbolDef::Absolute(value),
                SymbolSection::Elsewhere => SymbolDef::Other,
            }
        },
    }
}

/// What resolution is asked of a `--defsym` that this link does not leave to
/// a script: the symbol it defines, when the link's own file defines it.
pub open spec fn defsym_symbol(symbols: Seq<Symbol>, name: Seq<u8>) -> Option<SymbolId> {
    match crate::symbols::found_in(symbols, name, 0) {
        Some(id) => if crate::symbols::definition_in(symbols, id).file.position == 0 {
            Some(id)
        } else {
            None
        },
        None => None,
    }
}

/// The symbol whose type `--defsym` number `i` copies.
pub open spec fn defsym_source(
    symbols: Seq<Symbol>,
    assignments: Seq<Option<Assignment>>,
    i: int,
) -> Option<SymbolId> {
    if i < assignments.len() {
        match assignments[i] {
            Some(assignment) => match assignment.type_source {
                Some(name) => crate::symbols::found_in(symbols, name@, 0),
                None => None,
            },
            None => None,
        }
    } else {
        None
    }
}

/// With the symbols of `--defsym` from `i` on listed; `absolute` tells which
/// are absolute. Resolution already made the link's own file the definition.
pub open spec fn defsyms_from(
    names: Seq<(Vec<u8>, Vec<u8>)>,
    assignments: Seq<Option<Assignment>>,
    absolute: Seq<bool>,
    reg: Registry,
    i: int,
) -> Registry
    decreases names.len() - i,
{
    if i < 0 || i >= names.len() {
        reg
    } else {
        let next = match defsym_symbol(reg.symbols, names[i].0@) {
            Some(id) => {
                let symbols = if i < absolute.len() && !absolute[i] {
                    reg.symbols
                } else {
                    crate::symbols::with_flags(reg.symbols, id, ABSOLUTE)
                };
                Registry {
                    symbols,
                    types: match defsym_source(symbols, assignments, i) {
                        Some(source) => reg.types.push((id, source)),
                        None => reg.types,
                    },
                    entries: reg.entries.push((id, Value::Defsym(i as usize))),
                    ..reg
                }
            },
            None => reg,
        };
        defsyms_from(names, assignments, absolute, next, i + 1)
    }
}

/// Lists the symbols of `--defsym`; `absolute` tells which are absolute.
pub fn register_defsyms(
    symbols: &mut SymbolTable,
    result: &mut Building,
    names: &Vec<(Vec<u8>, Vec<u8>)>,
    assignments: &[Option<Assignment>],
    absolute: &[bool],
)
    ensures
        final(result).registry(*final(symbols)) == defsyms_from(
            names@,
            assignments@,
            absolute@,
            old(result).registry(*old(symbols)),
            0,
        ),
{
    let mut i: usize = 0;
    while i < names.len()
        invariant
            i <= names@.len(),
            defsyms_from(
                names@,
                assignments@,
                absolute@,
                old(result).registry(*old(symbols)),
                0,
            ) == defsyms_from(
                names@,
                assignments@,
                absolute@,
                result.registry(*symbols),
                i as int,
            ),
        decreases names@.len() - i,
    {
        if let Some(id) = symbols.lookup(&names[i].0) {
            if symbols.definition(id).file.position == 0 {
                if i >= absolute.len() || absolute[i] {
                    symbols.set_flags(id, ABSOLUTE);
                }
                if i < assignments.len() {
                    if let Some(assignment) = &assignments[i] {
                        if let Some(name) = &assignment.type_source {
                            if let Some(source) = symbols.lookup(name) {
                                result.types.push((id, source));
                            }
                        }
                    }
                }
                result.entries.push((id, Value::Defsym(i)));
            }
        }
        i += 1;
    }
}

/// What a link's symbols are once all of the linker's are defined but those
/// of `--defsym`.
pub open spec fn before_defsyms(
    symbols: Seq<Symbol>,
    files: Seq<ElfInput>,
    outputs: Seq<PlannedOutput>,
    script: Option<ScriptPlacement>,
    shared: bool,
    dynamic: bool,
    always: Seq<Seq<u8>>,
) -> Registry {
    let setup = Setup { dynamic, script: script is Some, always };
    let count: int = if script is None && has_boundaries(files) {
        EXTRA_COUNT as int
    } else {
        FIXED_COUNT as int
    };
    let start = Registry {
        symbols,
        entries: Seq::empty(),
        outputs: Seq::empty(),
        types: Seq::empty(),
    };
    let first = with_global_pointer(fixed_from(setup, start, count, 0), shared, files);
    let second = bounds_from(first.symbols, outputs, first, 0);
    match script {
        Some(s) => script::assigned_from(s, second, 0),
        None => second,
    }
}

/// Whether `absolute` is what evaluating the `--defsym` expressions tells:
/// one that is no expression, or cannot be evaluated, is absolute.
pub open spec fn are_verdicts<E: Fn(usize, &Classify) -> Option<ExprValue>>(
    context: Classify,
    assignments: Seq<Option<Assignment>>,
    eval: E,
    absolute: Seq<bool>,
) -> bool {
    &&& absolute.len() == assignments.len()
    &&& forall|i: int|
        0 <= i < absolute.len() ==> is_verdict(
            context,
            assignments,
            eval,
            i,
            #[trigger] absolute[i],
        )
}

/// Whether `absolute` is what evaluating `--defsym` expression `i` tells.
pub open spec fn is_verdict<E: Fn(usize, &Classify) -> Option<ExprValue>>(
    context: Classify,
    assignments: Seq<Option<Assignment>>,
    eval: E,
    i: int,
    absolute: bool,
) -> bool {
    match assignments[i] {
        None => absolute,
        Some(_) => exists|v: Option<ExprValue>| #[trigger]
            eval.ensures((i as usize, &context), v) && absolute == (match v {
                Some(value) => value.section is None,
                None => true,
            }),
    }
}

/// Evaluates every `--defsym` expression for whether it is absolute.
fn verdicts<E: Fn(usize, &Classify) -> Option<ExprValue>>(
    context: &Classify,
    assignments: &[Option<Assignment>],
    eval: &E,
) -> (r: Vec<bool>)
    requires
        forall|i: usize, c: Classify| #[trigger] eval.requires((i, &c)),
    ensures
        are_verdicts(*context, assignments@, *eval, r@),
{
    let mut out: Vec<bool> = Vec::new();
    let mut i: usize = 0;
    while i < assignments.len()
        invariant
            i <= assignments@.len(),
            out@.len() == i,
            forall|k: usize, c: Classify| #[trigger] eval.requires((k, &c)),
            forall|k: int|
                0 <= k < i ==> is_verdict(*context, assignments@, *eval, k, #[trigger] out@[k]),
        decreases assignments@.len() - i,
    {
        let absolute: bool = match &assignments[i] {
            None => true,
            Some(_) => defsym_is_absolute(context, i, eval),
        };
        out.push(absolute);
        i += 1;
    }
    out
}

/// Whether a `--defsym` expression gives an absolute value, decided before
/// layout (the relocation scan needs it) from how its symbols are defined:
/// GNU ld's rules make every expression but a lone symbol, `.`, `ADDR` and
/// the like absolute outside output sections. `eval` is what evaluates it.
fn defsym_is_absolute<E: Fn(usize, &Classify) -> Option<ExprValue>>(
    context: &Classify,
    index: usize,
    eval: &E,
) -> (r: bool)
    requires
        forall|i: usize, c: Classify| #[trigger] eval.requires((i, &c)),
    ensures
        exists|v: Option<ExprValue>| #[trigger]
            eval.ensures((index, context), v) && r == (match v {
                Some(value) => value.section is None,
                None => true,
            }),
{
    let v: Option<ExprValue> = eval(index, context);
    assert(eval.ensures((index, context), v));
    match v {
        Some(value) => value.section.is_none(),
        None => true,
    }
}

/// What [`register`] gives.
#[derive(Debug)]
pub struct Registered {
    /// The linker's symbols.
    pub linker: LinkerSymbols,
    /// What the script's symbols stand for.
    pub resolved: Option<ResolvedSymbols>,
}

/// Defines the linker symbols that are referenced and not otherwise defined.
///
/// `dynamic` says the output is dynamic: `__rela_iplt_start` and
/// `__rela_iplt_end` then stay undefined, as in GNU ld's dynamic scripts,
/// since the dynamic relocation code applies `IRELATIVE` relocations.
/// Names in `always` are defined even when nothing refers to them.
/// `assignments` holds what each `--defsym` stands for, where it is
/// well-formed; `eval` evaluates it.
pub fn register<E: Fn(usize, &Classify) -> Option<ExprValue>>(
    symbols: &mut SymbolTable,
    files: &[ElfInput],
    placement: &Placement,
    script: Option<&ScriptPlacement>,
    options: &LinkOptions,
    dynamic: bool,
    always: &[&str],
    assignments: &[Option<Assignment>],
    eval: &E,
) -> (r: Registered)
    requires
        forall|i: usize, c: Classify| #[trigger] eval.requires((i, &c)),
    ensures
        ({
            let before = before_defsyms(
                old(symbols).symbols@,
                files@,
                placement.outputs@,
                (match script {
                    Some(s) => Some(*s),
                    None => None,
                }),
                options.kind == OutputKind::Shared,
                dynamic,
                names_bytes(always@),
            );
            &&& match (script, r.resolved) {
                (Some(s), Some(resolved)) => script::is_resolved(
                    *s,
                    before.symbols,
                    files@,
                    bounds_before_script(
                        old(symbols).symbols@,
                        files@,
                        placement.outputs@,
                        options.kind == OutputKind::Shared,
                        dynamic,
                        names_bytes(always@),
                    ),
                    resolved,
                ),
                (None, None) => true,
                _ => false,
            }
            &&& exists|middle: SymbolTable, absolute: Seq<bool>| #[trigger]
                are_verdicts(
                    (Classify { symbols: &middle, files }),
                    assignments@,
                    *eval,
                    absolute,
                ) && middle.symbols@ == before.symbols && {
                    let last = defsyms_from(
                        options.defsym@,
                        assignments@,
                        absolute,
                        before,
                        0,
                    );
                    &&& final(symbols).symbols@ == last.symbols
                    &&& r.linker.entries@ == last.entries
                    &&& is_number_set(last.outputs, r.linker.start_stop_outputs@)
                    &&& is_source_set(last.types, r.linker.type_sources@)
                }
        }),
{
    let mut result: Building = Building {
        entries: Vec::new(),
        outputs: Vec::new(),
        types: Vec::new(),
    };
    let count: usize = if script.is_none() && boundaries(files) {
        EXTRA_COUNT
    } else {
        FIXED_COUNT
    };
    let ghost start = Registry {
        symbols: symbols.symbols@,
        entries: Seq::empty(),
        outputs: Seq::empty(),
        types: Seq::empty(),
    };
    assert(result.registry(*symbols) =~= start);
    define_fixed(symbols, &mut result, dynamic, script.is_some(), always, count);
    // RISC-V executables: `__global_pointer$`, which the C runtime loads
    // into `gp`.
    let shared: bool = match options.kind {
        OutputKind::Shared => true,
        OutputKind::Executable => false,
    };
    if !shared {
        if let Some(Arch::RiscV64) = Arch::of_files(files) {
            if let Some(id) = symbols.lookup("__global_pointer$".as_bytes()) {
                if wanted(symbols, id) {
                    result.define(symbols, id, Value::GlobalPointer);
                }
            }
        }
    }
    // __start_SEC / __stop_SEC.
    define_bounds(symbols, &mut result, &placement.outputs);
    let resolved: Option<ResolvedSymbols> = match script {
        Some(script) => Some(script::register_script(symbols, files, script, &mut result)),
        None => None,
    };
    // --defsym: resolution already made the internal file the definition.
    // (Under a linker script, the script evaluates them.)
    let ghost middle = *symbols;
    let absolute: Vec<bool> = verdicts(&Classify { symbols: &*symbols, files }, assignments, eval);
    assert(are_verdicts(
        (Classify { symbols: &middle, files }),
        assignments@,
        *eval,
        absolute@,
    ));
    register_defsyms(symbols, &mut result, &options.defsym, assignments, &absolute);
    let outputs: Vec<u32> = number_set(&result.outputs);
    let types: Vec<(SymbolId, SymbolId)> = source_set(&result.types);
    Registered {
        linker: LinkerSymbols {
            entries: result.entries,
            start_stop_outputs: outputs,
            type_sources: types,
        },
        resolved,
    }
}

/// What a link's symbols are before a script's are assigned.
pub open spec fn bounds_before_script(
    symbols: Seq<Symbol>,
    files: Seq<ElfInput>,
    outputs: Seq<PlannedOutput>,
    shared: bool,
    dynamic: bool,
    always: Seq<Seq<u8>>,
) -> Registry {
    let start = Registry {
        symbols,
        entries: Seq::empty(),
        outputs: Seq::empty(),
        types: Seq::empty(),
    };
    let first = with_global_pointer(
        fixed_from(Setup { dynamic, script: true, always }, start, FIXED_COUNT as int, 0),
        shared,
        files,
    );
    bounds_from(first.symbols, outputs, first, 0)
}

/// The section header index of the output section at `position`.
#[verifier::allow_in_spec]
pub fn header_index(position: u32) -> Option<u16>
    returns
        (if position < 0xfeff {
            Some((position + 1) as u16)
        } else {
            None
        }),
{
    if position < 0xfeff {
        Some((position + 1) as u16)
    } else {
        None
    }
}

/// What [`linker_shndx`] answers.
pub open spec fn spec_linker_shndx(
    linker: LinkerSymbols,
    id: SymbolId,
    script_sections: Seq<Option<u32>>,
    output_positions: Seq<Option<u32>>,
) -> Option<u16> {
    let position = match value_from(linker.entries@, id, 0) {
        Some(Value::Script { slot, .. }) => if slot < script_sections.len() {
            script_sections[slot as int]
        } else {
            None
        },
        Some(Value::OutputStart(output)) => if output < output_positions.len() {
            output_positions[output as int]
        } else {
            None
        },
        Some(Value::OutputEnd(output)) => if output < output_positions.len() {
            output_positions[output as int]
        } else {
            None
        },
        _ => None,
    };
    match position {
        Some(position) => header_index(position),
        None => None,
    }
}

/// An item of a list of positions.
fn position_at(list: &[Option<u32>], index: u32) -> (r: Option<u32>)
    ensures
        r == (if index < list@.len() {
            list@[index as int]
        } else {
            None
        }),
{
    let len: usize = list.len();
    if (index as u64) < len as u64 {
        list[index as usize]
    } else {
        None
    }
}

/// The section header index a linker-defined symbol belongs to, when its
/// value alone does not tell: a script symbol assigned relative to an
/// output section, or `__start_SEC`/`__stop_SEC`, belongs to that section
/// even at its end, where the next section may start. `script_sections`
/// holds the position of the section each script symbol is relative to,
/// `output_positions` that of each planned output section.
pub fn linker_shndx(
    linker: &LinkerSymbols,
    id: SymbolId,
    script_sections: &[Option<u32>],
    output_positions: &[Option<u32>],
) -> (r: Option<u16>)
    ensures
        r == spec_linker_shndx(*linker, id, script_sections@, output_positions@),
{
    let position: Option<u32> = match linker.value_of(id) {
        Some(Value::Script { slot, .. }) => position_at(script_sections, slot),
        Some(Value::OutputStart(output)) => position_at(output_positions, output),
        Some(Value::OutputEnd(output)) => position_at(output_positions, output),
        _ => None,
    };
    match position {
        Some(position) => header_index(position),
        None => None,
    }
}

/// A header index is that of a real section.
pub proof fn header_indices_are_not_reserved(position: u32)
    ensures
        match header_index(position) {
            Some(i) => 1 <= i < SHN_LORESERVE,
            None => position + 1 >= SHN_LORESERVE,
        },
{
}

/// Whether an entry of `entries` gives `id` a value that `kind` accepts.
pub open spec fn has_value(
    entries: Seq<(SymbolId, Value)>,
    id: SymbolId,
    kind: spec_fn(Value) -> bool,
) -> bool {
    exists|i: int| 0 <= i < entries.len() && (#[trigger] entries[i]).0 == id && kind(entries[i].1)
}

/// Whether the ELF backend defines a symbol of this value as an object.
#[verifier::allow_in_spec]
pub fn is_object_value(value: Value) -> bool
    returns
        (match value {
            Value::GotBase => true,
            Value::Dynamic => true,
            _ => false,
        }),
{
    match value {
        Value::GotBase => true,
        Value::Dynamic => true,
        _ => false,
    }
}

/// Whether a symbol is the start of the TLS block.
#[verifier::allow_in_spec]
pub fn is_tls_value(value: Value) -> bool
    returns
        (match value {
            Value::TlsModuleBase => true,
            _ => false,
        }),
{
    match value {
        Value::TlsModuleBase => true,
        _ => false,
    }
}

/// The source of a symbol's type, from `i` on.
pub open spec fn source_from(sources: Seq<(SymbolId, SymbolId)>, id: SymbolId, i: int) -> Option<
    SymbolId,
>
    decreases sources.len() - i,
{
    if i < 0 || i >= sources.len() {
        None
    } else if sources[i].0 == id {
        Some(sources[i].1)
    } else {
        source_from(sources, id, i + 1)
    }
}

/// The type at the end of a chain of copies that starts at `id`; chains of
/// more than `steps` copies end in no type.
pub open spec fn copied_type(refs: Refs, linker: LinkerSymbols, id: SymbolId, steps: nat) -> u8
    decreases steps,
{
    if steps == 0 {
        STT_NOTYPE
    } else {
        match source_from(linker.type_sources@, id, 0) {
            None => STT_NOTYPE,
            Some(source) => {
                let target = refs.spec_global_target(source);
                match target.def {
                    Def::Linker(_) => copied_type(refs, linker, source, (steps - 1) as nat),
                    _ => match target.raw {
                        Some(raw) => raw.kind(),
                        None => STT_NOTYPE,
                    },
                }
            },
        }
    }
}

/// What [`linker_type`] answers.
pub open spec fn spec_linker_type(refs: Refs, linker: LinkerSymbols, id: SymbolId) -> u8 {
    if has_value(linker.entries@, id, |v: Value| is_object_value(v)) {
        STT_OBJECT
    } else if has_value(linker.entries@, id, |v: Value| is_tls_value(v)) {
        STT_TLS
    } else {
        copied_type(refs, linker, id, 8)
    }
}

/// The source of a symbol's type.
fn find_source(sources: &Vec<(SymbolId, SymbolId)>, id: SymbolId) -> (r: Option<SymbolId>)
    requires
        forall|i: int, j: int|
            0 <= i < j < sources@.len() ==> (#[trigger] sources@[i]).0.position < (
            #[trigger] sources@[j]).0.position,
    ensures
        r == source_from(sources@, id, 0),
{
    let mut low: usize = 0;
    let mut high: usize = sources.len();
    while low < high
        invariant
            low <= high <= sources@.len(),
            forall|i: int, j: int|
                0 <= i < j < sources@.len() ==> (#[trigger] sources@[i]).0.position < (
                #[trigger] sources@[j]).0.position,
            forall|k: int| 0 <= k < low ==> (#[trigger] sources@[k]).0.position < id.position,
            forall|k: int|
                high <= k < sources@.len() ==> (#[trigger] sources@[k]).0.position >= id.position,
        decreases high - low,
    {
        let middle: usize = low + (high - low) / 2;
        if sources[middle].0.position < id.position {
            low = middle + 1;
        } else {
            high = middle;
        }
    }
    if low < sources.len() && sources[low].0 == id {
        proof {
            sources_are_skipped(sources@, id, 0, low as int);
        }
        Some(sources[low].1)
    } else {
        proof {
            assert forall|k: int| 0 <= k < sources@.len() implies (#[trigger] sources@[k]).0 != id by {
                if k > low {
                    assert(sources@[low as int].0.position < sources@[k].0.position);
                }
            }
            sources_are_skipped(sources@, id, 0, sources@.len() as int);
        }
        None
    }
}

/// Sources of other symbols do not matter.
proof fn sources_are_skipped(sources: Seq<(SymbolId, SymbolId)>, id: SymbolId, i: int, to: int)
    requires
        0 <= i <= to <= sources.len(),
        forall|k: int| i <= k < to ==> (#[trigger] sources[k]).0 != id,
    ensures
        source_from(sources, id, i) == source_from(sources, id, to),
    decreases to - i,
{
    if i < to {
        assert(sources[i].0 != id);
        sources_are_skipped(sources, id, i + 1, to);
    }
}

/// The type a linker-defined symbol gets in symbol tables: the type of the
/// symbol its assignment copies (`sym = other;`, or any expression reading
/// one symbol, as GNU ld's `bfd_copy_link_hash_symbol_type`), or
/// `STT_NOTYPE`.
pub fn linker_type(refs: &Refs, linker: &LinkerSymbols, id: SymbolId) -> (r: u8)
    requires
        forall|i: int, j: int|
            0 <= i < j < linker.type_sources@.len() ==> (
            #[trigger] linker.type_sources@[i]).0.position < (
            #[trigger] linker.type_sources@[j]).0.position,
    ensures
        r == spec_linker_type(*refs, *linker, id),
{
    let mut tls: bool = false;
    let mut i: usize = 0;
    while i < linker.entries.len()
        invariant
            i <= linker.entries@.len(),
            forall|k: int|
                0 <= k < i && (#[trigger] linker.entries@[k]).0 == id ==> !is_object_value(
                    linker.entries@[k].1,
                ),
            tls == exists|k: int|
                0 <= k < i && (#[trigger] linker.entries@[k]).0 == id && is_tls_value(
                    linker.entries@[k].1,
                ),
        decreases linker.entries@.len() - i,
    {
        let (entry, value) = linker.entries[i];
        if entry == id {
            // GNU ld's ELF backend defines these as objects.
            if is_object_value(value) {
                proof {
                    let kind = |v: Value| is_object_value(v);
                    assert(linker.entries@[i as int].0 == id && kind(linker.entries@[i as int].1));
                }
                return STT_OBJECT;
            }
            if is_tls_value(value) {
                tls = true;
            }
        }
        i += 1;
    }
    if tls {
        proof {
            let kind = |v: Value| is_tls_value(v);
            let k = choose|k: int|
                0 <= k < linker.entries@.len() && (#[trigger] linker.entries@[k]).0 == id
                    && is_tls_value(linker.entries@[k].1);
            assert(linker.entries@[k].0 == id && kind(linker.entries@[k].1));
        }
        return STT_TLS;
    }
    // A chain of copies ends at an input's symbol; cycles stop.
    let mut at: SymbolId = id;
    let mut steps: u32 = 8;
    while steps > 0
        invariant
            steps <= 8,
            forall|a: int, b: int|
                0 <= a < b < linker.type_sources@.len() ==> (
                #[trigger] linker.type_sources@[a]).0.position < (
                #[trigger] linker.type_sources@[b]).0.position,
            copied_type(*refs, *linker, id, 8) == copied_type(
                *refs,
                *linker,
                at,
                steps as nat,
            ),
            spec_linker_type(*refs, *linker, id) == copied_type(*refs, *linker, id, 8),
        decreases steps,
    {
        let Some(source) = find_source(&linker.type_sources, at) else {
            return STT_NOTYPE;
        };
        let target: Target = refs.global_target(source);
        match target.def {
            Def::Linker(_) => {
                at = source;
            },
            _ => {
                return match target.raw {
                    Some(raw) => raw.kind(),
                    None => STT_NOTYPE,
                };
            },
        }
        steps -= 1;
    }
    STT_NOTYPE
}

/// Whether every symbol the linker defined has the slot it is listed in.
pub open spec fn slots_agree(reg: Registry) -> bool {
    forall|k: int|
        0 <= k < reg.entries.len() ==> (#[trigger] reg.entries[k]).0.position < reg.symbols.len()
            && reg.symbols[reg.entries[k].0.position as int].definition == linker_definition(
            k as usize,
        )
}

/// Whether symbols that an object defines have the same definitions.
pub open spec fn keeps_definitions(before: Seq<Symbol>, after: Seq<Symbol>) -> bool {
    &&& after.len() == before.len()
    &&& forall|i: int|
        0 <= i < before.len() && !is_open(before[i].definition.kind) ==> (
        #[trigger] after[i]).definition == before[i].definition
}

/// Names that are found are those of symbols.
proof fn found_symbols_are_there(symbols: Seq<Symbol>, name: Seq<u8>, i: int)
    requires
        0 <= i,
        symbols.len() <= usize::MAX,
    ensures
        match crate::symbols::found_in(symbols, name, i) {
            Some(id) => id.position < symbols.len(),
            None => true,
        },
    decreases symbols.len() - i,
{
    if i < symbols.len() {
        found_symbols_are_there(symbols, name, i + 1);
    }
}

/// Defining a symbol that no object defines leaves the others.
proof fn one_definition_keeps(reg: Registry, id: SymbolId, value: Value)
    requires
        slots_agree(reg),
        id.position < reg.symbols.len(),
        is_open(reg.symbols[id.position as int].definition.kind),
    ensures
        slots_agree(reg.define(id, value)),
        keeps_definitions(reg.symbols, reg.define(id, value).symbols),
{
    let next = reg.define(id, value);
    assert forall|k: int| 0 <= k < next.entries.len() implies (
    #[trigger] next.entries[k]).0.position < next.symbols.len()
        && next.symbols[next.entries[k].0.position as int].definition == linker_definition(
        k as usize,
    ) by {
        if k < reg.entries.len() {
            assert(next.entries[k] == reg.entries[k]);
        }
    }
}

/// The default rules keep what objects define.
proof fn fixed_symbols_keep(setup: Setup, reg: Registry, count: int, i: int)
    requires
        slots_agree(reg),
        reg.symbols.len() <= usize::MAX,
    ensures
        slots_agree(fixed_from(setup, reg, count, i)),
        keeps_definitions(reg.symbols, fixed_from(setup, reg, count, i).symbols),
    decreases count - i,
{
    if 0 <= i < count {
        let f = fixed(i as usize);
        let next = fixed_step(setup, reg, f);
        found_symbols_are_there(reg.symbols, name_bytes(f.name), 0);
        if let Some(id) = crate::symbols::found_in(reg.symbols, name_bytes(f.name), 0) {
            if is_open(reg.symbols[id.position as int].definition.kind) {
                one_definition_keeps(reg, id, f.value);
            }
        }
        assert(keeps_definitions(reg.symbols, next.symbols));
        fixed_symbols_keep(setup, next, count, i + 1);
    }
}

/// Start and stop symbols keep what objects define.
proof fn bounds_keep(before: Seq<Symbol>, outputs: Seq<PlannedOutput>, reg: Registry, i: int)
    requires
        0 <= i,
        before.len() <= usize::MAX,
        slots_agree(reg),
        reg.symbols.len() == before.len(),
        forall|k: int| i <= k < before.len() ==> #[trigger] reg.symbols[k] == before[k],
    ensures
        slots_agree(bounds_from(before, outputs, reg, i)),
        keeps_definitions(reg.symbols, bounds_from(before, outputs, reg, i).symbols),
    decreases before.len() - i,
{
    if i < before.len() {
        match marked_by(before, outputs, i) {
            Some((start, output)) => {
                let id = SymbolId { position: i as usize };
                let value = if start {
                    Value::OutputStart(output)
                } else {
                    Value::OutputEnd(output)
                };
                one_definition_keeps(reg, id, value);
                let next = Registry {
                    outputs: reg.outputs.push(output),
                    ..reg.define(id, value)
                };
                bounds_keep(before, outputs, next, i + 1);
            },
            None => {
                bounds_keep(before, outputs, reg, i + 1);
            },
        }
    }
}

/// Without a script the linker defines only what no object defines, and
/// every symbol it defines has the slot it is listed in.
pub proof fn provided_symbols_replace_nothing(
    symbols: Seq<Symbol>,
    files: Seq<ElfInput>,
    outputs: Seq<PlannedOutput>,
    shared: bool,
    dynamic: bool,
    always: Seq<Seq<u8>>,
)
    requires
        symbols.len() <= usize::MAX,
    ensures
        ({
            let after = before_defsyms(symbols, files, outputs, None, shared, dynamic, always);
            keeps_definitions(symbols, after.symbols) && slots_agree(after)
        }),
{
    let setup = Setup { dynamic, script: false, always };
    let count: int = if has_boundaries(files) {
        EXTRA_COUNT as int
    } else {
        FIXED_COUNT as int
    };
    let start = Registry {
        symbols,
        entries: Seq::empty(),
        outputs: Seq::empty(),
        types: Seq::empty(),
    };
    fixed_symbols_keep(setup, start, count, 0);
    let reg = fixed_from(setup, start, count, 0);
    let name = name_bytes("__global_pointer$");
    found_symbols_are_there(reg.symbols, name, 0);
    if let Some(id) = crate::symbols::found_in(reg.symbols, name, 0) {
        if wanted_in(reg.symbols, id) {
            one_definition_keeps(reg, id, Value::GlobalPointer);
        }
    }
    let first = with_global_pointer(reg, shared, files);
    assert(slots_agree(first));
    assert(keeps_definitions(reg.symbols, first.symbols));
    bounds_keep(first.symbols, outputs, first, 0);
}

/// A symbol is wanted that something refers to and no object defines; one
/// that a shared library defines, only where an object refers to it.
pub proof fn wanted_symbols_are_referenced(symbols: Seq<Symbol>, at: int)
    requires
        0 <= at < symbols.len(),
        symbols.len() <= usize::MAX,
    ensures
        ({
            let s = symbols[at];
            let wanted = wanted_in(symbols, SymbolId { position: at as usize });
            match s.definition.kind {
                DefinitionKind::Undefined | DefinitionKind::Lazy => wanted == (s.flags.bits & (
                REF_REGULAR | REFERENCED | WEAK_REFERENCED) != 0),
                DefinitionKind::Shared => wanted ==> s.flags.bits & REF_REGULAR == REF_REGULAR,
                DefinitionKind::Regular | DefinitionKind::Weak | DefinitionKind::Common => !wanted,
            }
        }),
{
}

/// Names for the same place have the same value, and a section's start and
/// end are those of one section.
pub proof fn fixed_names_agree()
    ensures
        fixed(2).value == fixed(3).value && fixed(3).value == fixed(4).value,
        fixed(5).value == fixed(6).value,
        fixed(7).value == fixed(27).value,
        fixed(8).value == fixed(9).value && fixed(9).value == fixed(28).value && fixed(28).value
            == fixed(29).value && fixed(29).value == fixed(30).value,
        fixed(17).value == fixed(18).value,
        fixed(19).value == fixed(21).value && fixed(20).value == fixed(22).value,
        forall|i: usize|
            i == 10 || i == 12 || i == 14 || i == 24 ==> ((#[trigger] fixed(i)).value matches Value::SectionStart(
                a,
            ) && fixed((i + 1) as usize).value == Value::SectionEnd(a)),
{
}

/// Which output section a name finds.
proof fn outputs_are_found_by_name(outputs: Seq<PlannedOutput>, name: Seq<u8>, i: int)
    requires
        0 <= i,
    ensures
        match output_named(outputs, name, i) {
            Some(k) => i <= k < outputs.len() && outputs[k as int].name@ == name,
            None => forall|k: int|
                i <= k < outputs.len() && k <= u32::MAX ==> (#[trigger] outputs[k]).name@ != name,
        },
    decreases outputs.len() - i,
{
    if i < outputs.len() && i <= u32::MAX {
        outputs_are_found_by_name(outputs, name, i + 1);
    }
}

/// Symbols that mark the bounds of sections are added to those there were,
/// and the first ones stay.
proof fn bounds_are_added(before: Seq<Symbol>, outputs: Seq<PlannedOutput>, reg: Registry, i: int)
    requires
        0 <= i <= before.len(),
    ensures
        reg.entries.is_prefix_of(bounds_from(before, outputs, reg, i).entries),
        reg.outputs.is_prefix_of(bounds_from(before, outputs, reg, i).outputs),
    decreases before.len() - i,
{
    if i < before.len() {
        let next = match marked_by(before, outputs, i) {
            Some((start, output)) => Registry {
                outputs: reg.outputs.push(output),
                ..reg.define(
                    SymbolId { position: i as usize },
                    if start {
                        Value::OutputStart(output)
                    } else {
                        Value::OutputEnd(output)
                    },
                )
            },
            None => reg,
        };
        bounds_are_added(before, outputs, next, i + 1);
    }
}

/// A wanted symbol `__start_X` or `__stop_X`, where X is a C identifier and
/// the name of an output section, is the start or the end of that section.
pub proof fn bounds_name_their_section(
    before: Seq<Symbol>,
    outputs: Seq<PlannedOutput>,
    reg: Registry,
    i: int,
    at: int,
    section: Seq<u8>,
    start: bool,
)
    requires
        0 <= i <= at < before.len(),
        before.len() <= usize::MAX,
        before[at].name.version is None,
        before[at].name.bytes@ == (if start {
            seq![0x5fu8, 0x5f, 0x73, 0x74, 0x61, 0x72, 0x74, 0x5f]
        } else {
            seq![0x5fu8, 0x5f, 0x73, 0x74, 0x6f, 0x70, 0x5f]
        }) + section,
        is_identifier(section),
        wanted_in(before, SymbolId { position: at as usize }),
        exists|k: int|
            0 <= k < outputs.len() && k <= u32::MAX && (#[trigger] outputs[k]).name@ == section,
    ensures
        exists|k: u32|
            #![trigger bounds_from(before, outputs, reg, i).outputs.contains(k)]
            k < outputs.len() && outputs[k as int].name@ == section && bounds_from(
                before,
                outputs,
                reg,
                i,
            ).outputs.contains(k) && bounds_from(before, outputs, reg, i).entries.contains(
                (
                    SymbolId { position: at as usize },
                    if start {
                        Value::OutputStart(k)
                    } else {
                        Value::OutputEnd(k)
                    },
                ),
            ),
    decreases at - i,
{
    let next = match marked_by(before, outputs, i) {
        Some((start, output)) => Registry {
            outputs: reg.outputs.push(output),
            ..reg.define(
                SymbolId { position: i as usize },
                if start {
                    Value::OutputStart(output)
                } else {
                    Value::OutputEnd(output)
                },
            )
        },
        None => reg,
    };
    if i < at {
        bounds_name_their_section(before, outputs, next, i + 1, at, section, start);
        assert(bounds_from(before, outputs, reg, i) == bounds_from(before, outputs, next, i + 1));
        let all = bounds_from(before, outputs, next, i + 1);
        let k = choose|k: u32|
            #![trigger all.outputs.contains(k)]
            k < outputs.len() && outputs[k as int].name@ == section && all.outputs.contains(k)
                && all.entries.contains(
                (
                    SymbolId { position: at as usize },
                    if start {
                        Value::OutputStart(k)
                    } else {
                        Value::OutputEnd(k)
                    },
                ),
            );
        assert(bounds_from(before, outputs, reg, i).outputs.contains(k));
    } else {
        let name = before[at].name.bytes@;
        outputs_are_found_by_name(outputs, section, 0);
        if start {
            assert(start_prefix().is_prefix_of(name));
            assert(name.skip(8) =~= section);
        } else {
            assert(name[4] == 0x6f);
            assert(start_prefix()[4] == 0x61);
            assert(!start_prefix().is_prefix_of(name));
            assert(stop_prefix().is_prefix_of(name));
            assert(name.skip(7) =~= section);
        }
        let k = output_named(outputs, section, 0)->0;
        assert(marked_by(before, outputs, i) == Some((start, k)));
        bounds_are_added(before, outputs, next, i + 1);
        let all = bounds_from(before, outputs, reg, i);
        assert(next.entries[reg.entries.len() as int] == all.entries[reg.entries.len() as int]);
        assert(next.outputs[reg.outputs.len() as int] == all.outputs[reg.outputs.len() as int]);
        assert(all.outputs.contains(k));
        assert(all.entries[reg.entries.len() as int].0 == SymbolId { position: at as usize });
        assert(all.entries.contains(all.entries[reg.entries.len() as int]));
        assert(bounds_from(before, outputs, reg, i).outputs.contains(k));
    }
}

/// The section of a linker-defined symbol that bounds one has the index that
/// is one more than its position in the output.
pub proof fn bounds_have_the_index_of_their_section(
    linker: LinkerSymbols,
    id: SymbolId,
    scripts: Seq<Option<u32>>,
    positions: Seq<Option<u32>>,
    k: u32,
    p: u32,
)
    requires
        k < positions.len(),
        positions[k as int] == Some(p),
        p < 0xfeff,
    ensures
        value_from(linker.entries@, id, 0) == Some(Value::OutputStart(k)) || value_from(
            linker.entries@,
            id,
            0,
        ) == Some(Value::OutputEnd(k)) ==> spec_linker_shndx(linker, id, scripts, positions)
            == Some((p + 1) as u16),
{
}

/// What an object says of its symbol: where it is, or its value if it is
/// absolute.
pub proof fn definitions_are_what_objects_say(
    symbols: Seq<Symbol>,
    files: Seq<ElfInput>,
    at: int,
    object: super::inputs::ObjectInput,
)
    requires
        0 <= at < symbols.len() <= usize::MAX,
        symbols[at].definition.kind == DefinitionKind::Regular || symbols[at].definition.kind
            == DefinitionKind::Weak,
        symbols[at].definition.file.position < files.len(),
        symbols[at].definition.file.position != LINKER_POSITION,
        files[symbols[at].definition.file.position as int].object == Some(object),
        symbols[at].definition.index + object.first_global < object.symbols@.len(),
    ensures
        ({
            let s = object.symbols@[symbols[at].definition.index + object.first_global];
            match (s.section, def_of(symbols, files, SymbolId { position: at as usize })) {
                (SymbolSection::Section(n), SymbolDef::Section { file, section, value }) => section
                    == n && value == s.raw.st_value && file
                    == symbols[at].definition.file.position,
                (SymbolSection::Absolute, SymbolDef::Absolute(value)) => value == s.raw.st_value,
                (SymbolSection::Elsewhere, SymbolDef::Other) => true,
                _ => false,
            }
        }),
{
}

} // verus!
