//! Link options.

use vstd::prelude::*;

use crate::target::Target;

verus! {

/// What is linked.
#[derive(Clone, Copy, Debug, PartialEq, Eq, Structural)]
pub enum OutputKind {
    /// An executable.
    Executable,
    /// A shared object.
    Shared,
}

/// The hash tables of the dynamic symbols.
#[derive(Clone, Copy, Debug, PartialEq, Eq, Structural)]
pub enum HashStyle {
    /// `.hash`.
    Sysv,
    /// `.gnu.hash`.
    Gnu,
    /// Both.
    Both,
}

/// `-Bsymbolic` and its variants.
#[derive(Clone, Copy, Debug, PartialEq, Eq, Structural)]
pub enum SymbolicMode {
    /// Not given.
    Off,
    /// Functions only.
    Functions,
    /// Everything.
    All,
}

/// `--unresolved-symbols`.
#[derive(Clone, Copy, Debug, PartialEq, Eq, Structural)]
pub enum UnresolvedSymbols {
    /// Everything is ignored.
    IgnoreAll,
    /// Objects' references are ignored.
    IgnoreInObjectFiles,
    /// Shared libraries' references are ignored.
    IgnoreInSharedLibs,
    /// Everything is reported.
    ReportAll,
}

/// `-z` keywords that set bits of `DT_FLAGS` and `DT_FLAGS_1`.
#[derive(Clone, Copy, Debug, PartialEq, Eq, Structural)]
pub struct DynamicFlags {
    /// `-z origin`.
    pub origin: bool,
    /// `-z nodelete`.
    pub nodelete: bool,
    /// `-z nodlopen`.
    pub nodlopen: bool,
    /// `-z nodump`.
    pub nodump: bool,
    /// `-z initfirst`.
    pub initfirst: bool,
    /// `-z interpose`.
    pub interpose: bool,
    /// `-z global`.
    pub global: bool,
    /// `-z nodefaultlib`.
    pub nodefaultlib: bool,
    /// `-z loadfltr`.
    pub loadfltr: bool,
    /// `-z singleton`.
    pub singleton: bool,
}

/// What kind of output a link makes.
#[derive(Clone, Copy, Debug, PartialEq, Eq, Structural)]
pub struct Mode {
    /// An executable, not a shared object.
    pub executable: bool,
    /// The output has dynamic sections.
    pub dynamic: bool,
    /// The output may be loaded anywhere.
    pub pic: bool,
}

/// Link options.
#[derive(Debug, PartialEq, Eq)]
pub struct LinkOptions {
    /// What is linked.
    pub kind: OutputKind,
    /// The emulation (`-m`).
    pub target: Option<Target>,
    /// `--fix-cortex-a53-843419`.
    pub fix_cortex_a53_843419: bool,
    /// `--fix-cortex-a53-835769`.
    pub fix_cortex_a53_835769: bool,
    /// `--relax`.
    pub relax: bool,
    /// `--gc-sections`.
    pub gc_sections: bool,
    /// `--hash-style`.
    pub hash_style: HashStyle,
    /// `-soname`.
    pub soname: Option<Vec<u8>>,
    /// `-rpath` directories.
    pub rpaths: Vec<Vec<u8>>,
    /// `--auxiliary` names.
    pub auxiliary: Vec<Vec<u8>>,
    /// `--filter` names.
    pub filter: Vec<Vec<u8>>,
    /// `-init`.
    pub init: Option<Vec<u8>>,
    /// `-fini`.
    pub fini: Option<Vec<u8>>,
    /// `--enable-new-dtags` or `--disable-new-dtags`.
    pub new_dtags: Option<bool>,
    /// `-Bsymbolic`.
    pub symbolic: SymbolicMode,
    /// `-z` keywords.
    pub dynamic_flags: DynamicFlags,
    /// `-z now`.
    pub bind_now: bool,
    /// `-z combreloc`.
    pub combine_relocs: bool,
    /// `--spare-dynamic-tags`.
    pub spare_dynamic_tags: Option<u32>,
    /// `--allow-shlib-undefined` or its opposite.
    pub allow_shlib_undefined: Option<bool>,
    /// `--unresolved-symbols`.
    pub unresolved_symbols: Option<UnresolvedSymbols>,
    /// `--ignore-unresolved-symbol` names.
    pub ignore_unresolved_symbols: Vec<Vec<u8>>,
    /// `--warn-unresolved-symbols`.
    pub warn_unresolved_symbols: bool,
    /// `--defsym` names and expressions.
    pub defsym: Vec<(Vec<u8>, Vec<u8>)>,
}

} // verus!
