use qld::elf::common::allocate;
use qld::elf::consts::{
    DT_DEBUG, DT_GNU_HASH, DT_HASH, DT_INIT, DT_NEEDED, DT_NULL, DT_RPATH, DT_RUNPATH, DT_STRTAB,
    EM_X86_64, SHN_ABS, STB_GLOBAL, STB_WEAK, STT_FUNC, STT_OBJECT,
};
use qld::elf::dso::dependencies::{
    dependency_dirs, directories, expand_origin, is_checked, is_path, missing_references,
    not_found_text, run_path_directories, split_run_path, Request, Search, SearchDirs,
};
use qld::elf::dso::{
    bind_unextracted, check_shlib_undefined, defined_in_dependencies, plan_needed, DynSymbol,
    Needed, SharedInput, SharedObject, SymbolVersion, VersionInfo, VersionKind,
};
use qld::elf::dynsym::{
    import_version, plan, shndx_of_address, write_dynamic, write_dynsym, Addresses, DynValue,
    DynamicPlan, Entry, Exports, PlanInput, ScanResult, Synth, Synthetic, VersionDef,
    VersionScript,
};
use qld::elf::inputs::{ElfInput, ObjectInput, ObjectSymbol, RawSymbol, SymbolSection};
use qld::elf::layout::{Layout, OutputSection};
use qld::elf::refs::{Def, Refs, Sections, Target};
use qld::error::Error;
use qld::ids::{FileId, SymbolId};
use qld::options::{
    DynamicFlags, HashStyle, LinkOptions, Mode, OutputKind, SymbolicMode, UnresolvedSymbols,
};
use qld::symbols::{
    Definition, DefinitionKind, Resolution, Symbol, SymbolFlags, SymbolName, SymbolTable,
    SymbolUse, EXPORTED, PREEMPTIBLE, REF_LIVE, REF_REGULAR, REF_REGULAR_STRONG,
};

fn options() -> LinkOptions {
    LinkOptions {
        kind: OutputKind::Executable,
        target: None,
        fix_cortex_a53_843419: false,
        fix_cortex_a53_835769: false,
        relax: true,
        gc_sections: false,
        hash_style: HashStyle::Both,
        soname: None,
        rpaths: Vec::new(),
        auxiliary: Vec::new(),
        filter: Vec::new(),
        init: None,
        fini: None,
        new_dtags: None,
        symbolic: SymbolicMode::Off,
        dynamic_flags: DynamicFlags {
            origin: false,
            nodelete: false,
            nodlopen: false,
            nodump: false,
            initfirst: false,
            interpose: false,
            global: false,
            nodefaultlib: false,
            loadfltr: false,
            singleton: false,
        },
        bind_now: false,
        combine_relocs: true,
        spare_dynamic_tags: None,
        allow_shlib_undefined: None,
        unresolved_symbols: None,
        ignore_unresolved_symbols: Vec::new(),
        warn_unresolved_symbols: false,
        defsym: Vec::new(),
    }
}

fn raw(binding: u8, kind: u8, shndx: u16, value: u64, size: u64) -> RawSymbol {
    RawSymbol {
        st_info: binding << 4 | kind,
        st_other: 0,
        st_shndx: shndx,
        st_value: value,
        st_size: size,
    }
}

fn dynamic_symbol(name: &str, raw: RawSymbol, version: Option<(&str, bool)>) -> DynSymbol {
    DynSymbol {
        raw,
        name: Some(name.as_bytes().to_vec()),
        version: Some(SymbolVersion {
            index: if version.is_some() { 2 } else { 1 },
            hidden: version.is_some_and(|v| v.1),
            info: version.map(|v| VersionInfo {
                name: v.0.as_bytes().to_vec(),
                base: false,
                kind: VersionKind::Defined,
            }),
        }),
    }
}

/// A library with a null symbol and the given ones.
fn library(soname: Option<&str>, symbols: Vec<DynSymbol>) -> SharedObject {
    let mut all = vec![dynamic_symbol("", RawSymbol::null(), None)];
    all.extend(symbols);
    SharedObject {
        file: "lib.so".into(),
        machine: EM_X86_64,
        soname: soname.map(|s| s.as_bytes().to_vec()),
        symbols: all,
        first_global: 1,
        needed: Vec::new(),
        dynamic: Vec::new(),
        versions: Vec::new(),
    }
}

fn loaded(elf: SharedObject, as_needed: bool) -> SharedInput {
    let mut shared = SharedInput::parse(elf, b"found.so", as_needed).unwrap();
    shared.load_symbols().unwrap();
    shared
}

fn file(name: &str, position: u64) -> ElfInput {
    ElfInput {
        name: name.into(),
        position,
        object: None,
        shared: None,
        internal_uses: Vec::new(),
    }
}

fn object(uses: Vec<SymbolUse>) -> ObjectInput {
    ObjectInput {
        machine: EM_X86_64,
        e_flags: 0,
        sections: Vec::new(),
        symbols: Vec::new(),
        first_global: 1,
        uses,
    }
}

fn symbol(name: &str, kind: DefinitionKind, file: usize, index: u32, bits: u32) -> Symbol {
    Symbol {
        name: SymbolName { bytes: name.as_bytes().to_vec(), version: None },
        definition: Definition {
            kind,
            file: FileId::new(file),
            index,
            position: file as u64,
            aux: 0,
        },
        flags: SymbolFlags { bits },
        visibility: 0,
    }
}

fn id(position: usize) -> SymbolId {
    SymbolId::new(position)
}

const STRONG: SymbolUse = SymbolUse::Reference { weak: false };
const DEFINES: SymbolUse = SymbolUse::Definition { kind: DefinitionKind::Regular, aux: 0 };

/// `main.o` defines `main` and refers to `foo`, which `libx.so.1` defines
/// under version `V1`; `liby.so` is not used. The libraries refer to `bar`,
/// which nothing defines.
fn link(as_needed: bool) -> Refs {
    let mut main = file("main.o", 0);
    main.object = Some(object(vec![STRONG, DEFINES]));
    let foo = raw(STB_GLOBAL, STT_FUNC, 5, 0x100, 8);
    let bar = raw(STB_GLOBAL, 0, 0, 0, 0);
    let mut x = file("libx.so", 1);
    x.shared = Some(loaded(
        library(
            Some("libx.so.1"),
            vec![
                dynamic_symbol("foo", foo, Some(("V1", false))),
                dynamic_symbol("bar", bar, None),
            ],
        ),
        as_needed,
    ));
    let mut y = file("liby.so", 2);
    y.shared = Some(loaded(library(None, vec![dynamic_symbol("bar", bar, None)]), as_needed));
    let mut versioned = symbol("foo", DefinitionKind::Shared, 1, 1, 0);
    versioned.name.version = Some(b"V1".to_vec());
    let mut target = Target::nothing();
    target.def = Def::Shared(1);
    target.raw = Some(foo);
    let mut own = Target::nothing();
    own.def = Def::Absolute(0x1234);
    own.raw = Some(raw(STB_GLOBAL, STT_FUNC, SHN_ABS, 0x1234, 4));
    Refs {
        files: vec![main, x, y],
        symbols: SymbolTable {
            symbols: vec![
                symbol("foo", DefinitionKind::Shared, 1, 0, REF_REGULAR | REF_REGULAR_STRONG | REF_LIVE),
                symbol("main", DefinitionKind::Regular, 0, 1, EXPORTED | REF_REGULAR),
                symbol("bar", DefinitionKind::Undefined, 0, 0, 0),
                versioned,
            ],
        },
        sections: Sections {
            ids: Vec::new(),
            places: Vec::new(),
            live: Vec::new(),
            present: Vec::new(),
            folded: Vec::new(),
        },
        resolution: Resolution {
            ids: vec![vec![id(0), id(1)], vec![id(0), id(3), id(2)], vec![id(2)]],
            live: vec![true, true, true],
        },
        targets: Vec::new(),
        globals: vec![target, own, Target::nothing(), target],
    }
}

#[test]
fn libraries_offer_plain_and_versioned_names() {
    let f = raw(STB_GLOBAL, STT_FUNC, 5, 0x100, 8);
    let shared = loaded(
        library(
            Some("lib.so.1"),
            vec![
                dynamic_symbol("plain", f, None),
                dynamic_symbol("both", f, Some(("V2", false))),
                dynamic_symbol("old", f, Some(("V1", true))),
                dynamic_symbol("weak", raw(STB_WEAK, 0, 0, 0, 0), None),
            ],
        ),
        true,
    );
    assert_eq!(shared.needed_name, b"lib.so.1");
    let names: Vec<(&[u8], Option<&[u8]>, u32)> = shared
        .names
        .iter()
        .zip(&shared.symbols)
        .map(|(n, &s)| (&n.bytes[..], n.version.as_deref(), s))
        .collect();
    assert_eq!(
        names,
        [
            (&b"plain"[..], None, 1),
            (&b"both"[..], None, 2),
            (&b"both"[..], Some(&b"V2"[..]), 2),
            // A hidden version is offered under its full name only.
            (&b"old"[..], Some(&b"V1"[..]), 3),
            (&b"weak"[..], None, 4),
        ]
    );
    assert_eq!(shared.uses[4], SymbolUse::Reference { weak: true });
    let nameless = loaded(library(None, Vec::new()), false);
    assert_eq!(nameless.needed_name, b"found.so");
}

#[test]
fn malformed_libraries_are_reported() {
    let mut elf = library(None, vec![dynamic_symbol("f", raw(STB_GLOBAL, 0, 1, 0, 0), None)]);
    elf.symbols[1].version = None;
    let mut shared = SharedInput::parse(elf, b"found.so", false).unwrap();
    assert_eq!(
        shared.load_symbols(),
        Err(Error::Malformed {
            file: "lib.so".into(),
            offset: 1,
            what: "dynamic symbol version".into(),
        })
    );
    let mut elf = library(None, vec![dynamic_symbol("f", raw(STB_GLOBAL, 0, 1, 0, 0), None)]);
    elf.symbols[1].name = None;
    let mut shared = SharedInput::parse(elf, b"found.so", false).unwrap();
    assert!(matches!(shared.load_symbols(), Err(Error::Malformed { offset: 1, .. })));
    assert!(shared.names.is_empty());
    let mut elf = library(None, Vec::new());
    elf.machine = 40;
    assert!(matches!(
        SharedInput::parse(elf, b"found.so", false),
        Err(Error::Malformed { offset: 18, .. })
    ));
}

#[test]
fn run_paths_prefer_the_new_tag() {
    let mut elf = library(None, Vec::new());
    assert_eq!(elf.search_path(), None);
    elf.dynamic = vec![(DT_RPATH, Some(b"/old".to_vec()))];
    assert_eq!(elf.search_path(), Some(&b"/old".to_vec()));
    elf.dynamic.push((DT_RUNPATH, Some(b"/new".to_vec())));
    assert_eq!(elf.search_path(), Some(&b"/new".to_vec()));
}

#[test]
fn as_needed_libraries_go_unless_used() {
    let mut refs = link(true);
    let first = |a: &Definition, b: &Definition| a.position < b.position;
    let needed = plan_needed(&refs.files, &mut refs.symbols, &refs.resolution, &first);
    assert_eq!(needed.needed, [false, true, false]);
    assert!(needed.any() && needed.any_needed());
    assert!(needed.is_needed(1) && !needed.is_needed(9));
    let mut refs = link(false);
    let needed = plan_needed(&refs.files, &mut refs.symbols, &refs.resolution, &first);
    assert_eq!(needed.needed, [false, true, true]);
    // Nothing uses `foo` any more: the symbol is undefined again.
    let mut refs = link(true);
    refs.files[0].object = Some(object(vec![SymbolUse::Unused, DEFINES]));
    let needed = plan_needed(&refs.files, &mut refs.symbols, &refs.resolution, &first);
    // The link has shared objects, though it needs none.
    assert!(needed.any() && !needed.any_needed());
    assert_eq!(refs.symbols.definition_kind(id(0)), DefinitionKind::Undefined);
}

#[test]
fn unextracted_members_do_not_define() {
    let mut refs = link(true);
    refs.symbols.symbols[2].definition.kind = DefinitionKind::Lazy;
    let before = refs.symbols.definition_kind(id(0));
    let _ = bind_unextracted(&refs.files, &mut refs.symbols, &refs.resolution);
    assert_eq!(refs.symbols.definition_kind(id(0)), before);
}

#[test]
fn dependencies_are_searched_once() {
    let mut refs = link(false);
    if let Some(x) = &mut refs.files[1].shared {
        x.elf.needed = vec![b"libz.so".to_vec(), b"found.so".to_vec(), b"libq.so".to_vec()];
        x.elf.dynamic = vec![(DT_RUNPATH, Some(b"/x".to_vec()))];
    }
    let needed = Needed { needed: vec![false, true, true], shared: true };
    let mut search = Search::new(&refs.files, &needed);
    let z = search.next().unwrap();
    assert_eq!(search.request(z).name, b"libz.so");
    assert_eq!(search.request(z).requester, b"libx.so");
    assert_eq!(search.request(z).run_path, Some(b"/x".to_vec()));
    let mut found = library(None, Vec::new());
    found.needed = vec![b"libz.so".to_vec(), b"libw.so".to_vec()];
    search.found(z, b"/x/libz.so", Some(&found));
    // `found.so` is the name of `liby.so` in the link.
    let q = search.next().unwrap();
    assert_eq!(search.request(q).name, b"libq.so");
    search.missing(q);
    let w = search.next().unwrap();
    assert_eq!(search.request(w).name, b"libw.so");
    assert_eq!(search.request(w).requester, b"/x/libz.so");
    assert_eq!(search.request(w).owner, 1);
    search.missing(w);
    assert_eq!(search.next(), None);
    assert_eq!(search.finish(), [1]);
}

#[test]
fn run_path_entries_are_expanded() {
    assert_eq!(split_run_path(b":/a::/b:"), [b"/a".to_vec(), b"/b".to_vec()]);
    assert!(split_run_path(b"").is_empty());
    assert_eq!(expand_origin(b"$ORIGIN/../${ORIGIN}x", b"/o"), b"/o/..//ox");
    assert_eq!(expand_origin(b"$ORIG", b"/o"), b"$ORIG");
    assert_eq!(
        not_found_text("libz.so", "libx.so"),
        "libz.so, needed by libx.so, not found (try using -rpath or -rpath-link)"
    );
}

#[test]
fn directories_are_searched_in_order() {
    let list = |dirs: &[&str]| dirs.iter().map(|d| d.as_bytes().to_vec()).collect::<Vec<_>>();
    let mut dirs = SearchDirs {
        rpath_links: list(&["/link"]),
        rpaths: Vec::new(),
        run_path: list(&["/run"]),
        library_path: list(&["/env"]),
        defaults: list(&["/lib"]),
        search_paths: list(&["/L"]),
    };
    let base = dependency_dirs(&dirs);
    assert_eq!(base, list(&["/link", "/run", "/env", "/lib", "/L"]));
    dirs.rpaths = list(&["/r"]);
    assert_eq!(dependency_dirs(&dirs), list(&["/link", "/r", "/env", "/lib", "/L"]));
    let request = Request {
        name: b"libz.so".to_vec(),
        requester: b"/o/libx.so".to_vec(),
        run_path: Some(b"$ORIGIN/z:/q".to_vec()),
        owner: 0,
    };
    assert_eq!(
        directories(&request, b"/o", &list(&["/lib"])),
        list(&["/o/z", "/q", "/lib"])
    );
    // A run path is read as text.
    let request = Request { run_path: Some(b"/a\xff::$ORIGIN".to_vec()), ..request };
    assert_eq!(
        directories(&request, b"/o", &list(&["/lib"])),
        list(&["/a\u{fffd}", "/o", "/lib"])
    );
    assert_eq!(
        run_path_directories(b"${ORIGIN}/z:", b".", &list(&["/lib"])),
        list(&["./z", "/lib"])
    );
    assert!(is_path(b"./libz.so") && !is_path(b"libz.so"));
}

#[test]
fn undefined_references_of_libraries_are_reported() {
    let refs = link(false);
    let needed = Needed { needed: vec![false, true, true], shared: true };
    let mut o = options();
    assert!(is_checked(&o));
    let missing = missing_references(&refs.files, &refs.symbols, &refs.resolution, &needed, &o);
    assert_eq!(missing, [(1, id(2)), (2, id(2))]);
    let report = |o: &LinkOptions, dependencies: &Vec<SharedObject>, incomplete: &[u32]| {
        check_shlib_undefined(&refs.files, &refs.symbols, o, &missing, dependencies, incomplete)
    };
    // Each symbol is reported once, with the first library that needs it.
    let none = Vec::new();
    let all = report(&o, &none, &[]);
    assert_eq!((all.references, all.errors), (vec![(1, id(2))], 1));
    assert_eq!(report(&o, &none, &[1]).references, [(2, id(2))]);
    let bar = dynamic_symbol("bar", raw(STB_GLOBAL, STT_OBJECT, 3, 0, 4), None);
    assert!(report(&o, &vec![library(None, vec![bar])], &[]).references.is_empty());
    o.warn_unresolved_symbols = true;
    assert_eq!(report(&o, &none, &[]).errors, 0);
    o.ignore_unresolved_symbols = vec![b"bar".to_vec()];
    assert!(report(&o, &none, &[]).references.is_empty());
    o.unresolved_symbols = Some(UnresolvedSymbols::IgnoreInSharedLibs);
    assert!(!is_checked(&o));
    assert!(missing_references(&refs.files, &refs.symbols, &refs.resolution, &needed, &o).is_empty());
}

#[test]
fn the_first_dependency_that_defines_is_found() {
    let f = raw(STB_GLOBAL, STT_FUNC, 1, 0, 0);
    let dependencies = vec![
        library(None, vec![dynamic_symbol("a", raw(STB_GLOBAL, 0, 0, 0, 0), None)]),
        library(None, vec![dynamic_symbol("b", f, None)]),
        library(None, vec![dynamic_symbol("a", f, None), dynamic_symbol("b", f, None)]),
    ];
    let names = vec![b"a".to_vec(), b"b".to_vec(), b"c".to_vec()];
    let needed = Needed { needed: vec![true], shared: true };
    assert_eq!(
        defined_in_dependencies(&needed, &names, &dependencies),
        [Some(2), Some(1), None]
    );
    let none = Needed::default();
    assert!(!none.any() && !none.any_needed());
    assert_eq!(defined_in_dependencies(&none, &names, &dependencies), [None, None, None]);
}

fn synth() -> Synth {
    Synth {
        copies: Vec::new(),
        got_plt_reserved: 3,
        plt_entries: 0,
        rela_dyn_count: 0,
        relr_count: 0,
        relative_count: 0,
    }
}

fn planned(refs: &mut Refs, options: &LinkOptions, exports: &Exports, mode: Mode) -> DynamicPlan {
    let input = PlanInput {
        needed: &Needed { needed: vec![false, true, false], shared: true },
        mode,
        options,
        synth: &synth(),
        exports,
        scan: ScanResult { text_relocs: false, static_tls: false },
        outputs: &vec![b".init_array".to_vec()],
        soname: &None,
    };
    plan(&input, refs).unwrap()
}

const EXECUTABLE: Mode = Mode { executable: true, dynamic: true, pic: false };

fn text_at(data: &[u8], offset: u32) -> &[u8] {
    let rest = &data[offset as usize..];
    &rest[..rest.iter().position(|&b| b == 0).unwrap()]
}

#[test]
fn imports_come_before_exports() {
    let mut refs = link(true);
    let exports = Exports { script: None, versions: Vec::new() };
    let plan = planned(&mut refs, &options(), &exports, EXECUTABLE);
    assert_eq!(plan.entries, [Entry::Symbol(id(0)), Entry::Symbol(id(1))]);
    assert_eq!(plan.first_hashed, 1);
    assert_eq!((plan.index_of(id(0)), plan.index_of(id(1)), plan.index_of(id(2))), (1, 2, 0));
    assert_eq!(text_at(&plan.dynstr, plan.names[0]), b"foo");
    assert_eq!(text_at(&plan.dynstr, plan.names[1]), b"main");
    // `foo` needs version `V1` of `libx.so.1`; `main` has none.
    assert_eq!(plan.versym, [0, 2, 1]);
    assert_eq!(plan.verneed.len(), 32);
    assert_eq!(plan.verneed_count, 1);
    assert_eq!(import_version(&refs, id(0)), Some((1, &b"V1".to_vec())));
    assert_eq!(plan.verdef_count, 0);
    let tags: Vec<i64> = plan.dynamic.iter().map(|e| e.0).collect();
    assert_eq!(tags[0], DT_NEEDED);
    assert!(tags.contains(&DT_GNU_HASH) && tags.contains(&DT_HASH) && tags.contains(&DT_DEBUG));
    assert!(!tags.contains(&DT_INIT));
    assert_eq!(plan.dynamic.last(), Some(&(DT_NULL, DynValue::Value(0))));
    let DynValue::Value(name) = plan.dynamic[0].1 else {
        panic!("a string");
    };
    assert_eq!(text_at(&plan.dynstr, name as u32), b"libx.so.1");
    assert_eq!(plan.count(), 3);
    assert_eq!(plan.sizes()[0], (Synthetic::DynSym, 72, 8));
    let off = Mode { dynamic: false, ..EXECUTABLE };
    assert_eq!(planned(&mut refs, &options(), &exports, off), DynamicPlan::default());
}

#[test]
fn removed_references_are_not_imported() {
    let mut refs = link(true);
    refs.symbols.symbols[0].flags.bits = REF_REGULAR;
    let exports = Exports { script: None, versions: Vec::new() };
    let mut o = options();
    o.gc_sections = true;
    o.hash_style = HashStyle::Sysv;
    let plan = planned(&mut refs, &o, &exports, EXECUTABLE);
    assert_eq!(plan.entries, [Entry::Symbol(id(1))]);
    assert!(plan.gnu_hash.is_empty() && !plan.sysv_hash.is_empty());
    assert!(plan.versym.is_empty() && plan.verneed.is_empty());
}

#[test]
fn version_scripts_define_versions() {
    let mut refs = link(true);
    refs.symbols.symbols[2].flags.bits = PREEMPTIBLE | REF_REGULAR;
    let exports = Exports {
        script: Some(VersionScript {
            defs: vec![
                VersionDef { name: b"A".to_vec(), parents: Vec::new() },
                VersionDef { name: b"B".to_vec(), parents: vec![b"A".to_vec()] },
            ],
        }),
        versions: vec![0, 3],
    };
    let mode = Mode { executable: false, dynamic: true, pic: true };
    let plan = planned(&mut refs, &options(), &exports, mode);
    assert_eq!(&plan.entries[..2], [Entry::Symbol(id(0)), Entry::Symbol(id(2))]);
    assert!(plan.entries.contains(&Entry::Version(2)) && plan.entries.contains(&Entry::Version(3)));
    assert_eq!(plan.verdef_count, 3);
    // A base entry, one without and one with a parent.
    assert_eq!(plan.verdef.len(), 28 + 28 + 36);
    let main = plan.entries.iter().position(|&e| e == Entry::Symbol(id(1))).unwrap();
    assert_eq!(plan.versym[main + 1], 3);
    assert_eq!(plan.versym[1], 4, "needed versions follow the defined ones");
}

#[test]
fn strong_aliases_of_weak_data_are_imported() {
    let mut refs = link(true);
    let weak = raw(STB_WEAK, STT_OBJECT, 7, 0x40, 8);
    let strong = raw(STB_GLOBAL, STT_OBJECT, 7, 0x40, 8);
    refs.files[1].shared = Some(loaded(
        library(
            Some("libx.so.1"),
            vec![dynamic_symbol("environ", weak, None), dynamic_symbol("__environ", strong, None)],
        ),
        true,
    ));
    refs.resolution.ids[1] = vec![id(0), id(2)];
    refs.symbols.symbols[2] = symbol("__environ", DefinitionKind::Shared, 1, 1, 0);
    let exports = Exports { script: None, versions: Vec::new() };
    let plan = planned(&mut refs, &options(), &exports, EXECUTABLE);
    assert_eq!(&plan.entries[..2], [Entry::Symbol(id(0)), Entry::Symbol(id(2))]);
    // The alias is referenced as its weak symbol is.
    assert!(refs.symbols.flags(id(2)).contains(REF_REGULAR_STRONG));
}

fn layout() -> Layout {
    let section = |name: &str, addr: u64, size: u64| OutputSection {
        name: name.as_bytes().to_vec(),
        output: 0,
        addr,
        lma: addr,
        size,
        align: 1,
        alloc: true,
    };
    Layout {
        sections: vec![section(".text", 0x1000, 0x100), section(".init_array", 0x2000, 0x10)],
        section_shndx: Vec::new(),
        section_addr: Vec::new(),
        offsets: Vec::new(),
        plt: Vec::new(),
        iplt: Vec::new(),
        plt_slots: Vec::new(),
        thunks: Vec::new(),
        tls: None,
        relax: Default::default(),
    }
}

#[test]
fn addresses_have_section_indices() {
    let layout = layout();
    assert_eq!(shndx_of_address(&layout, 0x1080), 1);
    assert_eq!(shndx_of_address(&layout, 0x2000), 2);
    // Past the end of a section: the last one before it.
    assert_eq!(shndx_of_address(&layout, 0x1100), 1);
    assert_eq!(shndx_of_address(&layout, 0x10), SHN_ABS);
}

#[test]
fn symbols_and_entries_are_written() {
    let mut refs = link(true);
    let exports = Exports { script: None, versions: Vec::new() };
    let plan = planned(&mut refs, &options(), &exports, EXECUTABLE);
    let layout = layout();
    let addresses = Addresses {
        refs: &refs,
        layout: &layout,
        synth: &synth(),
        globals: &vec![0, 0x1234],
        synthetic: &vec![(Synthetic::DynStr, 0x3000, 0x20)],
    };
    let mut out = vec![0xff; 80];
    write_dynsym(&plan, &addresses, &mut out);
    assert_eq!(&out[..24], &[0; 24]);
    // An import has neither section, value nor size.
    assert_eq!(&out[24..28], &plan.names[0].to_le_bytes());
    let mut import = vec![0x12u8];
    import.extend([0u8; 19]);
    assert_eq!(out[28..48], import);
    assert_eq!(&out[52..56], &[0x12, 0, 0xf1, 0xff]);
    assert_eq!(&out[56..64], &0x1234u64.to_le_bytes());
    assert_eq!(&out[64..72], &4u64.to_le_bytes());
    assert_eq!(&out[72..], &[0xff; 8]);
    let mut out = vec![0; plan.dynamic.len() * 16];
    write_dynamic(&plan, &addresses, &mut out);
    let at = plan.dynamic.iter().position(|e| e.0 == DT_STRTAB).unwrap() * 16;
    assert_eq!(&out[at..at + 8], &DT_STRTAB.to_le_bytes());
    assert_eq!(&out[at + 8..at + 16], &0x3000u64.to_le_bytes());
    let array = plan
        .dynamic
        .iter()
        .position(|e| e.1 == DynValue::OutputAddress(".init_array"))
        .unwrap();
    assert_eq!(&out[array * 16 + 8..array * 16 + 16], &0x2000u64.to_le_bytes());
}

#[test]
fn commons_are_aligned_and_apart() {
    let mut refs = link(true);
    let mut main = object(vec![]);
    let common = |align: u64, size: u64| ObjectSymbol {
        raw: raw(STB_GLOBAL, STT_OBJECT, 0xfff2, align, size),
        name: None,
        section: SymbolSection::Elsewhere,
    };
    main.symbols = vec![common(0, 0), common(1, 3), common(8, 16)];
    refs.files[0].object = Some(main);
    for (at, size) in [(0usize, 3u64), (1, 16)] {
        refs.symbols.symbols[at].definition = Definition {
            kind: DefinitionKind::Common,
            file: FileId::new(0),
            index: at as u32,
            position: 0,
            aux: size,
        };
    }
    let commons = allocate(&refs);
    assert_eq!(commons.offset(id(0)), Some(0));
    assert_eq!(commons.offset(id(1)), Some(8));
    assert_eq!(commons.offset(id(2)), None);
    assert_eq!((commons.size, commons.align), (24, 8));
}
