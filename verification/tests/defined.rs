use qld::elf::defined::defsym::{
    defsym_assignment, defsym_expr, defsym_references, evaluate_defsyms, Assignment, Classify,
    DefsymContext, ExprValue,
};
use qld::elf::defined::script::ScriptPlacement;
use qld::elf::defined::{
    header_index, is_c_identifier, linker_definition, register, LinkerSymbols, Value,
};
use qld::elf::layout::{Layout, Placement, PlannedOutput};
use qld::elf::refs::{Refs, Sections};
use qld::ids::{FileId, SymbolId};
use qld::options::{
    DynamicFlags, HashStyle, LinkOptions, OutputKind, SymbolicMode,
};
use qld::symbols::{
    Definition, DefinitionKind, Resolution, Symbol, SymbolFlags, SymbolName, SymbolTable, ABSOLUTE,
    REFERENCED,
};

fn options() -> LinkOptions {
    LinkOptions {
        kind: OutputKind::Executable,
        target: None,
        fix_cortex_a53_843419: false,
        fix_cortex_a53_835769: false,
        relax: true,
        gc_sections: false,
        hash_style: HashStyle::Both,
        soname: None,
        rpaths: Vec::new(),
        auxiliary: Vec::new(),
        filter: Vec::new(),
        init: None,
        fini: None,
        new_dtags: None,
        symbolic: SymbolicMode::Off,
        dynamic_flags: DynamicFlags {
            origin: false,
            nodelete: false,
            nodlopen: false,
            nodump: false,
            initfirst: false,
            interpose: false,
            global: false,
            nodefaultlib: false,
            loadfltr: false,
            singleton: false,
        },
        bind_now: false,
        combine_relocs: true,
        spare_dynamic_tags: None,
        allow_shlib_undefined: None,
        unresolved_symbols: None,
        ignore_unresolved_symbols: Vec::new(),
        warn_unresolved_symbols: false,
        defsym: Vec::new(),
    }
}

fn symbol(name: &str, kind: DefinitionKind, bits: u32) -> Symbol {
    Symbol {
        name: SymbolName { bytes: name.as_bytes().to_vec(), version: None },
        definition: Definition { kind, file: FileId::new(0), index: 0, position: 0, aux: 0 },
        flags: SymbolFlags { bits },
        visibility: 0,
    }
}

fn id(position: usize) -> SymbolId {
    SymbolId::new(position)
}

fn placement() -> Placement {
    Placement {
        output_of: Vec::new(),
        outputs: vec![PlannedOutput { name: b"my_set".to_vec(), rank: (0, 0) }],
        sub: Vec::new(),
    }
}

/// Registers the linker's symbols of a link with no files and no script.
fn registered(table: &mut SymbolTable, options: &LinkOptions) -> LinkerSymbols {
    let absolute = |_: usize, _: &Classify| Some(ExprValue::absolute(0));
    register(table, &[], &placement(), None, options, false, &["_edata"], &[None], &absolute).linker
}

#[test]
fn only_wanted_symbols_are_provided() {
    let mut table = SymbolTable {
        symbols: vec![
            symbol("_end", DefinitionKind::Undefined, REFERENCED),
            symbol("__bss_start", DefinitionKind::Regular, REFERENCED),
            symbol("_etext", DefinitionKind::Undefined, 0),
            symbol("_edata", DefinitionKind::Undefined, 0),
            symbol("__start_my_set", DefinitionKind::Lazy, REFERENCED),
            symbol("__stop_other", DefinitionKind::Undefined, REFERENCED),
        ],
    };
    let before = table.symbols[1].definition;
    let linker = registered(&mut table, &options());
    assert_eq!(table.symbols[1].definition, before, "an object defines it");
    assert_eq!(table.definition_kind(id(2)), DefinitionKind::Undefined, "nothing refers to it");
    assert_eq!(table.definition_kind(id(5)), DefinitionKind::Undefined, "there is no section");
    // Each symbol has the slot it is listed in.
    assert_eq!(linker.entries.len(), 3);
    for (slot, (symbol, _)) in linker.entries.iter().enumerate() {
        assert_eq!(table.definition(*symbol), linker_definition(slot));
    }
    let value = |i: usize| linker.entries.iter().find(|e| e.0 == id(i)).map(|e| e.1);
    assert_eq!(value(0), Some(Value::End));
    assert_eq!(value(3), Some(Value::Edata));
    assert_eq!(value(4), Some(Value::OutputStart(0)));
    assert_eq!(linker.start_stop_outputs, [0]);
    assert_eq!(linker.get(9), None);
}

#[test]
fn script_symbols_are_assigned() {
    let mut table = SymbolTable {
        symbols: vec![
            symbol("assigned", DefinitionKind::Undefined, REFERENCED),
            symbol("provided", DefinitionKind::Regular, REFERENCED),
        ],
    };
    let script = ScriptPlacement {
        symbol_names: vec![b"assigned".to_vec(), b"provided".to_vec()],
        symbol_kinds: vec![(false, false), (true, false)],
        referenced: vec![b"provided".to_vec()],
        type_sources: vec![None, None],
    };
    let before = table.symbols[1].definition;
    let absolute = |_: usize, _: &Classify| Some(ExprValue::absolute(0));
    let o = options();
    let result = register(
        &mut table,
        &[],
        &placement(),
        Some(&script),
        &o,
        false,
        &[],
        &[],
        &absolute,
    );
    assert!(result.resolved.is_some());
    assert_eq!(table.definition_kind(id(0)), DefinitionKind::Regular);
    assert_eq!(table.symbols[1].definition, before, "PROVIDE leaves a defined symbol");
}

#[test]
fn header_indices_stop_at_the_reserved_ones() {
    assert_eq!(header_index(0), Some(1));
    assert_eq!(header_index(0xfefe), Some(0xfeff));
    assert_eq!(header_index(0xfeff), None);
    assert!(is_c_identifier(b"__start_my_set", 8));
    assert!(!is_c_identifier(b"__start_.text", 8));
}

#[test]
fn defsyms_are_parsed_as_assignments() {
    let mut o = options();
    o.defsym = vec![(b"a".to_vec(), b"b + 1".to_vec())];
    let text = |t: &[u8]| Some(t.to_vec());
    assert_eq!(defsym_expr(&o, 0, &text), Some(b"b + 1".to_vec()));
    assert_eq!(defsym_expr(&o, 1, &text), None);
    let whole = |t: &[u8]| Ok::<Vec<u8>, ()>(t.to_vec());
    assert_eq!(defsym_assignment(b"a", b"b + 1", &whole), Ok(b"a=b + 1".to_vec()));
    let bad = |t: &[u8]| Err::<(), usize>(t.len());
    assert_eq!(defsym_assignment(b"a", b"(", &bad), Err(3));
    let reads = Assignment {
        symbols: vec![b"b".to_vec(), b"a".to_vec(), b"b".to_vec(), b"c".to_vec()],
        type_source: None,
    };
    assert_eq!(defsym_references(b"a", Some(&reads)), [b"b".to_vec(), b"c".to_vec()]);
    assert!(defsym_references(b"a", None).is_empty());
}

#[test]
fn defsyms_settle_with_forward_references() {
    let mut refs = Refs {
        files: Vec::new(),
        symbols: SymbolTable {
            symbols: vec![
                symbol("a", DefinitionKind::Regular, 0),
                symbol("b", DefinitionKind::Regular, 0),
            ],
        },
        sections: Sections {
            ids: Vec::new(),
            places: Vec::new(),
            live: Vec::new(),
            present: Vec::new(),
            folded: Vec::new(),
        },
        resolution: Resolution { ids: Vec::new(), live: Vec::new() },
        targets: Vec::new(),
        globals: Vec::new(),
    };
    let layout = Layout {
        sections: Vec::new(),
        section_shndx: Vec::new(),
        section_addr: Vec::new(),
        offsets: Vec::new(),
        plt: Vec::new(),
        iplt: Vec::new(),
        plt_slots: Vec::new(),
        thunks: Vec::new(),
        tls: None,
        relax: Default::default(),
    };
    // a = b + 1, where b = 0x40 comes after it.
    let eval = |i: usize, c: &DefsymContext| {
        if i == 0 {
            c.symbol(b"b").map(|b| ExprValue::absolute(b.value + 1))
        } else {
            Some(ExprValue::absolute(0x40))
        }
    };
    let mut globals = vec![0, 0];
    let defsyms = [(id(0), 0), (id(1), 1)];
    evaluate_defsyms(&mut globals, &mut refs, &layout, None, None, &defsyms, &[true, true], &eval);
    assert_eq!(globals, [0x41, 0x40]);
    assert!(refs.symbols.flags(id(0)).contains(ABSOLUTE));
    assert!(refs.symbols.flags(id(1)).contains(ABSOLUTE));
    // The first pass that repeats the one before is the last.
    let calls = std::cell::Cell::new(0);
    let eval = |i: usize, _: &DefsymContext| {
        calls.set(calls.get() + 1);
        Some(ExprValue::absolute(if i == 0 || calls.get() <= 4 { 0x10 } else { 0x20 }))
    };
    evaluate_defsyms(&mut globals, &mut refs, &layout, None, None, &defsyms, &[true, true], &eval);
    assert_eq!(globals, [0x10, 0x10]);
    assert_eq!(calls.get(), 4);
}
