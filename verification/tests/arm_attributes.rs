use qld::elf::arch::arm::attributes::{
    collect, encode, hard_float, int_value, merge_into, parse, ABI_ENUM_SIZE, ABI_FP_NUMBER_MODEL,
    ABI_VFP_ARGS, CONFORMANCE, CPU_ARCH, CPU_NAME, CPU_RAW_NAME, Output,
};
use qld::elf::arch::arm::SHT_ARM_ATTRIBUTES;
use qld::elf::arch::build_attributes::{Attributes, Value};
use qld::elf::consts::EM_ARM;
use qld::elf::inputs::{
    ElfInput, InputSection, ObjectInput, RelocTable, SectionHeader, SectionKind,
};
use qld::elf::refs::{Refs, Sections};
use qld::ids::SectionId;
use qld::symbols::{Resolution, SymbolTable};

/// A section holding `attrs` (tag, value) pairs as integers.
fn section(attrs: &[(u64, u64)]) -> Vec<u8> {
    let list: Attributes = attrs.iter().map(|&(t, v)| (t, Value::Int(v))).collect();
    encode(&list)
}

#[test]
fn parses_what_it_encodes() {
    let data = section(&[(CPU_ARCH, 10), (ABI_VFP_ARGS, 1), (34, 1)]);
    assert_eq!(data.first(), Some(&b'A'));
    let attrs = parse(&data).unwrap();
    assert_eq!(int_value(&attrs, CPU_ARCH), 10);
    assert_eq!(int_value(&attrs, ABI_VFP_ARGS), 1);
    assert_eq!(
        parse(b"X").unwrap_err(),
        "unknown attributes format version"
    );
    assert!(parse(&[]).unwrap().is_empty());
    assert!(parse(b"A\x04\0\0\0").is_err());
}

#[test]
fn keeps_strings_and_the_conformance_tag_first() {
    let attrs: Attributes = vec![
        (CPU_ARCH, Value::Int(10)),
        (CONFORMANCE, Value::Text(b"2.09".to_vec())),
        (CPU_NAME, Value::Text(b"Cortex-A9".to_vec())),
    ];
    let data = encode(&attrs);
    // 'A', the subsection length, "aeabi\0", `Tag_File` and its size.
    assert_eq!(data.get(16), Some(&(CONFORMANCE as u8)));
    let back = parse(&data).unwrap();
    assert_eq!(back.first().map(|(tag, _)| *tag), Some(CONFORMANCE));
    assert_eq!(back.len(), 3);
}

fn merge(a: &[(u64, u64)], b: &[(u64, u64)]) -> (Attributes, Output) {
    let mut out = parse(&section(a)).unwrap();
    let mut result = Output::default();
    let second = parse(&section(b)).unwrap();
    merge_into(&mut out, &second, "b.o", &mut result);
    (out, result)
}

#[test]
fn takes_the_highest_architecture() {
    let (merged, result) = merge(
        &[(CPU_ARCH, 8), (8, 1), (9, 2)],
        &[(CPU_ARCH, 10), (8, 1), (9, 2), (10, 3)],
    );
    assert_eq!(int_value(&merged, CPU_ARCH), 10);
    assert_eq!(int_value(&merged, 10), 3);
    assert!(result.problems.is_empty() && result.errors.is_empty());
}

#[test]
fn reports_a_float_abi_mismatch() {
    let hard = [(ABI_FP_NUMBER_MODEL, 3), (ABI_VFP_ARGS, 1)];
    let soft = [(ABI_FP_NUMBER_MODEL, 3), (ABI_VFP_ARGS, 0)];
    let (_, result) = merge(&hard, &soft);
    assert_eq!(result.errors.len(), 1);
    assert!(result.errors[0].contains("VFP register arguments"));
    // An object that uses no floating point merges with either.
    let (merged, result) = merge(&hard, &[(ABI_VFP_ARGS, 0)]);
    assert!(result.errors.is_empty());
    assert_eq!(int_value(&merged, ABI_VFP_ARGS), 1);
    let (merged, result) = merge(&[(ABI_VFP_ARGS, 0)], &hard);
    assert!(result.errors.is_empty());
    assert_eq!(int_value(&merged, ABI_VFP_ARGS), 1);
}

#[test]
fn warns_about_abi_mismatches() {
    let (merged, result) = merge(&[(18, 4)], &[(18, 2)]);
    assert_eq!(int_value(&merged, 18), 4);
    assert_eq!(result.problems.len(), 1);
    // "Any size" enums merge with both.
    let (merged, result) = merge(&[(ABI_ENUM_SIZE, 3)], &[(ABI_ENUM_SIZE, 1)]);
    assert_eq!(int_value(&merged, ABI_ENUM_SIZE), 1);
    assert!(result.problems.is_empty());
}

#[test]
fn names_the_cpu_of_the_highest_architecture() {
    let object = |arch: u64, name: &[u8]| -> Attributes {
        vec![(CPU_ARCH, Value::Int(arch)), (CPU_NAME, Value::Text(name.to_vec()))]
    };
    let merged = |a: Attributes, b: Attributes| -> Attributes {
        let mut out = a;
        merge_into(&mut out, &b, "b.o", &mut Output::default());
        out
    };
    let named = |attrs: &Attributes, name: &[u8]| {
        attrs.contains(&(CPU_NAME, Value::Text(name.to_vec())))
    };
    let out = merged(object(8, b"ARM1176"), object(10, b"Cortex-A9"));
    assert!(named(&out, b"Cortex-A9") && int_value(&out, CPU_ARCH) == 10);
    let out = merged(object(10, b"Cortex-A9"), object(8, b"ARM1176"));
    assert!(named(&out, b"Cortex-A9") && int_value(&out, CPU_ARCH) == 10);
    // The first of two that are as high.
    let out = merged(object(10, b"Cortex-A9"), object(10, b"Cortex-A7"));
    assert!(named(&out, b"Cortex-A9") && !named(&out, b"Cortex-A7"));
}

#[test]
fn names_no_cpu_of_a_lower_architecture() {
    let high: Attributes = vec![(CPU_ARCH, Value::Int(10))];
    let low: Attributes = vec![
        (CPU_RAW_NAME, Value::Text(b"arm7".to_vec())),
        (CPU_NAME, Value::Text(b"ARM7".to_vec())),
        (CPU_ARCH, Value::Int(2)),
    ];
    let merged = |a: &Attributes, b: &Attributes| -> Attributes {
        let mut out = a.clone();
        merge_into(&mut out, b, "b.o", &mut Output::default());
        out
    };
    // Neither order takes the names of the lower one.
    assert_eq!(merged(&high, &low), high);
    assert_eq!(merged(&low, &high), high);
    // At a tie a name comes from the one that has it.
    let named: Attributes = vec![(CPU_ARCH, Value::Int(10)), (CPU_NAME, Value::Text(b"A9".to_vec()))];
    assert_eq!(merged(&high, &named), named);
    assert_eq!(merged(&named, &high), named);
}

/// A link of objects with these attributes sections.
fn link(contents: Vec<Option<Vec<u8>>>) -> Refs {
    let count = contents.len();
    let files = contents
        .into_iter()
        .map(|contents| ElfInput {
            name: "a.o".into(),
            position: 0,
            object: Some(ObjectInput {
                machine: EM_ARM,
                e_flags: 0,
                sections: vec![InputSection {
                    name: b".ARM.attributes".to_vec(),
                    header: SectionHeader {
                        sh_type: SHT_ARM_ATTRIBUTES,
                        sh_flags: 0,
                        sh_offset: 0,
                        sh_size: 0,
                        sh_link: 0,
                    },
                    kind: SectionKind::Regular,
                    relocs: 0,
                    relocations: RelocTable::Missing,
                    contents,
                }],
                symbols: Vec::new(),
                first_global: 0,
                uses: Vec::new(),
            }),
            shared: None,
            internal_uses: Vec::new(),
        })
        .collect();
    Refs {
        files,
        symbols: SymbolTable { symbols: Vec::new() },
        sections: Sections {
            ids: (0..count).map(|i| vec![Some(SectionId::new(i))]).collect(),
            places: (0..count).map(|i| (i, 0)).collect(),
            live: vec![true; count],
            present: vec![true; count],
            folded: Vec::new(),
        },
        resolution: Resolution { ids: Vec::new(), live: Vec::new() },
        targets: Vec::new(),
        globals: Vec::new(),
    }
}

#[test]
fn the_merged_attributes_choose_the_float_abi() {
    let hard = section(&[(ABI_FP_NUMBER_MODEL, 3), (ABI_VFP_ARGS, 1)]);
    let soft = section(&[(ABI_FP_NUMBER_MODEL, 3), (ABI_VFP_ARGS, 0)]);
    // It uses no floating point, whatever it says of arguments.
    let none = section(&[(ABI_VFP_ARGS, 1)]);
    let links: [(Vec<&Vec<u8>>, bool); 6] = [
        (vec![], false),
        (vec![&hard], true),
        (vec![&soft, &none], false),
        (vec![&none, &soft], false),
        (vec![&hard, &none], true),
        (vec![&none, &hard], true),
    ];
    for (sections, expected) in links {
        let refs = link(sections.into_iter().map(|s| Some(s.clone())).collect());
        assert_eq!(hard_float(&refs.files), expected);
        assert_eq!(collect(&refs).is_some_and(|o| o.hard_float), expected);
    }
    // What cannot be read says nothing.
    let refs = link(vec![None, Some(b"X".to_vec()), Some(hard)]);
    assert!(hard_float(&refs.files));
}

#[test]
fn sections_are_collected_in_input_order() {
    let refs = link(vec![
        Some(b"X".to_vec()),
        Some(section(&[(CPU_ARCH, 8), (18, 4)])),
        Some(section(&[(CPU_ARCH, 10), (18, 2)])),
    ]);
    let output = collect(&refs).unwrap();
    assert_eq!(output.first, SectionId::new(1));
    assert_eq!(output.bytes, section(&[(CPU_ARCH, 10), (18, 4)]));
    assert_eq!(
        output.problems,
        [
            "a.o: unknown attributes format version in .ARM.attributes",
            "a.o: attribute 18 is 2, the output has 4"
        ]
    );
    assert!(output.errors.is_empty() && !output.hard_float);
    assert!(collect(&link(vec![Some(b"X".to_vec())])).is_none());
}
