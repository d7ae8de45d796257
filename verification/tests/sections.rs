use qld::arch::ppc64::Field as PpcField;
use qld::elf::arch::apply::{message, Address, Decision, Facts, Names, Problem};
use qld::elf::arch::{arm, loongarch, ppc64, riscv, Arch, Class, ClassifyContext};
use qld::elf::consts::ppc64::{
    R_PPC64_ADDR64, R_PPC64_TOC16_HA, R_PPC64_TOC16_LO, R_PPC64_TOC16_LO_DS,
};
use qld::elf::consts::riscv::{
    R_RISCV_PCREL_HI20, R_RISCV_PCREL_LO12_I, R_RISCV_SET_ULEB128, R_RISCV_SUB_ULEB128,
};
use qld::elf::consts::{EM_ARM, EM_RISCV, SHF_ALLOC, SHT_PROGBITS, STT_FUNC};
use qld::elf::inputs::{
    ElfInput, InputSection, ObjectInput, RawSymbol, RelocTable, SectionHeader, SectionKind,
};
use qld::elf::layout::Layout;
use qld::elf::refs::{Def, Refs, Sections, Target};
use qld::elf::relocation::Relocation;
use qld::error::Error;
use qld::ids::SectionId;
use qld::symbols::{Resolution, SymbolTable};

fn section(name: &str, sh_type: u32, relocations: RelocTable) -> InputSection {
    InputSection {
        name: name.as_bytes().to_vec(),
        header: SectionHeader { sh_type, sh_flags: SHF_ALLOC, sh_offset: 0, sh_size: 0, sh_link: 0 },
        kind: SectionKind::Regular,
        relocs: 1,
        relocations,
        contents: None,
    }
}

/// One object, whose symbols stand for `targets`.
fn refs(machine: u16, sections: Vec<InputSection>, targets: Vec<Target>) -> Refs {
    Refs {
        files: vec![ElfInput {
            name: "a.o".into(),
            position: 0,
            object: Some(ObjectInput {
                machine,
                e_flags: 0,
                sections,
                symbols: Vec::new(),
                first_global: 0,
                uses: Vec::new(),
            }),
            shared: None,
            internal_uses: Vec::new(),
        }],
        symbols: SymbolTable { symbols: Vec::new() },
        sections: Sections {
            ids: Vec::new(),
            places: Vec::new(),
            live: Vec::new(),
            present: Vec::new(),
            folded: Vec::new(),
        },
        resolution: Resolution { ids: Vec::new(), live: Vec::new() },
        targets: vec![targets.into_iter().map(Some).collect()],
        globals: Vec::new(),
    }
}

fn layout() -> Layout {
    Layout {
        sections: Vec::new(),
        section_shndx: Vec::new(),
        section_addr: Vec::new(),
        offsets: Vec::new(),
        plt: Vec::new(),
        iplt: Vec::new(),
        plt_slots: Vec::new(),
        thunks: Vec::new(),
        tls: None,
        relax: Default::default(),
    }
}

fn target(def: Def) -> Target {
    Target { def, ..Target::nothing() }
}

fn facts(class: Class, value: u64, addend: i64) -> Facts {
    Facts {
        decision: Some(Decision { class, symbolic: false, problem: false }),
        prohibited: false,
        dead: None,
        address: Some(Address { value, addend }),
        iplt: None,
        plt: None,
        slot: None,
        tp_slot: None,
    }
}

fn rel(offset: u64, symbol: u32, r_type: u32, addend: i64) -> Relocation {
    Relocation { offset, symbol, r_type, addend }
}

fn words(list: &[u32]) -> Vec<u8> {
    list.iter().flat_map(|w| w.to_le_bytes()).collect()
}

/// Relocates RISC-V code at 0x1000.
fn write_riscv(
    data: &[u8],
    relocs: Vec<Relocation>,
    facts: &[Facts],
    targets: Vec<Target>,
) -> (Vec<u8>, Vec<Problem>) {
    let refs = refs(EM_RISCV, Vec::new(), targets);
    let layout = layout();
    let text = section(".text", SHT_PROGBITS, RelocTable::Rela(relocs));
    let mut out = vec![0u8; data.len()];
    let written = riscv::apply::write_section(
        &riscv::apply::WriteInput {
            refs: &refs,
            layout: &layout,
            attributes: None,
            executable: true,
            gp: 0,
            discarded: None,
        },
        riscv::apply::SectionWrite {
            id: SectionId::new(0),
            file: 0,
            index: 1,
            section: &text,
            data,
            base: 0x1000,
        },
        facts,
        &mut out,
    );
    match written {
        Ok(riscv::apply::Written::Relocated { reports, .. }) => {
            (out, reports.iter().map(|r| r.problem).collect())
        }
        _ => panic!("not relocated"),
    }
}

#[test]
fn riscv_low_parts_follow_their_label() {
    let context = ClassifyContext::static_exec(true);
    let hi = riscv::classify(R_RISCV_PCREL_HI20, context).unwrap();
    let lo = riscv::classify(R_RISCV_PCREL_LO12_I, context).unwrap();
    // auipc a0, %pcrel_hi(x); addi a0, a0, %pcrel_lo(1b)
    let code = words(&[0x0000_0517, 0x0005_0513]);
    let x = target(Def::Absolute(0x2_1804));
    let label = target(Def::Section { file: 0, section: 1, value: 0 });
    let low = rel(4, 1, R_RISCV_PCREL_LO12_I, 0);
    let (out, problems) = write_riscv(
        &code,
        vec![rel(0, 0, R_RISCV_PCREL_HI20, 0), low],
        &[facts(hi, 0x2_1804, 0), facts(lo, 0x1000, 0)],
        vec![x, label],
    );
    assert!(problems.is_empty());
    assert_eq!(out, words(&[0x0002_1517, 0x8045_0513]));
    // Without the `auipc` there is nothing to complete.
    let (out, problems) =
        write_riscv(&code, vec![low], &[facts(lo, 0x1000, 0)], vec![x, label]);
    assert_eq!(problems, [Problem::NoHigh]);
    assert_eq!(out, code);
}

#[test]
fn riscv_label_differences_come_in_pairs() {
    let context = ClassifyContext::static_exec(true);
    let set = riscv::classify(R_RISCV_SET_ULEB128, context).unwrap();
    let sub = riscv::classify(R_RISCV_SUB_ULEB128, context).unwrap();
    let targets = || vec![target(Def::Absolute(0x30c)), target(Def::Absolute(0x10))];
    let first = rel(0, 0, R_RISCV_SET_ULEB128, 0);
    let second = rel(0, 1, R_RISCV_SUB_ULEB128, 0);
    let (out, problems) = write_riscv(
        &[0x80, 0x00],
        vec![first, second],
        &[facts(set, 0x30c, 0), facts(sub, 0x10, 0)],
        targets(),
    );
    assert!(problems.is_empty());
    assert_eq!(out, [0xfc, 0x05]);
    let (_, problems) =
        write_riscv(&[0x80, 0x00], vec![first], &[facts(set, 0x30c, 0)], targets());
    assert_eq!(problems, [Problem::SetUnpaired]);
    let (_, problems) =
        write_riscv(&[0x80, 0x00], vec![second], &[facts(sub, 0x10, 0)], targets());
    assert_eq!(problems, [Problem::SubUnpaired]);
    // One byte holds no more than 127.
    let (_, problems) = write_riscv(
        &[0x00],
        vec![first, second],
        &[facts(set, 0x30c, 0), facts(sub, 0x10, 0)],
        targets(),
    );
    assert_eq!(problems, [Problem::UlebSpace(0x2fc)]);
}

/// Relocates the A32 instruction `insn` at 0x8000 against `to`, and the
/// Thumb one when `r_type` is of a Thumb branch.
fn write_arm(insn: &[u8], r_type: u32, to: Target, value: u64) -> Result<Vec<u8>, Error> {
    let refs = refs(EM_ARM, Vec::new(), vec![to]);
    let layout = layout();
    let text = section(".text", SHT_PROGBITS, RelocTable::Rel(vec![rel(0, 0, r_type, 0)]));
    let mut out = vec![0u8; insn.len()];
    let addend = arm::implicit_addend(r_type, insn, 0);
    let class = arm::classify(r_type, ClassifyContext::static_exec(true)).unwrap();
    let entries = Vec::new();
    let written = arm::apply::write_section(
        &arm::apply::WriteInput {
            refs: &refs,
            layout: &layout,
            prepared: None,
            pic: false,
            got_base: 0,
            discarded: None,
            entries: &entries,
        },
        arm::apply::SectionWrite {
            id: SectionId::new(0),
            file: 0,
            index: 1,
            section: &text,
            data: insn,
            base: 0x8000,
        },
        &[facts(class, value, addend)],
        &mut out,
    )?;
    assert!(matches!(
        written,
        arm::apply::Written::Relocated { reports, .. } if reports.is_empty()
    ));
    Ok(out)
}

#[test]
fn arm_calls_change_state() {
    let bl = words(&[0xebff_fffe]);
    let mut function = target(Def::Absolute(0x8101));
    function.raw = Some(RawSymbol { st_info: STT_FUNC, ..RawSymbol::null() });
    // To Thumb code: a `blx`.
    let out = write_arm(&bl, arm::R_ARM_CALL, function, 0x8101).unwrap();
    assert_eq!(out, words(&[0xfa00_003e]));
    // To A32 code: the `bl` it was.
    let out = write_arm(&bl, arm::R_ARM_CALL, function, 0x8100).unwrap();
    assert_eq!(out, words(&[0xeb00_003e]));
}

#[test]
fn arm_branches_to_nowhere_become_nops() {
    let weak = target(Def::Undefined { weak: true });
    // bl, whose addend is -8, and bleq.
    let out = write_arm(&words(&[0xebff_fffe]), arm::R_ARM_CALL, weak, 0).unwrap();
    assert_eq!(out, words(&[0xe320_f000]));
    let out = write_arm(&words(&[0x0bff_fffe]), arm::R_ARM_JUMP24, weak, 0).unwrap();
    assert_eq!(out, words(&[0x0320_f000]));
    // Thumb bl: nop.w.
    let bl = [0xff, 0xf7, 0xfe, 0xff];
    let out = write_arm(&bl, arm::R_ARM_THM_CALL, weak, 0).unwrap();
    assert_eq!(out, [0xaf, 0xf3, 0x00, 0x80]);
}

#[test]
fn arm_sections_are_replaced() {
    assert!(arm::apply::is_replaced(arm::SHT_ARM_EXIDX));
    assert!(arm::apply::is_replaced(arm::SHT_ARM_ATTRIBUTES));
    assert!(!arm::apply::is_replaced(SHT_PROGBITS));
    let size = |prepared: Option<&arm::Prepared>, id: usize, sh_type: u32| {
        arm::apply::member_size(prepared, SectionId::new(id), sh_type, 40, 4)
    };
    assert_eq!(size(None, 3, arm::SHT_ARM_EXIDX), (40, 4));
    let prepared = arm::Prepared {
        attributes: Some(arm::attributes::Output {
            first: SectionId::new(3),
            bytes: vec![b'A'; 17],
            problems: Vec::new(),
            errors: Vec::new(),
            hard_float: false,
        }),
        exidx: Some(arm::exidx::Table {
            first: SectionId::new(5),
            pieces: Vec::new(),
            sentinel: SectionId::new(1),
            size: 24,
        }),
    };
    assert_eq!(size(Some(&prepared), 3, arm::SHT_ARM_ATTRIBUTES), (17, 1));
    assert_eq!(size(Some(&prepared), 4, arm::SHT_ARM_ATTRIBUTES), (0, 1));
    assert_eq!(size(Some(&prepared), 5, arm::SHT_ARM_EXIDX), (24, 4));
    assert_eq!(size(Some(&prepared), 6, arm::SHT_ARM_EXIDX), (0, 4));
    assert_eq!(size(Some(&prepared), 5, SHT_PROGBITS), (40, 4));
}

#[test]
fn toc_loads_become_additions() {
    let toc = section(
        ".toc",
        SHT_PROGBITS,
        RelocTable::Rela(vec![rel(0, 2, R_PPC64_ADDR64, 0), rel(8, 3, R_PPC64_ADDR64, 4)]),
    );
    let null = section("", 0, RelocTable::Missing);
    let mut entry = target(Def::Section { file: 0, section: 1, value: 0 });
    entry.section_symbol = true;
    let variable = target(Def::Section { file: 0, section: 0, value: 0x20 });
    let outside = target(Def::Shared(0));
    let refs = refs(
        21,
        vec![null, toc],
        vec![Target::nothing(), entry, outside, variable],
    );
    let addresses = [None, Some(Address { value: 0x2_0000, addend: 4 })];
    let read = |rel: Relocation, pinned: &[(u32, u64)]| {
        ppc64::toc_indirection(&refs, 0, rel, pinned, true, &addresses, 0x1_8000)
    };
    let high = rel(0, 1, R_PPC64_TOC16_HA, 8);
    let low = rel(4, 1, R_PPC64_TOC16_LO_DS, 8);
    assert_eq!(read(high, &[]), Some((0x2_0004, PpcField::HaToc)));
    assert_eq!(read(low, &[]), Some((0x2_0004, PpcField::LoDsToAddi)));
    // The symbol of the first entry is in a library.
    assert_eq!(read(rel(0, 1, R_PPC64_TOC16_HA, 0), &[]), None);
    // An `addi` takes the address of the second.
    let pinned = ppc64::pinned_toc_entries(
        &refs,
        0,
        &RelocTable::Rela(vec![
            high,
            rel(8, 1, R_PPC64_TOC16_LO, 8),
            rel(12, 1, R_PPC64_TOC16_LO, 8),
        ]),
    );
    assert_eq!(pinned, [(1, 8)]);
    assert_eq!(read(high, &pinned), None);
}

#[test]
fn loongarch_branches_to_nowhere_stay_where_they_are() {
    // bl 8
    let mut out = words(&[0x5400_0800]);
    assert_eq!(loongarch::undefined_weak_branch(&mut out, 0, loongarch::R_LARCH_B26), Ok(true));
    assert_eq!(out, words(&[0x5400_0000]));
    let before = words(&[0x1e00_0001, 0x4c00_0021]);
    let mut pair = before.clone();
    assert_eq!(
        loongarch::undefined_weak_branch(&mut pair, 0, loongarch::R_LARCH_CALL36),
        Ok(false)
    );
    assert_eq!(pair, before);
}

#[test]
fn problems_are_spelled_out() {
    let names = Names {
        symbol: "x".into(),
        reference: "y".into(),
        from: ".a".into(),
        to: ".b".into(),
    };
    let text = |problem| message(Arch::RiscV64, R_RISCV_PCREL_LO12_I, problem, &names);
    assert_eq!(
        text(Problem::CrossReference),
        "prohibited cross reference from .a to `y' in .b"
    );
    assert_eq!(
        text(Problem::Discarded),
        "relocation refers to a symbol in a discarded section: x"
    );
    assert_eq!(
        text(Problem::UlebSpace(764)),
        "ULEB128 value 764 exceeds available space; references 'x'"
    );
}
