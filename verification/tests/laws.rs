use qld::arch::arm::{mov_imm, thumb_mov_imm, with_mov_imm, with_thumb_mov_imm};
use qld::arch::arm::{write_thunk as write_arm_thunk, Field as ArmField, ThunkKind};
use qld::arch::{aarch64, ppc64, riscv};
use qld::bytes::get_u32;
use qld::elf::arch::riscv::relax::decide;
use qld::elf::arch::shrink::{copy, Edit, Pass, Relaxation, Rewrite, SectionInput, SectionRelax};
use qld::elf::arch::{
    aarch64 as aarch64_relocs, i386, loongarch, ppc64 as ppc64_relocs, s390x, x86_64, Arch, Class,
    write_value, ApplyError, ClassifyContext, ClassifyError, GotKind, Kind, TlsMode, Width,
};
use qld::elf::consts::aarch64::{R_AARCH64_TLSDESC_CALL, R_AARCH64_TLSGD_ADR_PAGE21};
use qld::elf::consts::i386::{R_386_TLS_GD, R_386_TLS_IE};
use qld::elf::consts::ppc64::{R_PPC64_GOT_TPREL16_HA, R_PPC64_TLSGD};
use qld::elf::consts::riscv::R_RISCV_ALIGN;
use qld::elf::consts::x86_64::{
    R_X86_64_GOTPC32_TLSDESC, R_X86_64_GOTPCRELX, R_X86_64_GOTTPOFF, R_X86_64_TLSGD,
    R_X86_64_TLSLD,
};
use qld::elf::layout::Layout;
use qld::elf::refs::{Refs, Sections};
use qld::elf::relocation::Relocation;
use qld::ids::SectionId;
use qld::symbols::{Resolution, SymbolTable};

#[test]
fn arm_values_read_back() {
    let cases = [
        (ArmField::Prel31, 0x8000_0000, -0x4000_0000),
        (ArmField::Branch24, 0xea00_0000, 0x1ff_fffc),
        (ArmField::Branch24, 0xfa00_0000, -0x1ff_fffe),
        (ArmField::ThumbBranch24, 0xf000_9000, -0x100_0000),
        (ArmField::ThumbBranch19, 0xf000_8000, 0x0f_fffe),
        (ArmField::ThumbBranch11, 0xe000, -0x800),
        (ArmField::ThumbBranch8, 0xd000, 0xfe),
        (ArmField::Movw, 0xe300_0000, -0x8000),
        (ArmField::ThumbMovw, 0xf240_0000, 0x7fff),
        (ArmField::ThumbAdr, 0xf20f_0000, -0xfff),
        (ArmField::ThumbLdrLiteral, 0xf85f_0000, 0xabc),
        (ArmField::LdrLiteral, 0xe51f_0000, -1),
        (ArmField::AluPc { checked: true }, 0xe28f_0000, -0xff00_0000),
        (ArmField::AluPc { checked: true }, 0xe28f_0000, 0x3fc),
    ];
    for (field, insn, value) in cases {
        let word = field.encode(insn, value).unwrap();
        assert_eq!(field.decode(word), value, "{field:?}");
    }
    assert!(ArmField::AluPc { checked: true }.encode(0xe28f_0000, 0x1_0001).is_err());
}

#[test]
fn arm_thunks_load_their_destination() {
    assert_eq!(mov_imm(with_mov_imm(0xe300_c000, 0xbeef)), 0xbeef);
    assert_eq!(thumb_mov_imm(with_thumb_mov_imm(0xf240_0c00, 0xbeef)), 0xbeef);
    let mut out = vec![0u8; 16];
    let kind = ThunkKind { thumb: false, pic: true };
    assert!(write_arm_thunk(&mut out, 0, 0x1_0000, 0x8_1234_5678, kind));
    let low = mov_imm(get_u32(&out, 0).unwrap());
    let high = mov_imm(get_u32(&out, 4).unwrap());
    assert_eq!((high << 16 | low).wrapping_add(0x1_0010), 0x1234_5678);
}

#[test]
fn aarch64_thunks_lead_to_their_target() {
    for (address, target) in [
        (0x40_0000u64, 0xffff_fff0u64),
        (0x1_0000_0abc, 0x10),
        (0xffff_ffff_ffff_f000, 0x7123),
    ] {
        let mut out = vec![0u8; 12];
        aarch64::write_thunk(&mut out, 0, address, target).unwrap();
        let adrp = get_u32(&out, 0).unwrap();
        let add = get_u32(&out, 4).unwrap();
        let pages = (adrp >> 29) & 3 | ((adrp >> 5) & 0x7_ffff) << 2;
        let distance = i64::from((pages << 11) as i32 >> 11) << 12;
        let page = (address & !0xfff).wrapping_add(distance as u64);
        assert_eq!(page.wrapping_add(u64::from((add >> 10) & 0xfff)), target);
    }
    assert!(aarch64::write_thunk(&mut vec![0u8; 12], 0, 0, 0x1_0000_0000).is_err());
}

#[test]
fn ppc64_thunks_lead_to_their_destination() {
    for (address, key) in [(0x1000_0000u64, 0x1700_8000u64), (0x2000_0000, 0x1000_7ff0)] {
        let words = ppc64::thunk(address, key).unwrap();
        let sum = i64::from(words[4] as u16 as i16) * 0x1_0000 + i64::from(words[5] as u16 as i16);
        assert_eq!(address.wrapping_add(12).wrapping_add(sum as u64), key & !3);
    }
    let v = -0x1234_8001i64;
    assert_eq!(
        i64::from(ppc64::ha(v) as i16) * 0x1_0000 + i64::from(ppc64::lo(v) as i16),
        v
    );
    assert!(ppc64::thunk(0, 0x8000_0000).is_err());
}

#[test]
fn riscv_parts_make_the_number() {
    for v in [0u64, 0x7ff, 0x800, 0x7fff_f7ff, 0xffff_ffff_8000_0000, 0xffff_ffff_ffff_f800] {
        assert!(riscv::check_hi(v));
        let high = i64::from((riscv::hi20(v) << 12) as i32);
        let low = i64::from((riscv::lo12(v) << 20) as i32 >> 20);
        assert_eq!(high + low, v as i64, "{v:#x}");
    }
    assert!(!riscv::check_hi(0x7fff_f800));
}

fn shared() -> ClassifyContext {
    ClassifyContext {
        relax_got: true,
        pic: true,
        tls: TlsMode::Dynamic,
        tls_ld: TlsMode::Dynamic,
        code: true,
    }
}

/// Whether a class keeps the TLS model.
fn keeps_model(class: Result<Class, ClassifyError>) -> bool {
    !matches!(
        class.unwrap().kind,
        Kind::GdToLe
            | Kind::LdToLe
            | Kind::IeToLe
            | Kind::DescToLe
            | Kind::DescCallToLe
            | Kind::GdToIe
            | Kind::DescToIe
    )
}

#[test]
fn shared_objects_keep_their_tls_models() {
    let data = [0u8; 32];
    for r_type in [
        R_X86_64_TLSGD,
        R_X86_64_TLSLD,
        R_X86_64_GOTTPOFF,
        R_X86_64_GOTPC32_TLSDESC,
    ] {
        assert!(keeps_model(x86_64::classify(r_type, -4, &data, 8, shared())));
        assert!(keeps_model(x86_64::classify_x32(r_type, -4, &data, 8, shared())));
    }
    for r_type in [R_AARCH64_TLSGD_ADR_PAGE21, R_AARCH64_TLSDESC_CALL] {
        assert!(keeps_model(aarch64_relocs::classify(r_type, shared())));
        let local = ClassifyContext { tls: TlsMode::LocalExec, ..shared() };
        assert!(!keeps_model(aarch64_relocs::classify(r_type, local)));
    }
    for r_type in [R_386_TLS_GD, R_386_TLS_IE] {
        assert!(keeps_model(i386::classify(r_type, &data, 8, shared())));
    }
    for r_type in [R_PPC64_TLSGD, R_PPC64_GOT_TPREL16_HA] {
        assert!(keeps_model(ppc64_relocs::classify(r_type, &data, 8, shared())));
    }
    for r_type in [s390x::R_390_TLS_GD64, s390x::R_390_TLS_LDM64] {
        assert!(keeps_model(s390x::classify(r_type, &data, 8, shared())));
    }
    for r_type in [loongarch::R_LARCH_TLS_IE_PC_HI20, loongarch::R_LARCH_TLS_DESC_PC_HI20] {
        assert!(keeps_model(loongarch::classify(r_type, 0, &data, 8, shared())));
    }
}

#[test]
fn executables_reach_their_variables_directly() {
    let local = ClassifyContext {
        relax_got: false,
        pic: false,
        tls: TlsMode::LocalExec,
        tls_ld: TlsMode::LocalExec,
        code: true,
    };
    let data = [0u8; 32];
    let ie = x86_64::classify(R_X86_64_GOTTPOFF, -4, &data, 8, local).unwrap();
    assert_eq!(ie.kind, Kind::IeToLe);
    assert!(!ie.needs_got());
    // A load that may not be rewritten stays, through its own entry.
    let code = [0x48, 0x8b, 0x05, 0, 0, 0, 0, 0];
    let load = x86_64::classify(R_X86_64_GOTPCRELX, -4, &code, 3, local).unwrap();
    assert_eq!((load.kind, load.slot), (Kind::Got, GotKind::Address));
    let relaxed = ClassifyContext { relax_got: true, ..local };
    let load = x86_64::classify(R_X86_64_GOTPCRELX, -4, &code, 3, relaxed).unwrap();
    assert_eq!(load.kind, Kind::RelaxGotPc);
}

#[test]
fn loongarch_halves_agree() {
    let hint = loongarch::RELAX_HINT;
    // pcalau12i $a0, 0; addi.d $a0, $a0, 0
    let pair: Vec<u8> = [0x1a00_0004u32, 0x02c0_0084].iter().flat_map(|w| w.to_le_bytes()).collect();
    let place = 0x1_2000_0000u64;
    let relaxed = |target: u64| {
        let mut out = pair.clone();
        loongarch::relax(&mut out, 0, loongarch::R_LARCH_PCALA_HI20 | hint, target, place).unwrap();
        loongarch::relax(&mut out, 4, loongarch::R_LARCH_PCALA_LO12 | hint, target, place + 4)
            .unwrap();
        (get_u32(&out, 0).unwrap(), get_u32(&out, 4).unwrap())
    };
    // nop; pcaddi $a0, (0x100 - 4) / 4
    assert_eq!(relaxed(place + 0x100), (0x0340_0000, 0x1800_0004 | 0x3f << 5));
    let (first, second) = relaxed(place + 0x100_0000);
    assert_eq!((first & 0xfe00_001f, second & 0xffc0_03ff), (0x1a00_0004, 0x02c0_0084));
}

#[test]
fn copies_follow_the_map() {
    let data: Vec<u8> = (0..40u8).collect();
    let edit = |seq: u32, offset: u64, remove: u32, delta: u64, rewrite: Rewrite| Edit {
        seq,
        index: seq,
        offset,
        remove,
        delta,
        rewrite,
    };
    let word = Rewrite::Replace { word: 0x0403_0201, len: 4, r_type: 0 };
    let section = SectionRelax {
        id: SectionId::new(0),
        sorted: true,
        edits: vec![
            edit(0, 4, 4, 4, word),
            edit(1, 12, 0, 4, Rewrite::Retype(0x100)),
            edit(2, 20, 6, 10, Rewrite::Align { addend: 8 }),
            edit(3, 32, 4, 14, Rewrite::Delete),
        ],
    };
    let mut out = vec![0xaau8; 26];
    copy(&data, &section, &mut out, |p: &mut [u8]| p.fill(0xee));
    for p in (0..4).chain(12..20).chain(28..32).chain(36..40u64) {
        assert_eq!(out[section.map(p) as usize], data[p as usize], "{p}");
    }
    assert_eq!(section.removed(), 14);
    // What an edit writes stands where the edit maps to.
    assert_eq!((section.map(4), section.map(20)), (4, 16));
    assert_eq!(&out[4..8], &0x0403_0201u32.to_le_bytes());
    assert_eq!(&out[16..18], &[0xee; 2]);
}

#[test]
fn paddings_decide_the_copy() {
    let data: Vec<u8> = (0..16u8).collect();
    let edit = |seq: u32, offset: u64, delta: u64| Edit {
        seq,
        index: seq,
        offset,
        remove: 2,
        delta,
        rewrite: Rewrite::Align { addend: 4 },
    };
    let section = SectionRelax {
        id: SectionId::new(0),
        sorted: true,
        edits: vec![edit(0, 0, 2), edit(1, 8, 4)],
    };
    // Only paddings of two bytes are refilled.
    let mut a = vec![0xaau8; 12];
    let mut b = a.clone();
    copy(&data, &section, &mut a, |p: &mut [u8]| p.fill(0xee));
    copy(&data, &section, &mut b, |p: &mut [u8]| {
        let byte = if p.len() == 2 { 0xee } else { 0x11 };
        p.fill(byte);
    });
    assert_eq!(a, [0xee, 0xee, 4, 5, 6, 7, 0xee, 0xee, 12, 13, 14, 15]);
    assert_eq!(a, b);
}

fn nothing() -> (Refs, Layout) {
    let refs = Refs {
        files: Vec::new(),
        symbols: SymbolTable { symbols: Vec::new() },
        sections: Sections {
            ids: Vec::new(),
            places: Vec::new(),
            live: Vec::new(),
            present: Vec::new(),
            folded: Vec::new(),
        },
        resolution: Resolution { ids: Vec::new(), live: Vec::new() },
        targets: Vec::new(),
        globals: Vec::new(),
    };
    let layout = Layout {
        sections: Vec::new(),
        section_shndx: Vec::new(),
        section_addr: Vec::new(),
        offsets: Vec::new(),
        plt: Vec::new(),
        iplt: Vec::new(),
        plt_slots: Vec::new(),
        thunks: Vec::new(),
        tls: None,
        relax: Default::default(),
    };
    (refs, layout)
}

#[test]
fn trimmed_padding_aligns_what_follows() {
    let (refs, layout) = nothing();
    let previous = Relaxation::default();
    let pass = Pass {
        refs: &refs,
        layout: &layout,
        arch: Arch::RiscV64,
        relax: false,
        tp: None,
        gp: None,
        previous: &previous,
        pass: 0,
    };
    let data = [0u8; 64];
    let section = |addend: i64| SectionInput {
        id: SectionId::new(0),
        file: 0,
        name: "a.o",
        e_flags: 0,
        sh_offset: 0,
        data: &data,
        relocs: vec![Relocation { offset: 4, symbol: 0, r_type: R_RISCV_ALIGN, addend }],
        order: None,
    };
    for address in [0x1000u64, 0x1004, 0x1008, 0x100a] {
        // Fourteen bytes of padding are for an alignment of sixteen.
        let edits = decide(&pass, &section(14), address).unwrap().edits;
        let removed = edits.first().map_or(0, |e| u64::from(e.remove));
        assert_eq!((address + 4 + 14 - removed) % 16, 0, "{address:#x}");
        assert!(removed <= 14);
    }
    // Padding that does not reach the alignment is malformed.
    assert!(decide(&pass, &section(12), 0xffd).is_err());
}

#[test]
fn values_stay_in_their_field() {
    let start = [0xaau8; 16];
    // Each width with a value, and where the field ends.
    let uleb = Width::RiscV(riscv::Field::SetUleb128);
    let fields = [
        (Width::W64, 0x0807_0605_0403_0201, 10),
        (Width::U32, 0x0403_0201, 6),
        (Width::I32, (-2i64) as u64, 6),
        (Width::Any16, 0x0201, 4),
        (Width::I8, (-2i64) as u64, 3),
        (Width::RiscV(riscv::Field::Call), 0x1234, 10),
        (Width::Field(aarch64::Field::Branch26), 8, 6),
        (uleb, 5, 5),
        (Width::Nothing, 7, 2),
    ];
    for (width, value, end) in fields {
        let mut buffer = start;
        if width == uleb {
            buffer[4] = 1;
        }
        let before = buffer;
        assert_eq!(write_value(&mut buffer, 2, width, value), Ok(()), "{width:?}");
        assert_eq!((&buffer[..2], &buffer[end..]), (&before[..2], &before[end..]), "{width:?}");
        if !matches!(width, Width::RiscV(_) | Width::Field(_)) {
            assert_eq!(buffer[2..end], value.to_le_bytes()[..end - 2]);
        }
    }
    // What does not fit, or lies outside, changes nothing.
    let refused = [
        (2, Width::U32, 1 << 32, ApplyError::Overflow),
        (2, Width::I8, 0x80, ApplyError::Overflow),
        (2, Width::Field(aarch64::Field::Branch26), 2, ApplyError::Overflow),
        (2, uleb, 5, ApplyError::OutOfBounds),
        (13, Width::U32, 1, ApplyError::OutOfBounds),
        (9, Width::RiscV(riscv::Field::Call), 1, ApplyError::OutOfBounds),
    ];
    for (offset, width, value, error) in refused {
        let mut buffer = start;
        assert_eq!(write_value(&mut buffer, offset, width, value), Err(error), "{width:?}");
        assert_eq!(buffer, start);
    }
}
