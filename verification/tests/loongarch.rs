use qld::arch::loongarch::{
    ri20, rri12, ADDI_D, Field, LD_D, LU12I_W, NOP, ORI, PCADDI, PCALAU12I, R_A0, R_TP, R_ZERO,
};
use qld::elf::arch::{
    ApplyError, Class, ClassifyContext, ClassifyError, GotKind, Kind, RelaxValues, TlsMode, Width,
};
use qld::elf::arch::loongarch::{
    add_field, classify, relax, relax_tls, reloc_name, write_field, write_plt_entry,
    write_plt_header, RELAX_HINT, R_LARCH_64, R_LARCH_ADD24, R_LARCH_ADD32, R_LARCH_ALIGN,
    R_LARCH_B26, R_LARCH_CALL36, R_LARCH_GOT_PC_HI20, R_LARCH_GOT_PC_LO12, R_LARCH_JUMP_SLOT,
    R_LARCH_PCALA_HI20, R_LARCH_PCALA_LO12, R_LARCH_RELATIVE, R_LARCH_RELAX, R_LARCH_SOP_PUSH_PCREL,
    R_LARCH_SUB_ULEB128, R_LARCH_TLS_DESC64, R_LARCH_TLS_DESC_CALL, R_LARCH_TLS_DESC_LD,
    R_LARCH_TLS_DESC_PC_HI20, R_LARCH_TLS_DESC_PC_LO12, R_LARCH_TLS_IE_PC_HI20,
    R_LARCH_TLS_IE_PC_LO12, R_LARCH_TLS_LD_HI20, R_LARCH_TLS_LD_PCREL20_S2,
    R_LARCH_TLS_LD_PC_HI20,
};

fn exec() -> ClassifyContext {
    ClassifyContext::static_exec(true)
}

fn shared() -> ClassifyContext {
    ClassifyContext {
        relax_got: false,
        pic: true,
        tls: TlsMode::Dynamic,
        tls_ld: TlsMode::Dynamic,
        code: true,
    }
}

fn code(words: &[u32]) -> Vec<u8> {
    words.iter().flat_map(|w| w.to_le_bytes()).collect()
}

fn words(bytes: &[u8]) -> Vec<u32> {
    bytes.chunks_exact(4).map(|w| u32::from_le_bytes([w[0], w[1], w[2], w[3]])).collect()
}

/// `pcalau12i $a0, 0; ld.d $a0, $a0, 0`.
const GOT_LOAD: [u32; 2] = [0x1a00_0004, 0x28c0_0084];
/// `pcalau12i $a0, 0; addi.d $a0, $a0, 0`.
const PCALA: [u32; 2] = [0x1a00_0004, 0x02c0_0084];

#[test]
fn names_round_trip() {
    assert_eq!(reloc_name(R_LARCH_CALL36), Some("R_LARCH_CALL36"));
    assert_eq!(
        reloc_name(R_LARCH_PCALA_HI20 | RELAX_HINT),
        Some("R_LARCH_PCALA_HI20")
    );
    assert_eq!(reloc_name(101), None);
}

#[test]
fn loongarch_data_and_branch_types_are_classified() {
    let empty: &[u8] = &[];
    let c = |t| classify(t, 0, empty, 0, exec()).unwrap();
    assert_eq!(c(R_LARCH_64), Class::new(Kind::Abs, Width::W64));
    assert_eq!(c(R_LARCH_B26).width, Width::LoongArch(Field::B26));
    assert_eq!(c(R_LARCH_CALL36).width, Width::LoongArch(Field::Call36));
    assert_eq!(
        c(R_LARCH_CALL36 | RELAX_HINT).width,
        Width::LoongArch(Field::Call36Relax)
    );
    assert_eq!(c(R_LARCH_ADD32).kind, Kind::Add);
    assert_eq!(c(R_LARCH_SUB_ULEB128).kind, Kind::Sub);
    assert_eq!(c(R_LARCH_RELAX).kind, Kind::Nothing);
    assert_eq!(c(R_LARCH_ALIGN).kind, Kind::Nothing);
    assert_eq!(c(R_LARCH_PCALA_HI20).kind, Kind::Page);
    assert_eq!(c(R_LARCH_PCALA_LO12).kind, Kind::PageOff);
    for r_type in [
        R_LARCH_RELATIVE,
        R_LARCH_JUMP_SLOT,
        R_LARCH_TLS_DESC64,
        R_LARCH_SOP_PUSH_PCREL,
        R_LARCH_ADD24,
        0xdead,
    ] {
        assert_eq!(
            classify(r_type, 0, empty, 0, exec()),
            Err(ClassifyError::Unsupported),
            "type {r_type}"
        );
    }
}

#[test]
fn got_loads_relax_only_as_adjacent_pairs() {
    let data = code(&GOT_LOAD);
    let hi = classify(R_LARCH_GOT_PC_HI20, 0, &data, 0, exec()).unwrap();
    let lo = classify(R_LARCH_GOT_PC_LO12, 0, &data, 4, exec()).unwrap();
    assert_eq!((hi.kind, lo.kind), (Kind::Relax, Kind::Relax));
    // Not for a preemptible symbol, a non-zero addend or other code.
    let hi = classify(R_LARCH_GOT_PC_HI20, 0, &data, 0, shared()).unwrap();
    assert_eq!((hi.kind, hi.slot), (Kind::GotPage, GotKind::Address));
    let lo = classify(R_LARCH_GOT_PC_LO12, 8, &data, 4, exec()).unwrap();
    assert_eq!(lo.kind, Kind::GotAbs);
    let apart = code(&[GOT_LOAD[0], NOP, GOT_LOAD[1]]);
    assert_eq!(
        classify(R_LARCH_GOT_PC_HI20, 0, &apart, 0, exec())
            .unwrap()
            .kind,
        Kind::GotPage
    );
    assert_eq!(
        classify(R_LARCH_GOT_PC_LO12, 0, &apart, 8, exec())
            .unwrap()
            .kind,
        Kind::GotAbs
    );
    // The second half of a general-dynamic sequence is an `addi.d`.
    let gd = code(&PCALA);
    let lo = classify(R_LARCH_GOT_PC_LO12, 0, &gd, 4, shared()).unwrap();
    assert_eq!((lo.kind, lo.slot), (Kind::GotAbs, GotKind::TlsGd));
}

#[test]
fn got_relaxation_rewrites_the_load() {
    // pcalau12i at 0x1_2000_0000, target 0x1_2000_5808.
    let mut data = code(&GOT_LOAD);
    let (place, target) = (0x1_2000_0000u64, 0x1_2000_5808u64);
    relax(&mut data, 0, R_LARCH_GOT_PC_HI20, target, place).unwrap();
    relax(&mut data, 4, R_LARCH_GOT_PC_LO12, target, place + 4).unwrap();
    // pcalau12i $a0, 6; addi.d $a0, $a0, -2040
    assert_eq!(
        words(&data),
        [0x1a00_00c4, rri12(ADDI_D, R_A0, R_A0, 0x808)]
    );
    // With R_LARCH_RELAX: nop; pcaddi $a0, (target - place - 4) / 4.
    let mut data = code(&GOT_LOAD);
    relax(
        &mut data,
        0,
        R_LARCH_GOT_PC_HI20 | RELAX_HINT,
        target,
        place,
    )
    .unwrap();
    relax(
        &mut data,
        4,
        R_LARCH_GOT_PC_LO12 | RELAX_HINT,
        target,
        place + 4,
    )
    .unwrap();
    assert_eq!(
        words(&data),
        [NOP, ri20(PCADDI, R_A0, ((0x5808 - 4) / 4) as u32)]
    );
    // Out of pcaddi's reach, the pair stays a pcalau12i + addi.d.
    let mut data = code(&PCALA);
    let far = place + (4 << 20);
    relax(&mut data, 0, R_LARCH_PCALA_HI20 | RELAX_HINT, far, place).unwrap();
    relax(
        &mut data,
        4,
        R_LARCH_PCALA_LO12 | RELAX_HINT,
        far,
        place + 4,
    )
    .unwrap();
    assert_eq!(words(&data), [0x1a00_8004, PCALA[1]]);
}

#[test]
fn calls_relax_to_bl() {
    // pcaddu18i $ra, 0; jirl $ra, $ra, 0
    let call = [0x1e00_0001, 0x4c00_0021];
    let mut data = code(&call);
    write_field(&mut data, 0, Field::Call36Relax, 0x100).unwrap();
    assert_eq!(words(&data), [0x5401_0000, NOP]);
    // A tail call (`jr $t8`) becomes `b`.
    let mut data = code(&[0x1e00_0014, 0x4c00_0280]);
    write_field(&mut data, 0, Field::Call36Relax, 0x100).unwrap();
    assert_eq!(words(&data), [0x5001_0000, NOP]);
    // Beyond ±128 MiB it stays a pcaddu18i + jirl.
    let mut data = code(&call);
    write_field(&mut data, 0, Field::Call36Relax, 1 << 28).unwrap();
    assert_eq!(words(&data)[0], 0x1e00_0001 | (0x400 << 5));
    assert_eq!(words(&data)[1], call[1]);
}

/// The sequences lld 23 writes for the same inputs.
#[test]
fn loongarch_tls_relaxation_matches_lld() {
    let values = |tpoff| RelaxValues {
        tpoff,
        ..RelaxValues::default()
    };
    // pcalau12i $a0, %ie_pc_hi20; ld.d $a0, $a0, %ie_pc_lo12
    for (tpoff, expect) in [
        (0x10, [NOP, rri12(ORI, R_A0, R_ZERO, 0x10)]),
        (
            0x1_2345,
            [
                ri20(LU12I_W, R_A0, 0x12),
                rri12(ORI, R_A0, R_A0, 0x345),
            ],
        ),
    ] {
        let mut data = code(&GOT_LOAD);
        relax_tls(
            &mut data,
            0,
            Kind::IeToLe,
            R_LARCH_TLS_IE_PC_HI20,
            values(tpoff),
        )
        .unwrap();
        relax_tls(
            &mut data,
            4,
            Kind::IeToLe,
            R_LARCH_TLS_IE_PC_LO12,
            values(tpoff),
        )
        .unwrap();
        assert_eq!(words(&data), expect);
    }
    // pcalau12i $a0; addi.d $a0, $a0; ld.d $ra, $a0, 0; jirl $ra, $ra, 0
    let desc = [0x1a00_0004, 0x02c0_0084, 0x28c0_0081, 0x4c00_0021];
    let mut data = code(&desc);
    for (offset, r_type) in [
        (0, R_LARCH_TLS_DESC_PC_HI20),
        (4, R_LARCH_TLS_DESC_PC_LO12),
        (8, R_LARCH_TLS_DESC_LD),
        (12, R_LARCH_TLS_DESC_CALL),
    ] {
        relax_tls(&mut data, offset, Kind::DescToLe, r_type, values(0x20)).unwrap();
    }
    assert_eq!(
        words(&data),
        [NOP, NOP, NOP, rri12(ORI, R_A0, R_ZERO, 0x20)]
    );
    // To initial-exec: the GOT entry at 0x1_2000_4010, code at 0x1_2000_0000.
    let mut data = code(&desc);
    let ie = RelaxValues {
        got: 0x1_2000_4010,
        place: 0x1_2000_0008,
        ..RelaxValues::default()
    };
    relax_tls(&mut data, 8, Kind::DescToIe, R_LARCH_TLS_DESC_LD, ie).unwrap();
    relax_tls(&mut data, 12, Kind::DescToIe, R_LARCH_TLS_DESC_CALL, ie).unwrap();
    assert_eq!(
        &words(&data)[2..],
        [
            ri20(PCALAU12I, R_A0, 4),
            rri12(LD_D, R_A0, R_A0, 0x10)
        ]
    );
}

#[test]
fn local_exec_relaxes_to_the_thread_pointer() {
    // lu12i.w $a0, 0; add.d $a0, $a0, $tp; addi.d $a0, $a0, 0
    let seq = [0x1400_0004, 0x0010_8884, 0x02c0_0084];
    let mut data = code(&seq);
    write_field(&mut data, 0, Field::TpHi20Relax, 0x40).unwrap();
    write_field(&mut data, 4, Field::TpAddRelax, 0x40).unwrap();
    write_field(&mut data, 8, Field::TpLo12Relax, 0x40).unwrap();
    assert_eq!(
        words(&data),
        [NOP, NOP, rri12(ADDI_D, R_A0, R_TP, 0x40)]
    );
    let mut data = code(&seq);
    write_field(&mut data, 0, Field::TpHi20Relax, 0x1800).unwrap();
    write_field(&mut data, 4, Field::TpAddRelax, 0x1800).unwrap();
    write_field(&mut data, 8, Field::TpLo12Relax, 0x1800).unwrap();
    assert_eq!(
        words(&data),
        [
            ri20(LU12I_W, R_A0, 2),
            seq[1],
            rri12(ADDI_D, R_A0, R_A0, 0x800)
        ]
    );
}

#[test]
fn label_differences_add_in_place() {
    let mut data = vec![0xc5, 0x80, 0x01];
    add_field(&mut data, 0, Field::Data6, 3).unwrap();
    assert_eq!(data[0], 0xc8);
    add_field(&mut data, 0, Field::Data6, 0u64.wrapping_sub(9)).unwrap();
    assert_eq!(data[0], 0xff);
    add_field(&mut data, 1, Field::Uleb128, 0x10).unwrap();
    assert_eq!(&data[1..], [0x90, 0x01]);
    assert_eq!(
        add_field(&mut data, 3, Field::Uleb128, 1),
        Err(ApplyError::OutOfBounds)
    );
}

/// The PLT lld writes for `.plt` at 0x1_2000_0400 and `.got.plt` at
/// 0x1_2000_8000.
#[test]
fn loongarch_plt_matches_lld() {
    let mut header = [0u8; 32];
    write_plt_header(&mut header, 0x1_2000_0400, 0x1_2000_8000).unwrap();
    assert_eq!(
        words(&header),
        [
            0x1c00_010e, // pcaddu12i $t2, 8
            0x0011_bdad, // sub.d $t1, $t1, $t3
            0x28f0_01cf, // ld.d $t3, $t2, -1024
            0x02ff_51ad, // addi.d $t1, $t1, -44
            0x02f0_01cc, // addi.d $t0, $t2, -1024
            0x0045_05ad, // srli.d $t1, $t1, 1
            0x28c0_218c, // ld.d $t0, $t0, 8
            0x4c00_01e0, // jr $t3
        ]
    );
    let mut entry = [0u8; 16];
    write_plt_entry(&mut entry, 0x1_2000_0420, 0x1_2000_8010).unwrap();
    assert_eq!(words(&entry), [0x1c00_010f, 0x28ef_c1ef, 0x4c00_01ed, NOP]);
}

#[test]
fn local_dynamic_uses_the_pair_of_the_variable() {
    let empty: &[u8] = &[];
    for context in [exec(), shared()] {
        let c = |t| classify(t, 0, empty, 0, context);
        assert_eq!(
            c(R_LARCH_TLS_LD_HI20),
            Ok(Class::new(Kind::GotAbs, Width::LoongArch(Field::Hi20)).through(GotKind::TlsGd))
        );
        assert_eq!(
            c(R_LARCH_TLS_LD_PCREL20_S2),
            Ok(Class::new(Kind::Got, Width::LoongArch(Field::Pcrel20S2)).through(GotKind::TlsGd))
        );
        assert_eq!(c(R_LARCH_TLS_LD_PC_HI20).unwrap().slot, GotKind::TlsGd);
    }
}
