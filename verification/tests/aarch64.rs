use qld::arch::aarch64::{Field, NOP};
use qld::elf::arch::{
    Class, ClassifyContext, ClassifyError, GotKind, Kind, PltFlags, RelaxValues, TlsMode, Width,
};
use qld::elf::arch::aarch64::{classify, relax_tls, write_plt_entry, write_plt_header};
use qld::elf::consts::aarch64::{
    R_AARCH64_ABS64, R_AARCH64_ADR_GOT_PAGE, R_AARCH64_ADR_PREL_PG_HI21, R_AARCH64_AUTH_ABS64,
    R_AARCH64_CALL26, R_AARCH64_COPY, R_AARCH64_GLOB_DAT, R_AARCH64_IRELATIVE, R_AARCH64_JUMP_SLOT,
    R_AARCH64_LDST64_ABS_LO12_NC, R_AARCH64_RELATIVE, R_AARCH64_TLSDESC_ADD_LO12,
    R_AARCH64_TLSDESC_ADR_PAGE21, R_AARCH64_TLSDESC_CALL, R_AARCH64_TLSDESC_LD64_LO12,
    R_AARCH64_TLSGD_ADD_LO12_NC, R_AARCH64_TLSGD_ADR_PAGE21, R_AARCH64_TLSIE_ADR_GOTTPREL_PAGE21,
    R_AARCH64_TLSIE_LD64_GOTTPREL_LO12_NC,
};

fn exec() -> ClassifyContext {
    ClassifyContext::static_exec(true)
}

fn shared() -> ClassifyContext {
    ClassifyContext {
        relax_got: false,
        pic: true,
        tls: TlsMode::Dynamic,
        tls_ld: TlsMode::Dynamic,
        code: true,
    }
}

#[test]
fn aarch64_data_and_branch_types_are_classified() {
    assert_eq!(
        classify(R_AARCH64_ABS64, exec()).unwrap(),
        Class::new(Kind::Abs, Width::W64)
    );
    assert_eq!(
        classify(R_AARCH64_CALL26, exec()).unwrap().width,
        Width::Field(Field::Branch26)
    );
    assert_eq!(
        classify(R_AARCH64_ADR_PREL_PG_HI21, exec()).unwrap().kind,
        Kind::Page
    );
    assert_eq!(
        classify(R_AARCH64_LDST64_ABS_LO12_NC, exec())
            .unwrap()
            .width,
        Width::Field(Field::LdSt {
            scale: 3,
            checked: false
        })
    );
}

#[test]
fn unsupported_types_are_rejected() {
    for r_type in [
        R_AARCH64_COPY,
        R_AARCH64_GLOB_DAT,
        R_AARCH64_JUMP_SLOT,
        R_AARCH64_RELATIVE,
        R_AARCH64_IRELATIVE,
        R_AARCH64_AUTH_ABS64,
        0xdead,
    ] {
        assert_eq!(
            classify(r_type, exec()),
            Err(ClassifyError::Unsupported),
            "type {r_type:#x}"
        );
    }
}

#[test]
fn got_and_tls_use_the_right_slot() {
    let got = classify(R_AARCH64_ADR_GOT_PAGE, exec()).unwrap();
    assert_eq!(got.kind, Kind::GotPage);
    assert_eq!(got.slot, GotKind::Address);
    assert!(got.needs_got());
    let ie = classify(R_AARCH64_TLSIE_ADR_GOTTPREL_PAGE21, shared()).unwrap();
    assert_eq!(ie.slot, GotKind::TpOff);
    assert!(ie.needs_gottpoff());
    let gd = classify(R_AARCH64_TLSGD_ADR_PAGE21, shared()).unwrap();
    assert_eq!(gd.slot, GotKind::TlsGd);
    let desc = classify(R_AARCH64_TLSDESC_LD64_LO12, shared()).unwrap();
    assert_eq!(desc.slot, GotKind::TlsDesc);
    assert!(desc.is_tls());
}

#[test]
fn executables_relax_tls() {
    assert_eq!(
        classify(R_AARCH64_TLSGD_ADR_PAGE21, exec()).unwrap().kind,
        Kind::GdToLe
    );
    let add = classify(R_AARCH64_TLSGD_ADD_LO12_NC, exec()).unwrap();
    assert_eq!(add.kind, Kind::GdToLe);
    assert!(add.skip_next);
    assert_eq!(
        classify(R_AARCH64_TLSDESC_CALL, exec()).unwrap().kind,
        Kind::DescCallToLe
    );
    assert_eq!(
        classify(R_AARCH64_TLSIE_ADR_GOTTPREL_PAGE21, exec())
            .unwrap()
            .kind,
        Kind::IeToLe
    );
}

/// The instruction sequences GNU ld 2.45 produces for the same inputs.
#[test]
fn tls_relaxation_matches_gnu_ld() {
    let values = RelaxValues {
        tpoff: 0x48,
        ..RelaxValues::default()
    };
    // adrp x0, :tlsgd:v; add x0, x0, :tlsgd_lo12:v; bl __tls_get_addr; nop
    let mut code = Vec::new();
    for word in [0x9000_0000u32, 0x9100_0000, 0x9400_0000, NOP] {
        code.extend_from_slice(&word.to_le_bytes());
    }
    relax_tls(
        &mut code,
        0,
        Kind::GdToLe,
        R_AARCH64_TLSGD_ADR_PAGE21,
        values,
    )
    .unwrap();
    relax_tls(
        &mut code,
        4,
        Kind::GdToLe,
        R_AARCH64_TLSGD_ADD_LO12_NC,
        values,
    )
    .unwrap();
    let words: Vec<u32> = code.chunks_exact(4).map(|w| u32::from_le_bytes([w[0], w[1], w[2], w[3]])).collect();
    assert_eq!(
        words,
        [0xd2a0_0000, 0xf280_0900, 0xd53b_d041, 0x8b00_0020],
        "movz x0, #0, lsl #16; movk x0, #0x48; mrs x1, tpidr_el0; add x0, x1, x0"
    );

    // adrp x0, :tlsdesc:v; ldr x1, [x0]; add x0, x0, #0; blr x1
    let mut code = Vec::new();
    for word in [0x9000_0000u32, 0xf940_0001, 0x9100_0000, 0xd63f_0020] {
        code.extend_from_slice(&word.to_le_bytes());
    }
    for (offset, r_type) in [
        (0, R_AARCH64_TLSDESC_ADR_PAGE21),
        (4, R_AARCH64_TLSDESC_LD64_LO12),
        (8, R_AARCH64_TLSDESC_ADD_LO12),
        (12, R_AARCH64_TLSDESC_CALL),
    ] {
        relax_tls(&mut code, offset, Kind::DescToLe, r_type, values).unwrap();
    }
    let words: Vec<u32> = code.chunks_exact(4).map(|w| u32::from_le_bytes([w[0], w[1], w[2], w[3]])).collect();
    assert_eq!(words, [0xd2a0_0000, 0xf280_0900, NOP, NOP]);

    // adrp x0, :gottprel:v; ldr x0, [x0, #:gottprel_lo12:v]
    let mut code = Vec::new();
    for word in [0x9000_0000u32, 0xf940_0000] {
        code.extend_from_slice(&word.to_le_bytes());
    }
    relax_tls(
        &mut code,
        0,
        Kind::IeToLe,
        R_AARCH64_TLSIE_ADR_GOTTPREL_PAGE21,
        values,
    )
    .unwrap();
    relax_tls(
        &mut code,
        4,
        Kind::IeToLe,
        R_AARCH64_TLSIE_LD64_GOTTPREL_LO12_NC,
        values,
    )
    .unwrap();
    let words: Vec<u32> = code.chunks_exact(4).map(|w| u32::from_le_bytes([w[0], w[1], w[2], w[3]])).collect();
    assert_eq!(words, [0xd2a0_0000, 0xf280_0900]);
}

/// The PLT GNU ld 2.45 writes for a dynamic executable whose `.plt` is
/// at 0x5f0 and `.got.plt` at 0x1ffe8.
#[test]
fn plt_matches_gnu_ld() {
    let mut header = [0u8; 32];
    write_plt_header(&mut header, 0x5f0, 0x1ffe8, PltFlags::default()).unwrap();
    let words: Vec<u32> = header.chunks_exact(4).map(|w| u32::from_le_bytes([w[0], w[1], w[2], w[3]])).collect();
    assert_eq!(
        words,
        [
            0xa9bf_7bf0, // stp x16, x30, [sp, #-16]!
            0xf000_00f0, // adrp x16, 1f000
            0xf947_fe11, // ldr x17, [x16, #4088]
            0x913f_e210, // add x16, x16, #0xff8
            0xd61f_0220, // br x17
            NOP,
            NOP,
            NOP,
        ]
    );
    let mut entry = [0u8; 16];
    write_plt_entry(&mut entry, 0x610, 0x20000, PltFlags::default()).unwrap();
    let words: Vec<u32> = entry.chunks_exact(4).map(|w| u32::from_le_bytes([w[0], w[1], w[2], w[3]])).collect();
    assert_eq!(words, [0x9000_0110, 0xf940_0211, 0x9100_0210, 0xd61f_0220]);
    // With BTI the entry grows to 24 bytes and starts with `bti c`.
    let mut entry = [0u8; 24];
    write_plt_entry(
        &mut entry,
        0x6a0,
        0x20000,
        PltFlags {
            landing_pad: true,
            entry_landing_pad: true,
        },
    )
    .unwrap();
    let words: Vec<u32> = entry.chunks_exact(4).map(|w| u32::from_le_bytes([w[0], w[1], w[2], w[3]])).collect();
    assert_eq!(
        words,
        [
            0xd503_245f,
            0x9000_0110,
            0xf940_0211,
            0x9100_0210,
            0xd61f_0220,
            NOP
        ]
    );
}
