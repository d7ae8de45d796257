use qld::arch::ppc64;
use qld::arch::ppc64::{
    ADDI_R3_R3_4096, ADD_R3_R3_R13, Field, LD_R2_24_R1, NOP, STD_R2_24_R1, THUNK_SAVE_TOC,
    THUNK_VIA_SLOT,
};
use qld::elf::arch::{
    Branch, ClassifyContext, ClassifyError, GotKind, Kind, RelaxValues, TlsMode, Width,
};
use qld::elf::arch::ppc64::{
    annotate, base_type, branch_destination, branch_thunk, classify, finish_call, relax_tls,
    write_plt_entry, write_plt_header,
};
use qld::elf::consts::ppc64::{
    R_PPC64_GOT16_LO_DS, R_PPC64_GOT_PCREL34, R_PPC64_GOT_TLSGD16_HA, R_PPC64_GOT_TLSGD16_LO,
    R_PPC64_GOT_TPREL16_HA, R_PPC64_GOT_TPREL16_HI, R_PPC64_GOT_TPREL16_LO_DS, R_PPC64_JMP_SLOT,
    R_PPC64_PLTCALL, R_PPC64_REL24, R_PPC64_REL24_NOTOC, R_PPC64_TLS, R_PPC64_TLSGD, R_PPC64_TLSLD,
    R_PPC64_TOC, R_PPC64_TOC16_HA,
};
use qld::elf::relocation::Relocation;

fn exec() -> ClassifyContext {
    ClassifyContext::static_exec(true)
}

fn shared() -> ClassifyContext {
    ClassifyContext {
        relax_got: false,
        pic: true,
        tls: TlsMode::Dynamic,
        tls_ld: TlsMode::Dynamic,
        code: true,
    }
}

fn words(code: &[u8]) -> Vec<u32> {
    code.chunks_exact(4).map(|w| u32::from_le_bytes([w[0], w[1], w[2], w[3]])).collect()
}

fn bytes(words: &[u32]) -> Vec<u8> {
    words.iter().flat_map(|w| w.to_le_bytes()).collect()
}

#[test]
fn toc_and_got_types_are_classified() {
    let toc = classify(R_PPC64_TOC16_HA, &[], 0, exec()).unwrap();
    assert_eq!(toc.kind, Kind::GotRel);
    assert!(toc.uses_got_base());
    let got_lo = classify(R_PPC64_GOT16_LO_DS, &[], 0, exec()).unwrap();
    assert_eq!(got_lo.kind, Kind::GotSlotRel);
    assert!(got_lo.needs_got());
    assert_eq!(
        classify(R_PPC64_REL24, &[], 0, exec()).unwrap().width,
        Width::Ppc(Field::Rel24)
    );
    for r_type in [R_PPC64_TOC, R_PPC64_JMP_SLOT, R_PPC64_PLTCALL, 0xdead] {
        assert_eq!(
            classify(r_type, &[], 0, exec()),
            Err(ClassifyError::Unsupported),
            "type {r_type}"
        );
    }
}

#[test]
fn got_pcrel_relaxes_only_a_pld() {
    let pld = bytes(&[0x0410_0000, 0xe460_0000]);
    let paddi = bytes(&[0x0610_0000, 0x3860_0000]);
    let relaxed = classify(R_PPC64_GOT_PCREL34, &pld, 0, exec()).unwrap();
    assert_eq!(relaxed.kind, Kind::Pc);
    let kept = classify(R_PPC64_GOT_PCREL34, &paddi, 0, exec()).unwrap();
    assert_eq!(kept.kind, Kind::Got);
    let shared = classify(R_PPC64_GOT_PCREL34, &pld, 0, shared()).unwrap();
    assert!(shared.needs_got());
}

#[test]
fn tls_models_follow_the_output() {
    let gd = classify(R_PPC64_GOT_TLSGD16_HA, &[], 0, shared()).unwrap();
    assert_eq!(gd.slot, GotKind::TlsGd);
    assert_eq!(
        classify(R_PPC64_TLSGD, &[], 0, shared()).unwrap().kind,
        Kind::Nothing
    );
    let marker = classify(R_PPC64_TLSGD, &[], 0, exec()).unwrap();
    assert_eq!(marker.kind, Kind::GdToLe);
    assert!(marker.skip_next);
    let ie = ClassifyContext {
        tls: TlsMode::InitialExec,
        ..exec()
    };
    let lo = classify(R_PPC64_GOT_TLSGD16_LO, &[], 0, ie).unwrap();
    assert_eq!(lo.slot, GotKind::TpOff);
    assert!(lo.needs_gottpoff());
    assert_eq!(
        classify(R_PPC64_GOT_TPREL16_HI, &[], 0, exec()),
        Err(ClassifyError::BadTlsInstruction)
    );
}

/// The sequences lld 23 writes for the same inputs.
#[test]
fn ppc64_tls_relaxation_matches_lld() {
    let values = RelaxValues {
        tpoff: -0x6ff8,
        ..RelaxValues::default()
    };
    // addis r3, r2, x@got@tlsgd@ha; addi r3, r3, x@got@tlsgd@l;
    // bl __tls_get_addr(x@tlsgd); nop
    let mut code = bytes(&[0x3c62_0000, 0x3863_0000, 0x4800_0001, NOP]);
    relax_tls(&mut code, 0, Kind::GdToLe, R_PPC64_GOT_TLSGD16_HA, values).unwrap();
    relax_tls(&mut code, 4, Kind::GdToLe, R_PPC64_GOT_TLSGD16_LO, values).unwrap();
    relax_tls(&mut code, 8, Kind::GdToLe, R_PPC64_TLSGD, values).unwrap();
    assert_eq!(
        words(&code),
        [NOP, 0x3c6d_0000, NOP, 0x3863_9008],
        "nop; addis r3, r13, 0; nop; addi r3, r3, -0x6ff8"
    );

    // To initial-exec: the pair loads the offset, the call adds r13.
    let mut code = bytes(&[0x4800_0001, NOP]);
    relax_tls(&mut code, 0, Kind::GdToIe, R_PPC64_TLSGD, values).unwrap();
    assert_eq!(words(&code), [NOP, ADD_R3_R3_R13]);

    // addis r9, r2, x@got@tprel@ha; ld r9, x@got@tprel@l(r9);
    // lwzx r3, r9, x@tls
    let mut code = bytes(&[0x3d22_0000, 0xe929_0000, 0x7c69_682e]);
    relax_tls(&mut code, 0, Kind::IeToLe, R_PPC64_GOT_TPREL16_HA, values).unwrap();
    relax_tls(
        &mut code,
        4,
        Kind::IeToLe,
        R_PPC64_GOT_TPREL16_LO_DS,
        values,
    )
    .unwrap();
    relax_tls(&mut code, 8, Kind::IeToLe, R_PPC64_TLS, values).unwrap();
    assert_eq!(
        words(&code),
        [NOP, 0x3d2d_0000, 0x8069_9008],
        "nop; addis r9, r13, 0; lwz r3, -0x6ff8(r9)"
    );

    // The local-dynamic call: addi r3, r3, 4096 after it.
    let mut code = bytes(&[0x4800_0001, NOP]);
    relax_tls(&mut code, 0, Kind::LdToLe, R_PPC64_TLSLD, values).unwrap();
    assert_eq!(words(&code), [NOP, ADDI_R3_R3_4096]);

    // The PC-relative call has no nop after it to rewrite.
    let marker = Relocation {
        offset: 0,
        symbol: 1,
        r_type: R_PPC64_TLSGD,
        addend: 0,
    };
    let call = Relocation {
        r_type: R_PPC64_REL24_NOTOC,
        ..marker
    };
    let pcrel = annotate(marker, Some(&call)).r_type;
    assert_eq!(base_type(pcrel), R_PPC64_TLSGD);
    let mut code = bytes(&[0x4800_0001, 0x7c63_1a14]);
    relax_tls(&mut code, 0, Kind::GdToLe, pcrel, values).unwrap();
    assert_eq!(words(&code), [NOP, 0x7c63_1a14]);
}

#[test]
fn calls_enter_at_the_local_entry_point() {
    let call = Branch {
        r_type: R_PPC64_REL24,
        place: 0x1000_0000,
        target: 0x1000_0100,
        st_other: 3 << 5,
        via_stub: false,
        slot: None,
    };
    assert_eq!(branch_destination(call), 0x1000_0108);
    assert_eq!(branch_thunk(call), None);
    let far = Branch {
        target: 0x1400_0000,
        ..call
    };
    assert_eq!(branch_thunk(far), Some(0x1400_0008));
    let notoc = Branch {
        r_type: R_PPC64_REL24_NOTOC,
        ..call
    };
    assert_eq!(branch_destination(notoc), 0x1000_0100);
    assert_eq!(branch_thunk(notoc), Some(0x1000_0100));
    let stub = Branch {
        via_stub: true,
        ..call
    };
    assert_eq!(branch_destination(stub), 0x1000_0100);
    let mut code = bytes(&[0x4800_0001, NOP]);
    finish_call(&mut code, 0, stub).unwrap();
    assert_eq!(words(&code), [0x4800_0001, LD_R2_24_R1]);

    // PC-relative code calls through the PLT with a stub of its own
    // that loads the PLT word.
    let pcrel_plt = Branch {
        r_type: R_PPC64_REL24_NOTOC,
        via_stub: true,
        slot: Some(0x1002_0010),
        ..call
    };
    assert_eq!(
        branch_thunk(pcrel_plt),
        Some(0x1002_0010 | THUNK_VIA_SLOT)
    );
    // A callee that clobbers r2 is called through a thunk saving it,
    // and the caller's nop restores it.
    let clobbers = Branch {
        st_other: 1 << 5,
        ..call
    };
    assert_eq!(
        branch_thunk(clobbers),
        Some(0x1000_0100 | THUNK_SAVE_TOC)
    );
    let mut code = bytes(&[0x4800_0001, NOP]);
    finish_call(&mut code, 0, clobbers).unwrap();
    assert_eq!(words(&code), [0x4800_0001, LD_R2_24_R1]);
    let thunk = ppc64::thunk(0x1000_0200, 0x1000_0100 | THUNK_SAVE_TOC).unwrap();
    assert_eq!(thunk[0], STD_R2_24_R1);
    let thunk = ppc64::thunk(0x1000_0200, 0x1002_0010 | THUNK_VIA_SLOT).unwrap();
    assert_eq!(thunk[5] >> 16, 0xe98c, "ld r12, lo(r12)");
}

/// The `.glink` lld 23 writes for a PIE whose `.glink` is at 0x10310
/// and `.plt` at 0x20450.
#[test]
fn glink_matches_lld() {
    let mut header = [0u8; 60];
    write_plt_header(&mut header, 0x10310, 0x20450).unwrap();
    assert_eq!(&words(&header)[..2], [0x7c08_02a6, 0x429f_0005]);
    assert_eq!(
        u64::from_le_bytes(header[52..60].try_into().unwrap()),
        0x20450 - 0x10318
    );
    let mut entry = [0u8; 4];
    write_plt_entry(&mut entry, 0x10310 + 64, 0x10310).unwrap();
    assert_eq!(words(&entry), [0x4bff_ffc0]);
}
