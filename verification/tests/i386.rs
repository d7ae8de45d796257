use qld::elf::arch::{ClassifyContext, Kind, RelaxValues, TlsMode};
use qld::elf::arch::i386::{classify, implicit_addend, relax_got, relax_tls, write_plt_entry};
use qld::elf::consts::i386::{
    R_386_16, R_386_32, R_386_8, R_386_GOT32X, R_386_NONE, R_386_PC32, R_386_TLS_GD,
    R_386_TLS_GOTIE, R_386_TLS_IE, R_386_TLS_LDM,
};

fn context(tls: TlsMode) -> ClassifyContext {
    ClassifyContext {
        tls,
        tls_ld: tls,
        code: true,
        ..ClassifyContext::static_exec(true)
    }
}

#[test]
fn i386_reads_implicit_addends() {
    let data = [0xfc, 0xff, 0xff, 0xff, 0x10, 0x00, 0x80];
    assert_eq!(implicit_addend(R_386_PC32, &data, 0), -4);
    assert_eq!(implicit_addend(R_386_16, &data, 4), 0x10);
    assert_eq!(implicit_addend(R_386_8, &data, 6), -128);
    assert_eq!(implicit_addend(R_386_NONE, &data, 0), 0);
    assert_eq!(implicit_addend(R_386_32, &data, 5), 0);
}

#[test]
fn relaxes_general_dynamic_to_local_exec() {
    // leal x@tlsgd(,%ebx,1),%eax; call ___tls_get_addr@plt
    let mut code = vec![0x8d, 0x04, 0x1d, 0, 0, 0, 0, 0xe8, 0, 0, 0, 0];
    let class = classify(R_386_TLS_GD, &code, 3, context(TlsMode::LocalExec)).unwrap();
    assert_eq!(class.kind, Kind::GdToLe);
    assert!(class.skip_next);
    let values = RelaxValues {
        tpoff: -8,
        ..RelaxValues::default()
    };
    relax_tls(&mut code, 3, Kind::GdToLe, R_386_TLS_GD, values).unwrap();
    assert_eq!(
        code,
        [0x65, 0xa1, 0, 0, 0, 0, 0x81, 0xe8, 8, 0, 0, 0],
        "movl %gs:0,%eax; subl $8,%eax"
    );
}

#[test]
fn relaxes_general_dynamic_to_initial_exec() {
    // leal x@tlsgd(%ebx),%eax; call *___tls_get_addr@GOT(%ebx)
    let mut code = vec![0x8d, 0x83, 0, 0, 0, 0, 0xff, 0x93, 0, 0, 0, 0];
    let class = classify(R_386_TLS_GD, &code, 2, context(TlsMode::InitialExec)).unwrap();
    assert_eq!(class.kind, Kind::GdToIe);
    let values = RelaxValues {
        got: 0x2010,
        got_base: 0x2000,
        ..RelaxValues::default()
    };
    relax_tls(&mut code, 2, Kind::GdToIe, R_386_TLS_GD, values).unwrap();
    assert_eq!(code, [0x65, 0xa1, 0, 0, 0, 0, 0x03, 0x83, 0x10, 0, 0, 0]);
}

#[test]
fn relaxes_local_dynamic_to_local_exec() {
    // leal x@tlsldm(%ebx),%eax; call ___tls_get_addr@plt
    let mut code = vec![0x8d, 0x83, 0, 0, 0, 0, 0xe8, 0, 0, 0, 0];
    let class = classify(R_386_TLS_LDM, &code, 2, context(TlsMode::LocalExec)).unwrap();
    assert_eq!(class.kind, Kind::LdToLe);
    relax_tls(
        &mut code,
        2,
        Kind::LdToLe,
        R_386_TLS_LDM,
        RelaxValues::default(),
    )
    .unwrap();
    assert_eq!(code, [0x65, 0xa1, 0, 0, 0, 0, 0x90, 0x8d, 0x74, 0x26, 0x00]);
}

#[test]
fn relaxes_initial_exec_to_local_exec() {
    // movl x@gotntpoff(%ebx),%ecx
    let mut code = vec![0x8b, 0x8b, 0, 0, 0, 0];
    let values = RelaxValues {
        tpoff: -4,
        ..RelaxValues::default()
    };
    relax_tls(&mut code, 2, Kind::IeToLe, R_386_TLS_GOTIE, values).unwrap();
    assert_eq!(code, [0xc7, 0xc1, 0xfc, 0xff, 0xff, 0xff]);
    // addl x@gotntpoff(%ebx),%edx -> leal x(%edx),%edx
    let mut code = vec![0x03, 0x93, 0, 0, 0, 0];
    relax_tls(&mut code, 2, Kind::IeToLe, R_386_TLS_GOTIE, values).unwrap();
    assert_eq!(code, [0x8d, 0x92, 0xfc, 0xff, 0xff, 0xff]);
    // movl x@indntpoff,%eax (a1) -> movl $x,%eax (b8)
    let mut code = vec![0x90, 0xa1, 0, 0, 0, 0];
    relax_tls(&mut code, 2, Kind::IeToLe, R_386_TLS_IE, values).unwrap();
    assert_eq!(code, [0x90, 0xb8, 0xfc, 0xff, 0xff, 0xff]);
}

#[test]
fn relaxes_got32x() {
    // movl foo@GOT(%ebx),%eax -> leal foo@GOTOFF(%ebx),%eax
    let mut code = vec![0x8b, 0x83, 0, 0, 0, 0];
    let class = classify(R_386_GOT32X, &code, 2, context(TlsMode::LocalExec)).unwrap();
    assert_eq!(class.kind, Kind::RelaxGotOff);
    relax_got(&mut code, 2, Kind::RelaxGotOff, 0x40).unwrap();
    assert_eq!(code, [0x8d, 0x83, 0x40, 0, 0, 0]);
    // call *foo@GOT(%ebx) -> addr32 call foo
    let mut code = vec![0xff, 0x93, 0, 0, 0, 0];
    let class = classify(R_386_GOT32X, &code, 2, context(TlsMode::LocalExec)).unwrap();
    assert_eq!(class.kind, Kind::RelaxGotPc);
    relax_got(&mut code, 2, Kind::RelaxGotPc, 0x104).unwrap();
    assert_eq!(code, [0x67, 0xe8, 0x00, 0x01, 0, 0]);
    // A preemptible symbol keeps its GOT load.
    let code = vec![0x8b, 0x83, 0, 0, 0, 0];
    let mut dynamic = context(TlsMode::Dynamic);
    dynamic.relax_got = false;
    let class = classify(R_386_GOT32X, &code, 2, dynamic).unwrap();
    assert_eq!(class.kind, Kind::GotSlotRel);
}

#[test]
fn writes_plt_entries() {
    let mut entry = [0u8; 16];
    write_plt_entry(&mut entry, 0x1010, 0x3010, 2, 0x1000, 0x3000, false, false).unwrap();
    assert_eq!(
        entry,
        [
            0xff, 0x25, 0x10, 0x30, 0, 0, 0x68, 16, 0, 0, 0, 0xe9, 0xe0, 0xff, 0xff, 0xff
        ]
    );
    write_plt_entry(&mut entry, 0x1010, 0x3010, 2, 0x1000, 0x3000, true, false).unwrap();
    assert_eq!(&entry[..6], &[0xff, 0xa3, 0x10, 0, 0, 0]);
}
