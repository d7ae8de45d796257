use qld::arch::s390x::LG_R2_GOT;
use qld::elf::arch::{ClassifyContext, ClassifyError, Kind, RelaxValues, TlsMode};
use qld::elf::arch::s390x::{
    classify, relax_got, relax_tls, reloc_name, R_390_GNU_VTENTRY, R_390_GOT20, R_390_GOTENT,
    R_390_PC32DBL, R_390_PLT24DBL, R_390_TLS_GD32, R_390_TLS_GD64, R_390_TLS_GDCALL,
};

fn context(tls: TlsMode, pic: bool) -> ClassifyContext {
    ClassifyContext {
        relax_got: true,
        pic,
        tls,
        tls_ld: tls,
        code: true,
    }
}

#[test]
fn names() {
    assert_eq!(reloc_name(R_390_PC32DBL), Some("R_390_PC32DBL"));
    assert_eq!(reloc_name(R_390_PLT24DBL), Some("R_390_PLT24DBL"));
    assert_eq!(reloc_name(R_390_GNU_VTENTRY), Some("R_390_GNU_VTENTRY"));
    assert_eq!(reloc_name(66), None);
}

fn values(got: u64, place: u64, got_base: u64) -> RelaxValues {
    RelaxValues {
        got,
        place,
        got_base,
        ..RelaxValues::default()
    }
}

#[test]
fn got_loads_relax_only_in_pic() {
    // lgrl %r2,sym@GOTENT
    let data = [0xc4, 0x28, 0, 0, 0, 0];
    let pie = context(TlsMode::LocalExec, true);
    let exe = context(TlsMode::LocalExec, false);
    assert_eq!(
        classify(R_390_GOTENT, &data, 2, pie).unwrap().kind,
        Kind::GotRelax
    );
    assert_eq!(
        classify(R_390_GOTENT, &data, 2, exe).unwrap().kind,
        Kind::Got
    );
    // lgrl -> larl, and an odd symbol keeps the GOT load.
    let mut out = data;
    relax_got(&mut out, 2, R_390_GOTENT, 0x1000, values(0x842, 0x802, 0)).unwrap();
    assert_eq!(out, [0xc0, 0x20, 0, 0, 0x04, 0x00]);
    let mut out = data;
    relax_got(&mut out, 2, R_390_GOTENT, 0x1001, values(0x842, 0x802, 0)).unwrap();
    assert_eq!(out, [0xc4, 0x28, 0, 0, 0, 0x20]);
    // lg %r1,sym@GOT(%r12) -> larl %r1,sym
    let lg = [0xe3, 0x10, 0xc0, 0x00, 0x00, 0x04];
    assert_eq!(
        classify(R_390_GOT20, &lg, 2, pie).unwrap().kind,
        Kind::GotRelax
    );
    let mut out = lg;
    relax_got(
        &mut out,
        2,
        R_390_GOT20,
        0x1000,
        values(0x2040, 0x802, 0x2000),
    )
    .unwrap();
    assert_eq!(out, [0xc0, 0x10, 0, 0, 0x04, 0x00]);
}

#[test]
fn tls_markers() {
    let brasl = [0xc0, 0xe5, 0, 0, 0, 0];
    let le = context(TlsMode::LocalExec, false);
    let ie = context(TlsMode::InitialExec, true);
    let dynamic = context(TlsMode::Dynamic, true);
    assert_eq!(
        classify(R_390_TLS_GDCALL, &brasl, 0, le).unwrap().kind,
        Kind::GdToLe
    );
    assert_eq!(
        classify(R_390_TLS_GDCALL, &brasl, 0, ie).unwrap().kind,
        Kind::GdToIe
    );
    assert_eq!(
        classify(R_390_TLS_GDCALL, &brasl, 0, dynamic).unwrap().kind,
        Kind::Nothing
    );
    assert_eq!(
        classify(R_390_TLS_GDCALL, &[0; 6], 0, le),
        Err(ClassifyError::BadTlsInstruction)
    );
    let mut out = brasl;
    relax_tls(
        &mut out,
        0,
        Kind::GdToIe,
        R_390_TLS_GDCALL,
        RelaxValues::default(),
    )
    .unwrap();
    assert_eq!(out, LG_R2_GOT);
    let mut pool = [0u8; 8];
    let values = RelaxValues {
        tpoff: -16,
        ..RelaxValues::default()
    };
    relax_tls(&mut pool, 0, Kind::GdToLe, R_390_TLS_GD64, values).unwrap();
    assert_eq!(pool, (-16i64).to_be_bytes());
    let values = RelaxValues {
        got: 0x2018,
        got_base: 0x2000,
        ..RelaxValues::default()
    };
    relax_tls(&mut pool, 0, Kind::GdToIe, R_390_TLS_GD64, values).unwrap();
    assert_eq!(pool, 0x18u64.to_be_bytes());
    assert_eq!(
        classify(R_390_TLS_GD32, &pool, 0, le),
        Err(ClassifyError::Unsupported)
    );
}
