use qld::elf::arch::{
    write_value, ApplyError, ClassifyContext, ClassifyError, GotKind, Kind, RelaxValues, TlsMode,
    Width,
};
use qld::elf::arch::x86_64::{
    classify, classify_x32, relax_got, relax_got_x32, relax_tls, relax_tls_x32, write_plt_entry,
    write_plt_header, write_plt_jump, GD_TO_IE, GD_TO_LE, X32_GD_TO_IE, X32_GD_TO_LE, X32_LD_TO_LE,
    X32_LD_TO_LE_INDIRECT,
};
use qld::elf::consts::x86_64::{
    R_X86_64_COPY, R_X86_64_GOTPC32_TLSDESC, R_X86_64_GOTPCREL, R_X86_64_GOTPCRELX,
    R_X86_64_REX_GOTPCRELX, R_X86_64_TLSGD, R_X86_64_TLSLD,
};

/// A relaxation that only needs the thread pointer offset.
fn tpoff(tpoff: i64) -> RelaxValues {
    RelaxValues {
        tpoff,
        ..RelaxValues::default()
    }
}

/// A relaxation that only needs the GOT entry's PC-relative offset.
fn got_pc(got_pc: i64) -> RelaxValues {
    RelaxValues {
        got_pc,
        ..RelaxValues::default()
    }
}

#[test]
fn relaxes_mov_to_lea() {
    // mov foo@GOTPCREL(%rip), %rax
    let mut code = vec![0x48, 0x8b, 0x05, 0, 0, 0, 0];
    let class = classify(
        R_X86_64_REX_GOTPCRELX,
        -4,
        &code,
        3,
        ClassifyContext::static_exec(true),
    )
    .unwrap();
    assert_eq!(class.kind, Kind::RelaxGotPc);
    relax_got(&mut code, 3, class.kind, 0x100).unwrap();
    assert_eq!(code, [0x48, 0x8d, 0x05, 0, 1, 0, 0]);
    let class = classify(
        R_X86_64_REX_GOTPCRELX,
        -4,
        &code,
        3,
        ClassifyContext::static_exec(false),
    )
    .unwrap();
    assert_eq!(class.kind, Kind::Got);
}

#[test]
fn plain_gotpcrel_relaxes_only_mov_in_code() {
    let code_context = ClassifyContext {
        code: true,
        ..ClassifyContext::static_exec(true)
    };
    let mov = [0x48, 0x8b, 0x05, 0, 0, 0, 0];
    let class = classify(R_X86_64_GOTPCREL, -4, &mov, 3, code_context).unwrap();
    assert_eq!(class.kind, Kind::RelaxGotPc);
    let data = classify(
        R_X86_64_GOTPCREL,
        -4,
        &mov,
        3,
        ClassifyContext::static_exec(true),
    )
    .unwrap();
    assert_eq!(data.kind, Kind::Got);
    let call = [0xff, 0x15, 0, 0, 0, 0];
    let class = classify(R_X86_64_GOTPCREL, -4, &call, 2, code_context).unwrap();
    assert_eq!(class.kind, Kind::Got);
}

#[test]
fn relaxes_call_and_jmp() {
    let mut call = vec![0xff, 0x15, 0, 0, 0, 0];
    let class = classify(
        R_X86_64_GOTPCRELX,
        -4,
        &call,
        2,
        ClassifyContext::static_exec(true),
    )
    .unwrap();
    relax_got(&mut call, 2, class.kind, -8).unwrap();
    assert_eq!(call, [0x67, 0xe8, 0xf8, 0xff, 0xff, 0xff]);
    let mut jmp = vec![0xff, 0x25, 0, 0, 0, 0];
    relax_got(&mut jmp, 2, Kind::RelaxGotPc, 0x10).unwrap();
    assert_eq!(jmp, [0xe9, 0x11, 0, 0, 0, 0x90]);
}

#[test]
fn relaxes_initial_exec() {
    // movq foo@gottpoff(%rip), %rax
    let mut code = vec![0x48, 0x8b, 0x05, 0, 0, 0, 0];
    relax_tls(&mut code, 3, Kind::IeToLe, tpoff(-0x14)).unwrap();
    assert_eq!(code, [0x48, 0xc7, 0xc0, 0xf0, 0xff, 0xff, 0xff]);
    let mut bad = vec![0x0f, 0x0b, 0x05, 0, 0, 0, 0];
    assert_eq!(
        relax_tls(&mut bad, 3, Kind::IeToLe, tpoff(0)),
        Err(ApplyError::BadInstruction)
    );
}

#[test]
fn relaxes_general_dynamic() {
    let mut code = vec![
        0x66, 0x48, 0x8d, 0x3d, 0, 0, 0, 0, 0x66, 0x66, 0x48, 0xe8, 0, 0, 0, 0,
    ];
    let class = classify(
        R_X86_64_TLSGD,
        -4,
        &code,
        4,
        ClassifyContext::static_exec(true),
    )
    .unwrap();
    let plt = classify(
        R_X86_64_TLSGD,
        -4,
        &[
            0x66, 0x48, 0x8d, 0x3d, 0, 0, 0, 0, 0x66, 0x48, 0xff, 0x15, 0, 0, 0, 0,
        ],
        4,
        ClassifyContext::static_exec(true),
    );
    assert_eq!(plt.map(|c| c.kind), Ok(Kind::GdToLe));
    let shared = ClassifyContext {
        relax_got: false,
        pic: true,
        tls: TlsMode::Dynamic,
        tls_ld: TlsMode::Dynamic,
        code: true,
    };
    let kept = classify(R_X86_64_TLSGD, -4, &code, 4, shared).unwrap();
    assert_eq!(kept.kind, Kind::Got);
    assert_eq!(kept.slot, GotKind::TlsGd);
    let ie = ClassifyContext {
        tls: TlsMode::InitialExec,
        tls_ld: TlsMode::LocalExec,
        ..shared
    };
    let mut gd = code.clone();
    let ie_class = classify(R_X86_64_TLSGD, -4, &gd, 4, ie).unwrap();
    assert_eq!(ie_class.kind, Kind::GdToIe);
    relax_tls(&mut gd, 4, Kind::GdToIe, got_pc(0x100 - 4)).unwrap();
    assert_eq!(&gd[..12], &GD_TO_IE[..12]);
    assert_eq!(&gd[12..], &(0x100i32 - 12).to_le_bytes());
    assert_eq!(class.kind, Kind::GdToLe);
    relax_tls(&mut code, 4, Kind::GdToLe, tpoff(-8 - 4)).unwrap();
    assert_eq!(&code[..12], &GD_TO_LE[..12]);
    assert_eq!(&code[12..], &(-8i32).to_le_bytes());
}

#[test]
fn plt_entries_jump_through_their_slots() {
    let mut header = [0u8; 16];
    write_plt_header(&mut header, 0x1020, 0x3000).unwrap();
    assert_eq!(&header[..2], &[0xff, 0x35]);
    assert_eq!(&header[2..6], &(0x3008i32 - 0x1026).to_le_bytes());
    let mut entry = [0u8; 16];
    write_plt_entry(&mut entry, 0x1030, 0x3018, 3, 0x1020, false).unwrap();
    assert_eq!(&entry[2..6], &(0x3018i32 - 0x1036).to_le_bytes());
    assert_eq!(&entry[7..11], &3u32.to_le_bytes());
    assert_eq!(&entry[12..16], &(0x1020i32 - 0x1040).to_le_bytes());
    write_plt_entry(&mut entry, 0x1030, 0x3018, 3, 0x1020, true).unwrap();
    assert_eq!(&entry[..4], &[0xf3, 0x0f, 0x1e, 0xfa]);
    assert_eq!(&entry[10..14], &(0x1020i32 - 0x103e).to_le_bytes());
    let mut sec = [0u8; 16];
    write_plt_jump(&mut sec, 0x1050, 0x3018, true).unwrap();
    assert_eq!(&sec[6..10], &(0x3018i32 - 0x105a).to_le_bytes());
    let mut got = [0u8; 8];
    write_plt_jump(&mut got, 0x1050, 0x3018, false).unwrap();
    assert_eq!(got[..2], [0xff, 0x25]);
}

#[test]
fn value_widths_are_checked() {
    let mut buf = [0u8; 8];
    assert_eq!(
        write_value(&mut buf, 0, Width::U32, 1 << 32),
        Err(ApplyError::Overflow)
    );
    assert_eq!(write_value(&mut buf, 0, Width::I32, (-1i64) as u64), Ok(()));
    assert_eq!(buf[..4], [0xff; 4]);
    assert_eq!(
        write_value(&mut buf, 6, Width::U32, 0),
        Err(ApplyError::OutOfBounds)
    );
    assert_eq!(write_value(&mut buf, 0, Width::Any8, 0xff), Ok(()));
    assert_eq!(
        write_value(&mut buf, 0, Width::I8, 0xff),
        Err(ApplyError::Overflow)
    );
}

#[test]
fn unsupported_types_are_reported() {
    assert_eq!(
        classify(R_X86_64_COPY, 0, &[], 0, ClassifyContext::static_exec(true)),
        Err(ClassifyError::Unsupported)
    );
    assert_eq!(
        classify(
            R_X86_64_TLSGD,
            -4,
            &[0; 8],
            4,
            ClassifyContext::static_exec(true)
        ),
        Err(ClassifyError::BadTlsInstruction)
    );
}

/// x32 general-dynamic: the `lea` has no `0x66` prefix, and the
/// relaxed sequences start 3 bytes before the relocation.
#[test]
fn x32_relaxes_general_dynamic() {
    let mut code = vec![
        0x48, 0x8d, 0x3d, 0, 0, 0, 0, 0x66, 0x66, 0x48, 0xe8, 0, 0, 0, 0,
    ];
    let class = classify_x32(
        R_X86_64_TLSGD,
        -4,
        &code,
        3,
        ClassifyContext::static_exec(true),
    )
    .unwrap();
    assert_eq!(class.kind, Kind::GdToLe);
    assert!(class.skip_next);
    relax_tls_x32(&mut code, 3, Kind::GdToLe, tpoff(-8 - 4)).unwrap();
    assert_eq!(&code[..11], &X32_GD_TO_LE[..11]);
    assert_eq!(&code[11..], &(-8i32).to_le_bytes());
    // Without the `lea` an x32 sequence is not recognized.
    assert_eq!(
        classify_x32(
            R_X86_64_TLSGD,
            -4,
            &[
                0x90, 0x90, 0x90, 0, 0, 0, 0, 0x66, 0x66, 0x48, 0xe8, 0, 0, 0, 0
            ],
            3,
            ClassifyContext::static_exec(true)
        ),
        Err(ClassifyError::BadTlsInstruction)
    );
    // To initial-exec: `addq x@gottpoff(%rip), %rax` reads the entry
    // 12 bytes past the relocation.
    let mut gd = vec![
        0x48, 0x8d, 0x3d, 0, 0, 0, 0, 0x66, 0x48, 0xff, 0x15, 0, 0, 0, 0,
    ];
    relax_tls_x32(&mut gd, 3, Kind::GdToIe, got_pc(0x100 - 4)).unwrap();
    assert_eq!(&gd[..11], &X32_GD_TO_IE[..11]);
    assert_eq!(&gd[11..], &(0x100i32 - 12).to_le_bytes());
}

/// x32 local-dynamic: `nopl 0(%rax)` before `movl %fs:0, %eax`, one
/// byte longer for the indirect call.
#[test]
fn x32_relaxes_local_dynamic() {
    let mut direct = vec![0x48, 0x8d, 0x3d, 0, 0, 0, 0, 0xe8, 0, 0, 0, 0];
    let class = classify_x32(
        R_X86_64_TLSLD,
        -4,
        &direct,
        3,
        ClassifyContext::static_exec(true),
    )
    .unwrap();
    assert_eq!(class.kind, Kind::LdToLe);
    relax_tls_x32(&mut direct, 3, Kind::LdToLe, tpoff(0)).unwrap();
    assert_eq!(direct, X32_LD_TO_LE);
    let mut indirect = vec![0x48, 0x8d, 0x3d, 0, 0, 0, 0, 0xff, 0x15, 0, 0, 0, 0];
    relax_tls_x32(&mut indirect, 3, Kind::LdToLe, tpoff(0)).unwrap();
    assert_eq!(indirect, X32_LD_TO_LE_INDIRECT);
}

/// x32 initial-exec: `addl` without a REX prefix, with an empty one,
/// and with `0x44`, whose R bit moves to B.
#[test]
fn x32_relaxes_initial_exec() {
    // addl foo@gottpoff(%rip), %eax -> leal foo(%rax), %eax
    let mut plain = vec![0x03, 0x05, 0, 0, 0, 0];
    relax_tls_x32(&mut plain, 2, Kind::IeToLe, tpoff(-0x14)).unwrap();
    assert_eq!(plain, [0x8d, 0x80, 0xf0, 0xff, 0xff, 0xff]);
    // rex addl foo@gottpoff(%rip), %eax -> rex leal foo(%rax), %eax
    let mut rex = vec![0x40, 0x03, 0x05, 0, 0, 0, 0];
    relax_tls_x32(&mut rex, 3, Kind::IeToLe, tpoff(-0x14)).unwrap();
    assert_eq!(rex, [0x40, 0x8d, 0x80, 0xf0, 0xff, 0xff, 0xff]);
    // addl foo@gottpoff(%rip), %r9d -> leal foo(%r9), %r9d
    let mut high = vec![0x44, 0x03, 0x0d, 0, 0, 0, 0];
    relax_tls_x32(&mut high, 3, Kind::IeToLe, tpoff(-0x14)).unwrap();
    assert_eq!(high, [0x45, 0x8d, 0x89, 0xf0, 0xff, 0xff, 0xff]);
    // addl foo@gottpoff(%rip), %r12d -> addl $foo, %r12d
    let mut stack = vec![0x44, 0x03, 0x25, 0, 0, 0, 0];
    relax_tls_x32(&mut stack, 3, Kind::IeToLe, tpoff(-0x14)).unwrap();
    assert_eq!(stack, [0x41, 0x81, 0xc4, 0xf0, 0xff, 0xff, 0xff]);
    // movl foo@gottpoff(%rip), %ecx -> movl $foo, %ecx
    let mut load = vec![0x8b, 0x0d, 0, 0, 0, 0];
    relax_tls_x32(&mut load, 2, Kind::IeToLe, tpoff(-0x14)).unwrap();
    assert_eq!(load, [0xc7, 0xc1, 0xf0, 0xff, 0xff, 0xff]);
}

/// x32 TLS descriptors: `rex leal x@tlsdesc(%rip), %eax` and
/// `call *(%eax)`, which becomes `nopl (%rax)`.
#[test]
fn x32_relaxes_descriptors() {
    let mut lea = vec![0x40, 0x8d, 0x05, 0, 0, 0, 0];
    let class = classify_x32(
        R_X86_64_GOTPC32_TLSDESC,
        -4,
        &lea,
        3,
        ClassifyContext::static_exec(true),
    )
    .unwrap();
    assert_eq!(class.kind, Kind::DescToLe);
    relax_tls_x32(&mut lea, 3, Kind::DescToLe, tpoff(-0x8 - 4)).unwrap();
    assert_eq!(lea, [0x40, 0xc7, 0xc0, 0xf8, 0xff, 0xff, 0xff]);
    // REX.R moves to REX.B: `rex.R leal ..., %r9d` -> `rex.B movl`.
    let mut high = vec![0x44, 0x8d, 0x0d, 0, 0, 0, 0];
    relax_tls_x32(&mut high, 3, Kind::DescToLe, tpoff(-4)).unwrap();
    assert_eq!(high, [0x41, 0xc7, 0xc1, 0, 0, 0, 0]);
    // The descriptor call, with and without the address-size prefix.
    let mut call = vec![0x67, 0xff, 0x10];
    relax_tls_x32(&mut call, 0, Kind::DescCallToLe, RelaxValues::default()).unwrap();
    assert_eq!(call, [0x0f, 0x1f, 0x00]);
    let mut lp64 = vec![0xff, 0x10];
    relax_tls_x32(&mut lp64, 0, Kind::DescCallToLe, RelaxValues::default()).unwrap();
    assert_eq!(lp64, [0x66, 0x90]);
    // To initial-exec, the `lea` becomes a `mov` of the GOT entry.
    let mut ie = vec![0x40, 0x8d, 0x05, 0, 0, 0, 0];
    relax_tls_x32(&mut ie, 3, Kind::DescToIe, got_pc(0x20)).unwrap();
    assert_eq!(ie, [0x40, 0x8b, 0x05, 0x20, 0, 0, 0]);
}

/// x32 `GOTPCRELX`: in position-dependent output a load takes the
/// address as an immediate with REX.W cleared, and `test` and binary
/// operators do so with or without a REX prefix. A form whose REX
/// prefix cannot be told from the previous instruction's last byte is
/// left to the `lea` relaxation.
#[test]
fn x32_relaxes_got_loads() {
    let context = ClassifyContext::static_exec(true);
    // movq foo@GOTPCREL(%rip), %rax -> movl $foo, %eax
    let mut wide = vec![0x48, 0x8b, 0x05, 0, 0, 0, 0];
    let class = classify_x32(R_X86_64_REX_GOTPCRELX, -4, &wide, 3, context).unwrap();
    assert_eq!(class.kind, Kind::RelaxGotPcNoPic);
    relax_got_x32(&mut wide, 3, class.kind, 0x4000f8).unwrap();
    assert_eq!(wide, [0x40, 0xc7, 0xc0, 0xfc, 0x00, 0x40, 0x00]);
    // movl foo@GOTPCREL(%rip), %eax, with no REX prefix at all.
    let mut plain = vec![0x8b, 0x05, 0, 0, 0, 0];
    let class = classify_x32(R_X86_64_GOTPCRELX, -4, &plain, 2, context).unwrap();
    assert_eq!(class.kind, Kind::RelaxGotPcNoPic);
    relax_got_x32(&mut plain, 2, class.kind, 0xfc).unwrap();
    assert_eq!(plain, [0xc7, 0xc0, 0x00, 0x01, 0x00, 0x00]);
    // addl foo@GOTPCREL(%rip), %eax -> addl $foo, %eax
    let mut binop = vec![0x03, 0x05, 0, 0, 0, 0];
    let class = classify_x32(R_X86_64_GOTPCRELX, -4, &binop, 2, context).unwrap();
    relax_got_x32(&mut binop, 2, class.kind, 0xfc).unwrap();
    assert_eq!(binop, [0x81, 0xc0, 0x00, 0x01, 0x00, 0x00]);
    // A byte that could be a REX prefix before a `GOTPCRELX` load: the
    // load relaxes to a `lea`, which rewrites no prefix.
    let ambiguous = vec![0x41, 0x8b, 0x05, 0, 0, 0, 0];
    let class = classify_x32(R_X86_64_GOTPCRELX, -4, &ambiguous, 3, context).unwrap();
    assert_eq!(class.kind, Kind::RelaxGotPc);
    // In position-independent output nothing takes an immediate: a
    // load becomes a `lea` and the rest keep their GOT entry.
    let pic = ClassifyContext {
        pic: true,
        ..context
    };
    let load = [0x48, 0x8b, 0x05, 0, 0, 0, 0];
    let class = classify_x32(R_X86_64_REX_GOTPCRELX, -4, &load, 3, pic).unwrap();
    assert_eq!(class.kind, Kind::RelaxGotPc);
    let add = [0x03, 0x05, 0, 0, 0, 0];
    let class = classify_x32(R_X86_64_GOTPCRELX, -4, &add, 2, pic).unwrap();
    assert_eq!(class.kind, Kind::Got);
}
