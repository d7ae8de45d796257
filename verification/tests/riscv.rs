use qld::arch::riscv::{Field, NOP};
use qld::elf::arch::{Class, ClassifyContext, ClassifyError, Kind, Width};
use qld::elf::arch::riscv::{
    classify, incompatible_flags, interpreter, output_flags, write_plt_entry, write_plt_header,
};
use qld::elf::arch::riscv::relax::fill_nops;
use qld::elf::consts::riscv::{
    R_RISCV_64, R_RISCV_CALL_PLT, R_RISCV_GOT_HI20, R_RISCV_GPREL_I, R_RISCV_PCREL_LO12_I,
    R_RISCV_RELATIVE, R_RISCV_RVC_LUI, R_RISCV_TLSDESC_HI20, R_RISCV_TLS_GOT_HI20,
};

fn exec() -> ClassifyContext {
    ClassifyContext::static_exec(true)
}

fn words(bytes: &[u8]) -> Vec<u32> {
    bytes.chunks_exact(4).map(|w| u32::from_le_bytes([w[0], w[1], w[2], w[3]])).collect()
}

#[test]
fn relocations_are_classified() {
    assert_eq!(
        classify(R_RISCV_64, exec()).unwrap(),
        Class::new(Kind::Abs, Width::W64)
    );
    assert_eq!(
        classify(R_RISCV_CALL_PLT, exec()).unwrap().width,
        Width::RiscV(Field::Call)
    );
    let got = classify(R_RISCV_GOT_HI20, exec()).unwrap();
    assert!(got.needs_got());
    let ie = classify(R_RISCV_TLS_GOT_HI20, exec()).unwrap();
    assert!(ie.needs_gottpoff());
    assert_eq!(
        classify(R_RISCV_PCREL_LO12_I, exec()).unwrap().kind,
        Kind::Nothing
    );
    assert_eq!(
        classify(R_RISCV_TLSDESC_HI20, exec()).unwrap().kind,
        Kind::DescToLe
    );
    for r_type in [R_RISCV_RVC_LUI, R_RISCV_GPREL_I, R_RISCV_RELATIVE, 200] {
        assert_eq!(
            classify(r_type, exec()),
            Err(ClassifyError::Unsupported),
            "{r_type}"
        );
    }
}

/// The PLT lld 23 writes for a shared object whose `.plt` is at 0x1310
/// and `.got.plt` at 0x3400.
#[test]
fn riscv_plt_matches_lld() {
    let mut header = [0u8; 32];
    write_plt_header(&mut header, 0x1310, 0x3400).unwrap();
    assert_eq!(
        words(&header),
        [
            0x0000_2397, // auipc t2, 0x2
            0x41c3_0333, // sub t1, t1, t3
            0x0f03_be03, // ld t3, 0xf0(t2)
            0xfd43_0313, // addi t1, t1, -0x2c
            0x0f03_8293, // addi t0, t2, 0xf0
            0x0013_5313, // srli t1, t1, 0x1
            0x0082_b283, // ld t0, 0x8(t0)
            0x000e_0067, // jr t3
        ]
    );
    let mut entry = [0u8; 16];
    write_plt_entry(&mut entry, 0x1330, 0x3410).unwrap();
    assert_eq!(words(&entry), [0x0000_2e17, 0x0e0e_3e03, 0x000e_0367, NOP]);
}

#[test]
fn flags_merge_rvc_and_reject_abi_mismatches() {
    assert_eq!(output_flags(&[0x4, 0x5, 0x4]), 0x5);
    assert_eq!(output_flags(&[]), 0);
    assert_eq!(incompatible_flags(0x5, 0x1), Some("floating-point ABI"));
    assert_eq!(incompatible_flags(0x5, 0x4), None);
    assert_eq!(interpreter(0x5), "/lib/ld-linux-riscv64-lp64d.so.1");
}

#[test]
fn padding_is_nops_then_a_compressed_nop() {
    let mut out = [0u8; 6];
    fill_nops(&mut out);
    assert_eq!(out, [0x13, 0, 0, 0, 0x01, 0]);
}
