use qld::arch::arm::Field as ArmField;
use qld::arch::errata::{scan_835769, scan_843419};
use qld::arch::riscv;
use qld::elf::arch::{add_value, width_bytes, Arch, Branch, DynKind, PltFlags, Width};
use qld::elf::consts::aarch64::{R_AARCH64_ABS64, R_AARCH64_CALL26};
use qld::target::{Architecture, Endianness, Target};

const ALL: [Arch; 5] = [Arch::X86_64, Arch::AArch64, Arch::Ppc64, Arch::Arm, Arch::RiscV64];

#[test]
fn machines_name_their_architecture() {
    assert_eq!(Arch::default(), Arch::X86_64);
    for arch in [Arch::X86_64, Arch::AArch64, Arch::Ppc64] {
        assert_eq!(Arch::from_machine(arch.machine()), Some(arch));
    }
    assert_eq!(Arch::from_machine(2), None);
    let target = |arch, endian| Arch::from_target(Target { arch, endian });
    assert_eq!(target(Architecture::PowerPc64, Endianness::Little), Some(Arch::Ppc64));
    assert_eq!(target(Architecture::PowerPc64, Endianness::Big), None);
    assert_eq!(ALL.map(Arch::machine), [62, 183, 21, 40, 243]);
}

#[test]
fn relocations_are_labelled() {
    assert_eq!(Arch::AArch64.reloc_label(R_AARCH64_ABS64), "R_AARCH64_ABS64");
    assert_eq!(Arch::X86_64.reloc_label(12_345), "12345");
    assert_eq!(Arch::X86_64.dyn_reloc(DynKind::JumpSlot), 7);
    assert_eq!(Arch::AArch64.dyn_reloc(DynKind::Relative), 1027);
}

#[test]
fn padding_fills_everything() {
    for arch in ALL {
        for len in [0usize, 4, 8, 24] {
            let mut out = vec![0xa5; len];
            arch.write_nops(&mut out);
            assert!(!out.chunks(4).any(|c| c == [0xa5; 4]), "{arch:?}");
        }
    }
    let mut out = [0u8; 4];
    Arch::AArch64.write_nops(&mut out);
    assert_eq!(out, 0xd503_201fu32.to_le_bytes());
}

#[test]
fn far_branches_take_thunks() {
    let near = Branch {
        r_type: R_AARCH64_CALL26,
        place: 0x10_0000,
        target: 0x20_0000,
        st_other: 0,
        via_stub: false,
        slot: None,
    };
    assert_eq!(Arch::AArch64.branch_thunk(near), None);
    let far = Branch { target: 0x4000_0000, ..near };
    assert_eq!(Arch::AArch64.branch_thunk(far), Some(0x4000_0000));
    assert_eq!(Arch::X86_64.branch_thunk(far), None);
    let mut out = vec![0u8; 12];
    Arch::AArch64.write_thunk(&mut out, 0, 0x10_0000, 0x4000_0000).unwrap();
    assert_eq!(&out[8..], &0xd61f_0200u32.to_le_bytes());
}

#[test]
fn plt_entries_grow_with_landing_pads() {
    let plain = PltFlags::default();
    let pads = PltFlags { landing_pad: true, entry_landing_pad: true };
    assert_eq!(Arch::AArch64.plt_entry_size(plain), 16);
    assert_eq!(Arch::AArch64.plt_entry_size(pads), 24);
    assert_eq!(Arch::X86_64.plt_entry_size(plain), 16);
}

#[test]
fn values_are_added_in_place() {
    let mut out = vec![0xff, 0xff, 1, 0];
    assert_eq!(width_bytes(Width::Any16), 2);
    add_value(&mut out, 0, Width::Any16, 2).unwrap();
    assert_eq!(out, [1, 0, 1, 0]);
    assert!(add_value(&mut out, 3, Width::Any16, 1).is_err());
}

#[test]
fn arm_fields_decode_what_they_encode() {
    for (field, insn, value) in [
        (ArmField::Branch24, 0xeb00_0000, -8),
        (ArmField::ThumbBranch24, 0xf000_d000, 0x1234),
        (ArmField::Prel31, 0x8000_0000, -16),
    ] {
        let word = field.encode(insn, value).unwrap();
        assert_eq!(field.decode(word), value, "{field:?}");
    }
}

#[test]
fn riscv_immediates_round_to_the_nearest_page() {
    assert_eq!(riscv::hi20(0x1234_5800), 0x1_2346);
    assert_eq!(riscv::lo12(0x1234_5800), 0x800);
}

#[test]
fn erratum_sequences_are_found() {
    // adrp x0; str x1, [x2]; ldr x3, [x0, #8], the adrp at a page's end.
    let words = [0x9000_0000u32, 0xf900_0041, 0xf940_0403, 0xd503_201f];
    let code: Vec<u8> = words.iter().flat_map(|w| w.to_le_bytes()).collect();
    assert_eq!(scan_843419(&code, 0xff8, 0, 16), [8]);
    assert!(scan_843419(&code, 0, 0, 16).is_empty());
    // ldr x1, [x2]; madd x3, x4, x5, x6.
    let words = [0xf940_0041u32, 0x9b05_1883];
    let code: Vec<u8> = words.iter().flat_map(|w| w.to_le_bytes()).collect();
    assert_eq!(scan_835769(&code, 0, 8), [4]);
}
