use qld::arch::arm::{write_thumb32, BX_IP, Field, THUMB_BX_IP};
use qld::bytes::{get_u16, get_u32, put_u32};
use qld::elf::arch::arm::{
    class, classify, implicit_addend, reloc_name, thunk_key, write_thunk, Branch, R_ARM_ABS32,
    R_ARM_CALL, R_ARM_JUMP24, R_ARM_PREL31, R_ARM_RELATIVE, R_ARM_TARGET1, R_ARM_TARGET2,
    R_ARM_THM_CALL, R_ARM_THM_JUMP24, R_ARM_TLS_GD32, R_ARM_TLS_GOTDESC, R_ARM_TLS_IE32, R_ARM_V4BX,
};
use qld::elf::arch::{ClassifyContext, GotKind, Kind, Width};

fn context() -> ClassifyContext {
    ClassifyContext::static_exec(true)
}

#[test]
fn classifies_the_common_relocations() {
    let c = |r| classify(r, context()).unwrap();
    assert_eq!(c(R_ARM_ABS32), class(Kind::Abs, Width::Any32));
    assert_eq!(c(R_ARM_TARGET1), class(Kind::Abs, Width::Any32));
    assert_eq!(c(R_ARM_TARGET2).kind, Kind::Got);
    assert_eq!(c(R_ARM_TLS_GD32).slot, GotKind::TlsGd);
    assert_eq!(c(R_ARM_TLS_IE32).slot, GotKind::TpOff);
    assert_eq!(c(R_ARM_V4BX).kind, Kind::Nothing);
    assert_eq!(c(R_ARM_THM_CALL).width, Width::Arm(Field::ThumbBranch24));
    assert!(classify(R_ARM_TLS_GOTDESC, context()).is_err());
    assert!(classify(R_ARM_RELATIVE, context()).is_err());
    assert_eq!(reloc_name(R_ARM_THM_JUMP24), Some("R_ARM_THM_JUMP24"));
}

#[test]
fn arm_reads_implicit_addends() {
    let mut data = vec![0u8; 16];
    put_u32(&mut data, 0, 0xebff_fffe);
    write_thumb32(&mut data, 4, 0xf7ff_fffe);
    put_u32(&mut data, 8, 0xffff_fffc);
    put_u32(&mut data, 12, 0x7fff_fff0);
    assert_eq!(implicit_addend(R_ARM_CALL, &data, 0), -8);
    assert_eq!(implicit_addend(R_ARM_THM_CALL, &data, 4), -4);
    assert_eq!(implicit_addend(R_ARM_ABS32, &data, 8), -4);
    assert_eq!(implicit_addend(R_ARM_PREL31, &data, 12), -16);
    assert_eq!(implicit_addend(R_ARM_ABS32, &data, 14), 0);
}

fn branch(r_type: u32, insn: u32, destination: u64, function: bool) -> Branch {
    Branch {
        r_type,
        insn,
        place: 0x1_0000,
        destination,
        function,
        via_stub: false,
    }
}

#[test]
fn plans_interworking() {
    // bl to a Thumb function: blx, no thunk.
    let plan = branch(R_ARM_CALL, 0xebff_fffe, 0x2_0001, true).plan();
    assert!(plan.thumb_target && !plan.thunk);
    // b to a Thumb function: thunk.
    let plan = branch(R_ARM_JUMP24, 0xeaff_fffe, 0x2_0001, true).plan();
    assert!(plan.thumb_target && plan.thunk);
    // Thumb bl to an A32 function: blx.
    let plan = branch(R_ARM_THM_CALL, 0xf7ff_fffe, 0x2_0000, true).plan();
    assert!(!plan.thumb_target && !plan.thunk);
    // Thumb b.w to a PLT entry: thunk.
    let mut via_plt = branch(R_ARM_THM_JUMP24, 0xf7ff_bffe, 0x2_0000, false);
    via_plt.via_stub = true;
    assert!(via_plt.plan().thunk);
    // A label without a type keeps the instruction's state.
    let plan = branch(R_ARM_THM_CALL, 0xf7ff_effe, 0x2_0000, false).plan();
    assert!(!plan.thumb_target && !plan.thunk);
    // Out of range.
    let plan = branch(R_ARM_CALL, 0xebff_fffe, 0x300_0000, true).plan();
    assert!(plan.thunk);
    let plan = branch(R_ARM_THM_CALL, 0xf7ff_fffe, 0x102_0001, true).plan();
    assert!(plan.thunk);
    let plan = branch(R_ARM_THM_CALL, 0xf7ff_fffe, 0x100_0001, true).plan();
    assert!(!plan.thunk);
}

#[test]
fn thunk_keys_carry_the_state() {
    let key = thunk_key(0x2_0001, true, false);
    let mut out = [0u8; 16];
    write_thunk(&mut out, 0, 0x1000, key).unwrap();
    assert_eq!(get_u16(&out, 8), Some(THUMB_BX_IP));
    let key = thunk_key(0x2_0000, false, true);
    write_thunk(&mut out, 0, 0x1000, key).unwrap();
    assert_eq!(get_u32(&out, 12), Some(BX_IP));
}
