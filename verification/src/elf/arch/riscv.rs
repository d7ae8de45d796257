//! RISC-V 64 (RV64, LP64/LP64D, little-endian) relocations.
//!
//! RISC-V relocations are not independent the way x86-64 and AArch64 ones
//! are, so besides the shared [`classify`] this backend has its own
//! relocation writer ([`apply`]) and a layout hook ([`relax`]):
//!
//! - A `%pcrel_lo` (`R_RISCV_PCREL_LO12_*`) names the *label* of its
//!   `auipc`, not the symbol: its value is the low part of whatever the
//!   `R_RISCV_*_HI20` at that label computes (a PC-relative address, a GOT
//!   slot, a TLS GOT entry). The TLS descriptor `LOAD_LO12`/`ADD_LO12`/`CALL`
//!   relocations likewise take their meaning from the `TLSDESC_HI20` before
//!   them.
//! - `R_RISCV_ADD*`/`SUB*`/`SET*` and `SET_ULEB128`/`SUB_ULEB128` compute
//!   label differences in place (DWARF, `.eh_frame`, jump tables); they are
//!   final at link time and never become dynamic relocations.
//! - Linker relaxation deletes bytes from code sections: calls become `jal`
//!   or `c.j`, local-exec TLS and small absolute addresses lose their `lui`,
//!   TLS descriptors become local-exec or initial-exec sequences, and
//!   `R_RISCV_ALIGN` padding is trimmed (always, even with `--no-relax`).
//!   See [`relax`] for how layout iterates and how symbols follow.
//!
//! The decisions follow lld (`lld/ELF/Arch/RISCV.cpp`), so both linkers
//! produce the same code: no global-pointer relaxation unless asked, no
//! general-dynamic or initial-exec TLS relaxation (the psABI defines none),
//! and descriptors relaxed only in executables.
//!
//! The PLT is the psABI's (and GNU ld's and lld's): a 32-byte header that
//! computes the `.got.plt` index from `t1` and jumps to the resolver, then
//! 16-byte entries `auipc t3; ld t3; jalr t1, t3; nop`.

pub mod apply;
pub mod attributes;
pub mod isa;
pub mod relax;

use vstd::prelude::*;

use super::{ApplyError, Class, ClassifyContext, ClassifyError, GotKind, Kind, TlsMode, Width};
use super::patch::{put_word, Patched};
use crate::arch::riscv::{
    check_hi, hi20, itype, lo12, rtype, utype, Field, ADDI, AUIPC, JALR, LD, NOP, SRLI, SUB, T0,
    T1, T2, T3, X0,
};
use crate::bytes::fill_zero;
use crate::elf::consts::riscv as r;

verus! {

/// `e_flags`: the object uses compressed instructions.
pub const EF_RISCV_RVC: u32 = 0x1;

/// `e_flags`: the floating-point ABI.
pub const EF_RISCV_FLOAT_ABI: u32 = 0x6;

/// `e_flags`: the RV32E/RV64E base.
pub const EF_RISCV_RVE: u32 = 0x8;

/// `p_type` of the segment that holds `.riscv.attributes`.
pub const PT_RISCV_ATTRIBUTES: u32 = 0x7000_0003;

/// A classification of a field.
#[verifier::allow_in_spec]
pub fn class(kind: Kind, field: Field) -> Class
    returns
        (Class::new(kind, Width::RiscV(field))),
{
    Class::new(kind, Width::RiscV(field))
}

/// A classification through GOT entry `slot`.
#[verifier::allow_in_spec]
pub fn got(kind: Kind, field: Field, slot: GotKind) -> Class
    returns
        (class(kind, field).through(slot)),
{
    class(kind, field).through(slot)
}

/// Nothing to do.
#[verifier::allow_in_spec]
pub fn nothing() -> Class
    returns
        (Class::new(Kind::Nothing, Width::Nothing)),
{
    Class::new(Kind::Nothing, Width::Nothing)
}

/// Whether `r_type` is an upper-20-bit relocation a `%pcrel_lo` may refer
/// to.
#[verifier::allow_in_spec]
pub fn is_pcrel_hi(r_type: u32) -> bool
    returns
        (match r_type {
            r::R_RISCV_PCREL_HI20
            | r::R_RISCV_GOT_HI20
            | r::R_RISCV_TLS_GD_HI20
            | r::R_RISCV_TLS_GOT_HI20 => true,
            _ => false,
        }),
{
    match r_type {
        r::R_RISCV_PCREL_HI20
        | r::R_RISCV_GOT_HI20
        | r::R_RISCV_TLS_GD_HI20
        | r::R_RISCV_TLS_GOT_HI20 => true,
        _ => false,
    }
}

/// What [`classify`] answers.
pub open spec fn spec_classify(
    r_type: u32,
    context: ClassifyContext,
) -> Result<Class, ClassifyError> {
    match r_type {
        r::R_RISCV_NONE
        | r::R_RISCV_RELAX
        | r::R_RISCV_ALIGN
        | r::R_RISCV_TPREL_ADD
        | r::R_RISCV_VENDOR => Ok(nothing()),
        r::R_RISCV_PCREL_LO12_I
        | r::R_RISCV_PCREL_LO12_S
        | r::R_RISCV_TLSDESC_LOAD_LO12
        | r::R_RISCV_TLSDESC_ADD_LO12
        | r::R_RISCV_TLSDESC_CALL => Ok(nothing()),

        r::R_RISCV_32 => Ok(class(Kind::Abs, Field::Word32)),
        r::R_RISCV_64 => Ok(Class::new(Kind::Abs, Width::W64)),
        r::R_RISCV_HI20 => Ok(class(Kind::Abs, Field::Hi20)),
        r::R_RISCV_LO12_I => Ok(class(Kind::Abs, Field::Lo12I)),
        r::R_RISCV_LO12_S => Ok(class(Kind::Abs, Field::Lo12S)),

        r::R_RISCV_BRANCH => Ok(class(Kind::Pc, Field::Branch)),
        r::R_RISCV_JAL => Ok(class(Kind::Pc, Field::Jal)),
        r::R_RISCV_RVC_BRANCH => Ok(class(Kind::Pc, Field::RvcBranch)),
        r::R_RISCV_RVC_JUMP => Ok(class(Kind::Pc, Field::RvcJump)),
        r::R_RISCV_CALL | r::R_RISCV_CALL_PLT => Ok(class(Kind::Pc, Field::Call)),
        r::R_RISCV_PLT32 | r::R_RISCV_32_PCREL => Ok(class(Kind::Pc, Field::Word32Signed)),
        r::R_RISCV_PCREL_HI20 => Ok(class(Kind::Pc, Field::Hi20)),

        r::R_RISCV_GOT_HI20 => Ok(got(Kind::Got, Field::Hi20, GotKind::Address)),
        r::R_RISCV_GOT32_PCREL => Ok(got(Kind::Got, Field::Word32Signed, GotKind::Address)),

        r::R_RISCV_TPREL_HI20 => Ok(class(Kind::TpOff, Field::Hi20)),
        r::R_RISCV_TPREL_LO12_I => Ok(class(Kind::TpOff, Field::Lo12I)),
        r::R_RISCV_TPREL_LO12_S => Ok(class(Kind::TpOff, Field::Lo12S)),
        r::R_RISCV_TLS_GOT_HI20 => Ok(got(Kind::Got, Field::Hi20, GotKind::TpOff)),
        r::R_RISCV_TLS_GD_HI20 => Ok(got(Kind::Got, Field::Hi20, GotKind::TlsGd)),
        r::R_RISCV_TLSDESC_HI20 => match context.tls {
            TlsMode::Dynamic => Ok(got(Kind::Got, Field::Hi20, GotKind::TlsDesc)),
            TlsMode::LocalExec => Ok(Class::new(Kind::DescToLe, Width::Nothing)),
            TlsMode::InitialExec => Ok(Class::new(Kind::DescToIe, Width::Nothing)),
        },
        r::R_RISCV_TLS_DTPREL32 => Ok(class(Kind::DtpOff, Field::Dtprel32)),
        r::R_RISCV_TLS_DTPREL64 => Ok(class(Kind::DtpOff, Field::Dtprel64)),

        r::R_RISCV_ADD8 => Ok(Class::new(Kind::Add, Width::Any8)),
        r::R_RISCV_ADD16 => Ok(Class::new(Kind::Add, Width::Any16)),
        r::R_RISCV_ADD32 => Ok(Class::new(Kind::Add, Width::U32)),
        r::R_RISCV_ADD64 => Ok(Class::new(Kind::Add, Width::W64)),
        r::R_RISCV_SUB6 => Ok(class(Kind::Abs, Field::Sub6)),
        r::R_RISCV_SUB8 => Ok(Class::new(Kind::Sub, Width::Any8)),
        r::R_RISCV_SUB16 => Ok(Class::new(Kind::Sub, Width::Any16)),
        r::R_RISCV_SUB32 => Ok(Class::new(Kind::Sub, Width::U32)),
        r::R_RISCV_SUB64 => Ok(Class::new(Kind::Sub, Width::W64)),
        r::R_RISCV_SET6 => Ok(class(Kind::Abs, Field::Set6)),
        r::R_RISCV_SET8 => Ok(class(Kind::Abs, Field::Set8)),
        r::R_RISCV_SET16 => Ok(class(Kind::Abs, Field::Set16)),
        r::R_RISCV_SET32 => Ok(class(Kind::Abs, Field::Set32)),
        r::R_RISCV_SET_ULEB128 => Ok(class(Kind::Abs, Field::SetUleb128)),
        r::R_RISCV_SUB_ULEB128 => Ok(class(Kind::Abs, Field::SubUleb128)),

        _ => Err(ClassifyError::Unsupported),
    }
}

/// Classifies RISC-V relocation `r_type`.
///
/// Relocations whose value comes from another one (`%pcrel_lo`, the
/// descriptor tail) and the relaxation markers classify as
/// [`Kind::Nothing`]: the scan has nothing to do for them, and [`apply`]
/// handles them.
///
/// # Errors
///
/// [`ClassifyError::Unsupported`] for dynamic-only types, the deprecated
/// `RVC_LUI`/`GPREL_*`/`TPREL_I`/`TPREL_S` and unknown or vendor types.
pub fn classify(r_type: u32, context: ClassifyContext) -> (r: Result<Class, ClassifyError>)
    ensures
        r == spec_classify(r_type, context),
{
    match r_type {
        r::R_RISCV_NONE
        | r::R_RISCV_RELAX
        | r::R_RISCV_ALIGN
        | r::R_RISCV_TPREL_ADD
        | r::R_RISCV_VENDOR => Ok(nothing()),
        r::R_RISCV_PCREL_LO12_I
        | r::R_RISCV_PCREL_LO12_S
        | r::R_RISCV_TLSDESC_LOAD_LO12
        | r::R_RISCV_TLSDESC_ADD_LO12
        | r::R_RISCV_TLSDESC_CALL => Ok(nothing()),

        r::R_RISCV_32 => Ok(class(Kind::Abs, Field::Word32)),
        r::R_RISCV_64 => Ok(Class::new(Kind::Abs, Width::W64)),
        r::R_RISCV_HI20 => Ok(class(Kind::Abs, Field::Hi20)),
        r::R_RISCV_LO12_I => Ok(class(Kind::Abs, Field::Lo12I)),
        r::R_RISCV_LO12_S => Ok(class(Kind::Abs, Field::Lo12S)),

        r::R_RISCV_BRANCH => Ok(class(Kind::Pc, Field::Branch)),
        r::R_RISCV_JAL => Ok(class(Kind::Pc, Field::Jal)),
        r::R_RISCV_RVC_BRANCH => Ok(class(Kind::Pc, Field::RvcBranch)),
        r::R_RISCV_RVC_JUMP => Ok(class(Kind::Pc, Field::RvcJump)),
        r::R_RISCV_CALL | r::R_RISCV_CALL_PLT => Ok(class(Kind::Pc, Field::Call)),
        r::R_RISCV_PLT32 | r::R_RISCV_32_PCREL => Ok(class(Kind::Pc, Field::Word32Signed)),
        r::R_RISCV_PCREL_HI20 => Ok(class(Kind::Pc, Field::Hi20)),

        r::R_RISCV_GOT_HI20 => Ok(got(Kind::Got, Field::Hi20, GotKind::Address)),
        r::R_RISCV_GOT32_PCREL => Ok(got(Kind::Got, Field::Word32Signed, GotKind::Address)),

        r::R_RISCV_TPREL_HI20 => Ok(class(Kind::TpOff, Field::Hi20)),
        r::R_RISCV_TPREL_LO12_I => Ok(class(Kind::TpOff, Field::Lo12I)),
        r::R_RISCV_TPREL_LO12_S => Ok(class(Kind::TpOff, Field::Lo12S)),
        r::R_RISCV_TLS_GOT_HI20 => Ok(got(Kind::Got, Field::Hi20, GotKind::TpOff)),
        r::R_RISCV_TLS_GD_HI20 => Ok(got(Kind::Got, Field::Hi20, GotKind::TlsGd)),
        r::R_RISCV_TLSDESC_HI20 => match context.tls {
            TlsMode::Dynamic => Ok(got(Kind::Got, Field::Hi20, GotKind::TlsDesc)),
            TlsMode::LocalExec => Ok(Class::new(Kind::DescToLe, Width::Nothing)),
            TlsMode::InitialExec => Ok(Class::new(Kind::DescToIe, Width::Nothing)),
        },
        r::R_RISCV_TLS_DTPREL32 => Ok(class(Kind::DtpOff, Field::Dtprel32)),
        r::R_RISCV_TLS_DTPREL64 => Ok(class(Kind::DtpOff, Field::Dtprel64)),

        r::R_RISCV_ADD8 => Ok(Class::new(Kind::Add, Width::Any8)),
        r::R_RISCV_ADD16 => Ok(Class::new(Kind::Add, Width::Any16)),
        r::R_RISCV_ADD32 => Ok(Class::new(Kind::Add, Width::U32)),
        r::R_RISCV_ADD64 => Ok(Class::new(Kind::Add, Width::W64)),
        r::R_RISCV_SUB6 => Ok(class(Kind::Abs, Field::Sub6)),
        r::R_RISCV_SUB8 => Ok(Class::new(Kind::Sub, Width::Any8)),
        r::R_RISCV_SUB16 => Ok(Class::new(Kind::Sub, Width::Any16)),
        r::R_RISCV_SUB32 => Ok(Class::new(Kind::Sub, Width::U32)),
        r::R_RISCV_SUB64 => Ok(Class::new(Kind::Sub, Width::W64)),
        r::R_RISCV_SET6 => Ok(class(Kind::Abs, Field::Set6)),
        r::R_RISCV_SET8 => Ok(class(Kind::Abs, Field::Set8)),
        r::R_RISCV_SET16 => Ok(class(Kind::Abs, Field::Set16)),
        r::R_RISCV_SET32 => Ok(class(Kind::Abs, Field::Set32)),
        r::R_RISCV_SET_ULEB128 => Ok(class(Kind::Abs, Field::SetUleb128)),
        r::R_RISCV_SUB_ULEB128 => Ok(class(Kind::Abs, Field::SubUleb128)),

        _ => Err(ClassifyError::Unsupported),
    }
}

/// Whether `r_type` is a call that goes through the PLT when its symbol is
/// preemptible.
#[verifier::allow_in_spec]
pub fn is_branch(r_type: u32) -> bool
    returns
        (match r_type {
            r::R_RISCV_CALL | r::R_RISCV_CALL_PLT | r::R_RISCV_PLT32 => true,
            _ => false,
        }),
{
    match r_type {
        r::R_RISCV_CALL | r::R_RISCV_CALL_PLT | r::R_RISCV_PLT32 => true,
        _ => false,
    }
}

/// Size of the PLT header.
pub const PLT_HEADER_SIZE: u64 = 32;

/// Size of one PLT entry (and of a static IFUNC stub).
pub const PLT_ENTRY_SIZE: u64 = 16;

/// What [`write_plt_header`] does.
pub open spec fn spec_write_plt_header(s: Seq<u8>, plt: u64, got_plt: u64) -> Patched {
    let offset = got_plt.wrapping_sub(plt);
    Patched::new(s).require(crate::arch::riscv::hi_accepts(offset), ApplyError::Overflow).word(
        0,
        utype(AUIPC, T2, hi20(offset)),
    ).word(4, rtype(SUB, T1, T1, T3)).word(8, itype(LD, T3, T2, lo12(offset))).word(
        12,
        itype(ADDI, T1, T1, 0xffff_ffd4),
    ).word(16, itype(ADDI, T0, T2, lo12(offset))).word(20, itype(SRLI, T1, T1, 1)).word(
        24,
        itype(LD, T0, T0, 8),
    ).word(28, itype(JALR, X0, T3, 0))
}

/// Writes the PLT header at address `plt`:
///
/// ```text
/// 1: auipc t2, %pcrel_hi(.got.plt)
///    sub   t1, t1, t3               # t1 = &.plt[i] + 12 - &.plt[0] - 32 ...
///    ld    t3, %pcrel_lo(1b)(t2)    # _dl_runtime_resolve
///    addi  t1, t1, -(32 + 12)       # ... scaled below to the slot index
///    addi  t0, t2, %pcrel_lo(1b)    # &.got.plt
///    srli  t1, t1, 1                # .got.plt slot offset
///    ld    t0, 8(t0)                # link_map
///    jr    t3
/// ```
///
/// # Errors
///
/// [`ApplyError::Overflow`] when `.got.plt` is out of `auipc` range.
pub fn write_plt_header(out: &mut [u8], plt: u64, got_plt: u64) -> (r: Result<(), ApplyError>)
    ensures
        r == spec_write_plt_header(old(out)@, plt, got_plt).result,
        final(out)@ == spec_write_plt_header(old(out)@, plt, got_plt).bytes,
{
    let offset: u64 = got_plt.wrapping_sub(plt);
    if !check_hi(offset) {
        return Err(ApplyError::Overflow);
    }
    put_word(out, 0, utype(AUIPC, T2, hi20(offset)))?;
    put_word(out, 4, rtype(SUB, T1, T1, T3))?;
    put_word(out, 8, itype(LD, T3, T2, lo12(offset)))?;
    put_word(out, 12, itype(ADDI, T1, T1, 0xffff_ffd4))?;
    put_word(out, 16, itype(ADDI, T0, T2, lo12(offset)))?;
    put_word(out, 20, itype(SRLI, T1, T1, 1))?;
    put_word(out, 24, itype(LD, T0, T0, 8))?;
    put_word(out, 28, itype(JALR, X0, T3, 0))
}

/// What [`write_plt_entry`] does.
pub open spec fn spec_write_plt_entry(s: Seq<u8>, entry: u64, slot: u64) -> Patched {
    let offset = slot.wrapping_sub(entry);
    Patched::new(s).require(crate::arch::riscv::hi_accepts(offset), ApplyError::Overflow).word(
        0,
        utype(AUIPC, T3, hi20(offset)),
    ).word(4, itype(LD, T3, T3, lo12(offset))).word(8, itype(JALR, T1, T3, 0)).word(12, NOP)
}

/// Writes a PLT entry (or IFUNC stub) at address `entry` that jumps through
/// the GOT word at `slot`: `auipc t3, %pcrel_hi(slot); ld t3,
/// %pcrel_lo(slot)(t3); jalr t1, t3; nop`.
///
/// # Errors
///
/// [`ApplyError::Overflow`] when the slot is out of `auipc` range.
pub fn write_plt_entry(out: &mut [u8], entry: u64, slot: u64) -> (r: Result<(), ApplyError>)
    ensures
        r == spec_write_plt_entry(old(out)@, entry, slot).result,
        final(out)@ == spec_write_plt_entry(old(out)@, entry, slot).bytes,
{
    let offset: u64 = slot.wrapping_sub(entry);
    if !check_hi(offset) {
        return Err(ApplyError::Overflow);
    }
    put_word(out, 0, utype(AUIPC, T3, hi20(offset)))?;
    put_word(out, 4, itype(LD, T3, T3, lo12(offset)))?;
    put_word(out, 8, itype(JALR, T1, T3, 0))?;
    put_word(out, 12, NOP)
}

/// Fills the gaps of code sections as lld does: with zeros, which decode as
/// an illegal instruction.
pub fn write_nops(out: &mut [u8])
    ensures
        final(out)@ == Seq::new(old(out)@.len(), |i: int| 0u8),
{
    fill_zero(out);
}

/// The merged flags of a sequence of objects.
pub open spec fn merged_flags(flags: Seq<u32>) -> u32
    decreases flags.len(),
{
    if flags.len() == 0 {
        0
    } else if flags.len() == 1 {
        flags[0]
    } else {
        merged_flags(flags.drop_last()) | flags.last() & EF_RISCV_RVC
    }
}

/// The `e_flags` of the output: the first object's, with `RVC` if any
/// object uses compressed instructions (lld's rule).
pub fn output_flags(flags: &[u32]) -> (r: u32)
    ensures
        r == merged_flags(flags@),
{
    if flags.len() == 0 {
        return 0;
    }
    let mut merged: u32 = flags[0];
    let mut i: usize = 1;
    assert(flags@.take(1).len() == 1);
    while i < flags.len()
        invariant
            1 <= i <= flags@.len(),
            merged == merged_flags(flags@.take(i as int)),
        decreases flags@.len() - i,
    {
        assert(flags@.take(i + 1).drop_last() =~= flags@.take(i as int));
        merged = merged | flags[i] & EF_RISCV_RVC;
        i += 1;
    }
    assert(flags@.take(flags@.len() as int) =~= flags@);
    merged
}

/// Objects with compressed code make the output's flags say so, and nothing
/// else of an object but the first reaches them.
pub proof fn compressed_code_is_recorded(flags: Seq<u32>)
    requires
        flags.len() > 0,
    ensures
        merged_flags(flags) & !EF_RISCV_RVC == flags[0] & !EF_RISCV_RVC,
        (merged_flags(flags) & EF_RISCV_RVC != 0) == (exists|i: int|
            0 <= i < flags.len() && #[trigger] flags[i] & EF_RISCV_RVC != 0),
    decreases flags.len(),
{
    if flags.len() > 1 {
        let rest = flags.drop_last();
        compressed_code_is_recorded(rest);
        let m = merged_flags(rest);
        let f = flags.last();
        assert((m | f & 1) & !1u32 == m & !1u32 && ((m | f & 1) & 1 != 0) == (m & 1 != 0 || f & 1
            != 0)) by (bit_vector);
        if exists|i: int| 0 <= i < flags.len() && #[trigger] flags[i] & EF_RISCV_RVC != 0 {
            let i = choose|i: int| 0 <= i < flags.len() && #[trigger] flags[i] & EF_RISCV_RVC != 0;
            if i < rest.len() {
                assert(rest[i] & EF_RISCV_RVC != 0);
            }
        }
        if exists|i: int| 0 <= i < rest.len() && #[trigger] rest[i] & EF_RISCV_RVC != 0 {
            let i = choose|i: int| 0 <= i < rest.len() && #[trigger] rest[i] & EF_RISCV_RVC != 0;
            assert(flags[i] & EF_RISCV_RVC != 0);
        }
    }
}

/// Why an object cannot be linked with the first one, if it cannot: a
/// different floating-point ABI or base (RV64E).
#[verifier::allow_in_spec]
pub fn incompatible_flags(first: u32, flags: u32) -> Option<&'static str>
    returns
        (if flags & EF_RISCV_FLOAT_ABI != first & EF_RISCV_FLOAT_ABI {
            Some("floating-point ABI")
        } else if flags & EF_RISCV_RVE != first & EF_RISCV_RVE {
            Some("EF_RISCV_RVE")
        } else {
            None
        }),
{
    if flags & EF_RISCV_FLOAT_ABI != first & EF_RISCV_FLOAT_ABI {
        Some("floating-point ABI")
    } else if flags & EF_RISCV_RVE != first & EF_RISCV_RVE {
        Some("EF_RISCV_RVE")
    } else {
        None
    }
}

/// The program interpreter for the floating-point ABI in `e_flags`.
#[verifier::allow_in_spec]
pub fn interpreter(flags: u32) -> &'static str
    returns
        (match flags & EF_RISCV_FLOAT_ABI {
            0 => "/lib/ld-linux-riscv64-lp64.so.1",
            2 => "/lib/ld-linux-riscv64-lp64f.so.1",
            _ => "/lib/ld-linux-riscv64-lp64d.so.1",
        }),
{
    match flags & EF_RISCV_FLOAT_ABI {
        0 => "/lib/ld-linux-riscv64-lp64.so.1",
        2 => "/lib/ld-linux-riscv64-lp64f.so.1",
        _ => "/lib/ld-linux-riscv64-lp64d.so.1",
    }
}

/// The field that each relocation type of the RISC-V psABI fills, by the
/// number of the type and by what is computed, and the GOT entry it goes
/// through.
pub open spec fn abi_field(kind: Kind, r_type: u32) -> Option<(Width, GotKind)> {
    match kind {
        Kind::Abs => match r_type {
            1 => Some((Width::RiscV(Field::Word32), GotKind::Address)),
            2 => Some((Width::W64, GotKind::Address)),
            26 => Some((Width::RiscV(Field::Hi20), GotKind::Address)),
            27 => Some((Width::RiscV(Field::Lo12I), GotKind::Address)),
            28 => Some((Width::RiscV(Field::Lo12S), GotKind::Address)),
            52 => Some((Width::RiscV(Field::Sub6), GotKind::Address)),
            53 => Some((Width::RiscV(Field::Set6), GotKind::Address)),
            54 => Some((Width::RiscV(Field::Set8), GotKind::Address)),
            55 => Some((Width::RiscV(Field::Set16), GotKind::Address)),
            56 => Some((Width::RiscV(Field::Set32), GotKind::Address)),
            60 => Some((Width::RiscV(Field::SetUleb128), GotKind::Address)),
            61 => Some((Width::RiscV(Field::SubUleb128), GotKind::Address)),
            _ => None,
        },
        Kind::Pc => match r_type {
            16 => Some((Width::RiscV(Field::Branch), GotKind::Address)),
            17 => Some((Width::RiscV(Field::Jal), GotKind::Address)),
            18 | 19 => Some((Width::RiscV(Field::Call), GotKind::Address)),
            23 => Some((Width::RiscV(Field::Hi20), GotKind::Address)),
            44 => Some((Width::RiscV(Field::RvcBranch), GotKind::Address)),
            45 => Some((Width::RiscV(Field::RvcJump), GotKind::Address)),
            57 | 59 => Some((Width::RiscV(Field::Word32Signed), GotKind::Address)),
            _ => None,
        },
        Kind::Got => match r_type {
            20 => Some((Width::RiscV(Field::Hi20), GotKind::Address)),
            21 => Some((Width::RiscV(Field::Hi20), GotKind::TpOff)),
            22 => Some((Width::RiscV(Field::Hi20), GotKind::TlsGd)),
            41 => Some((Width::RiscV(Field::Word32Signed), GotKind::Address)),
            _ => None,
        },
        Kind::Add => match r_type {
            33 => Some((Width::Any8, GotKind::Address)),
            34 => Some((Width::Any16, GotKind::Address)),
            35 => Some((Width::U32, GotKind::Address)),
            36 => Some((Width::W64, GotKind::Address)),
            _ => None,
        },
        Kind::Sub => match r_type {
            37 => Some((Width::Any8, GotKind::Address)),
            38 => Some((Width::Any16, GotKind::Address)),
            39 => Some((Width::U32, GotKind::Address)),
            40 => Some((Width::W64, GotKind::Address)),
            _ => None,
        },
        Kind::TpOff => match r_type {
            29 => Some((Width::RiscV(Field::Hi20), GotKind::Address)),
            30 => Some((Width::RiscV(Field::Lo12I), GotKind::Address)),
            31 => Some((Width::RiscV(Field::Lo12S), GotKind::Address)),
            _ => None,
        },
        Kind::DtpOff => match r_type {
            8 => Some((Width::RiscV(Field::Dtprel32), GotKind::Address)),
            9 => Some((Width::RiscV(Field::Dtprel64), GotKind::Address)),
            _ => None,
        },
        Kind::Nothing => match r_type {
            0 | 24 | 25 | 32 | 43 | 51 | 63 | 64 | 65 | 191 => Some((Width::Nothing, GotKind::Address)),
            _ => None,
        },
        _ => None,
    }
}

/// Every relocation type computes what the ABI defines for it and fills the
/// field the ABI gives it, whatever the code around it; and
/// no other type is taken for one that computes `S + A`, `S + A - P` or the
/// like.
#[verifier::spinoff_prover]
#[verifier::rlimit(80)]
pub proof fn types_compute_what_the_abi_says(r_type: u32, context: ClassifyContext, kind: Kind)
    ensures
        abi_field(kind, r_type) matches Some((width, slot)) ==> spec_classify(r_type, context) == Ok::<Class, ClassifyError>(Class { kind, width, slot, skip_next: false }),
        spec_classify(r_type, context) matches Ok(c) ==> ((c.kind == Kind::Abs || c.kind == Kind::Pc || c.kind == Kind::Add || c.kind == Kind::Sub || c.kind == Kind::TpOff || c.kind == Kind::DtpOff) ==> abi_field(c.kind, r_type) == Some((c.width, c.slot))),
{
}

/// What each thread-local relocation type becomes, by its number, in an
/// access of one model or another: what is computed, the field, the GOT entry,
/// and whether the relocation that follows is taken along.
pub open spec fn tls_access(r_type: u32, tls: TlsMode, tls_ld: TlsMode) -> Option<
    (Kind, Width, GotKind, bool),
> {
    match r_type {
        62 => match tls {
            TlsMode::LocalExec => Some((Kind::DescToLe, Width::Nothing, GotKind::Address, false)),
            TlsMode::InitialExec => Some((Kind::DescToIe, Width::Nothing, GotKind::Address, false)),
            TlsMode::Dynamic => Some((Kind::Got, Width::RiscV(Field::Hi20), GotKind::TlsDesc, false)),
        },
        _ => None,
    }
}

/// Thread-local accesses follow the model they are linked with.
#[verifier::spinoff_prover]
#[verifier::rlimit(80)]
pub proof fn thread_local_types_follow_the_model(r_type: u32, context: ClassifyContext)
    ensures
        tls_access(r_type, context.tls, context.tls_ld) matches Some((kind, width, slot, skip_next)) ==> spec_classify(r_type, context) == Ok::<Class, ClassifyError>(Class { kind, width, slot, skip_next }),
{
}

/// How the first two words of a PLT entry hold a distance.
proof fn plt_words(hi: u32, lo: u32, a: u32, b: u32)
    by (bit_vector)
    requires
        hi < 0x10_0000,
        lo < 0x1000,
        a == 0x17 | 28u32 << 7 | hi << 12,
        b == 0x3003 | 28u32 << 7 | 28u32 << 15 | lo << 20,
    ensures
        a & 0xffff_f000 == hi << 12,
        a & 0xfff == 0xe17,
        (b as i32) >> 20 == ((lo << 20) as i32) >> 20,
        b & 0xf_ffff == 0xe_3e03,
        0x67u32 | 6u32 << 7 | 28u32 << 15 | 0u32 << 20 == 0xe_0367,
{
}

/// A PLT entry loads from its slot: the upper part its `auipc` adds and the
/// low part its `ld` adds make up the distance.
#[verifier::rlimit(40)]
pub proof fn plt_entries_lead_to_their_slot(s: Seq<u8>, entry: u64, slot: u64)
    requires
        s.len() >= 16,
    ensures
        ({
            let p = spec_write_plt_entry(s, entry, slot);
            p.result is Ok ==> {
                &&& crate::bytes::u32_at(p.bytes, 0) matches Some(a)
                &&& crate::bytes::u32_at(p.bytes, 4) matches Some(b)
                &&& a & 0xfff == 0xe17
                &&& b & 0xf_ffff == 0xe_3e03
                &&& ((a & 0xffff_f000) as i32) + ((b as i32) >> 20) == slot.wrapping_sub(
                    entry,
                ) as i64
                &&& crate::bytes::u32_at(p.bytes, 8) == Some(0xe_0367u32)
                &&& crate::bytes::u32_at(p.bytes, 12) == Some(0x13u32)
            }
        }),
{
    let v = slot.wrapping_sub(entry);
    let p = spec_write_plt_entry(s, entry, slot);
    let a = utype(AUIPC, T3, hi20(v));
    let b = itype(LD, T3, T3, lo12(v));
    let c = itype(JALR, T1, T3, 0);
    crate::bits::small_numbers((v as u32).wrapping_add(0x800));
    crate::bits::small_numbers(v as u32);
    plt_words(hi20(v), lo12(v), a, b);
    if p.result is Ok {
        crate::arch::riscv::parts_make_the_number(v);
        assert(p.bytes.subrange(0, 4) =~= crate::bytes::spec_le32(a));
        assert(p.bytes.subrange(4, 8) =~= crate::bytes::spec_le32(b));
        assert(p.bytes.subrange(8, 12) =~= crate::bytes::spec_le32(c));
        assert(p.bytes.subrange(12, 16) =~= crate::bytes::spec_le32(NOP));
        crate::bytes::words_are_read(p.bytes, 0, a);
        crate::bytes::words_are_read(p.bytes, 4, b);
        crate::bytes::words_are_read(p.bytes, 8, c);
        crate::bytes::words_are_read(p.bytes, 12, NOP);
    }
}

} // verus!
