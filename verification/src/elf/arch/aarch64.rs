//! AArch64 relocations: classification, TLS relaxation and the PLT entry
//! encodings.
//!
//! [`classify`] turns a relocation type into a [`Class`]: what the ABI says
//! to compute ([`Kind`]), which GOT entry it reads ([`GotKind`]) and which
//! instruction field holds the result ([`Field`]). The relocation scan and
//! the writer both use it, so they always agree.
//!
//! TLS follows the psABI and GNU ld: in an executable, general-dynamic,
//! local-dynamic and descriptor accesses to a variable of the executable
//! become local-exec, accesses to a shared library's variable become
//! initial-exec, and initial-exec becomes local-exec. The sequences are
//! rewritten instruction by instruction, each one identified by its own
//! relocation, except the `bl __tls_get_addr` of a general-dynamic access
//! (and the `nop` after it), which the `ADD_LO12_NC` of the sequence
//! rewrites and which is then skipped.
//!
//! The PLT is GNU ld's: a 32-byte header that saves `x16`/`x30` and jumps
//! through `.got.plt[2]`, then one 16-byte entry per symbol. With BTI the
//! header starts with `bti c`, because the entries reach it through
//! `br x17`; the entries themselves are only reached by direct branches
//! and keep their 16-byte form, as in GNU ld.

use vstd::prelude::*;

use super::{
    ApplyError, Class, ClassifyContext, ClassifyError, GotKind, Kind, PltFlags, RelaxValues,
    TlsMode, Width,
};
use super::patch::{put_word, Patched};
use crate::arch::aarch64::{page_distance, Field, MovwCheck, NOP};
use crate::arch::aarch64 as insn;
use crate::bits;
use crate::bits::fits_unsigned;
use crate::bytes;
use crate::bytes::{fill_words, get_u32};
use crate::elf::consts::aarch64 as r;

verus! {

/// A classification with no GOT entry.
#[verifier::allow_in_spec]
pub fn class(kind: Kind, width: Width) -> Class
    returns
        (Class::new(kind, width)),
{
    Class::new(kind, width)
}

/// A classification through GOT entry `slot`.
#[verifier::allow_in_spec]
pub fn got(kind: Kind, width: Width, slot: GotKind) -> Class
    returns
        (Class::new(kind, width).through(slot)),
{
    Class::new(kind, width).through(slot)
}

/// An instruction or data field.
#[verifier::allow_in_spec]
pub fn field(f: Field) -> Width
    returns
        (Width::Field(f)),
{
    Width::Field(f)
}

/// The offset of a load or store.
#[verifier::allow_in_spec]
pub fn ldst(scale: u8, checked: bool) -> Width
    returns
        (Width::Field(Field::LdSt { scale, checked })),
{
    Width::Field(Field::LdSt { scale, checked })
}

/// The immediate of a `MOVW` group.
#[verifier::allow_in_spec]
pub fn movw(shift: u8, check: MovwCheck) -> Width
    returns
        (Width::Field(Field::Movw { shift, check })),
{
    Width::Field(Field::Movw { shift, check })
}

/// The `MOVW` group of a `_G<n>` relocation, unchecked.
#[verifier::allow_in_spec]
pub fn movw_nc(shift: u8) -> Width
    returns
        (movw(shift, MovwCheck::Unchecked)),
{
    movw(shift, MovwCheck::Unchecked)
}

/// What [`classify`] answers.
pub open spec fn spec_classify(
    r_type: u32,
    context: ClassifyContext,
) -> Result<Class, ClassifyError> {
    let tls: TlsMode = context.tls;
    let tls_ld: TlsMode = context.tls_ld;
    match r_type {
        r::R_AARCH64_NONE | r::R_AARCH64_NULL => Ok(class(Kind::Nothing, Width::Nothing)),

        // Data.
        r::R_AARCH64_ABS64 => Ok(class(Kind::Abs, Width::W64)),
        r::R_AARCH64_ABS32 => Ok(class(Kind::Abs, field(Field::Data32))),
        r::R_AARCH64_ABS16 => Ok(class(Kind::Abs, field(Field::Data16))),
        r::R_AARCH64_PREL64 => Ok(class(Kind::Pc, Width::W64)),
        r::R_AARCH64_PREL32 => Ok(class(Kind::Pc, field(Field::Data32))),
        r::R_AARCH64_PREL16 => Ok(class(Kind::Pc, field(Field::Data16))),
        r::R_AARCH64_PLT32 => Ok(class(Kind::Pc, field(Field::Data32Signed))),

        // Absolute MOVW groups.
        r::R_AARCH64_MOVW_UABS_G0 => Ok(class(Kind::Abs, movw(0, MovwCheck::Unsigned))),
        r::R_AARCH64_MOVW_UABS_G0_NC => Ok(class(Kind::Abs, movw_nc(0))),
        r::R_AARCH64_MOVW_UABS_G1 => Ok(class(Kind::Abs, movw(16, MovwCheck::Unsigned))),
        r::R_AARCH64_MOVW_UABS_G1_NC => Ok(class(Kind::Abs, movw_nc(16))),
        r::R_AARCH64_MOVW_UABS_G2 => Ok(class(Kind::Abs, movw(32, MovwCheck::Unsigned))),
        r::R_AARCH64_MOVW_UABS_G2_NC => Ok(class(Kind::Abs, movw_nc(32))),
        r::R_AARCH64_MOVW_UABS_G3 => Ok(class(Kind::Abs, movw_nc(48))),
        r::R_AARCH64_MOVW_SABS_G0 => Ok(class(Kind::Abs, movw(0, MovwCheck::Signed))),
        r::R_AARCH64_MOVW_SABS_G1 => Ok(class(Kind::Abs, movw(16, MovwCheck::Signed))),
        r::R_AARCH64_MOVW_SABS_G2 => Ok(class(Kind::Abs, movw(32, MovwCheck::Signed))),

        // PC-relative MOVW groups.
        r::R_AARCH64_MOVW_PREL_G0 => Ok(class(Kind::Pc, movw(0, MovwCheck::Signed))),
        r::R_AARCH64_MOVW_PREL_G0_NC => Ok(class(Kind::Pc, movw_nc(0))),
        r::R_AARCH64_MOVW_PREL_G1 => Ok(class(Kind::Pc, movw(16, MovwCheck::Signed))),
        r::R_AARCH64_MOVW_PREL_G1_NC => Ok(class(Kind::Pc, movw_nc(16))),
        r::R_AARCH64_MOVW_PREL_G2 => Ok(class(Kind::Pc, movw(32, MovwCheck::Signed))),
        r::R_AARCH64_MOVW_PREL_G2_NC => Ok(class(Kind::Pc, movw_nc(32))),
        r::R_AARCH64_MOVW_PREL_G3 => Ok(class(Kind::Pc, movw_nc(48))),

        // PC-relative addressing and branches.
        r::R_AARCH64_LD_PREL_LO19 => Ok(class(Kind::Pc, field(Field::Branch19))),
        r::R_AARCH64_ADR_PREL_LO21 => Ok(class(Kind::Pc, field(Field::Adr21))),
        r::R_AARCH64_ADR_PREL_PG_HI21 => Ok(class(Kind::Page, field(Field::Adrp21))),
        r::R_AARCH64_ADR_PREL_PG_HI21_NC => Ok(class(Kind::Page, field(Field::Adrp21Nc))),
        r::R_AARCH64_ADD_ABS_LO12_NC => Ok(class(Kind::Abs, field(Field::Add12))),
        r::R_AARCH64_LDST8_ABS_LO12_NC => Ok(class(Kind::Abs, ldst(0, false))),
        r::R_AARCH64_LDST16_ABS_LO12_NC => Ok(class(Kind::Abs, ldst(1, false))),
        r::R_AARCH64_LDST32_ABS_LO12_NC => Ok(class(Kind::Abs, ldst(2, false))),
        r::R_AARCH64_LDST64_ABS_LO12_NC => Ok(class(Kind::Abs, ldst(3, false))),
        r::R_AARCH64_LDST128_ABS_LO12_NC => Ok(class(Kind::Abs, ldst(4, false))),
        r::R_AARCH64_TSTBR14 => Ok(class(Kind::Pc, field(Field::Branch14))),
        r::R_AARCH64_CONDBR19 => Ok(class(Kind::Pc, field(Field::Branch19))),
        r::R_AARCH64_JUMP26 | r::R_AARCH64_CALL26 => Ok(class(Kind::Pc, field(Field::Branch26))),

        // GOT.
        r::R_AARCH64_GOT_LD_PREL19 => Ok(class(Kind::Got, field(Field::Branch19))),
        r::R_AARCH64_ADR_GOT_PAGE => Ok(class(Kind::GotPage, field(Field::Adrp21))),
        r::R_AARCH64_LD64_GOT_LO12_NC => Ok(class(Kind::GotAbs, ldst(3, false))),
        r::R_AARCH64_LD64_GOTPAGE_LO15 => Ok(class(Kind::GotPageOff, field(Field::LdSt15))),
        r::R_AARCH64_GOTPCREL32 => Ok(class(Kind::Got, field(Field::Data32Signed))),
        r::R_AARCH64_GOTREL64 => Ok(class(Kind::GotRel, Width::W64)),
        r::R_AARCH64_GOTREL32 => Ok(class(Kind::GotRel, field(Field::Data32))),
        r::R_AARCH64_LD64_GOTOFF_LO15 => Ok(class(Kind::GotSlotRel, field(Field::LdSt15))),
        r::R_AARCH64_MOVW_GOTOFF_G0 => Ok(class(Kind::GotSlotRel, movw(0, MovwCheck::Unsigned))),
        r::R_AARCH64_MOVW_GOTOFF_G0_NC => Ok(class(Kind::GotSlotRel, movw_nc(0))),
        r::R_AARCH64_MOVW_GOTOFF_G1 => Ok(class(Kind::GotSlotRel, movw(16, MovwCheck::Unsigned))),
        r::R_AARCH64_MOVW_GOTOFF_G1_NC => Ok(class(Kind::GotSlotRel, movw_nc(16))),
        r::R_AARCH64_MOVW_GOTOFF_G2 => Ok(class(Kind::GotSlotRel, movw(32, MovwCheck::Unsigned))),
        r::R_AARCH64_MOVW_GOTOFF_G2_NC => Ok(class(Kind::GotSlotRel, movw_nc(32))),
        r::R_AARCH64_MOVW_GOTOFF_G3 => Ok(class(Kind::GotSlotRel, movw_nc(48))),

        // Local-exec TLS: always a thread pointer offset.
        r::R_AARCH64_TLSLE_MOVW_TPREL_G2 => Ok(class(Kind::TpOff, movw(32, MovwCheck::Signed))),
        r::R_AARCH64_TLSLE_MOVW_TPREL_G1 => Ok(class(Kind::TpOff, movw(16, MovwCheck::Signed))),
        r::R_AARCH64_TLSLE_MOVW_TPREL_G1_NC => Ok(class(Kind::TpOff, movw_nc(16))),
        r::R_AARCH64_TLSLE_MOVW_TPREL_G0 => Ok(class(Kind::TpOff, movw(0, MovwCheck::Signed))),
        r::R_AARCH64_TLSLE_MOVW_TPREL_G0_NC => Ok(class(Kind::TpOff, movw_nc(0))),
        r::R_AARCH64_TLSLE_ADD_TPREL_HI12 => Ok(class(Kind::TpOff, field(Field::AddHi12))),
        r::R_AARCH64_TLSLE_ADD_TPREL_LO12 => Ok(class(Kind::TpOff, field(Field::Add12Checked))),
        r::R_AARCH64_TLSLE_ADD_TPREL_LO12_NC => Ok(class(Kind::TpOff, field(Field::Add12))),
        r::R_AARCH64_TLSLE_LDST8_TPREL_LO12 => Ok(class(Kind::TpOff, ldst(0, true))),
        r::R_AARCH64_TLSLE_LDST8_TPREL_LO12_NC => Ok(class(Kind::TpOff, ldst(0, false))),
        r::R_AARCH64_TLSLE_LDST16_TPREL_LO12 => Ok(class(Kind::TpOff, ldst(1, true))),
        r::R_AARCH64_TLSLE_LDST16_TPREL_LO12_NC => Ok(class(Kind::TpOff, ldst(1, false))),
        r::R_AARCH64_TLSLE_LDST32_TPREL_LO12 => Ok(class(Kind::TpOff, ldst(2, true))),
        r::R_AARCH64_TLSLE_LDST32_TPREL_LO12_NC => Ok(class(Kind::TpOff, ldst(2, false))),
        r::R_AARCH64_TLSLE_LDST64_TPREL_LO12 => Ok(class(Kind::TpOff, ldst(3, true))),
        r::R_AARCH64_TLSLE_LDST64_TPREL_LO12_NC => Ok(class(Kind::TpOff, ldst(3, false))),
        r::R_AARCH64_TLSLE_LDST128_TPREL_LO12 => Ok(class(Kind::TpOff, ldst(4, true))),
        r::R_AARCH64_TLSLE_LDST128_TPREL_LO12_NC => Ok(class(Kind::TpOff, ldst(4, false))),

        // Local-dynamic offsets inside the module's TLS block.
        r::R_AARCH64_TLSLD_MOVW_DTPREL_G2 => Ok(class(Kind::DtpOff, movw(32, MovwCheck::Signed))),
        r::R_AARCH64_TLSLD_MOVW_DTPREL_G1 => Ok(class(Kind::DtpOff, movw(16, MovwCheck::Signed))),
        r::R_AARCH64_TLSLD_MOVW_DTPREL_G1_NC => Ok(class(Kind::DtpOff, movw_nc(16))),
        r::R_AARCH64_TLSLD_MOVW_DTPREL_G0 => Ok(class(Kind::DtpOff, movw(0, MovwCheck::Signed))),
        r::R_AARCH64_TLSLD_MOVW_DTPREL_G0_NC => Ok(class(Kind::DtpOff, movw_nc(0))),
        r::R_AARCH64_TLSLD_ADD_DTPREL_HI12 => Ok(class(Kind::DtpOff, field(Field::AddHi12))),
        r::R_AARCH64_TLSLD_ADD_DTPREL_LO12 => Ok(class(Kind::DtpOff, field(Field::Add12Checked))),
        r::R_AARCH64_TLSLD_ADD_DTPREL_LO12_NC => Ok(class(Kind::DtpOff, field(Field::Add12))),
        r::R_AARCH64_TLSLD_LDST8_DTPREL_LO12 => Ok(class(Kind::DtpOff, ldst(0, true))),
        r::R_AARCH64_TLSLD_LDST8_DTPREL_LO12_NC => Ok(class(Kind::DtpOff, ldst(0, false))),
        r::R_AARCH64_TLSLD_LDST16_DTPREL_LO12 => Ok(class(Kind::DtpOff, ldst(1, true))),
        r::R_AARCH64_TLSLD_LDST16_DTPREL_LO12_NC => Ok(class(Kind::DtpOff, ldst(1, false))),
        r::R_AARCH64_TLSLD_LDST32_DTPREL_LO12 => Ok(class(Kind::DtpOff, ldst(2, true))),
        r::R_AARCH64_TLSLD_LDST32_DTPREL_LO12_NC => Ok(class(Kind::DtpOff, ldst(2, false))),
        r::R_AARCH64_TLSLD_LDST64_DTPREL_LO12 => Ok(class(Kind::DtpOff, ldst(3, true))),
        r::R_AARCH64_TLSLD_LDST64_DTPREL_LO12_NC => Ok(class(Kind::DtpOff, ldst(3, false))),
        r::R_AARCH64_TLSLD_LDST128_DTPREL_LO12 => Ok(class(Kind::DtpOff, ldst(4, true))),
        r::R_AARCH64_TLSLD_LDST128_DTPREL_LO12_NC => Ok(class(Kind::DtpOff, ldst(4, false))),

        // General-dynamic.
        r::R_AARCH64_TLSGD_ADR_PAGE21 => match tls {
            TlsMode::Dynamic => Ok(got(Kind::GotPage, field(Field::Adrp21), GotKind::TlsGd)),
            TlsMode::LocalExec => Ok(class(Kind::GdToLe, Width::Nothing)),
            TlsMode::InitialExec => Ok(class(Kind::GdToIe, Width::Nothing)),
        },
        r::R_AARCH64_TLSGD_ADD_LO12_NC => match tls {
            TlsMode::Dynamic => Ok(got(Kind::GotAbs, field(Field::Add12), GotKind::TlsGd)),
            TlsMode::LocalExec => Ok(class(Kind::GdToLe, Width::Nothing).skipping()),
            TlsMode::InitialExec => Ok(class(Kind::GdToIe, Width::Nothing).skipping()),
        },
        r::R_AARCH64_TLSGD_ADR_PREL21 => match tls {
            TlsMode::Dynamic => Ok(got(Kind::Got, field(Field::Adr21), GotKind::TlsGd)),
            _ => Err(ClassifyError::BadTlsInstruction),
        },
        r::R_AARCH64_TLSGD_MOVW_G1 => match tls {
            TlsMode::Dynamic => Ok(got(Kind::GotSlotRel, movw(16, MovwCheck::Signed), GotKind::TlsGd)),
            _ => Err(ClassifyError::BadTlsInstruction),
        },
        r::R_AARCH64_TLSGD_MOVW_G0_NC => match tls {
            TlsMode::Dynamic => Ok(got(Kind::GotSlotRel, movw_nc(0), GotKind::TlsGd)),
            _ => Err(ClassifyError::BadTlsInstruction),
        },

        // Local-dynamic addressing of the module's TLS pair.
        r::R_AARCH64_TLSLD_ADR_PAGE21 => match tls_ld {
            TlsMode::Dynamic => Ok(got(Kind::GotPage, field(Field::Adrp21), GotKind::TlsLd)),
            _ => Ok(class(Kind::LdToLe, Width::Nothing)),
        },
        r::R_AARCH64_TLSLD_ADD_LO12_NC => match tls_ld {
            TlsMode::Dynamic => Ok(got(Kind::GotAbs, field(Field::Add12), GotKind::TlsLd)),
            _ => Ok(class(Kind::LdToLe, Width::Nothing).skipping()),
        },
        r::R_AARCH64_TLSLD_ADR_PREL21 => match tls_ld {
            TlsMode::Dynamic => Ok(got(Kind::Got, field(Field::Adr21), GotKind::TlsLd)),
            _ => Err(ClassifyError::BadTlsInstruction),
        },
        r::R_AARCH64_TLSLD_LD_PREL19 => match tls_ld {
            TlsMode::Dynamic => Ok(got(Kind::Got, field(Field::Branch19), GotKind::TlsLd)),
            _ => Err(ClassifyError::BadTlsInstruction),
        },
        r::R_AARCH64_TLSLD_MOVW_G1 => match tls_ld {
            TlsMode::Dynamic => Ok(got(Kind::GotSlotRel, movw(16, MovwCheck::Signed), GotKind::TlsLd)),
            _ => Err(ClassifyError::BadTlsInstruction),
        },
        r::R_AARCH64_TLSLD_MOVW_G0_NC => match tls_ld {
            TlsMode::Dynamic => Ok(got(Kind::GotSlotRel, movw_nc(0), GotKind::TlsLd)),
            _ => Err(ClassifyError::BadTlsInstruction),
        },

        // Initial-exec.
        r::R_AARCH64_TLSIE_ADR_GOTTPREL_PAGE21 => match tls {
            TlsMode::LocalExec => Ok(class(Kind::IeToLe, Width::Nothing)),
            _ => Ok(got(Kind::GotPage, field(Field::Adrp21), GotKind::TpOff)),
        },
        r::R_AARCH64_TLSIE_LD64_GOTTPREL_LO12_NC => match tls {
            TlsMode::LocalExec => Ok(class(Kind::IeToLe, Width::Nothing)),
            _ => Ok(got(Kind::GotAbs, ldst(3, false), GotKind::TpOff)),
        },
        r::R_AARCH64_TLSIE_LD_GOTTPREL_PREL19 => match tls {
            TlsMode::LocalExec => Ok(class(Kind::IeToLe, Width::Nothing)),
            _ => Ok(got(Kind::Got, field(Field::Branch19), GotKind::TpOff)),
        },
        r::R_AARCH64_TLSIE_MOVW_GOTTPREL_G1 => match tls {
            TlsMode::LocalExec => Ok(class(Kind::IeToLe, Width::Nothing)),
            _ => Ok(got(Kind::GotSlotRel, movw(16, MovwCheck::Signed), GotKind::TpOff)),
        },
        r::R_AARCH64_TLSIE_MOVW_GOTTPREL_G0_NC => match tls {
            TlsMode::LocalExec => Ok(class(Kind::IeToLe, Width::Nothing)),
            _ => Ok(got(Kind::GotSlotRel, movw_nc(0), GotKind::TpOff)),
        },

        // TLS descriptors.
        r::R_AARCH64_TLSDESC_ADR_PAGE21 => match tls {
            TlsMode::Dynamic => Ok(got(Kind::GotPage, field(Field::Adrp21), GotKind::TlsDesc)),
            TlsMode::LocalExec => Ok(class(Kind::DescToLe, Width::Nothing)),
            TlsMode::InitialExec => Ok(class(Kind::DescToIe, Width::Nothing)),
        },
        r::R_AARCH64_TLSDESC_LD64_LO12 => match tls {
            TlsMode::Dynamic => Ok(got(Kind::GotAbs, ldst(3, false), GotKind::TlsDesc)),
            TlsMode::LocalExec => Ok(class(Kind::DescToLe, Width::Nothing)),
            TlsMode::InitialExec => Ok(class(Kind::DescToIe, Width::Nothing)),
        },
        r::R_AARCH64_TLSDESC_ADD_LO12 => match tls {
            TlsMode::Dynamic => Ok(got(Kind::GotAbs, field(Field::Add12), GotKind::TlsDesc)),
            TlsMode::LocalExec => Ok(class(Kind::DescToLe, Width::Nothing)),
            TlsMode::InitialExec => Ok(class(Kind::DescToIe, Width::Nothing)),
        },
        r::R_AARCH64_TLSDESC_CALL => match tls {
            TlsMode::Dynamic => Ok(class(Kind::Nothing, Width::Nothing)),
            _ => Ok(class(Kind::DescCallToLe, Width::Nothing)),
        },
        r::R_AARCH64_TLSDESC_ADR_PREL21 => match tls {
            TlsMode::Dynamic => Ok(got(Kind::Got, field(Field::Adr21), GotKind::TlsDesc)),
            _ => Err(ClassifyError::BadTlsInstruction),
        },
        r::R_AARCH64_TLSDESC_LD_PREL19 => match tls {
            TlsMode::Dynamic => Ok(got(Kind::Got, field(Field::Branch19), GotKind::TlsDesc)),
            _ => Err(ClassifyError::BadTlsInstruction),
        },
        r::R_AARCH64_TLSDESC_OFF_G1 => match tls {
            TlsMode::Dynamic => Ok(got(Kind::GotSlotRel, movw(16, MovwCheck::Signed), GotKind::TlsDesc)),
            _ => Err(ClassifyError::BadTlsInstruction),
        },
        r::R_AARCH64_TLSDESC_OFF_G0_NC => match tls {
            TlsMode::Dynamic => Ok(got(Kind::GotSlotRel, movw_nc(0), GotKind::TlsDesc)),
            _ => Err(ClassifyError::BadTlsInstruction),
        },
        // Optimization hints, not relocations of a field.
        r::R_AARCH64_TLSDESC_LDR | r::R_AARCH64_TLSDESC_ADD => Ok(class(Kind::Nothing, Width::Nothing)),

        _ => Err(ClassifyError::Unsupported),
    }
}

/// Classifies AArch64 relocation `r_type`.
///
/// # Errors
///
/// [`ClassifyError::Unsupported`] for types that are not linked, including
/// the dynamic-only types and the pointer-authentication (`AUTH_*`) set.
#[verifier::rlimit(60)]
pub fn classify(r_type: u32, context: ClassifyContext) -> (r: Result<Class, ClassifyError>)
    ensures
        r == spec_classify(r_type, context),
{
    let tls: TlsMode = context.tls;
    let tls_ld: TlsMode = context.tls_ld;
    match r_type {
        r::R_AARCH64_NONE | r::R_AARCH64_NULL => Ok(class(Kind::Nothing, Width::Nothing)),

        // Data.
        r::R_AARCH64_ABS64 => Ok(class(Kind::Abs, Width::W64)),
        r::R_AARCH64_ABS32 => Ok(class(Kind::Abs, field(Field::Data32))),
        r::R_AARCH64_ABS16 => Ok(class(Kind::Abs, field(Field::Data16))),
        r::R_AARCH64_PREL64 => Ok(class(Kind::Pc, Width::W64)),
        r::R_AARCH64_PREL32 => Ok(class(Kind::Pc, field(Field::Data32))),
        r::R_AARCH64_PREL16 => Ok(class(Kind::Pc, field(Field::Data16))),
        r::R_AARCH64_PLT32 => Ok(class(Kind::Pc, field(Field::Data32Signed))),

        // Absolute MOVW groups.
        r::R_AARCH64_MOVW_UABS_G0 => Ok(class(Kind::Abs, movw(0, MovwCheck::Unsigned))),
        r::R_AARCH64_MOVW_UABS_G0_NC => Ok(class(Kind::Abs, movw_nc(0))),
        r::R_AARCH64_MOVW_UABS_G1 => Ok(class(Kind::Abs, movw(16, MovwCheck::Unsigned))),
        r::R_AARCH64_MOVW_UABS_G1_NC => Ok(class(Kind::Abs, movw_nc(16))),
        r::R_AARCH64_MOVW_UABS_G2 => Ok(class(Kind::Abs, movw(32, MovwCheck::Unsigned))),
        r::R_AARCH64_MOVW_UABS_G2_NC => Ok(class(Kind::Abs, movw_nc(32))),
        r::R_AARCH64_MOVW_UABS_G3 => Ok(class(Kind::Abs, movw_nc(48))),
        r::R_AARCH64_MOVW_SABS_G0 => Ok(class(Kind::Abs, movw(0, MovwCheck::Signed))),
        r::R_AARCH64_MOVW_SABS_G1 => Ok(class(Kind::Abs, movw(16, MovwCheck::Signed))),
        r::R_AARCH64_MOVW_SABS_G2 => Ok(class(Kind::Abs, movw(32, MovwCheck::Signed))),

        // PC-relative MOVW groups.
        r::R_AARCH64_MOVW_PREL_G0 => Ok(class(Kind::Pc, movw(0, MovwCheck::Signed))),
        r::R_AARCH64_MOVW_PREL_G0_NC => Ok(class(Kind::Pc, movw_nc(0))),
        r::R_AARCH64_MOVW_PREL_G1 => Ok(class(Kind::Pc, movw(16, MovwCheck::Signed))),
        r::R_AARCH64_MOVW_PREL_G1_NC => Ok(class(Kind::Pc, movw_nc(16))),
        r::R_AARCH64_MOVW_PREL_G2 => Ok(class(Kind::Pc, movw(32, MovwCheck::Signed))),
        r::R_AARCH64_MOVW_PREL_G2_NC => Ok(class(Kind::Pc, movw_nc(32))),
        r::R_AARCH64_MOVW_PREL_G3 => Ok(class(Kind::Pc, movw_nc(48))),

        // PC-relative addressing and branches.
        r::R_AARCH64_LD_PREL_LO19 => Ok(class(Kind::Pc, field(Field::Branch19))),
        r::R_AARCH64_ADR_PREL_LO21 => Ok(class(Kind::Pc, field(Field::Adr21))),
        r::R_AARCH64_ADR_PREL_PG_HI21 => Ok(class(Kind::Page, field(Field::Adrp21))),
        r::R_AARCH64_ADR_PREL_PG_HI21_NC => Ok(class(Kind::Page, field(Field::Adrp21Nc))),
        r::R_AARCH64_ADD_ABS_LO12_NC => Ok(class(Kind::Abs, field(Field::Add12))),
        r::R_AARCH64_LDST8_ABS_LO12_NC => Ok(class(Kind::Abs, ldst(0, false))),
        r::R_AARCH64_LDST16_ABS_LO12_NC => Ok(class(Kind::Abs, ldst(1, false))),
        r::R_AARCH64_LDST32_ABS_LO12_NC => Ok(class(Kind::Abs, ldst(2, false))),
        r::R_AARCH64_LDST64_ABS_LO12_NC => Ok(class(Kind::Abs, ldst(3, false))),
        r::R_AARCH64_LDST128_ABS_LO12_NC => Ok(class(Kind::Abs, ldst(4, false))),
        r::R_AARCH64_TSTBR14 => Ok(class(Kind::Pc, field(Field::Branch14))),
        r::R_AARCH64_CONDBR19 => Ok(class(Kind::Pc, field(Field::Branch19))),
        r::R_AARCH64_JUMP26 | r::R_AARCH64_CALL26 => Ok(class(Kind::Pc, field(Field::Branch26))),

        // GOT.
        r::R_AARCH64_GOT_LD_PREL19 => Ok(class(Kind::Got, field(Field::Branch19))),
        r::R_AARCH64_ADR_GOT_PAGE => Ok(class(Kind::GotPage, field(Field::Adrp21))),
        r::R_AARCH64_LD64_GOT_LO12_NC => Ok(class(Kind::GotAbs, ldst(3, false))),
        r::R_AARCH64_LD64_GOTPAGE_LO15 => Ok(class(Kind::GotPageOff, field(Field::LdSt15))),
        r::R_AARCH64_GOTPCREL32 => Ok(class(Kind::Got, field(Field::Data32Signed))),
        r::R_AARCH64_GOTREL64 => Ok(class(Kind::GotRel, Width::W64)),
        r::R_AARCH64_GOTREL32 => Ok(class(Kind::GotRel, field(Field::Data32))),
        r::R_AARCH64_LD64_GOTOFF_LO15 => Ok(class(Kind::GotSlotRel, field(Field::LdSt15))),
        r::R_AARCH64_MOVW_GOTOFF_G0 => Ok(class(Kind::GotSlotRel, movw(0, MovwCheck::Unsigned))),
        r::R_AARCH64_MOVW_GOTOFF_G0_NC => Ok(class(Kind::GotSlotRel, movw_nc(0))),
        r::R_AARCH64_MOVW_GOTOFF_G1 => Ok(class(Kind::GotSlotRel, movw(16, MovwCheck::Unsigned))),
        r::R_AARCH64_MOVW_GOTOFF_G1_NC => Ok(class(Kind::GotSlotRel, movw_nc(16))),
        r::R_AARCH64_MOVW_GOTOFF_G2 => Ok(class(Kind::GotSlotRel, movw(32, MovwCheck::Unsigned))),
        r::R_AARCH64_MOVW_GOTOFF_G2_NC => Ok(class(Kind::GotSlotRel, movw_nc(32))),
        r::R_AARCH64_MOVW_GOTOFF_G3 => Ok(class(Kind::GotSlotRel, movw_nc(48))),

        // Local-exec TLS: always a thread pointer offset.
        r::R_AARCH64_TLSLE_MOVW_TPREL_G2 => Ok(class(Kind::TpOff, movw(32, MovwCheck::Signed))),
        r::R_AARCH64_TLSLE_MOVW_TPREL_G1 => Ok(class(Kind::TpOff, movw(16, MovwCheck::Signed))),
        r::R_AARCH64_TLSLE_MOVW_TPREL_G1_NC => Ok(class(Kind::TpOff, movw_nc(16))),
        r::R_AARCH64_TLSLE_MOVW_TPREL_G0 => Ok(class(Kind::TpOff, movw(0, MovwCheck::Signed))),
        r::R_AARCH64_TLSLE_MOVW_TPREL_G0_NC => Ok(class(Kind::TpOff, movw_nc(0))),
        r::R_AARCH64_TLSLE_ADD_TPREL_HI12 => Ok(class(Kind::TpOff, field(Field::AddHi12))),
        r::R_AARCH64_TLSLE_ADD_TPREL_LO12 => Ok(class(Kind::TpOff, field(Field::Add12Checked))),
        r::R_AARCH64_TLSLE_ADD_TPREL_LO12_NC => Ok(class(Kind::TpOff, field(Field::Add12))),
        r::R_AARCH64_TLSLE_LDST8_TPREL_LO12 => Ok(class(Kind::TpOff, ldst(0, true))),
        r::R_AARCH64_TLSLE_LDST8_TPREL_LO12_NC => Ok(class(Kind::TpOff, ldst(0, false))),
        r::R_AARCH64_TLSLE_LDST16_TPREL_LO12 => Ok(class(Kind::TpOff, ldst(1, true))),
        r::R_AARCH64_TLSLE_LDST16_TPREL_LO12_NC => Ok(class(Kind::TpOff, ldst(1, false))),
        r::R_AARCH64_TLSLE_LDST32_TPREL_LO12 => Ok(class(Kind::TpOff, ldst(2, true))),
        r::R_AARCH64_TLSLE_LDST32_TPREL_LO12_NC => Ok(class(Kind::TpOff, ldst(2, false))),
        r::R_AARCH64_TLSLE_LDST64_TPREL_LO12 => Ok(class(Kind::TpOff, ldst(3, true))),
        r::R_AARCH64_TLSLE_LDST64_TPREL_LO12_NC => Ok(class(Kind::TpOff, ldst(3, false))),
        r::R_AARCH64_TLSLE_LDST128_TPREL_LO12 => Ok(class(Kind::TpOff, ldst(4, true))),
        r::R_AARCH64_TLSLE_LDST128_TPREL_LO12_NC => Ok(class(Kind::TpOff, ldst(4, false))),

        // Local-dynamic offsets inside the module's TLS block.
        r::R_AARCH64_TLSLD_MOVW_DTPREL_G2 => Ok(class(Kind::DtpOff, movw(32, MovwCheck::Signed))),
        r::R_AARCH64_TLSLD_MOVW_DTPREL_G1 => Ok(class(Kind::DtpOff, movw(16, MovwCheck::Signed))),
        r::R_AARCH64_TLSLD_MOVW_DTPREL_G1_NC => Ok(class(Kind::DtpOff, movw_nc(16))),
        r::R_AARCH64_TLSLD_MOVW_DTPREL_G0 => Ok(class(Kind::DtpOff, movw(0, MovwCheck::Signed))),
        r::R_AARCH64_TLSLD_MOVW_DTPREL_G0_NC => Ok(class(Kind::DtpOff, movw_nc(0))),
        r::R_AARCH64_TLSLD_ADD_DTPREL_HI12 => Ok(class(Kind::DtpOff, field(Field::AddHi12))),
        r::R_AARCH64_TLSLD_ADD_DTPREL_LO12 => Ok(class(Kind::DtpOff, field(Field::Add12Checked))),
        r::R_AARCH64_TLSLD_ADD_DTPREL_LO12_NC => Ok(class(Kind::DtpOff, field(Field::Add12))),
        r::R_AARCH64_TLSLD_LDST8_DTPREL_LO12 => Ok(class(Kind::DtpOff, ldst(0, true))),
        r::R_AARCH64_TLSLD_LDST8_DTPREL_LO12_NC => Ok(class(Kind::DtpOff, ldst(0, false))),
        r::R_AARCH64_TLSLD_LDST16_DTPREL_LO12 => Ok(class(Kind::DtpOff, ldst(1, true))),
        r::R_AARCH64_TLSLD_LDST16_DTPREL_LO12_NC => Ok(class(Kind::DtpOff, ldst(1, false))),
        r::R_AARCH64_TLSLD_LDST32_DTPREL_LO12 => Ok(class(Kind::DtpOff, ldst(2, true))),
        r::R_AARCH64_TLSLD_LDST32_DTPREL_LO12_NC => Ok(class(Kind::DtpOff, ldst(2, false))),
        r::R_AARCH64_TLSLD_LDST64_DTPREL_LO12 => Ok(class(Kind::DtpOff, ldst(3, true))),
        r::R_AARCH64_TLSLD_LDST64_DTPREL_LO12_NC => Ok(class(Kind::DtpOff, ldst(3, false))),
        r::R_AARCH64_TLSLD_LDST128_DTPREL_LO12 => Ok(class(Kind::DtpOff, ldst(4, true))),
        r::R_AARCH64_TLSLD_LDST128_DTPREL_LO12_NC => Ok(class(Kind::DtpOff, ldst(4, false))),

        // General-dynamic.
        r::R_AARCH64_TLSGD_ADR_PAGE21 => match tls {
            TlsMode::Dynamic => Ok(got(Kind::GotPage, field(Field::Adrp21), GotKind::TlsGd)),
            TlsMode::LocalExec => Ok(class(Kind::GdToLe, Width::Nothing)),
            TlsMode::InitialExec => Ok(class(Kind::GdToIe, Width::Nothing)),
        },
        r::R_AARCH64_TLSGD_ADD_LO12_NC => match tls {
            TlsMode::Dynamic => Ok(got(Kind::GotAbs, field(Field::Add12), GotKind::TlsGd)),
            TlsMode::LocalExec => Ok(class(Kind::GdToLe, Width::Nothing).skipping()),
            TlsMode::InitialExec => Ok(class(Kind::GdToIe, Width::Nothing).skipping()),
        },
        r::R_AARCH64_TLSGD_ADR_PREL21 => match tls {
            TlsMode::Dynamic => Ok(got(Kind::Got, field(Field::Adr21), GotKind::TlsGd)),
            _ => Err(ClassifyError::BadTlsInstruction),
        },
        r::R_AARCH64_TLSGD_MOVW_G1 => match tls {
            TlsMode::Dynamic => Ok(got(Kind::GotSlotRel, movw(16, MovwCheck::Signed), GotKind::TlsGd)),
            _ => Err(ClassifyError::BadTlsInstruction),
        },
        r::R_AARCH64_TLSGD_MOVW_G0_NC => match tls {
            TlsMode::Dynamic => Ok(got(Kind::GotSlotRel, movw_nc(0), GotKind::TlsGd)),
            _ => Err(ClassifyError::BadTlsInstruction),
        },

        // Local-dynamic addressing of the module's TLS pair.
        r::R_AARCH64_TLSLD_ADR_PAGE21 => match tls_ld {
            TlsMode::Dynamic => Ok(got(Kind::GotPage, field(Field::Adrp21), GotKind::TlsLd)),
            _ => Ok(class(Kind::LdToLe, Width::Nothing)),
        },
        r::R_AARCH64_TLSLD_ADD_LO12_NC => match tls_ld {
            TlsMode::Dynamic => Ok(got(Kind::GotAbs, field(Field::Add12), GotKind::TlsLd)),
            _ => Ok(class(Kind::LdToLe, Width::Nothing).skipping()),
        },
        r::R_AARCH64_TLSLD_ADR_PREL21 => match tls_ld {
            TlsMode::Dynamic => Ok(got(Kind::Got, field(Field::Adr21), GotKind::TlsLd)),
            _ => Err(ClassifyError::BadTlsInstruction),
        },
        r::R_AARCH64_TLSLD_LD_PREL19 => match tls_ld {
            TlsMode::Dynamic => Ok(got(Kind::Got, field(Field::Branch19), GotKind::TlsLd)),
            _ => Err(ClassifyError::BadTlsInstruction),
        },
        r::R_AARCH64_TLSLD_MOVW_G1 => match tls_ld {
            TlsMode::Dynamic => Ok(got(Kind::GotSlotRel, movw(16, MovwCheck::Signed), GotKind::TlsLd)),
            _ => Err(ClassifyError::BadTlsInstruction),
        },
        r::R_AARCH64_TLSLD_MOVW_G0_NC => match tls_ld {
            TlsMode::Dynamic => Ok(got(Kind::GotSlotRel, movw_nc(0), GotKind::TlsLd)),
            _ => Err(ClassifyError::BadTlsInstruction),
        },

        // Initial-exec.
        r::R_AARCH64_TLSIE_ADR_GOTTPREL_PAGE21 => match tls {
            TlsMode::LocalExec => Ok(class(Kind::IeToLe, Width::Nothing)),
            _ => Ok(got(Kind::GotPage, field(Field::Adrp21), GotKind::TpOff)),
        },
        r::R_AARCH64_TLSIE_LD64_GOTTPREL_LO12_NC => match tls {
            TlsMode::LocalExec => Ok(class(Kind::IeToLe, Width::Nothing)),
            _ => Ok(got(Kind::GotAbs, ldst(3, false), GotKind::TpOff)),
        },
        r::R_AARCH64_TLSIE_LD_GOTTPREL_PREL19 => match tls {
            TlsMode::LocalExec => Ok(class(Kind::IeToLe, Width::Nothing)),
            _ => Ok(got(Kind::Got, field(Field::Branch19), GotKind::TpOff)),
        },
        r::R_AARCH64_TLSIE_MOVW_GOTTPREL_G1 => match tls {
            TlsMode::LocalExec => Ok(class(Kind::IeToLe, Width::Nothing)),
            _ => Ok(got(Kind::GotSlotRel, movw(16, MovwCheck::Signed), GotKind::TpOff)),
        },
        r::R_AARCH64_TLSIE_MOVW_GOTTPREL_G0_NC => match tls {
            TlsMode::LocalExec => Ok(class(Kind::IeToLe, Width::Nothing)),
            _ => Ok(got(Kind::GotSlotRel, movw_nc(0), GotKind::TpOff)),
        },

        // TLS descriptors.
        r::R_AARCH64_TLSDESC_ADR_PAGE21 => match tls {
            TlsMode::Dynamic => Ok(got(Kind::GotPage, field(Field::Adrp21), GotKind::TlsDesc)),
            TlsMode::LocalExec => Ok(class(Kind::DescToLe, Width::Nothing)),
            TlsMode::InitialExec => Ok(class(Kind::DescToIe, Width::Nothing)),
        },
        r::R_AARCH64_TLSDESC_LD64_LO12 => match tls {
            TlsMode::Dynamic => Ok(got(Kind::GotAbs, ldst(3, false), GotKind::TlsDesc)),
            TlsMode::LocalExec => Ok(class(Kind::DescToLe, Width::Nothing)),
            TlsMode::InitialExec => Ok(class(Kind::DescToIe, Width::Nothing)),
        },
        r::R_AARCH64_TLSDESC_ADD_LO12 => match tls {
            TlsMode::Dynamic => Ok(got(Kind::GotAbs, field(Field::Add12), GotKind::TlsDesc)),
            TlsMode::LocalExec => Ok(class(Kind::DescToLe, Width::Nothing)),
            TlsMode::InitialExec => Ok(class(Kind::DescToIe, Width::Nothing)),
        },
        r::R_AARCH64_TLSDESC_CALL => match tls {
            TlsMode::Dynamic => Ok(class(Kind::Nothing, Width::Nothing)),
            _ => Ok(class(Kind::DescCallToLe, Width::Nothing)),
        },
        r::R_AARCH64_TLSDESC_ADR_PREL21 => match tls {
            TlsMode::Dynamic => Ok(got(Kind::Got, field(Field::Adr21), GotKind::TlsDesc)),
            _ => Err(ClassifyError::BadTlsInstruction),
        },
        r::R_AARCH64_TLSDESC_LD_PREL19 => match tls {
            TlsMode::Dynamic => Ok(got(Kind::Got, field(Field::Branch19), GotKind::TlsDesc)),
            _ => Err(ClassifyError::BadTlsInstruction),
        },
        r::R_AARCH64_TLSDESC_OFF_G1 => match tls {
            TlsMode::Dynamic => Ok(got(Kind::GotSlotRel, movw(16, MovwCheck::Signed), GotKind::TlsDesc)),
            _ => Err(ClassifyError::BadTlsInstruction),
        },
        r::R_AARCH64_TLSDESC_OFF_G0_NC => match tls {
            TlsMode::Dynamic => Ok(got(Kind::GotSlotRel, movw_nc(0), GotKind::TlsDesc)),
            _ => Err(ClassifyError::BadTlsInstruction),
        },
        // Optimization hints, not relocations of a field.
        r::R_AARCH64_TLSDESC_LDR | r::R_AARCH64_TLSDESC_ADD => Ok(class(Kind::Nothing, Width::Nothing)),

        _ => Err(ClassifyError::Unsupported),
    }
}

/// `add x0, x1, x0`: the thread pointer plus the offset a relaxed
/// general-dynamic sequence computed.
pub const ADD_X0_X1_X0: u32 = 0x8b00_0020;

/// `stp x16, x30, [sp, #-16]!`.
pub const STP_X16_X30: u32 = 0xa9bf_7bf0;

/// Bits 16 to 31 of `v`.
#[verifier::allow_in_spec]
pub fn hi16(v: i64) -> u32
    returns
        (((v as u64) >> 16) as u32 & 0xffff),
{
    ((v as u64) >> 16) as u32 & 0xffff
}

/// Bits 0 to 15 of `v`.
#[verifier::allow_in_spec]
pub fn lo16(v: i64) -> u32
    returns
        ((v as u64) as u32 & 0xffff),
{
    (v as u64) as u32 & 0xffff
}

/// The 64-bit load of a GOT entry.
#[verifier::allow_in_spec]
pub fn load64() -> Field
    returns
        (Field::LdSt { scale: 3, checked: false }),
{
    Field::LdSt { scale: 3, checked: false }
}

/// `p` with the instruction at `at` replaced by `i` with `field` holding
/// `value`.
pub open spec fn patched(p: Patched, at: int, i: u32, field: Field, value: i64) -> Patched {
    p.require(field.accepts(value), ApplyError::Overflow).word(at, field.packed(i, value))
}

/// Writes `i` with `field` holding `value` at `at`.
///
/// # Errors
///
/// [`ApplyError::Overflow`] when the field cannot hold it.
fn patch(out: &mut [u8], at: u64, i: u32, field: Field, value: i64) -> (r: Result<(), ApplyError>)
    ensures
        r == patched(Patched::new(old(out)@), at as int, i, field, value).result,
        final(out)@ == patched(Patched::new(old(out)@), at as int, i, field, value).bytes,
{
    match field.encode(i, value) {
        Ok(encoded) => put_word(out, at, encoded),
        Err(_) => Err(ApplyError::Overflow),
    }
}

/// The instruction word at `at`.
///
/// # Errors
///
/// [`ApplyError::OutOfBounds`] when there is none.
fn get(out: &[u8], at: u64) -> (r: Result<u32, ApplyError>)
    ensures
        r == (match bytes::u32_at(out@, at as int) {
            Some(w) => Ok(w),
            None => Err(ApplyError::OutOfBounds),
        }),
{
    match get_u32(out, at) {
        Some(w) => Ok(w),
        None => Err(ApplyError::OutOfBounds),
    }
}

/// Whether a general-dynamic sequence whose `add` is at `at` is followed by
/// `bl __tls_get_addr; nop`, the form GCC and clang emit and the one GNU ld
/// relaxes into four instructions.
pub open spec fn spec_gd_tail_is_call_nop(s: Seq<u8>, at: u64) -> bool {
    &&& match bytes::u32_at(s, at + 4) {
        Some(call) => call & 0xfc00_0000 == 0x9400_0000,
        None => false,
    }
    &&& bytes::u32_at(s, at + 8) == Some(NOP)
}

/// Whether the general-dynamic sequence whose `add` is at `at` ends in a
/// call and a `nop`.
fn gd_tail_is_call_nop(out: &[u8], at: u64) -> (r: bool)
    ensures
        r == spec_gd_tail_is_call_nop(out@, at),
{
    let _len: usize = out.len();
    let (Some(call_at), Some(nop_at)) = (at.checked_add(4), at.checked_add(8)) else {
        return false;
    };
    match (get_u32(out, call_at), get_u32(out, nop_at)) {
        (Some(call), Some(nop)) => call & 0xfc00_0000 == 0x9400_0000 && nop == NOP,
        _ => false,
    }
}

/// What [`relax_tls`] does.
pub open spec fn spec_relax_tls(
    s: Seq<u8>,
    offset: u64,
    kind: Kind,
    r_type: u32,
    values: RelaxValues,
) -> Patched {
    let p = Patched::new(s);
    let at = offset as int;
    let at4 = offset.wrapping_add(4) as int;
    let at8 = offset.wrapping_add(8) as int;
    let tpoff = values.tpoff;
    // Local-exec offsets go into a `movz`/`movk` pair.
    let le = p.require(bits::spec_fits_unsigned(tpoff as int, 32), ApplyError::Overflow);
    let to_got = page_distance(values.got, values.place);
    match kind {
        Kind::IeToLe => match bytes::u32_at(s, at) {
            None => le.fail(ApplyError::OutOfBounds),
            Some(i) => match r_type {
                r::R_AARCH64_TLSIE_ADR_GOTTPREL_PAGE21 => le.word(
                    at,
                    insn::movz(insn::destination_register(i), hi16(tpoff), 16),
                ),
                r::R_AARCH64_TLSIE_LD64_GOTTPREL_LO12_NC => le.word(
                    at,
                    insn::movk(insn::destination_register(i), lo16(tpoff), 0),
                ),
                r::R_AARCH64_TLSIE_MOVW_GOTTPREL_G1 => patched(
                    le,
                    at,
                    i,
                    (Field::Movw { shift: 16, check: MovwCheck::Unchecked }),
                    tpoff,
                ),
                r::R_AARCH64_TLSIE_MOVW_GOTTPREL_G0_NC => patched(
                    le,
                    at,
                    i,
                    (Field::Movw { shift: 0, check: MovwCheck::Unchecked }),
                    tpoff,
                ),
                _ => le.fail(ApplyError::BadInstruction),
            },
        },
        Kind::DescToLe | Kind::DescCallToLe => match r_type {
            r::R_AARCH64_TLSDESC_ADR_PAGE21 => le.word(at, insn::movz(0, hi16(tpoff), 16)),
            r::R_AARCH64_TLSDESC_LD64_LO12 => le.word(at, insn::movk(0, lo16(tpoff), 0)),
            r::R_AARCH64_TLSDESC_ADD_LO12 | r::R_AARCH64_TLSDESC_CALL => le.word(at, NOP),
            _ => le.fail(ApplyError::BadInstruction),
        },
        Kind::DescToIe => match r_type {
            r::R_AARCH64_TLSDESC_ADR_PAGE21 => patched(
                p,
                at,
                insn::adrp(0),
                Field::Adrp21,
                to_got,
            ),
            r::R_AARCH64_TLSDESC_LD64_LO12 => patched(
                p,
                at,
                insn::ldr_offset(0, 0),
                load64(),
                values.got as i64,
            ),
            r::R_AARCH64_TLSDESC_ADD_LO12 | r::R_AARCH64_TLSDESC_CALL => p.word(at, NOP),
            _ => p.fail(ApplyError::BadInstruction),
        },
        Kind::GdToLe => match r_type {
            r::R_AARCH64_TLSGD_ADR_PAGE21 => if spec_gd_tail_is_call_nop(
                s,
                offset.wrapping_add(4),
            ) {
                le.word(at, insn::movz(0, hi16(tpoff), 16))
            } else {
                p.word(at, insn::MRS_TPIDR_X0)
            },
            r::R_AARCH64_TLSGD_ADD_LO12_NC => if spec_gd_tail_is_call_nop(s, offset) {
                le.word(at, insn::movk(0, lo16(tpoff), 0)).word(
                    at4,
                    insn::MRS_TPIDR_X0 | 1,
                ).word(at8, ADD_X0_X1_X0)
            } else {
                // Without the trailing `nop` there are only three slots:
                // `mrs; add hi12; add lo12`, which needs a 24-bit offset.
                patched(
                    patched(
                        p.require(bits::spec_fits_unsigned(tpoff as int, 24), ApplyError::Overflow),
                        at,
                        insn::add_imm(0, 0),
                        Field::AddHi12,
                        tpoff,
                    ),
                    at4,
                    insn::add_imm(0, 0),
                    Field::Add12,
                    tpoff,
                )
            },
            _ => p.fail(ApplyError::BadInstruction),
        },
        Kind::GdToIe => match r_type {
            r::R_AARCH64_TLSGD_ADR_PAGE21 => patched(p, at, insn::adrp(0), Field::Adrp21, to_got),
            r::R_AARCH64_TLSGD_ADD_LO12_NC => if spec_gd_tail_is_call_nop(s, offset) {
                patched(p, at, insn::ldr_offset(0, 0), load64(), values.got as i64).word(
                    at4,
                    insn::MRS_TPIDR_X0 | 1,
                ).word(at8, ADD_X0_X1_X0)
            } else {
                p.fail(ApplyError::BadInstruction)
            },
            _ => p.fail(ApplyError::BadInstruction),
        },
        // `tpoff` is the distance from the thread pointer to the start of
        // the module's TLS block, which local-dynamic code uses as its base.
        Kind::LdToLe => match r_type {
            r::R_AARCH64_TLSLD_ADR_PAGE21 => p.word(at, insn::MRS_TPIDR_X0),
            r::R_AARCH64_TLSLD_ADD_LO12_NC => patched(
                p,
                at,
                insn::add_imm(0, 0),
                Field::Add12Checked,
                tpoff,
            ).word(at4, NOP),
            _ => p.fail(ApplyError::BadInstruction),
        },
        _ => p.fail(ApplyError::BadInstruction),
    }
}

/// Rewrites one instruction of a relaxed TLS sequence.
///
/// # Errors
///
/// [`ApplyError`] for sequences that cannot be rewritten, and for offsets
/// that do not fit the replacement instructions.
#[verifier::rlimit(40)]
pub fn relax_tls(
    out: &mut [u8],
    offset: u64,
    kind: Kind,
    r_type: u32,
    values: RelaxValues,
) -> (r: Result<(), ApplyError>)
    ensures
        r == spec_relax_tls(old(out)@, offset, kind, r_type, values).result,
        final(out)@ == spec_relax_tls(old(out)@, offset, kind, r_type, values).bytes,
{
    let tpoff: i64 = values.tpoff;
    let to_got: i64 = page_distance(values.got, values.place);
    match kind {
        Kind::IeToLe => {
            if !fits_unsigned(tpoff, 32) {
                return Err(ApplyError::Overflow);
            }
            let i: u32 = get(out, offset)?;
            let register: u32 = insn::destination_register(i);
            match r_type {
                r::R_AARCH64_TLSIE_ADR_GOTTPREL_PAGE21 => put_word(
                    out,
                    offset,
                    insn::movz(register, hi16(tpoff), 16),
                ),
                r::R_AARCH64_TLSIE_LD64_GOTTPREL_LO12_NC => put_word(
                    out,
                    offset,
                    insn::movk(register, lo16(tpoff), 0),
                ),
                r::R_AARCH64_TLSIE_MOVW_GOTTPREL_G1 => patch(
                    out,
                    offset,
                    i,
                    Field::Movw { shift: 16, check: MovwCheck::Unchecked },
                    tpoff,
                ),
                r::R_AARCH64_TLSIE_MOVW_GOTTPREL_G0_NC => patch(
                    out,
                    offset,
                    i,
                    Field::Movw { shift: 0, check: MovwCheck::Unchecked },
                    tpoff,
                ),
                _ => Err(ApplyError::BadInstruction),
            }
        },
        Kind::DescToLe | Kind::DescCallToLe => {
            if !fits_unsigned(tpoff, 32) {
                return Err(ApplyError::Overflow);
            }
            match r_type {
                r::R_AARCH64_TLSDESC_ADR_PAGE21 => put_word(
                    out,
                    offset,
                    insn::movz(0, hi16(tpoff), 16),
                ),
                r::R_AARCH64_TLSDESC_LD64_LO12 => put_word(
                    out,
                    offset,
                    insn::movk(0, lo16(tpoff), 0),
                ),
                r::R_AARCH64_TLSDESC_ADD_LO12 | r::R_AARCH64_TLSDESC_CALL => put_word(
                    out,
                    offset,
                    NOP,
                ),
                _ => Err(ApplyError::BadInstruction),
            }
        },
        Kind::DescToIe => match r_type {
            r::R_AARCH64_TLSDESC_ADR_PAGE21 => patch(
                out,
                offset,
                insn::adrp(0),
                Field::Adrp21,
                to_got,
            ),
            r::R_AARCH64_TLSDESC_LD64_LO12 => patch(
                out,
                offset,
                insn::ldr_offset(0, 0),
                load64(),
                values.got as i64,
            ),
            r::R_AARCH64_TLSDESC_ADD_LO12 | r::R_AARCH64_TLSDESC_CALL => put_word(out, offset, NOP),
            _ => Err(ApplyError::BadInstruction),
        },
        Kind::GdToLe => match r_type {
            r::R_AARCH64_TLSGD_ADR_PAGE21 => {
                if gd_tail_is_call_nop(out, offset.wrapping_add(4)) {
                    if !fits_unsigned(tpoff, 32) {
                        return Err(ApplyError::Overflow);
                    }
                    put_word(out, offset, insn::movz(0, hi16(tpoff), 16))
                } else {
                    put_word(out, offset, insn::MRS_TPIDR_X0)
                }
            },
            r::R_AARCH64_TLSGD_ADD_LO12_NC => {
                if gd_tail_is_call_nop(out, offset) {
                    if !fits_unsigned(tpoff, 32) {
                        return Err(ApplyError::Overflow);
                    }
                    put_word(out, offset, insn::movk(0, lo16(tpoff), 0))?;
                    put_word(out, offset.wrapping_add(4), insn::MRS_TPIDR_X0 | 1)?;
                    put_word(out, offset.wrapping_add(8), ADD_X0_X1_X0)
                } else {
                    if !fits_unsigned(tpoff, 24) {
                        return Err(ApplyError::Overflow);
                    }
                    patch(out, offset, insn::add_imm(0, 0), Field::AddHi12, tpoff)?;
                    patch(out, offset.wrapping_add(4), insn::add_imm(0, 0), Field::Add12, tpoff)
                }
            },
            _ => Err(ApplyError::BadInstruction),
        },
        Kind::GdToIe => match r_type {
            r::R_AARCH64_TLSGD_ADR_PAGE21 => patch(
                out,
                offset,
                insn::adrp(0),
                Field::Adrp21,
                to_got,
            ),
            r::R_AARCH64_TLSGD_ADD_LO12_NC => {
                if !gd_tail_is_call_nop(out, offset) {
                    return Err(ApplyError::BadInstruction);
                }
                patch(out, offset, insn::ldr_offset(0, 0), load64(), values.got as i64)?;
                put_word(out, offset.wrapping_add(4), insn::MRS_TPIDR_X0 | 1)?;
                put_word(out, offset.wrapping_add(8), ADD_X0_X1_X0)
            },
            _ => Err(ApplyError::BadInstruction),
        },
        Kind::LdToLe => match r_type {
            r::R_AARCH64_TLSLD_ADR_PAGE21 => put_word(out, offset, insn::MRS_TPIDR_X0),
            r::R_AARCH64_TLSLD_ADD_LO12_NC => {
                patch(out, offset, insn::add_imm(0, 0), Field::Add12Checked, tpoff)?;
                put_word(out, offset.wrapping_add(4), NOP)
            },
            _ => Err(ApplyError::BadInstruction),
        },
        _ => Err(ApplyError::BadInstruction),
    }
}

/// Whether `r_type` is a `b` or `bl`.
#[verifier::allow_in_spec]
pub fn is_jump26(r_type: u32) -> bool
    returns
        (r_type == r::R_AARCH64_CALL26 || r_type == r::R_AARCH64_JUMP26),
{
    r_type == r::R_AARCH64_CALL26 || r_type == r::R_AARCH64_JUMP26
}

/// Replaces a `bl`/`b` to an undefined weak symbol with a `nop`, as GNU ld
/// does: the symbol has no address, so the call is skipped rather than
/// branching to zero.
///
/// # Errors
///
/// [`ApplyError::OutOfBounds`] when the instruction is outside the section.
pub fn nop_undefined_branch(out: &mut [u8], offset: u64, r_type: u32) -> (r: Result<
    bool,
    ApplyError,
>)
    ensures
        ({
            let p = Patched::new(old(out)@).word(offset as int, NOP);
            if is_jump26(r_type) {
                &&& final(out)@ == p.bytes
                &&& match p.result {
                    Ok(_) => r == Ok::<bool, ApplyError>(true),
                    Err(e) => r == Err::<bool, ApplyError>(e),
                }
            } else {
                final(out)@ == old(out)@ && r == Ok::<bool, ApplyError>(false)
            }
        }),
{
    if !is_jump26(r_type) {
        return Ok(false);
    }
    put_word(out, offset, NOP)?;
    Ok(true)
}

/// Fills `out` with `nop` instructions; a partial word is zeroed.
pub fn write_nops(out: &mut [u8])
    ensures
        final(out)@ == bytes::filled_with(old(out)@, NOP),
{
    fill_words(out, NOP)
}

/// `p` with `nop`s from `at` up to `end`.
pub open spec fn padded(p: Patched, at: int, end: int) -> Patched
    decreases end - at + 4,
{
    if at < end {
        padded(p.word(at, NOP), at + 4, end)
    } else {
        p
    }
}

/// Nothing is padded after an error.
proof fn padding_stops(p: Patched, at: int, end: int)
    requires
        p.result is Err,
    ensures
        padded(p, at, end) == p,
    decreases end - at + 4,
{
    if at < end {
        padding_stops(p, at + 4, end);
    }
}

/// `p` with the sequence that loads GOT word `slot` into `x17` and branches
/// to it, at offset `start` and address `at`, and `nop`s up to `end`.
pub open spec fn with_got_jump(p: Patched, start: int, at: u64, slot: u64, end: int) -> Patched {
    padded(
        patched(
            patched(
                patched(p, start, insn::adrp(16), Field::Adrp21, page_distance(slot, at)),
                start + 4,
                insn::ldr_offset(17, 16),
                load64(),
                slot as i64,
            ),
            start + 8,
            insn::add_imm(16, 16),
            Field::Add12,
            slot as i64,
        ).word(start + 12, insn::BR_X17),
        start + 16,
        end,
    )
}

/// Writes the sequence that loads `.got.plt` slot `slot` into `x17` and
/// branches to it, at address `at` in `out` starting at `start`.
fn write_got_jump(out: &mut [u8], start: u64, at: u64, slot: u64, end: u64) -> (r: Result<
    (),
    ApplyError,
>)
    requires
        start <= 8,
        end <= 32,
    ensures
        r == with_got_jump(Patched::new(old(out)@), start as int, at, slot, end as int).result,
        final(out)@ == with_got_jump(
            Patched::new(old(out)@),
            start as int,
            at,
            slot,
            end as int,
        ).bytes,
{
    proof {
        let p = Patched::new(out@);
        let p1 = patched(p, start as int, insn::adrp(16), Field::Adrp21, page_distance(slot, at));
        let p2 = patched(p1, start + 4, insn::ldr_offset(17, 16), load64(), slot as i64);
        let p3 = patched(p2, start + 8, insn::add_imm(16, 16), Field::Add12, slot as i64);
        let p4 = p3.word(start + 12, insn::BR_X17);
        if p4.result is Err {
            padding_stops(p4, start + 16, end as int);
        }
    }
    patch(out, start, insn::adrp(16), Field::Adrp21, page_distance(slot, at))?;
    patch(out, start + 4, insn::ldr_offset(17, 16), load64(), slot as i64)?;
    patch(out, start + 8, insn::add_imm(16, 16), Field::Add12, slot as i64)?;
    put_word(out, start + 12, insn::BR_X17)?;
    let ghost goal = padded(Patched::new(out@), start + 16, end as int);
    let mut pad: u64 = start + 16;
    while pad < end
        invariant
            pad <= 40,
            end <= 32,
            goal == padded(Patched::new(out@), pad as int, end as int),
            goal == with_got_jump(Patched::new(old(out)@), start as int, at, slot, end as int),
        decreases 40 - pad,
    {
        proof {
            let next = Patched::new(out@).word(pad as int, NOP);
            if next.result is Err {
                padding_stops(next, pad + 4, end as int);
            }
        }
        put_word(out, pad, NOP)?;
        pad += 4;
    }
    Ok(())
}

/// What [`write_plt_header`] does.
pub open spec fn spec_write_plt_header(
    s: Seq<u8>,
    plt: u64,
    got_plt: u64,
    flags: PltFlags,
) -> Patched {
    let p = Patched::new(s);
    let slot = got_plt.wrapping_add(16);
    if flags.landing_pad {
        with_got_jump(
            p.word(0, insn::BTI_C).word(4, STP_X16_X30),
            8,
            plt.wrapping_add(8),
            slot,
            32,
        )
    } else {
        with_got_jump(p.word(0, STP_X16_X30), 4, plt.wrapping_add(4), slot, 32)
    }
}

/// Once failed, a jump writes nothing more.
proof fn jump_stops(p: Patched, start: int, at: u64, slot: u64, end: int)
    requires
        p.result is Err,
    ensures
        with_got_jump(p, start, at, slot, end) == p,
{
    padding_stops(p, start + 16, end);
}

/// Writes the PLT header at address `plt`: save `x16`/`x30`, then jump to
/// the resolver through `.got.plt[2]`.
///
/// # Errors
///
/// [`ApplyError`] when `.got.plt` is more than 4 GiB from `.plt`.
pub fn write_plt_header(out: &mut [u8], plt: u64, got_plt: u64, flags: PltFlags) -> (r: Result<
    (),
    ApplyError,
>)
    ensures
        r == spec_write_plt_header(old(out)@, plt, got_plt, flags).result,
        final(out)@ == spec_write_plt_header(old(out)@, plt, got_plt, flags).bytes,
{
    let slot: u64 = got_plt.wrapping_add(16);
    let mut at: u64 = 0;
    proof {
        let p = Patched::new(out@);
        let p1 = p.word(0, insn::BTI_C).word(4, STP_X16_X30);
        let p2 = p.word(0, STP_X16_X30);
        if p1.result is Err {
            jump_stops(p1, 8, plt.wrapping_add(8), slot, 32);
        }
        if p2.result is Err {
            jump_stops(p2, 4, plt.wrapping_add(4), slot, 32);
        }
    }
    if flags.landing_pad {
        put_word(out, at, insn::BTI_C)?;
        at = 4;
    }
    put_word(out, at, STP_X16_X30)?;
    at = at + 4;
    write_got_jump(out, at, plt.wrapping_add(at), slot, 32)
}

/// What [`write_plt_entry`] does.
pub open spec fn spec_write_plt_entry(
    s: Seq<u8>,
    entry: u64,
    slot: u64,
    flags: PltFlags,
) -> Patched {
    let p = Patched::new(s);
    if flags.entry_landing_pad {
        with_got_jump(p.word(0, insn::BTI_C), 4, entry.wrapping_add(4), slot, 24)
    } else {
        with_got_jump(p, 0, entry, slot, 16)
    }
}

/// Writes a `.plt`, `.plt.got` or IFUNC entry at address `entry` that jumps
/// through the GOT word at `slot`.
///
/// # Errors
///
/// [`ApplyError`] when the slot is more than 4 GiB from the entry.
pub fn write_plt_entry(out: &mut [u8], entry: u64, slot: u64, flags: PltFlags) -> (r: Result<
    (),
    ApplyError,
>)
    ensures
        r == spec_write_plt_entry(old(out)@, entry, slot, flags).result,
        final(out)@ == spec_write_plt_entry(old(out)@, entry, slot, flags).bytes,
{
    if flags.entry_landing_pad {
        proof {
            let p = Patched::new(out@).word(0, insn::BTI_C);
            if p.result is Err {
                jump_stops(p, 4, entry.wrapping_add(4), slot, 24);
            }
        }
        put_word(out, 0, insn::BTI_C)?;
        write_got_jump(out, 4, entry.wrapping_add(4), slot, 24)
    } else {
        write_got_jump(out, 0, entry, slot, 16)
    }
}

/// Shared objects keep the TLS models their code was compiled for.
pub proof fn shared_objects_keep_tls_models(r_type: u32, context: ClassifyContext)
    requires
        context.tls == TlsMode::Dynamic,
        context.tls_ld == TlsMode::Dynamic,
    ensures
        match spec_classify(r_type, context) {
            Ok(class) => !super::changes_tls_model(class.kind),
            Err(_) => true,
        },
{
}

/// The field that each relocation type of the AArch64 ELF ABI fills, by the
/// number of the type and by what is computed, and the GOT entry it goes
/// through.
pub open spec fn abi_field(kind: Kind, r_type: u32) -> Option<(Width, GotKind)> {
    match kind {
        Kind::Abs => match r_type {
            257 => Some((Width::W64, GotKind::Address)),
            258 => Some((Width::Field(Field::Data32), GotKind::Address)),
            259 => Some((Width::Field(Field::Data16), GotKind::Address)),
            263 => Some((Width::Field(Field::Movw { shift: 0, check: MovwCheck::Unsigned }), GotKind::Address)),
            264 => Some((Width::Field(Field::Movw { shift: 0, check: MovwCheck::Unchecked }), GotKind::Address)),
            265 => Some((Width::Field(Field::Movw { shift: 16, check: MovwCheck::Unsigned }), GotKind::Address)),
            266 => Some((Width::Field(Field::Movw { shift: 16, check: MovwCheck::Unchecked }), GotKind::Address)),
            267 => Some((Width::Field(Field::Movw { shift: 32, check: MovwCheck::Unsigned }), GotKind::Address)),
            268 => Some((Width::Field(Field::Movw { shift: 32, check: MovwCheck::Unchecked }), GotKind::Address)),
            269 => Some((Width::Field(Field::Movw { shift: 48, check: MovwCheck::Unchecked }), GotKind::Address)),
            270 => Some((Width::Field(Field::Movw { shift: 0, check: MovwCheck::Signed }), GotKind::Address)),
            271 => Some((Width::Field(Field::Movw { shift: 16, check: MovwCheck::Signed }), GotKind::Address)),
            272 => Some((Width::Field(Field::Movw { shift: 32, check: MovwCheck::Signed }), GotKind::Address)),
            277 => Some((Width::Field(Field::Add12), GotKind::Address)),
            278 => Some((Width::Field(Field::LdSt { scale: 0, checked: false }), GotKind::Address)),
            284 => Some((Width::Field(Field::LdSt { scale: 1, checked: false }), GotKind::Address)),
            285 => Some((Width::Field(Field::LdSt { scale: 2, checked: false }), GotKind::Address)),
            286 => Some((Width::Field(Field::LdSt { scale: 3, checked: false }), GotKind::Address)),
            299 => Some((Width::Field(Field::LdSt { scale: 4, checked: false }), GotKind::Address)),
            _ => None,
        },
        Kind::Pc => match r_type {
            260 => Some((Width::W64, GotKind::Address)),
            261 => Some((Width::Field(Field::Data32), GotKind::Address)),
            262 => Some((Width::Field(Field::Data16), GotKind::Address)),
            273 | 280 => Some((Width::Field(Field::Branch19), GotKind::Address)),
            274 => Some((Width::Field(Field::Adr21), GotKind::Address)),
            279 => Some((Width::Field(Field::Branch14), GotKind::Address)),
            282 | 283 => Some((Width::Field(Field::Branch26), GotKind::Address)),
            287 => Some((Width::Field(Field::Movw { shift: 0, check: MovwCheck::Signed }), GotKind::Address)),
            288 => Some((Width::Field(Field::Movw { shift: 0, check: MovwCheck::Unchecked }), GotKind::Address)),
            289 => Some((Width::Field(Field::Movw { shift: 16, check: MovwCheck::Signed }), GotKind::Address)),
            290 => Some((Width::Field(Field::Movw { shift: 16, check: MovwCheck::Unchecked }), GotKind::Address)),
            291 => Some((Width::Field(Field::Movw { shift: 32, check: MovwCheck::Signed }), GotKind::Address)),
            292 => Some((Width::Field(Field::Movw { shift: 32, check: MovwCheck::Unchecked }), GotKind::Address)),
            293 => Some((Width::Field(Field::Movw { shift: 48, check: MovwCheck::Unchecked }), GotKind::Address)),
            314 => Some((Width::Field(Field::Data32Signed), GotKind::Address)),
            _ => None,
        },
        Kind::Page => match r_type {
            275 => Some((Width::Field(Field::Adrp21), GotKind::Address)),
            276 => Some((Width::Field(Field::Adrp21Nc), GotKind::Address)),
            _ => None,
        },
        Kind::Got => match r_type {
            309 => Some((Width::Field(Field::Branch19), GotKind::Address)),
            315 => Some((Width::Field(Field::Data32Signed), GotKind::Address)),
            _ => None,
        },
        Kind::GotPage => match r_type {
            311 => Some((Width::Field(Field::Adrp21), GotKind::Address)),
            _ => None,
        },
        Kind::GotAbs => match r_type {
            312 => Some((Width::Field(Field::LdSt { scale: 3, checked: false }), GotKind::Address)),
            _ => None,
        },
        Kind::GotPageOff => match r_type {
            313 => Some((Width::Field(Field::LdSt15), GotKind::Address)),
            _ => None,
        },
        Kind::GotSlotRel => match r_type {
            300 => Some((Width::Field(Field::Movw { shift: 0, check: MovwCheck::Unsigned }), GotKind::Address)),
            301 => Some((Width::Field(Field::Movw { shift: 0, check: MovwCheck::Unchecked }), GotKind::Address)),
            302 => Some((Width::Field(Field::Movw { shift: 16, check: MovwCheck::Unsigned }), GotKind::Address)),
            303 => Some((Width::Field(Field::Movw { shift: 16, check: MovwCheck::Unchecked }), GotKind::Address)),
            304 => Some((Width::Field(Field::Movw { shift: 32, check: MovwCheck::Unsigned }), GotKind::Address)),
            305 => Some((Width::Field(Field::Movw { shift: 32, check: MovwCheck::Unchecked }), GotKind::Address)),
            306 => Some((Width::Field(Field::Movw { shift: 48, check: MovwCheck::Unchecked }), GotKind::Address)),
            310 => Some((Width::Field(Field::LdSt15), GotKind::Address)),
            _ => None,
        },
        Kind::GotRel => match r_type {
            307 => Some((Width::W64, GotKind::Address)),
            308 => Some((Width::Field(Field::Data32), GotKind::Address)),
            _ => None,
        },
        Kind::TpOff => match r_type {
            544 => Some((Width::Field(Field::Movw { shift: 32, check: MovwCheck::Signed }), GotKind::Address)),
            545 => Some((Width::Field(Field::Movw { shift: 16, check: MovwCheck::Signed }), GotKind::Address)),
            546 => Some((Width::Field(Field::Movw { shift: 16, check: MovwCheck::Unchecked }), GotKind::Address)),
            547 => Some((Width::Field(Field::Movw { shift: 0, check: MovwCheck::Signed }), GotKind::Address)),
            548 => Some((Width::Field(Field::Movw { shift: 0, check: MovwCheck::Unchecked }), GotKind::Address)),
            549 => Some((Width::Field(Field::AddHi12), GotKind::Address)),
            550 => Some((Width::Field(Field::Add12Checked), GotKind::Address)),
            551 => Some((Width::Field(Field::Add12), GotKind::Address)),
            552 => Some((Width::Field(Field::LdSt { scale: 0, checked: true }), GotKind::Address)),
            553 => Some((Width::Field(Field::LdSt { scale: 0, checked: false }), GotKind::Address)),
            554 => Some((Width::Field(Field::LdSt { scale: 1, checked: true }), GotKind::Address)),
            555 => Some((Width::Field(Field::LdSt { scale: 1, checked: false }), GotKind::Address)),
            556 => Some((Width::Field(Field::LdSt { scale: 2, checked: true }), GotKind::Address)),
            557 => Some((Width::Field(Field::LdSt { scale: 2, checked: false }), GotKind::Address)),
            558 => Some((Width::Field(Field::LdSt { scale: 3, checked: true }), GotKind::Address)),
            559 => Some((Width::Field(Field::LdSt { scale: 3, checked: false }), GotKind::Address)),
            570 => Some((Width::Field(Field::LdSt { scale: 4, checked: true }), GotKind::Address)),
            571 => Some((Width::Field(Field::LdSt { scale: 4, checked: false }), GotKind::Address)),
            _ => None,
        },
        Kind::DtpOff => match r_type {
            523 => Some((Width::Field(Field::Movw { shift: 32, check: MovwCheck::Signed }), GotKind::Address)),
            524 => Some((Width::Field(Field::Movw { shift: 16, check: MovwCheck::Signed }), GotKind::Address)),
            525 => Some((Width::Field(Field::Movw { shift: 16, check: MovwCheck::Unchecked }), GotKind::Address)),
            526 => Some((Width::Field(Field::Movw { shift: 0, check: MovwCheck::Signed }), GotKind::Address)),
            527 => Some((Width::Field(Field::Movw { shift: 0, check: MovwCheck::Unchecked }), GotKind::Address)),
            528 => Some((Width::Field(Field::AddHi12), GotKind::Address)),
            529 => Some((Width::Field(Field::Add12Checked), GotKind::Address)),
            530 => Some((Width::Field(Field::Add12), GotKind::Address)),
            531 => Some((Width::Field(Field::LdSt { scale: 0, checked: true }), GotKind::Address)),
            532 => Some((Width::Field(Field::LdSt { scale: 0, checked: false }), GotKind::Address)),
            533 => Some((Width::Field(Field::LdSt { scale: 1, checked: true }), GotKind::Address)),
            534 => Some((Width::Field(Field::LdSt { scale: 1, checked: false }), GotKind::Address)),
            535 => Some((Width::Field(Field::LdSt { scale: 2, checked: true }), GotKind::Address)),
            536 => Some((Width::Field(Field::LdSt { scale: 2, checked: false }), GotKind::Address)),
            537 => Some((Width::Field(Field::LdSt { scale: 3, checked: true }), GotKind::Address)),
            538 => Some((Width::Field(Field::LdSt { scale: 3, checked: false }), GotKind::Address)),
            572 => Some((Width::Field(Field::LdSt { scale: 4, checked: true }), GotKind::Address)),
            573 => Some((Width::Field(Field::LdSt { scale: 4, checked: false }), GotKind::Address)),
            _ => None,
        },
        Kind::Nothing => match r_type {
            0 | 256 | 567 | 568 => Some((Width::Nothing, GotKind::Address)),
            _ => None,
        },
        _ => None,
    }
}

/// Every relocation type computes what the ABI defines for it and fills the
/// field the ABI gives it, whatever the code around it; and
/// no other type is taken for one that computes `S + A`, `S + A - P` or the
/// like.
#[verifier::spinoff_prover]
#[verifier::rlimit(80)]
pub proof fn types_compute_what_the_abi_says(r_type: u32, context: ClassifyContext, kind: Kind)
    ensures
        abi_field(kind, r_type) matches Some((width, slot)) ==> spec_classify(r_type, context) == Ok::<Class, ClassifyError>(Class { kind, width, slot, skip_next: false }),
        spec_classify(r_type, context) matches Ok(c) ==> ((c.kind == Kind::Abs || c.kind == Kind::Pc || c.kind == Kind::Page || c.kind == Kind::GotPageOff || c.kind == Kind::GotRel || c.kind == Kind::TpOff || c.kind == Kind::DtpOff) ==> abi_field(c.kind, r_type) == Some((c.width, c.slot))),
{
}

/// What each thread-local relocation type becomes, by its number, in an
/// access of one model or another: what is computed, the field, the GOT entry,
/// and whether the relocation that follows is taken along.
pub open spec fn tls_access(r_type: u32, tls: TlsMode, tls_ld: TlsMode) -> Option<
    (Kind, Width, GotKind, bool),
> {
    match r_type {
        512 => match tls {
            TlsMode::LocalExec => None,
            TlsMode::InitialExec => None,
            TlsMode::Dynamic => Some((Kind::Got, Width::Field(Field::Adr21), GotKind::TlsGd, false)),
        },
        513 => match tls {
            TlsMode::LocalExec => Some((Kind::GdToLe, Width::Nothing, GotKind::Address, false)),
            TlsMode::InitialExec => Some((Kind::GdToIe, Width::Nothing, GotKind::Address, false)),
            TlsMode::Dynamic => Some((Kind::GotPage, Width::Field(Field::Adrp21), GotKind::TlsGd, false)),
        },
        514 => match tls {
            TlsMode::LocalExec => Some((Kind::GdToLe, Width::Nothing, GotKind::Address, true)),
            TlsMode::InitialExec => Some((Kind::GdToIe, Width::Nothing, GotKind::Address, true)),
            TlsMode::Dynamic => Some((Kind::GotAbs, Width::Field(Field::Add12), GotKind::TlsGd, false)),
        },
        515 => match tls {
            TlsMode::LocalExec => None,
            TlsMode::InitialExec => None,
            TlsMode::Dynamic => Some((Kind::GotSlotRel, Width::Field(Field::Movw { shift: 16, check: MovwCheck::Signed }), GotKind::TlsGd, false)),
        },
        516 => match tls {
            TlsMode::LocalExec => None,
            TlsMode::InitialExec => None,
            TlsMode::Dynamic => Some((Kind::GotSlotRel, Width::Field(Field::Movw { shift: 0, check: MovwCheck::Unchecked }), GotKind::TlsGd, false)),
        },
        517 => match tls_ld {
            TlsMode::LocalExec => None,
            TlsMode::InitialExec => None,
            TlsMode::Dynamic => Some((Kind::Got, Width::Field(Field::Adr21), GotKind::TlsLd, false)),
        },
        518 => match tls_ld {
            TlsMode::LocalExec => Some((Kind::LdToLe, Width::Nothing, GotKind::Address, false)),
            TlsMode::InitialExec => Some((Kind::LdToLe, Width::Nothing, GotKind::Address, false)),
            TlsMode::Dynamic => Some((Kind::GotPage, Width::Field(Field::Adrp21), GotKind::TlsLd, false)),
        },
        519 => match tls_ld {
            TlsMode::LocalExec => Some((Kind::LdToLe, Width::Nothing, GotKind::Address, true)),
            TlsMode::InitialExec => Some((Kind::LdToLe, Width::Nothing, GotKind::Address, true)),
            TlsMode::Dynamic => Some((Kind::GotAbs, Width::Field(Field::Add12), GotKind::TlsLd, false)),
        },
        520 => match tls_ld {
            TlsMode::LocalExec => None,
            TlsMode::InitialExec => None,
            TlsMode::Dynamic => Some((Kind::GotSlotRel, Width::Field(Field::Movw { shift: 16, check: MovwCheck::Signed }), GotKind::TlsLd, false)),
        },
        521 => match tls_ld {
            TlsMode::LocalExec => None,
            TlsMode::InitialExec => None,
            TlsMode::Dynamic => Some((Kind::GotSlotRel, Width::Field(Field::Movw { shift: 0, check: MovwCheck::Unchecked }), GotKind::TlsLd, false)),
        },
        522 => match tls_ld {
            TlsMode::LocalExec => None,
            TlsMode::InitialExec => None,
            TlsMode::Dynamic => Some((Kind::Got, Width::Field(Field::Branch19), GotKind::TlsLd, false)),
        },
        539 => match tls {
            TlsMode::LocalExec => Some((Kind::IeToLe, Width::Nothing, GotKind::Address, false)),
            TlsMode::InitialExec => Some((Kind::GotSlotRel, Width::Field(Field::Movw { shift: 16, check: MovwCheck::Signed }), GotKind::TpOff, false)),
            TlsMode::Dynamic => Some((Kind::GotSlotRel, Width::Field(Field::Movw { shift: 16, check: MovwCheck::Signed }), GotKind::TpOff, false)),
        },
        540 => match tls {
            TlsMode::LocalExec => Some((Kind::IeToLe, Width::Nothing, GotKind::Address, false)),
            TlsMode::InitialExec => Some((Kind::GotSlotRel, Width::Field(Field::Movw { shift: 0, check: MovwCheck::Unchecked }), GotKind::TpOff, false)),
            TlsMode::Dynamic => Some((Kind::GotSlotRel, Width::Field(Field::Movw { shift: 0, check: MovwCheck::Unchecked }), GotKind::TpOff, false)),
        },
        541 => match tls {
            TlsMode::LocalExec => Some((Kind::IeToLe, Width::Nothing, GotKind::Address, false)),
            TlsMode::InitialExec => Some((Kind::GotPage, Width::Field(Field::Adrp21), GotKind::TpOff, false)),
            TlsMode::Dynamic => Some((Kind::GotPage, Width::Field(Field::Adrp21), GotKind::TpOff, false)),
        },
        542 => match tls {
            TlsMode::LocalExec => Some((Kind::IeToLe, Width::Nothing, GotKind::Address, false)),
            TlsMode::InitialExec => Some((Kind::GotAbs, Width::Field(Field::LdSt { scale: 3, checked: false }), GotKind::TpOff, false)),
            TlsMode::Dynamic => Some((Kind::GotAbs, Width::Field(Field::LdSt { scale: 3, checked: false }), GotKind::TpOff, false)),
        },
        543 => match tls {
            TlsMode::LocalExec => Some((Kind::IeToLe, Width::Nothing, GotKind::Address, false)),
            TlsMode::InitialExec => Some((Kind::Got, Width::Field(Field::Branch19), GotKind::TpOff, false)),
            TlsMode::Dynamic => Some((Kind::Got, Width::Field(Field::Branch19), GotKind::TpOff, false)),
        },
        560 => match tls {
            TlsMode::LocalExec => None,
            TlsMode::InitialExec => None,
            TlsMode::Dynamic => Some((Kind::Got, Width::Field(Field::Branch19), GotKind::TlsDesc, false)),
        },
        561 => match tls {
            TlsMode::LocalExec => None,
            TlsMode::InitialExec => None,
            TlsMode::Dynamic => Some((Kind::Got, Width::Field(Field::Adr21), GotKind::TlsDesc, false)),
        },
        562 => match tls {
            TlsMode::LocalExec => Some((Kind::DescToLe, Width::Nothing, GotKind::Address, false)),
            TlsMode::InitialExec => Some((Kind::DescToIe, Width::Nothing, GotKind::Address, false)),
            TlsMode::Dynamic => Some((Kind::GotPage, Width::Field(Field::Adrp21), GotKind::TlsDesc, false)),
        },
        563 => match tls {
            TlsMode::LocalExec => Some((Kind::DescToLe, Width::Nothing, GotKind::Address, false)),
            TlsMode::InitialExec => Some((Kind::DescToIe, Width::Nothing, GotKind::Address, false)),
            TlsMode::Dynamic => Some((Kind::GotAbs, Width::Field(Field::LdSt { scale: 3, checked: false }), GotKind::TlsDesc, false)),
        },
        564 => match tls {
            TlsMode::LocalExec => Some((Kind::DescToLe, Width::Nothing, GotKind::Address, false)),
            TlsMode::InitialExec => Some((Kind::DescToIe, Width::Nothing, GotKind::Address, false)),
            TlsMode::Dynamic => Some((Kind::GotAbs, Width::Field(Field::Add12), GotKind::TlsDesc, false)),
        },
        565 => match tls {
            TlsMode::LocalExec => None,
            TlsMode::InitialExec => None,
            TlsMode::Dynamic => Some((Kind::GotSlotRel, Width::Field(Field::Movw { shift: 16, check: MovwCheck::Signed }), GotKind::TlsDesc, false)),
        },
        566 => match tls {
            TlsMode::LocalExec => None,
            TlsMode::InitialExec => None,
            TlsMode::Dynamic => Some((Kind::GotSlotRel, Width::Field(Field::Movw { shift: 0, check: MovwCheck::Unchecked }), GotKind::TlsDesc, false)),
        },
        569 => match tls {
            TlsMode::LocalExec => Some((Kind::DescCallToLe, Width::Nothing, GotKind::Address, false)),
            TlsMode::InitialExec => Some((Kind::DescCallToLe, Width::Nothing, GotKind::Address, false)),
            TlsMode::Dynamic => Some((Kind::Nothing, Width::Nothing, GotKind::Address, false)),
        },
        _ => None,
    }
}

/// Thread-local accesses follow the model they are linked with.
#[verifier::spinoff_prover]
#[verifier::rlimit(80)]
pub proof fn thread_local_types_follow_the_model(r_type: u32, context: ClassifyContext)
    ensures
        tls_access(r_type, context.tls, context.tls_ld) matches Some((kind, width, slot, skip_next)) ==> spec_classify(r_type, context) == Ok::<Class, ClassifyError>(Class { kind, width, slot, skip_next }),
{
}

/// A PLT entry loads from its slot and branches there: the page of the entry,
/// the distance its `adrp` adds and the offset its `ldr` loads from make up
/// the slot, and so do the `adrp` and the `add`.
#[verifier::rlimit(60)]
pub proof fn plt_entries_lead_to_their_slot(s: Seq<u8>, entry: u64, slot: u64, flags: PltFlags)
    requires
        s.len() >= 24,
        insn::thunk_reaches(
            entry.wrapping_add(
                if flags.entry_landing_pad {
                    4
                } else {
                    0
                },
            ),
            slot,
        ),
    ensures
        ({
            let p = spec_write_plt_entry(s, entry, slot, flags);
            let start: int = if flags.entry_landing_pad {
                4
            } else {
                0
            };
            let at = entry.wrapping_add(start as u64);
            p.result is Ok ==> {
                &&& flags.entry_landing_pad ==> bytes::u32_at(p.bytes, 0) == Some(0xd503_245fu32)
                &&& bytes::u32_at(p.bytes, start) matches Some(a)
                &&& bytes::u32_at(p.bytes, start + 4) matches Some(b)
                &&& bytes::u32_at(p.bytes, start + 8) matches Some(c)
                &&& bytes::u32_at(p.bytes, start + 12) == Some(0xd61f_0220u32)
                &&& (at & !0xfff).wrapping_add(insn::adrp_distance(a) as u64).wrapping_add(
                    insn::add_immediate(c),
                ) == slot
                &&& insn::add_immediate(b) * 8 == insn::add_immediate(c)
            }
        }),
{
    let p = spec_write_plt_entry(s, entry, slot, flags);
    let start: int = if flags.entry_landing_pad {
        4
    } else {
        0
    };
    let at = entry.wrapping_add(start as u64);
    insn::thunks_lead_to_their_target(at, slot);
    reveal_with_fuel(padded, 3);
    if p.result is Ok {
        let a = Field::Adrp21.packed(insn::adrp(16), page_distance(slot, at));
        let b = load64().packed(insn::ldr_offset(17, 16), slot as i64);
        let c = Field::Add12.packed(insn::add_imm(16, 16), slot as i64);
        insn::held_values_read_back(load64(), insn::ldr_offset(17, 16), slot as i64);
        insn::held_values_read_back(Field::Add12, insn::add_imm(16, 16), slot as i64);
        assert(p.bytes.subrange(start, start + 4) =~= bytes::spec_le32(a));
        assert(p.bytes.subrange(start + 4, start + 8) =~= bytes::spec_le32(b));
        assert(p.bytes.subrange(start + 8, start + 12) =~= bytes::spec_le32(c));
        assert(p.bytes.subrange(start + 12, start + 16) =~= bytes::spec_le32(insn::BR_X17));
        bytes::words_are_read(p.bytes, start, a);
        bytes::words_are_read(p.bytes, start + 4, b);
        bytes::words_are_read(p.bytes, start + 8, c);
        bytes::words_are_read(p.bytes, start + 12, insn::BR_X17);
        if flags.entry_landing_pad {
            assert(p.bytes.subrange(0, 4) =~= bytes::spec_le32(insn::BTI_C));
            bytes::words_are_read(p.bytes, 0, insn::BTI_C);
        }
    }
}

} // verus!
