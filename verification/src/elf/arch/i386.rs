//! i386 relocations: classification, relaxation, application, and the PLT
//! entry encodings.
//!
//! i386 objects use `SHT_REL`: a relocation's addend is the value stored in
//! the field it patches ([`implicit_addend`]), and the dynamic relocations
//! of the output are `SHT_REL` too, with their addends written into the
//! words they relocate.
//!
//! **The GOT base** is `_GLOBAL_OFFSET_TABLE_`, the start of `.got.plt`.
//! Position-independent code keeps it in `%ebx`; `R_386_GOTOFF` and
//! `R_386_GOT32` are relative to it, and `R_386_GOTPC` computes it.
//!
//! **Relaxations** follow GNU ld and lld:
//!
//! - `R_386_GOT32X` to a symbol defined in the output: `mov foo@GOT(%reg)`
//!   becomes `lea foo@GOTOFF(%reg)`, `call *foo@GOT(%reg)` becomes
//!   `addr32 call foo` and `jmp *foo@GOT(%reg)` becomes `jmp foo; nop`; in
//!   position-dependent output, `mov foo@GOT, %reg` (no base register)
//!   becomes `mov $foo, %reg`;
//! - TLS, GNU dialect ([`TlsMode`]): general-dynamic, local-dynamic,
//!   initial-exec and descriptors become local-exec in an executable that
//!   defines the variable, and general-dynamic and descriptors become
//!   initial-exec for a shared library's variable. The Sun dialect
//!   (`R_386_TLS_*_32` other than `LDO_32`) is not linked.
//!
//! **The PLT** of an executable addresses `.got.plt` absolutely; that of a
//! PIE or shared object through `%ebx`, as the ABI requires. Lazy entries
//! push the byte offset of their `R_386_JUMP_SLOT` in `.rel.plt`.

use vstd::prelude::*;

use crate::bytes;
pub use super::{
    ApplyError, Class, ClassifyContext, ClassifyError, GotKind, Kind, RelaxValues, TlsMode, Width,
};
use super::patch::{copy_at, get, put, put_bytes, put_word, Patched};
use crate::bytes::{byte_after, byte_before, get_byte, get_u16, get_u32};
use crate::elf::consts::i386 as r;

verus! {

/// A classification with no GOT entry.
#[verifier::allow_in_spec]
pub fn class(kind: Kind, width: Width) -> Class
    returns
        (Class::new(kind, width)),
{
    Class::new(kind, width)
}

/// A classification through GOT entry `slot`.
#[verifier::allow_in_spec]
pub fn got(kind: Kind, width: Width, slot: GotKind) -> Class
    returns
        (Class::new(kind, width).through(slot)),
{
    Class::new(kind, width).through(slot)
}

/// The size of the field relocation `r_type` patches, in bytes.
#[verifier::allow_in_spec]
pub fn field_size(r_type: u32) -> usize
    returns
        (match r_type {
            r::R_386_16 | r::R_386_PC16 => 2usize,
            r::R_386_8 | r::R_386_PC8 => 1,
            r::R_386_NONE
            | r::R_386_TLS_DESC_CALL
            | r::R_386_GNU_VTINHERIT
            | r::R_386_GNU_VTENTRY => 0,
            _ => 4,
        }),
{
    match r_type {
        r::R_386_16 | r::R_386_PC16 => 2usize,
        r::R_386_8 | r::R_386_PC8 => 1,
        r::R_386_NONE
        | r::R_386_TLS_DESC_CALL
        | r::R_386_GNU_VTINHERIT
        | r::R_386_GNU_VTENTRY => 0,
        _ => 4,
    }
}

/// What [`implicit_addend`] reads.
pub open spec fn spec_implicit_addend(r_type: u32, data: Seq<u8>, offset: u64) -> i64 {
    match field_size(r_type) {
        4 => match bytes::u32_at(data, offset as int) {
            Some(w) => (w as i32) as i64,
            None => 0,
        },
        2 => match bytes::u16_at(data, offset as int) {
            Some(h) => (h as i16) as i64,
            None => 0,
        },
        1 => match bytes::byte_at(data, offset as int) {
            Some(b) => (b as i8) as i64,
            None => 0,
        },
        _ => 0,
    }
}

/// The addend of relocation `r_type` at `offset` in section `data`: the
/// field's contents, sign-extended.
pub fn implicit_addend(r_type: u32, data: &[u8], offset: u64) -> (r: i64)
    ensures
        r == spec_implicit_addend(r_type, data@, offset),
{
    match field_size(r_type) {
        4 => match get_u32(data, offset) {
            Some(w) => (w as i32) as i64,
            None => 0,
        },
        2 => match get_u16(data, offset) {
            Some(h) => (h as i16) as i64,
            None => 0,
        },
        1 => match get_byte(data, offset) {
            Some(b) => (b as i8) as i64,
            None => 0,
        },
        _ => 0,
    }
}

/// Whether a ModRM byte addresses memory through a base register, as
/// `foo@GOT(%reg)`, rather than an absolute `disp32`.
#[verifier::allow_in_spec]
pub fn has_base(modrm: Option<u8>) -> bool
    returns
        (match modrm {
            Some(m) => m & 0xc7 != 0x05,
            None => false,
        }),
{
    match modrm {
        Some(m) => m & 0xc7 != 0x05,
        None => false,
    }
}

/// What [`classify`] answers.
pub open spec fn spec_classify(
    r_type: u32,
    data: Seq<u8>,
    offset: u64,
    context: ClassifyContext,
) -> Result<Class, ClassifyError> {
    let op: Option<u8> = bytes::byte_at(data, offset - 2);
    let modrm: Option<u8> = bytes::byte_at(data, offset - 1);
    let base: bool = has_base(modrm);
    let relax: bool = context.relax_got && context.code;
    match r_type {
        r::R_386_NONE | r::R_386_GNU_VTINHERIT | r::R_386_GNU_VTENTRY => Ok(
            class(Kind::Nothing, Width::Nothing),
        ),
        r::R_386_32 => Ok(class(Kind::Abs, Width::Any32)),
        r::R_386_16 => Ok(class(Kind::Abs, Width::Any16)),
        r::R_386_8 => Ok(class(Kind::Abs, Width::Any8)),
        r::R_386_PC32 | r::R_386_PLT32 => Ok(class(Kind::Pc, Width::Any32)),
        r::R_386_PC16 => Ok(class(Kind::Pc, Width::I16)),
        r::R_386_PC8 => Ok(class(Kind::Pc, Width::I8)),
        r::R_386_GOTOFF => Ok(class(Kind::GotRel, Width::Any32)),
        r::R_386_GOTPC => Ok(class(Kind::GotBasePc, Width::Any32)),
        r::R_386_SIZE32 => Ok(class(Kind::Size, Width::U32)),
        r::R_386_GOT32 => if base {
            Ok(class(Kind::GotSlotRel, Width::Any32))
        } else {
            Ok(class(Kind::GotAbs, Width::Any32))
        },
        r::R_386_GOT32X => match (op, modrm) {
            // mov foo@GOT(%reg), %reg2 -> lea foo@GOTOFF(%reg), %reg2
            (Some(0x8b), _) if relax && base => Ok(class(Kind::RelaxGotOff, Width::Any32)),
            // mov foo@GOT, %reg -> mov $foo, %reg (no base register: only
            // position-dependent code reads the GOT this way)
            (Some(0x8b), _) if relax && !context.pic => Ok(
                class(Kind::RelaxGotPcNoPic, Width::Any32),
            ),
            // call/jmp *foo@GOT(%reg) -> addr32 call foo / jmp foo; nop
            (Some(0xff), Some(m)) if relax && (m & 0x38 == 0x10 || m & 0x38 == 0x20) => Ok(
                class(Kind::RelaxGotPc, Width::Any32),
            ),
            _ => if base {
                Ok(class(Kind::GotSlotRel, Width::Any32))
            } else {
                Ok(class(Kind::GotAbs, Width::Any32))
            },
        },
        r::R_386_TLS_LE => Ok(class(Kind::TpOff, Width::Any32)),
        r::R_386_TLS_LDO_32 => Ok(class(Kind::DtpOff, Width::Any32)),
        r::R_386_TLS_IE => match context.tls {
            TlsMode::LocalExec => Ok(class(Kind::IeToLe, Width::Nothing)),
            _ => Ok(got(Kind::GotAbs, Width::Any32, GotKind::TpOff)),
        },
        r::R_386_TLS_GOTIE => match context.tls {
            TlsMode::LocalExec => Ok(class(Kind::IeToLe, Width::Nothing)),
            _ => Ok(got(Kind::GotSlotRel, Width::Any32, GotKind::TpOff)),
        },
        // leal x@tlsgd(,%ebx,1), %eax; call ___tls_get_addr@plt, or
        // leal x@tlsgd(%reg), %eax; call *___tls_get_addr@GOT(%reg).
        r::R_386_TLS_GD => if context.tls == TlsMode::Dynamic {
            Ok(got(Kind::GotSlotRel, Width::Any32, GotKind::TlsGd))
        } else {
            match (bytes::byte_at(data, offset - 3), op, bytes::byte_at(data, offset + 4)) {
                (Some(0x8d), Some(0x04), Some(0xe8)) | (_, Some(0x8d), Some(0xff)) => Ok(
                    class(
                        if context.tls == TlsMode::LocalExec {
                            Kind::GdToLe
                        } else {
                            Kind::GdToIe
                        },
                        Width::Nothing,
                    ).skipping(),
                ),
                _ => Err(ClassifyError::BadTlsInstruction),
            }
        },
        // leal x@tlsldm(%reg), %eax; call ___tls_get_addr@plt, or
        // call *___tls_get_addr@GOT(%reg).
        r::R_386_TLS_LDM => if context.tls_ld != TlsMode::LocalExec {
            Ok(got(Kind::GotSlotRel, Width::Any32, GotKind::TlsLd))
        } else {
            match (op, bytes::byte_at(data, offset + 4)) {
                (Some(0x8d), Some(0xe8 | 0xff)) => Ok(
                    class(Kind::LdToLe, Width::Nothing).skipping(),
                ),
                _ => Err(ClassifyError::BadTlsInstruction),
            }
        },
        r::R_386_TLS_GOTDESC => match context.tls {
            TlsMode::LocalExec => Ok(class(Kind::DescToLe, Width::Nothing)),
            TlsMode::InitialExec => Ok(class(Kind::DescToIe, Width::Nothing)),
            TlsMode::Dynamic => Ok(got(Kind::GotSlotRel, Width::Any32, GotKind::TlsDesc)),
        },
        r::R_386_TLS_DESC_CALL => match context.tls {
            TlsMode::Dynamic => Ok(class(Kind::Nothing, Width::Nothing)),
            _ => Ok(class(Kind::DescCallToLe, Width::Nothing)),
        },
        _ => Err(ClassifyError::Unsupported),
    }
}

/// Classifies relocation `r_type` at `offset` in section `data`.
///
/// # Errors
///
/// [`ClassifyError`] for unsupported types and unrecognized TLS code.
pub fn classify(
    r_type: u32,
    data: &[u8],
    offset: u64,
    context: ClassifyContext,
) -> (r: Result<Class, ClassifyError>)
    ensures
        r == spec_classify(r_type, data@, offset, context),
{
    let op: Option<u8> = byte_before(data, offset, 2);
    let modrm: Option<u8> = byte_before(data, offset, 1);
    let base: bool = has_base(modrm);
    let relax: bool = context.relax_got && context.code;
    match r_type {
        r::R_386_NONE | r::R_386_GNU_VTINHERIT | r::R_386_GNU_VTENTRY => Ok(
            class(Kind::Nothing, Width::Nothing),
        ),
        r::R_386_32 => Ok(class(Kind::Abs, Width::Any32)),
        r::R_386_16 => Ok(class(Kind::Abs, Width::Any16)),
        r::R_386_8 => Ok(class(Kind::Abs, Width::Any8)),
        r::R_386_PC32 | r::R_386_PLT32 => Ok(class(Kind::Pc, Width::Any32)),
        r::R_386_PC16 => Ok(class(Kind::Pc, Width::I16)),
        r::R_386_PC8 => Ok(class(Kind::Pc, Width::I8)),
        r::R_386_GOTOFF => Ok(class(Kind::GotRel, Width::Any32)),
        r::R_386_GOTPC => Ok(class(Kind::GotBasePc, Width::Any32)),
        r::R_386_SIZE32 => Ok(class(Kind::Size, Width::U32)),
        r::R_386_GOT32 => if base {
            Ok(class(Kind::GotSlotRel, Width::Any32))
        } else {
            Ok(class(Kind::GotAbs, Width::Any32))
        },
        r::R_386_GOT32X => match (op, modrm) {
            // mov foo@GOT(%reg), %reg2 -> lea foo@GOTOFF(%reg), %reg2
            (Some(0x8b), _) if relax && base => Ok(class(Kind::RelaxGotOff, Width::Any32)),
            // mov foo@GOT, %reg -> mov $foo, %reg (no base register: only
            // position-dependent code reads the GOT this way)
            (Some(0x8b), _) if relax && !context.pic => Ok(
                class(Kind::RelaxGotPcNoPic, Width::Any32),
            ),
            // call/jmp *foo@GOT(%reg) -> addr32 call foo / jmp foo; nop
            (Some(0xff), Some(m)) if relax && (m & 0x38 == 0x10 || m & 0x38 == 0x20) => Ok(
                class(Kind::RelaxGotPc, Width::Any32),
            ),
            _ => if base {
                Ok(class(Kind::GotSlotRel, Width::Any32))
            } else {
                Ok(class(Kind::GotAbs, Width::Any32))
            },
        },
        r::R_386_TLS_LE => Ok(class(Kind::TpOff, Width::Any32)),
        r::R_386_TLS_LDO_32 => Ok(class(Kind::DtpOff, Width::Any32)),
        r::R_386_TLS_IE => match context.tls {
            TlsMode::LocalExec => Ok(class(Kind::IeToLe, Width::Nothing)),
            _ => Ok(got(Kind::GotAbs, Width::Any32, GotKind::TpOff)),
        },
        r::R_386_TLS_GOTIE => match context.tls {
            TlsMode::LocalExec => Ok(class(Kind::IeToLe, Width::Nothing)),
            _ => Ok(got(Kind::GotSlotRel, Width::Any32, GotKind::TpOff)),
        },
        // leal x@tlsgd(,%ebx,1), %eax; call ___tls_get_addr@plt, or
        // leal x@tlsgd(%reg), %eax; call *___tls_get_addr@GOT(%reg).
        r::R_386_TLS_GD => if context.tls == TlsMode::Dynamic {
            Ok(got(Kind::GotSlotRel, Width::Any32, GotKind::TlsGd))
        } else {
            match (byte_before(data, offset, 3), op, byte_after(data, offset, 4)) {
                (Some(0x8d), Some(0x04), Some(0xe8)) | (_, Some(0x8d), Some(0xff)) => Ok(
                    class(
                        if context.tls == TlsMode::LocalExec {
                            Kind::GdToLe
                        } else {
                            Kind::GdToIe
                        },
                        Width::Nothing,
                    ).skipping(),
                ),
                _ => Err(ClassifyError::BadTlsInstruction),
            }
        },
        // leal x@tlsldm(%reg), %eax; call ___tls_get_addr@plt, or
        // call *___tls_get_addr@GOT(%reg).
        r::R_386_TLS_LDM => if context.tls_ld != TlsMode::LocalExec {
            Ok(got(Kind::GotSlotRel, Width::Any32, GotKind::TlsLd))
        } else {
            match (op, byte_after(data, offset, 4)) {
                (Some(0x8d), Some(0xe8 | 0xff)) => Ok(
                    class(Kind::LdToLe, Width::Nothing).skipping(),
                ),
                _ => Err(ClassifyError::BadTlsInstruction),
            }
        },
        r::R_386_TLS_GOTDESC => match context.tls {
            TlsMode::LocalExec => Ok(class(Kind::DescToLe, Width::Nothing)),
            TlsMode::InitialExec => Ok(class(Kind::DescToIe, Width::Nothing)),
            TlsMode::Dynamic => Ok(got(Kind::GotSlotRel, Width::Any32, GotKind::TlsDesc)),
        },
        r::R_386_TLS_DESC_CALL => match context.tls {
            TlsMode::Dynamic => Ok(class(Kind::Nothing, Width::Nothing)),
            _ => Ok(class(Kind::DescCallToLe, Width::Nothing)),
        },
        _ => Err(ClassifyError::Unsupported),
    }
}

/// What [`relax_got`] does.
pub open spec fn spec_relax_got(s: Seq<u8>, offset: u64, kind: Kind, value: i64) -> Patched {
    let at = offset as int;
    let p = Patched::new(s);
    match (bytes::byte_at(s, at - 2), bytes::byte_at(s, at - 1)) {
        (Some(op), Some(modrm)) => match (kind, op) {
            // mov foo@GOT(%reg), %reg2 -> lea foo@GOTOFF(%reg), %reg2
            (Kind::RelaxGotOff, 0x8b) => p.byte(at - 2, 0x8d).word(at, value as u32),
            // mov foo@GOT, %reg -> mov $foo, %reg
            (Kind::RelaxGotPcNoPic, 0x8b) => p.byte(at - 2, 0xc7).byte(
                at - 1,
                0xc0 | (modrm >> 3) & 7,
            ).word(at, value as u32),
            // call *foo@GOT(%reg) -> addr32 call foo; the displacement is
            // relative to the end of the instruction.
            (Kind::RelaxGotPc, 0xff) => if modrm & 0x38 == 0x10 {
                p.byte(at - 2, 0x67).byte(at - 1, 0xe8).word(at, value.wrapping_sub(4) as u32)
            } else if modrm & 0x38 == 0x20 {
                // jmp *foo@GOT(%reg) -> jmp foo; nop
                p.byte(at - 2, 0xe9).byte(at + 3, 0x90).word(
                    at - 1,
                    value.wrapping_sub(3) as u32,
                )
            } else {
                p.fail(ApplyError::BadInstruction)
            },
            _ => p.fail(ApplyError::BadInstruction),
        },
        _ => p.fail(ApplyError::BadInstruction),
    }
}

/// Rewrites a relaxed `R_386_GOT32X` instruction and writes `value`:
/// `S + A - GOT` for [`Kind::RelaxGotOff`], `S + A` for
/// [`Kind::RelaxGotPcNoPic`] and `S + A - P` for [`Kind::RelaxGotPc`].
///
/// # Errors
///
/// [`ApplyError`] if the instruction is not one that was classified as
/// relaxable.
pub fn relax_got(out: &mut [u8], offset: u64, kind: Kind, value: i64) -> (r: Result<(), ApplyError>)
    ensures
        r == spec_relax_got(old(out)@, offset, kind, value).result,
        final(out)@ == spec_relax_got(old(out)@, offset, kind, value).bytes,
{
    let op: u8 = get(out, offset, 2)?;
    let modrm: u8 = get(out, offset, 1)?;
    match (kind, op) {
        (Kind::RelaxGotOff, 0x8b) => {
            put(out, offset, -2, 0x8d)?;
            put_word(out, offset, value as u32)
        },
        (Kind::RelaxGotPcNoPic, 0x8b) => {
            put(out, offset, -2, 0xc7)?;
            put(out, offset, -1, 0xc0 | (modrm >> 3) & 7)?;
            put_word(out, offset, value as u32)
        },
        (Kind::RelaxGotPc, 0xff) => {
            if modrm & 0x38 == 0x10 {
                put(out, offset, -2, 0x67)?;
                put(out, offset, -1, 0xe8)?;
                put_word(out, offset, value.wrapping_sub(4) as u32)
            } else if modrm & 0x38 == 0x20 {
                put(out, offset, -2, 0xe9)?;
                put(out, offset, 3, 0x90)?;
                put_word(out, offset - 1, value.wrapping_sub(3) as u32)
            } else {
                Err(ApplyError::BadInstruction)
            }
        },
        _ => Err(ApplyError::BadInstruction),
    }
}

/// `movl %gs:0,%eax; subl $0,%eax`.
pub const GD_TO_LE: [u8; 12] = [0x65, 0xa1, 0, 0, 0, 0, 0x81, 0xe8, 0, 0, 0, 0];

/// `movl %gs:0,%eax; nop; leal 0(%esi,1),%esi`.
pub const LD_TO_LE: [u8; 11] = [0x65, 0xa1, 0, 0, 0, 0, 0x90, 0x8d, 0x74, 0x26, 0x00];

/// `movl %gs:0,%eax; leal 0(%esi),%esi`.
pub const LD_TO_LE_INDIRECT: [u8; 12] = [0x65, 0xa1, 0, 0, 0, 0, 0x8d, 0xb6, 0, 0, 0, 0];

/// `xchg %ax,%ax`.
pub const NOP2: [u8; 2] = [0x66, 0x90];

/// `movl %gs:0,%eax; addl 0(base),%eax`.
#[verifier::allow_in_spec]
pub fn gd_to_ie(base: u8) -> [u8; 12]
    returns
        [0x65u8, 0xa1, 0, 0, 0, 0, 0x03, base, 0, 0, 0, 0],
{
    [0x65u8, 0xa1, 0, 0, 0, 0, 0x03, base, 0, 0, 0, 0]
}

/// The opcode and ModRM byte of an initial-exec access in local-exec code;
/// `None` for the opcode keeps the one there is.
#[verifier::allow_in_spec]
pub fn ie_to_le(absolute: bool, op: u8, modrm: u8) -> Option<(Option<u8>, u8)>
    returns
        ({
            let reg = (modrm >> 3) & 7;
            if absolute && modrm == 0xa1 {
                // movl foo@indntpoff,%eax -> movl $foo,%eax
                Some((None, 0xb8u8))
            } else if op == 0x8b {
                // movl foo@indntpoff,%reg -> movl $foo,%reg
                // movl foo@gotntpoff(%reg),%reg2 -> movl $foo,%reg2
                Some((Some(0xc7u8), 0xc0 | reg))
            } else if op == 0x03 && absolute {
                // addl foo@indntpoff,%reg -> addl $foo,%reg
                Some((Some(0x81u8), 0xc0 | reg))
            } else if op == 0x03 {
                // addl foo@gotntpoff(%reg),%reg2 -> leal foo(%reg2),%reg2
                Some((Some(0x8du8), 0x80 | reg << 3 | reg))
            } else {
                None
            }
        }),
{
    let reg: u8 = (modrm >> 3) & 7;
    if absolute && modrm == 0xa1 {
        Some((None, 0xb8u8))
    } else if op == 0x8b {
        Some((Some(0xc7u8), 0xc0 | reg))
    } else if op == 0x03 && absolute {
        Some((Some(0x81u8), 0xc0 | reg))
    } else if op == 0x03 {
        Some((Some(0x8du8), 0x80 | reg << 3 | reg))
    } else {
        None
    }
}

/// What [`relax_tls`] does.
pub open spec fn spec_relax_tls(
    s: Seq<u8>,
    offset: u64,
    kind: Kind,
    r_type: u32,
    values: RelaxValues,
) -> Patched {
    let at = offset as int;
    let p = Patched::new(s);
    let tpoff = values.tpoff;
    let from_got = values.got.wrapping_sub(values.got_base);
    match kind {
        // leal x@tlsgd(,%ebx,1),%eax; call ___tls_get_addr@plt (or the %reg
        // form with an indirect call) ->
        // movl %gs:0,%eax; subl $-x@ntpoff,%eax
        // The `lea` starts three bytes back in the SIB form, two otherwise.
        Kind::GdToLe => match bytes::byte_at(s, at - 2) {
            Some(b) => {
                let start = if b == 0x04 {
                    at - 3
                } else {
                    at - 2
                };
                p.copy(start, GD_TO_LE@).word(start + 8, (0i64).wrapping_sub(tpoff) as u32)
            },
            None => p.fail(ApplyError::BadInstruction),
        },
        // -> movl %gs:0,%eax; addl x@gotntpoff(%reg),%eax
        Kind::GdToIe => match (bytes::byte_at(s, at - 2), bytes::byte_at(s, at - 1)) {
            (Some(b), Some(modrm)) => if b == 0x04 {
                p.copy(at - 3, gd_to_ie(0x83)@).word(at + 5, from_got as u32)
            } else {
                p.copy(at - 2, gd_to_ie(0x80 | modrm & 7)@).word(at + 6, from_got as u32)
            },
            _ => p.fail(ApplyError::BadInstruction),
        },
        // leal x@tlsldm(%reg),%eax; call ___tls_get_addr@plt, or
        // call *___tls_get_addr@GOT(%reg)
        Kind::LdToLe => if bytes::byte_at(s, at + 4) == Some(0xe8u8) {
            p.copy(at - 2, LD_TO_LE@)
        } else {
            p.copy(at - 2, LD_TO_LE_INDIRECT@)
        },
        Kind::IeToLe => match (bytes::byte_at(s, at - 2), bytes::byte_at(s, at - 1)) {
            (Some(op), Some(modrm)) => match ie_to_le(r_type == r::R_386_TLS_IE, op, modrm) {
                Some((Some(op), modrm)) => p.byte(at - 2, op).byte(at - 1, modrm).word(
                    at,
                    tpoff as u32,
                ),
                Some((None, modrm)) => p.byte(at - 1, modrm).word(at, tpoff as u32),
                None => p.fail(ApplyError::BadInstruction),
            },
            _ => p.fail(ApplyError::BadInstruction),
        },
        // leal x@tlsdesc(%ebx),%eax -> leal x@ntpoff,%eax
        Kind::DescToLe => p.require(
            bytes::byte_at(s, at - 2) == Some(0x8du8) && bytes::byte_at(s, at - 1) == Some(0x83u8),
            ApplyError::BadInstruction,
        ).byte(at - 1, 0x05).word(at, tpoff as u32),
        // leal x@tlsdesc(%ebx),%eax -> movl x@gotntpoff(%ebx),%eax
        Kind::DescToIe => p.require(
            bytes::byte_at(s, at - 2) == Some(0x8du8),
            ApplyError::BadInstruction,
        ).byte(at - 2, 0x8b).word(at, from_got as u32),
        // call *x@tlscall(%eax) -> xchg %ax,%ax
        Kind::DescCallToLe => p.copy(at, NOP2@),
        _ => p.fail(ApplyError::BadInstruction),
    }
}

/// Relaxes a TLS access to local-exec or initial-exec.
///
/// # Errors
///
/// [`ApplyError`] for unrecognized instruction sequences.
#[verifier::rlimit(40)]
pub fn relax_tls(
    out: &mut [u8],
    offset: u64,
    kind: Kind,
    r_type: u32,
    values: RelaxValues,
) -> (r: Result<(), ApplyError>)
    ensures
        r == spec_relax_tls(old(out)@, offset, kind, r_type, values).result,
        final(out)@ == spec_relax_tls(old(out)@, offset, kind, r_type, values).bytes,
{
    let _len: usize = out.len();
    let tpoff: i64 = values.tpoff;
    let from_got: u64 = values.got.wrapping_sub(values.got_base);
    match kind {
        Kind::GdToLe => {
            let back: u64 = if get(out, offset, 2)? == 0x04 {
                3
            } else {
                2
            };
            if offset < back {
                return Err(ApplyError::BadInstruction);
            }
            let start: u64 = offset - back;
            copy_at(out, start, &GD_TO_LE)?;
            put_word(out, start + 8, (0i64).wrapping_sub(tpoff) as u32)
        },
        Kind::GdToIe => {
            let sib: bool = get(out, offset, 2)? == 0x04;
            let back: u64 = if sib {
                3
            } else {
                2
            };
            if offset < back {
                return Err(ApplyError::BadInstruction);
            }
            let start: u64 = offset - back;
            let modrm: u8 = get(out, offset, 1)?;
            let base: u8 = if sib {
                0x83
            } else {
                0x80 | modrm & 7
            };
            let code: [u8; 12] = gd_to_ie(base);
            copy_at(out, start, &code)?;
            put_word(out, start + 8, from_got as u32)
        },
        Kind::LdToLe => {
            if offset < 2 {
                return Err(ApplyError::BadInstruction);
            }
            if byte_after(out, offset, 4) == Some(0xe8) {
                copy_at(out, offset - 2, &LD_TO_LE)
            } else {
                copy_at(out, offset - 2, &LD_TO_LE_INDIRECT)
            }
        },
        Kind::IeToLe => {
            let op: u8 = get(out, offset, 2)?;
            let modrm: u8 = get(out, offset, 1)?;
            match ie_to_le(r_type == r::R_386_TLS_IE, op, modrm) {
                Some((Some(op), modrm)) => {
                    put(out, offset, -2, op)?;
                    put(out, offset, -1, modrm)?;
                },
                Some((None, modrm)) => {
                    put(out, offset, -1, modrm)?;
                },
                None => {
                    return Err(ApplyError::BadInstruction);
                },
            }
            put_word(out, offset, tpoff as u32)
        },
        Kind::DescToLe => {
            if get(out, offset, 2)? != 0x8d || get(out, offset, 1)? != 0x83 {
                return Err(ApplyError::BadInstruction);
            }
            put(out, offset, -1, 0x05)?;
            put_word(out, offset, tpoff as u32)
        },
        Kind::DescToIe => {
            if get(out, offset, 2)? != 0x8d {
                return Err(ApplyError::BadInstruction);
            }
            put(out, offset, -2, 0x8b)?;
            put_word(out, offset, from_got as u32)
        },
        Kind::DescCallToLe => copy_at(out, offset, &NOP2),
        _ => Err(ApplyError::BadInstruction),
    }
}

/// Size of a PLT entry (every kind with IBT, and `.plt` entries without).
pub const PLT_ENTRY_SIZE: u64 = 16;

/// Size of a `.plt.got` entry without IBT.
pub const PLT_GOT_ENTRY_SIZE: u64 = 8;

/// Size of an IFUNC PLT stub.
pub const IPLT_ENTRY_SIZE: u64 = 16;

/// `pushl 4(%ebx); jmp *8(%ebx)`.
pub const PIC_HEADER: [u8; 12] = [0xff, 0xb3, 4, 0, 0, 0, 0xff, 0xa3, 8, 0, 0, 0];

/// The 4-byte `nop` after the PLT header's jump.
pub const NOP4: [u8; 4] = [0x0f, 0x1f, 0x40, 0x00];

/// The 6-byte `nop` after a `.plt.sec` jump.
pub const NOP6: [u8; 6] = [0x66, 0x0f, 0x1f, 0x44, 0x00, 0x00];

/// The `nop`s after an IFUNC stub's jump.
pub const NOP10: [u8; 10] = [0x66, 0x0f, 0x1f, 0x44, 0x00, 0x00, 0x66, 0x0f, 0x1f, 0x44];

/// `pushl` of an absolute word, without its address.
pub const PUSH_ABSOLUTE: [u8; 2] = [0xff, 0x35];

/// `jmp *` through an absolute word, without its address.
pub const JUMP_ABSOLUTE: [u8; 2] = [0xff, 0x25];

/// `endbr32`.
pub const ENDBR32: [u8; 4] = [0xf3, 0x0f, 0x1e, 0xfb];

/// `endbr32; pushl`, without its operand.
pub const ENDBR32_PUSH: [u8; 5] = [0xf3, 0x0f, 0x1e, 0xfb, 0x68];

/// The 32-bit address of a GOT word's operand: absolute in
/// position-dependent output, relative to `got`, the GOT base, otherwise.
#[verifier::allow_in_spec]
pub fn slot_operand(slot: u64, got: u64, pic: bool) -> u32
    returns
        (if pic {
            slot.wrapping_sub(got) as u32
        } else {
            slot as u32
        }),
{
    if pic {
        slot.wrapping_sub(got) as u32
    } else {
        slot as u32
    }
}

/// The `jmp *` that goes through the GOT word at `slot`: absolute in
/// position-dependent output, `%ebx`-relative (to `got`, the GOT base)
/// otherwise.
#[verifier::allow_in_spec]
pub fn jump_through(slot: u64, got: u64, pic: bool) -> [u8; 6]
    returns
        [
            0xffu8,
            if pic {
                0xa3
            } else {
                0x25
            },
            slot_operand(slot, got, pic) as u8,
            (slot_operand(slot, got, pic) >> 8) as u8,
            (slot_operand(slot, got, pic) >> 16) as u8,
            (slot_operand(slot, got, pic) >> 24) as u8,
        ],
{
    let operand: u32 = slot_operand(slot, got, pic);
    [
        0xffu8,
        if pic {
            0xa3
        } else {
            0x25
        },
        operand as u8,
        (operand >> 8) as u8,
        (operand >> 16) as u8,
        (operand >> 24) as u8,
    ]
}

/// What [`write_plt_header`] does.
pub open spec fn spec_write_plt_header(s: Seq<u8>, got_plt: u64, pic: bool) -> Patched {
    let p = Patched::new(s);
    (if pic {
        p.write(0, PIC_HEADER@, ApplyError::OutOfBounds)
    } else {
        p.write(0, PUSH_ABSOLUTE@, ApplyError::OutOfBounds).word(
            2,
            got_plt.wrapping_add(4) as u32,
        ).write(6, JUMP_ABSOLUTE@, ApplyError::OutOfBounds).word(8, got_plt.wrapping_add(8) as u32)
    }).write(12, NOP4@, ApplyError::OutOfBounds)
}

/// Writes the lazy PLT header: push the link map word and jump to the
/// resolver, both in `.got.plt` (at `got_plt`, the GOT base).
///
/// # Errors
///
/// [`ApplyError`] when out of range.
pub fn write_plt_header(out: &mut [u8], got_plt: u64, pic: bool) -> (r: Result<(), ApplyError>)
    ensures
        r == spec_write_plt_header(old(out)@, got_plt, pic).result,
        final(out)@ == spec_write_plt_header(old(out)@, got_plt, pic).bytes,
{
    if pic {
        put_bytes(out, 0, &PIC_HEADER)?;
    } else {
        put_bytes(out, 0, &PUSH_ABSOLUTE)?;
        put_word(out, 2, got_plt.wrapping_add(4) as u32)?;
        put_bytes(out, 6, &JUMP_ABSOLUTE)?;
        put_word(out, 8, got_plt.wrapping_add(8) as u32)?;
    }
    put_bytes(out, 12, &NOP4)
}

/// What [`write_plt_entry`] does.
pub open spec fn spec_write_plt_entry(
    s: Seq<u8>,
    entry: u64,
    slot: u64,
    index: u32,
    plt: u64,
    got: u64,
    pic: bool,
    ibt: bool,
) -> Patched {
    let p = Patched::new(s);
    // The push operand is the byte offset of the entry's `R_386_JUMP_SLOT`
    // in `.rel.plt`.
    let offset = index.wrapping_mul(8);
    if ibt {
        p.write(0, ENDBR32_PUSH@, ApplyError::OutOfBounds).word(5, offset).byte(9, 0xe9).word(
            10,
            plt.wrapping_sub(entry.wrapping_add(14)) as u32,
        ).write(14, NOP2@, ApplyError::OutOfBounds)
    } else {
        p.write(0, jump_through(slot, got, pic)@, ApplyError::OutOfBounds).byte(6, 0x68).word(
            7,
            offset,
        ).byte(11, 0xe9).word(12, plt.wrapping_sub(entry.wrapping_add(16)) as u32)
    }
}

/// Writes lazy `.plt` entry `index` at `entry`. Without IBT it jumps
/// through its `.got.plt` slot at `slot` (which initially points back at
/// the `push`); with IBT it is only the lazy-binding half, and the jump is
/// in `.plt.sec`.
///
/// # Errors
///
/// [`ApplyError`] when out of range.
pub fn write_plt_entry(
    out: &mut [u8],
    entry: u64,
    slot: u64,
    index: u32,
    plt: u64,
    got: u64,
    pic: bool,
    ibt: bool,
) -> (r: Result<(), ApplyError>)
    ensures
        r == spec_write_plt_entry(old(out)@, entry, slot, index, plt, got, pic, ibt).result,
        final(out)@ == spec_write_plt_entry(
            old(out)@,
            entry,
            slot,
            index,
            plt,
            got,
            pic,
            ibt,
        ).bytes,
{
    let offset: u32 = index.wrapping_mul(8);
    if ibt {
        put_bytes(out, 0, &ENDBR32_PUSH)?;
        put_word(out, 5, offset)?;
        put(out, 9, 0, 0xe9)?;
        put_word(out, 10, plt.wrapping_sub(entry.wrapping_add(14)) as u32)?;
        put_bytes(out, 14, &NOP2)
    } else {
        let jump: [u8; 6] = jump_through(slot, got, pic);
        put_bytes(out, 0, &jump)?;
        put(out, 6, 0, 0x68)?;
        put_word(out, 7, offset)?;
        put(out, 11, 0, 0xe9)?;
        put_word(out, 12, plt.wrapping_sub(entry.wrapping_add(16)) as u32)
    }
}

/// What [`write_plt_jump`] does.
pub open spec fn spec_write_plt_jump(
    s: Seq<u8>,
    slot: u64,
    got: u64,
    pic: bool,
    ibt: bool,
) -> Patched {
    let p = Patched::new(s);
    let jump = jump_through(slot, got, pic)@;
    if ibt {
        p.write(0, ENDBR32@, ApplyError::OutOfBounds).write(
            4,
            jump,
            ApplyError::OutOfBounds,
        ).write(10, NOP6@, ApplyError::OutOfBounds)
    } else {
        p.write(0, jump, ApplyError::OutOfBounds).write(6, NOP2@, ApplyError::OutOfBounds)
    }
}

/// Writes a `.plt.sec` entry (IBT) or `.plt.got` entry that jumps through
/// the GOT word at `slot`. `ibt` selects the 16-byte form with `endbr32`;
/// otherwise the 8-byte `.plt.got` form is written.
///
/// # Errors
///
/// [`ApplyError`] when out of range.
pub fn write_plt_jump(out: &mut [u8], slot: u64, got: u64, pic: bool, ibt: bool) -> (r: Result<
    (),
    ApplyError,
>)
    ensures
        r == spec_write_plt_jump(old(out)@, slot, got, pic, ibt).result,
        final(out)@ == spec_write_plt_jump(old(out)@, slot, got, pic, ibt).bytes,
{
    let jump: [u8; 6] = jump_through(slot, got, pic);
    if ibt {
        put_bytes(out, 0, &ENDBR32)?;
        put_bytes(out, 4, &jump)?;
        put_bytes(out, 10, &NOP6)
    } else {
        put_bytes(out, 0, &jump)?;
        put_bytes(out, 6, &NOP2)
    }
}

/// What [`write_iplt`] does.
pub open spec fn spec_write_iplt(s: Seq<u8>, slot: u64, got: u64, pic: bool) -> Patched {
    Patched::new(s).write(0, jump_through(slot, got, pic)@, ApplyError::OutOfBounds).write(
        6,
        NOP10@,
        ApplyError::OutOfBounds,
    )
}

/// Writes an IFUNC stub that jumps through the GOT slot at `slot`, padded
/// with `nop`s.
///
/// # Errors
///
/// [`ApplyError::OutOfBounds`] when `out` is too small.
pub fn write_iplt(out: &mut [u8], slot: u64, got: u64, pic: bool) -> (r: Result<(), ApplyError>)
    ensures
        r == spec_write_iplt(old(out)@, slot, got, pic).result,
        final(out)@ == spec_write_iplt(old(out)@, slot, got, pic).bytes,
{
    let jump: [u8; 6] = jump_through(slot, got, pic);
    put_bytes(out, 0, &jump)?;
    put_bytes(out, 6, &NOP10)
}

/// Shared objects keep the TLS models their code was compiled for.
pub proof fn shared_objects_keep_tls_models(
    r_type: u32,
    data: Seq<u8>,
    offset: u64,
    context: ClassifyContext,
)
    requires
        context.tls == TlsMode::Dynamic,
        context.tls_ld == TlsMode::Dynamic,
    ensures
        match spec_classify(r_type, data, offset, context) {
            Ok(class) => !super::changes_tls_model(class.kind),
            Err(_) => true,
        },
{
}

/// The field that each relocation type of the i386 System V psABI fills, by the
/// number of the type and by what is computed, and the GOT entry it goes
/// through.
pub open spec fn abi_field(kind: Kind, r_type: u32) -> Option<(Width, GotKind)> {
    match kind {
        Kind::Abs => match r_type {
            1 => Some((Width::Any32, GotKind::Address)),
            20 => Some((Width::Any16, GotKind::Address)),
            22 => Some((Width::Any8, GotKind::Address)),
            _ => None,
        },
        Kind::Pc => match r_type {
            2 | 4 => Some((Width::Any32, GotKind::Address)),
            21 => Some((Width::I16, GotKind::Address)),
            23 => Some((Width::I8, GotKind::Address)),
            _ => None,
        },
        Kind::GotRel => match r_type {
            9 => Some((Width::Any32, GotKind::Address)),
            _ => None,
        },
        Kind::GotBasePc => match r_type {
            10 => Some((Width::Any32, GotKind::Address)),
            _ => None,
        },
        Kind::Size => match r_type {
            38 => Some((Width::U32, GotKind::Address)),
            _ => None,
        },
        Kind::TpOff => match r_type {
            17 => Some((Width::Any32, GotKind::Address)),
            _ => None,
        },
        Kind::DtpOff => match r_type {
            32 => Some((Width::Any32, GotKind::Address)),
            _ => None,
        },
        Kind::Nothing => match r_type {
            0 | 250 | 251 => Some((Width::Nothing, GotKind::Address)),
            _ => None,
        },
        _ => None,
    }
}

/// Every relocation type computes what the ABI defines for it and fills the
/// field the ABI gives it, whatever the code around it; and
/// no other type is taken for one that computes `S + A`, `S + A - P` or the
/// like.
#[verifier::spinoff_prover]
#[verifier::rlimit(80)]
pub proof fn types_compute_what_the_abi_says(r_type: u32, data: Seq<u8>, offset: u64, context: ClassifyContext, kind: Kind)
    ensures
        abi_field(kind, r_type) matches Some((width, slot)) ==> spec_classify(r_type, data, offset, context) == Ok::<Class, ClassifyError>(Class { kind, width, slot, skip_next: false }),
        spec_classify(r_type, data, offset, context) matches Ok(c) ==> ((c.kind == Kind::Abs || c.kind == Kind::Pc || c.kind == Kind::GotRel || c.kind == Kind::GotBasePc || c.kind == Kind::Size || c.kind == Kind::TpOff || c.kind == Kind::DtpOff) ==> abi_field(c.kind, r_type) == Some((c.width, c.slot))),
{
}

/// What each thread-local relocation type becomes, by its number, in an
/// access of one model or another: what is computed, the field, the GOT entry,
/// and whether the relocation that follows is taken along.
pub open spec fn tls_access(r_type: u32, tls: TlsMode, tls_ld: TlsMode) -> Option<
    (Kind, Width, GotKind, bool),
> {
    match r_type {
        15 => match tls {
            TlsMode::LocalExec => Some((Kind::IeToLe, Width::Nothing, GotKind::Address, false)),
            TlsMode::InitialExec => Some((Kind::GotAbs, Width::Any32, GotKind::TpOff, false)),
            TlsMode::Dynamic => Some((Kind::GotAbs, Width::Any32, GotKind::TpOff, false)),
        },
        16 => match tls {
            TlsMode::LocalExec => Some((Kind::IeToLe, Width::Nothing, GotKind::Address, false)),
            TlsMode::InitialExec => Some((Kind::GotSlotRel, Width::Any32, GotKind::TpOff, false)),
            TlsMode::Dynamic => Some((Kind::GotSlotRel, Width::Any32, GotKind::TpOff, false)),
        },
        39 => match tls {
            TlsMode::LocalExec => Some((Kind::DescToLe, Width::Nothing, GotKind::Address, false)),
            TlsMode::InitialExec => Some((Kind::DescToIe, Width::Nothing, GotKind::Address, false)),
            TlsMode::Dynamic => Some((Kind::GotSlotRel, Width::Any32, GotKind::TlsDesc, false)),
        },
        40 => match tls {
            TlsMode::LocalExec => Some((Kind::DescCallToLe, Width::Nothing, GotKind::Address, false)),
            TlsMode::InitialExec => Some((Kind::DescCallToLe, Width::Nothing, GotKind::Address, false)),
            TlsMode::Dynamic => Some((Kind::Nothing, Width::Nothing, GotKind::Address, false)),
        },
        _ => None,
    }
}

/// Thread-local accesses follow the model they are linked with.
#[verifier::spinoff_prover]
#[verifier::rlimit(80)]
pub proof fn thread_local_types_follow_the_model(r_type: u32, data: Seq<u8>, offset: u64, context: ClassifyContext)
    ensures
        tls_access(r_type, context.tls, context.tls_ld) matches Some((kind, width, slot, skip_next)) ==> spec_classify(r_type, data, offset, context) == Ok::<Class, ClassifyError>(Class { kind, width, slot, skip_next }),
{
}

/// Where the word that names a slot points: to its address, or relative to
/// the GOT where the output may be loaded anywhere.
pub open spec fn names_slot(s: Seq<u8>, at: int, slot: u64, got: u64, pic: bool) -> bool {
    &&& bytes::u32_at(s, at) matches Some(w)
    &&& if pic {
        w == (slot - got) % 0x1_0000_0000
    } else {
        w == slot as int % 0x1_0000_0000
    }
}

/// A PLT entry jumps through its slot, pushes the offset of its relocation
/// and jumps to the header.
#[verifier::rlimit(60)]
#[verifier::spinoff_prover]
pub proof fn plt_entries_lead_to_their_slot(
    s: Seq<u8>,
    entry: u64,
    slot: u64,
    index: u32,
    plt: u64,
    got: u64,
    pic: bool,
)
    requires
        s.len() >= 16,
    ensures
        ({
            let p = spec_write_plt_entry(s, entry, slot, index, plt, got, pic, false);
            let b = p.bytes;
            &&& p.result is Ok
            &&& b[0] == 0xff
            &&& b[1] == (if pic {
                0xa3u8
            } else {
                0x25u8
            })
            &&& names_slot(b, 2, slot, got, pic)
            &&& b[6] == 0x68
            &&& bytes::u32_at(b, 7) == Some(index.wrapping_mul(8))
            &&& b[11] == 0xe9
            &&& bytes::u32_at(b, 12) matches Some(d)
            &&& d == (plt - entry.wrapping_add(16)) % 0x1_0000_0000
        }),
{
    crate::bits::low_halves(slot, got);
    crate::bits::low_halves(plt, entry.wrapping_add(16));
    let operand = slot_operand(slot, got, pic);
    let offset = index.wrapping_mul(8);
    let a = spec_write_plt_entry(s, entry, slot, index, plt, got, pic, false).bytes;
    assert(a.subrange(2, 6) =~= bytes::spec_le32(operand));
    assert(a.subrange(7, 11) =~= bytes::spec_le32(offset));
    let d = plt.wrapping_sub(entry.wrapping_add(16)) as u32;
    assert(a.subrange(12, 16) =~= bytes::spec_le32(d));
    bytes::words_are_read(a, 2, operand);
    bytes::words_are_read(a, 7, offset);
    bytes::words_are_read(a, 12, d);
}

/// A PLT entry that starts with `endbr32` leaves the jump through the slot to
/// `.plt.sec`.
#[verifier::rlimit(60)]
#[verifier::spinoff_prover]
pub proof fn landing_pads_leave_the_jump(
    s: Seq<u8>,
    entry: u64,
    slot: u64,
    index: u32,
    plt: u64,
    got: u64,
    pic: bool,
)
    requires
        s.len() >= 16,
    ensures
        ({
            let p = spec_write_plt_entry(s, entry, slot, index, plt, got, pic, true);
            let b = p.bytes;
            &&& p.result is Ok
            &&& b[0] == 0xf3 && b[1] == 0x0f && b[2] == 0x1e && b[3] == 0xfb && b[4] == 0x68
            &&& bytes::u32_at(b, 5) == Some(index.wrapping_mul(8))
            &&& b[9] == 0xe9
            &&& bytes::u32_at(b, 10) matches Some(d)
            &&& d == (plt - entry.wrapping_add(14)) % 0x1_0000_0000
        }),
        ({
            let p = spec_write_plt_jump(s, slot, got, pic, true);
            let b = p.bytes;
            &&& p.result is Ok
            &&& b[0] == 0xf3 && b[1] == 0x0f && b[2] == 0x1e && b[3] == 0xfb && b[4] == 0xff
            &&& names_slot(b, 6, slot, got, pic)
        }),
        ({
            let p = spec_write_plt_jump(s, slot, got, pic, false);
            p.result is Ok && p.bytes[0] == 0xff && names_slot(p.bytes, 2, slot, got, pic)
        }),
        ({
            let p = spec_write_iplt(s, slot, got, pic);
            p.result is Ok && p.bytes[0] == 0xff && names_slot(p.bytes, 2, slot, got, pic)
        }),
{
    crate::bits::low_halves(slot, got);
    crate::bits::low_halves(plt, entry.wrapping_add(14));
    let operand = slot_operand(slot, got, pic);
    let offset = index.wrapping_mul(8);
    let b = spec_write_plt_entry(s, entry, slot, index, plt, got, pic, true).bytes;
    let e = plt.wrapping_sub(entry.wrapping_add(14)) as u32;
    assert(b.subrange(5, 9) =~= bytes::spec_le32(offset));
    assert(b.subrange(10, 14) =~= bytes::spec_le32(e));
    bytes::words_are_read(b, 5, offset);
    bytes::words_are_read(b, 10, e);
    let c = spec_write_plt_jump(s, slot, got, pic, true).bytes;
    assert(c.subrange(6, 10) =~= bytes::spec_le32(operand));
    bytes::words_are_read(c, 6, operand);
    let d = spec_write_plt_jump(s, slot, got, pic, false).bytes;
    assert(d.subrange(2, 6) =~= bytes::spec_le32(operand));
    bytes::words_are_read(d, 2, operand);
    let f = spec_write_iplt(s, slot, got, pic).bytes;
    assert(f.subrange(2, 6) =~= bytes::spec_le32(operand));
    bytes::words_are_read(f, 2, operand);
}

/// The PLT header pushes the second word of `.got.plt` and jumps through the
/// third.
pub proof fn the_plt_header_uses_the_got(s: Seq<u8>, got: u64)
    requires
        s.len() >= 16,
    ensures
        ({
            let p = spec_write_plt_header(s, got, false);
            &&& p.result is Ok
            &&& p.bytes[0] == 0xff && p.bytes[1] == 0x35 && p.bytes[6] == 0xff && p.bytes[7] == 0x25
            &&& bytes::u32_at(p.bytes, 2) matches Some(w)
            &&& w == (got + 4) % 0x1_0000_0000
            &&& bytes::u32_at(p.bytes, 8) matches Some(v)
            &&& v == (got + 8) % 0x1_0000_0000
        }),
        ({
            let p = spec_write_plt_header(s, got, true);
            p.result is Ok && p.bytes.subrange(0, 12) == seq![
                0xffu8, 0xb3, 4, 0, 0, 0, 0xff, 0xa3, 8, 0, 0, 0,
            ]
        }),
{
    crate::bits::low_halves(got, 4);
    crate::bits::low_halves(got, 8);
    let h = spec_write_plt_header(s, got, false).bytes;
    assert(h.subrange(2, 6) =~= bytes::spec_le32(got.wrapping_add(4) as u32));
    assert(h.subrange(8, 12) =~= bytes::spec_le32(got.wrapping_add(8) as u32));
    bytes::words_are_read(h, 2, got.wrapping_add(4) as u32);
    bytes::words_are_read(h, 8, got.wrapping_add(8) as u32);
}

/// A thread-local access that needs no call holds the offset of the variable
/// from the thread pointer, or where the GOT has it.
#[verifier::rlimit(60)]
pub proof fn thread_local_accesses_hold_the_offset(
    s: Seq<u8>,
    offset: u64,
    r_type: u32,
    values: RelaxValues,
)
    requires
        3 <= offset,
        offset + 12 <= s.len(),
    ensures
        ({
            let at = offset as int;
            let p = spec_relax_tls(s, offset, Kind::GdToLe, r_type, values);
            let start = if s[at - 2] == 0x04 {
                at - 3
            } else {
                at - 2
            };
            p.result is Ok ==> bytes::u32_at(p.bytes, start + 8) == Some(
                (0i64).wrapping_sub(values.tpoff) as u32,
            ) && p.bytes[start] == 0x65 && p.bytes[start + 1] == 0xa1 && p.bytes[start + 6] == 0x81
                && p.bytes[start + 7] == 0xe8
        }),
        ({
            let at = offset as int;
            let p = spec_relax_tls(s, offset, Kind::DescToLe, r_type, values);
            p.result is Ok ==> s[at - 2] == 0x8d && p.bytes[at - 2] == 0x8d && p.bytes[at - 1] == 0x05
                && bytes::u32_at(p.bytes, at) == Some(values.tpoff as u32)
        }),
        ({
            let at = offset as int;
            let p = spec_relax_tls(s, offset, Kind::DescToIe, r_type, values);
            p.result is Ok ==> s[at - 2] == 0x8d && p.bytes[at - 2] == 0x8b && p.bytes[at - 1] == s[at
                - 1] && bytes::u32_at(p.bytes, at) == Some(
                values.got.wrapping_sub(values.got_base) as u32,
            )
        }),
        ({
            let at = offset as int;
            let p = spec_relax_tls(s, offset, Kind::IeToLe, r_type, values);
            p.result is Ok ==> bytes::u32_at(p.bytes, at) == Some(values.tpoff as u32)
        }),
{
    let at = offset as int;
    let p = spec_relax_tls(s, offset, Kind::GdToLe, r_type, values);
    if p.result is Ok {
        let start = if s[at - 2] == 0x04 {
            at - 3
        } else {
            at - 2
        };
        let w = (0i64).wrapping_sub(values.tpoff) as u32;
        assert(p.bytes.subrange(start + 8, start + 12) =~= bytes::spec_le32(w));
        bytes::words_are_read(p.bytes, start + 8, w);
    }
    let q = spec_relax_tls(s, offset, Kind::DescToLe, r_type, values);
    if q.result is Ok {
        assert(q.bytes.subrange(at, at + 4) =~= bytes::spec_le32(values.tpoff as u32));
        bytes::words_are_read(q.bytes, at, values.tpoff as u32);
    }
    let q = spec_relax_tls(s, offset, Kind::DescToIe, r_type, values);
    let w = values.got.wrapping_sub(values.got_base) as u32;
    if q.result is Ok {
        assert(q.bytes.subrange(at, at + 4) =~= bytes::spec_le32(w));
        bytes::words_are_read(q.bytes, at, w);
    }
    let q = spec_relax_tls(s, offset, Kind::IeToLe, r_type, values);
    if q.result is Ok {
        assert(q.bytes.subrange(at, at + 4) =~= bytes::spec_le32(values.tpoff as u32));
        bytes::words_are_read(q.bytes, at, values.tpoff as u32);
    }
}

} // verus!
