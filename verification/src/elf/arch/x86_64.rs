//! x86-64 relocations: classification, relaxation, application, and the
//! PLT entry encodings.
//!
//! [`classify`] turns a relocation type (plus the instruction bytes in front
//! of it, for relaxations) into a [`Kind`]: what value to compute and which
//! instruction rewrite, if any, applies. The relocation scan uses it to find
//! GOT, PLT and TLS needs; the writer uses the same answer to patch the
//! output, so both always agree. Relaxations follow the psABI and lld:
//!
//! - `GOTPCRELX`/`REX_GOTPCRELX` with addend -4: `mov` to `lea`,
//!   `call *` to `addr32 call`, `jmp *` to `jmp; nop`, and (REX only, in
//!   position-dependent output) `test` and binary operators to immediate
//!   forms;
//! - TLS in executables ([`TlsMode`]): general-dynamic, local-dynamic,
//!   initial-exec and TLS descriptors to local-exec when the variable is in
//!   the executable; general-dynamic and descriptors to initial-exec when
//!   the variable is in a shared library. Shared objects keep the dynamic
//!   models.
//!
//! **x32** (`elf32_x86_64`) uses the same relocations in ELF32 objects, and
//! the same PLT. Its code differs in the TLS sequences, which
//! [`classify_x32`] and [`relax_tls_x32`] rewrite as GNU ld does, and in
//! position-dependent output a `GOTPCRELX` load becomes a `mov` of the
//! address as a 32-bit immediate ([`relax_got_x32`]).

use vstd::prelude::*;

use crate::bytes;
pub use super::write_value;
pub use super::{
    ApplyError, Class, ClassifyContext, ClassifyError, GotKind, Kind, RelaxValues, TlsMode, Width,
};
use super::patch::{copy_at, get, put, put_bytes, write_i32, Patched};
use crate::bytes::{byte_after, byte_before, le32};
use crate::elf::consts::x86_64 as x;

verus! {

/// A classification with no GOT entry.
#[verifier::allow_in_spec]
pub fn class(kind: Kind, width: Width) -> Class
    returns
        (Class::new(kind, width)),
{
    Class::new(kind, width)
}

/// A classification through GOT entry `slot`.
#[verifier::allow_in_spec]
pub fn got(kind: Kind, width: Width, slot: GotKind) -> Class
    returns
        (Class::new(kind, width).through(slot)),
{
    Class::new(kind, width).through(slot)
}

/// Whether `op` (with its ModR/M byte after it) is one of the instructions
/// a `GOTPCRELX` relaxes to an immediate operand: `test`, or `adc`, `add`,
/// `and`, `cmp`, `or`, `sbb`, `sub` or `xor` into a register.
#[verifier::allow_in_spec]
pub fn is_binop(op: u8) -> bool
    returns
        (match op {
            0x85 | 0x03 | 0x0b | 0x13 | 0x1b | 0x23 | 0x2b | 0x33 | 0x3b => true,
            _ => false,
        }),
{
    match op {
        0x85 | 0x03 | 0x0b | 0x13 | 0x1b | 0x23 | 0x2b | 0x33 | 0x3b => true,
        _ => false,
    }
}

/// Whether `byte` is a REX prefix. In 64-bit mode (x32 code runs in it)
/// 0x40 to 0x4f are always prefixes.
#[verifier::allow_in_spec]
pub fn is_rex(byte: u8) -> bool
    returns
        (byte & 0xf0 == 0x40),
{
    byte & 0xf0 == 0x40
}

/// Whether `byte` is there and a REX prefix.
#[verifier::allow_in_spec]
pub fn has_rex(byte: Option<u8>) -> bool
    returns
        (match byte {
            Some(b) => is_rex(b),
            None => false,
        }),
{
    match byte {
        Some(b) => is_rex(b),
        None => false,
    }
}

/// A REX prefix with its R bit moved to B.
#[verifier::allow_in_spec]
pub fn r_to_b(rex: u8) -> u8
    returns
        (rex & !0x4u8 | (rex & 0x4) >> 2),
{
    rex & !0x4u8 | (rex & 0x4) >> 2
}

/// What [`classify`] answers.
pub open spec fn spec_classify(
    r_type: u32,
    addend: i64,
    data: Seq<u8>,
    offset: u64,
    context: ClassifyContext,
) -> Result<Class, ClassifyError> {
    let op: Option<u8> = bytes::byte_at(data, offset - 2);
    let modrm: Option<u8> = bytes::byte_at(data, offset - 1);
    let relaxable: bool = context.relax_got && addend == -4;
    match r_type {
        x::R_X86_64_NONE | x::R_X86_64_GNU_VTINHERIT | x::R_X86_64_GNU_VTENTRY => Ok(
            class(Kind::Nothing, Width::Nothing),
        ),
        x::R_X86_64_64 => Ok(class(Kind::Abs, Width::W64)),
        x::R_X86_64_32 => Ok(class(Kind::Abs, Width::U32)),
        x::R_X86_64_32S => Ok(class(Kind::Abs, Width::I32)),
        x::R_X86_64_16 => Ok(class(Kind::Abs, Width::Any16)),
        x::R_X86_64_8 => Ok(class(Kind::Abs, Width::Any8)),
        x::R_X86_64_PC64 => Ok(class(Kind::Pc, Width::W64)),
        x::R_X86_64_PC32 | x::R_X86_64_PLT32 => Ok(class(Kind::Pc, Width::I32)),
        x::R_X86_64_PC16 => Ok(class(Kind::Pc, Width::I16)),
        x::R_X86_64_PC8 => Ok(class(Kind::Pc, Width::I8)),
        // GNU ld also turns `mov foo@GOTPCREL(%rip), %reg` into `lea` when
        // the relocation predates GOTPCRELX.
        x::R_X86_64_GOTPCREL => match (op, modrm) {
            (Some(0x8b), Some(m)) if relaxable && context.code && m & 0xc7 == 0x05 => Ok(
                class(Kind::RelaxGotPc, Width::I32),
            ),
            _ => Ok(class(Kind::Got, Width::I32)),
        },
        x::R_X86_64_GOTPCREL64 => Ok(class(Kind::Got, Width::W64)),
        x::R_X86_64_GOTPCRELX | x::R_X86_64_REX_GOTPCRELX => match (op, modrm) {
            (Some(0x8b), _) if relaxable => Ok(class(Kind::RelaxGotPc, Width::I32)),
            (Some(0xff), Some(m)) if relaxable && (m == 0x15 || m == 0x25) => Ok(
                class(Kind::RelaxGotPc, Width::I32),
            ),
            (Some(o), _) if is_binop(o) && relaxable && !context.pic
                && r_type == x::R_X86_64_REX_GOTPCRELX && bytes::byte_at(data, offset - 3).is_some() => Ok(
                class(Kind::RelaxGotPcNoPic, Width::I32),
            ),
            _ => Ok(class(Kind::Got, Width::I32)),
        },
        x::R_X86_64_GOT32 => Ok(class(Kind::GotSlotRel, Width::I32)),
        x::R_X86_64_GOT64 | x::R_X86_64_GOTPLT64 => Ok(class(Kind::GotSlotRel, Width::W64)),
        x::R_X86_64_GOTOFF64 | x::R_X86_64_PLTOFF64 => Ok(class(Kind::GotRel, Width::W64)),
        x::R_X86_64_GOTPC32 => Ok(class(Kind::GotBasePc, Width::I32)),
        x::R_X86_64_GOTPC64 => Ok(class(Kind::GotBasePc, Width::W64)),
        x::R_X86_64_SIZE32 => Ok(class(Kind::Size, Width::U32)),
        x::R_X86_64_SIZE64 => Ok(class(Kind::Size, Width::W64)),
        x::R_X86_64_TPOFF32 => Ok(class(Kind::TpOff, Width::I32)),
        x::R_X86_64_TPOFF64 => Ok(class(Kind::TpOff, Width::W64)),
        x::R_X86_64_DTPOFF32 => Ok(class(Kind::DtpOff, Width::I32)),
        x::R_X86_64_DTPOFF64 => Ok(class(Kind::DtpOff, Width::W64)),
        // 66 48 8d 3d <x@tlsgd>, then 66 66 48 e8 <__tls_get_addr@plt> or
        // 66 48 ff 15 <__tls_get_addr@gotpcrel>.
        x::R_X86_64_TLSGD => if context.tls == TlsMode::Dynamic {
            Ok(got(Kind::Got, Width::I32, GotKind::TlsGd))
        } else {
            match (
                bytes::byte_at(data, offset - 4),
                bytes::byte_at(data, offset + 6),
                bytes::byte_at(data, offset + 7),
            ) {
                (Some(0x66), Some(0x48), Some(0xe8)) | (Some(0x66), Some(0xff), Some(0x15)) => Ok(
                    class(
                        if context.tls == TlsMode::LocalExec {
                            Kind::GdToLe
                        } else {
                            Kind::GdToIe
                        },
                        Width::Nothing,
                    ).skipping(),
                ),
                _ => Err(ClassifyError::BadTlsInstruction),
            }
        },
        x::R_X86_64_TLSLD => if context.tls_ld != TlsMode::LocalExec {
            Ok(got(Kind::Got, Width::I32, GotKind::TlsLd))
        } else {
            match (bytes::byte_at(data, offset + 4), bytes::byte_at(data, offset + 5)) {
                (Some(0xe8), _) | (Some(0xff), Some(0x15)) => Ok(
                    class(Kind::LdToLe, Width::Nothing).skipping(),
                ),
                _ => Err(ClassifyError::BadTlsInstruction),
            }
        },
        x::R_X86_64_GOTTPOFF => match context.tls {
            TlsMode::LocalExec => Ok(class(Kind::IeToLe, Width::Nothing)),
            _ => Ok(got(Kind::Got, Width::I32, GotKind::TpOff)),
        },
        x::R_X86_64_GOTPC32_TLSDESC => match context.tls {
            TlsMode::LocalExec => Ok(class(Kind::DescToLe, Width::Nothing)),
            TlsMode::InitialExec => Ok(class(Kind::DescToIe, Width::Nothing)),
            TlsMode::Dynamic => Ok(got(Kind::Got, Width::I32, GotKind::TlsDesc)),
        },
        x::R_X86_64_TLSDESC_CALL => match context.tls {
            TlsMode::Dynamic => Ok(class(Kind::Nothing, Width::Nothing)),
            _ => Ok(class(Kind::DescCallToLe, Width::Nothing)),
        },
        _ => Err(ClassifyError::Unsupported),
    }
}

/// Classifies relocation `r_type` at `offset` in section `data`.
///
/// `context.relax_got` says whether GOT-indirect accesses to the symbol may
/// be rewritten into direct ones (the symbol is defined in the output, not
/// preemptible, not an IFUNC, and `--no-relax` was not given).
///
/// # Errors
///
/// [`ClassifyError`] for unsupported types and unrecognized TLS code.
pub fn classify(
    r_type: u32,
    addend: i64,
    data: &[u8],
    offset: u64,
    context: ClassifyContext,
) -> (r: Result<Class, ClassifyError>)
    ensures
        r == spec_classify(r_type, addend, data@, offset, context),
{
    let op: Option<u8> = byte_before(data, offset, 2);
    let modrm: Option<u8> = byte_before(data, offset, 1);
    let relaxable: bool = context.relax_got && addend == -4;
    match r_type {
        x::R_X86_64_NONE | x::R_X86_64_GNU_VTINHERIT | x::R_X86_64_GNU_VTENTRY => Ok(
            class(Kind::Nothing, Width::Nothing),
        ),
        x::R_X86_64_64 => Ok(class(Kind::Abs, Width::W64)),
        x::R_X86_64_32 => Ok(class(Kind::Abs, Width::U32)),
        x::R_X86_64_32S => Ok(class(Kind::Abs, Width::I32)),
        x::R_X86_64_16 => Ok(class(Kind::Abs, Width::Any16)),
        x::R_X86_64_8 => Ok(class(Kind::Abs, Width::Any8)),
        x::R_X86_64_PC64 => Ok(class(Kind::Pc, Width::W64)),
        x::R_X86_64_PC32 | x::R_X86_64_PLT32 => Ok(class(Kind::Pc, Width::I32)),
        x::R_X86_64_PC16 => Ok(class(Kind::Pc, Width::I16)),
        x::R_X86_64_PC8 => Ok(class(Kind::Pc, Width::I8)),
        // GNU ld also turns `mov foo@GOTPCREL(%rip), %reg` into `lea` when
        // the relocation predates GOTPCRELX.
        x::R_X86_64_GOTPCREL => match (op, modrm) {
            (Some(0x8b), Some(m)) if relaxable && context.code && m & 0xc7 == 0x05 => Ok(
                class(Kind::RelaxGotPc, Width::I32),
            ),
            _ => Ok(class(Kind::Got, Width::I32)),
        },
        x::R_X86_64_GOTPCREL64 => Ok(class(Kind::Got, Width::W64)),
        x::R_X86_64_GOTPCRELX | x::R_X86_64_REX_GOTPCRELX => match (op, modrm) {
            (Some(0x8b), _) if relaxable => Ok(class(Kind::RelaxGotPc, Width::I32)),
            (Some(0xff), Some(m)) if relaxable && (m == 0x15 || m == 0x25) => Ok(
                class(Kind::RelaxGotPc, Width::I32),
            ),
            (Some(o), _) if is_binop(o) && relaxable && !context.pic
                && r_type == x::R_X86_64_REX_GOTPCRELX && byte_before(data, offset, 3).is_some() => Ok(
                class(Kind::RelaxGotPcNoPic, Width::I32),
            ),
            _ => Ok(class(Kind::Got, Width::I32)),
        },
        x::R_X86_64_GOT32 => Ok(class(Kind::GotSlotRel, Width::I32)),
        x::R_X86_64_GOT64 | x::R_X86_64_GOTPLT64 => Ok(class(Kind::GotSlotRel, Width::W64)),
        x::R_X86_64_GOTOFF64 | x::R_X86_64_PLTOFF64 => Ok(class(Kind::GotRel, Width::W64)),
        x::R_X86_64_GOTPC32 => Ok(class(Kind::GotBasePc, Width::I32)),
        x::R_X86_64_GOTPC64 => Ok(class(Kind::GotBasePc, Width::W64)),
        x::R_X86_64_SIZE32 => Ok(class(Kind::Size, Width::U32)),
        x::R_X86_64_SIZE64 => Ok(class(Kind::Size, Width::W64)),
        x::R_X86_64_TPOFF32 => Ok(class(Kind::TpOff, Width::I32)),
        x::R_X86_64_TPOFF64 => Ok(class(Kind::TpOff, Width::W64)),
        x::R_X86_64_DTPOFF32 => Ok(class(Kind::DtpOff, Width::I32)),
        x::R_X86_64_DTPOFF64 => Ok(class(Kind::DtpOff, Width::W64)),
        // 66 48 8d 3d <x@tlsgd>, then 66 66 48 e8 <__tls_get_addr@plt> or
        // 66 48 ff 15 <__tls_get_addr@gotpcrel>.
        x::R_X86_64_TLSGD => if context.tls == TlsMode::Dynamic {
            Ok(got(Kind::Got, Width::I32, GotKind::TlsGd))
        } else {
            match (byte_before(data, offset, 4), byte_after(data, offset, 6), byte_after(data, offset, 7)) {
                (Some(0x66), Some(0x48), Some(0xe8)) | (Some(0x66), Some(0xff), Some(0x15)) => Ok(
                    class(
                        if context.tls == TlsMode::LocalExec {
                            Kind::GdToLe
                        } else {
                            Kind::GdToIe
                        },
                        Width::Nothing,
                    ).skipping(),
                ),
                _ => Err(ClassifyError::BadTlsInstruction),
            }
        },
        x::R_X86_64_TLSLD => if context.tls_ld != TlsMode::LocalExec {
            Ok(got(Kind::Got, Width::I32, GotKind::TlsLd))
        } else {
            match (byte_after(data, offset, 4), byte_after(data, offset, 5)) {
                (Some(0xe8), _) | (Some(0xff), Some(0x15)) => Ok(
                    class(Kind::LdToLe, Width::Nothing).skipping(),
                ),
                _ => Err(ClassifyError::BadTlsInstruction),
            }
        },
        x::R_X86_64_GOTTPOFF => match context.tls {
            TlsMode::LocalExec => Ok(class(Kind::IeToLe, Width::Nothing)),
            _ => Ok(got(Kind::Got, Width::I32, GotKind::TpOff)),
        },
        x::R_X86_64_GOTPC32_TLSDESC => match context.tls {
            TlsMode::LocalExec => Ok(class(Kind::DescToLe, Width::Nothing)),
            TlsMode::InitialExec => Ok(class(Kind::DescToIe, Width::Nothing)),
            TlsMode::Dynamic => Ok(got(Kind::Got, Width::I32, GotKind::TlsDesc)),
        },
        x::R_X86_64_TLSDESC_CALL => match context.tls {
            TlsMode::Dynamic => Ok(class(Kind::Nothing, Width::Nothing)),
            _ => Ok(class(Kind::DescCallToLe, Width::Nothing)),
        },
        _ => Err(ClassifyError::Unsupported),
    }
}

/// What [`classify_x32`] answers.
pub open spec fn spec_classify_x32(
    r_type: u32,
    addend: i64,
    data: Seq<u8>,
    offset: u64,
    context: ClassifyContext,
) -> Result<Class, ClassifyError> {
    match r_type {
        // 48 8d 3d <x@tlsgd>, then 66 66 48 e8 <__tls_get_addr@plt> or
        // 66 48 ff 15 <__tls_get_addr@gotpcrel>: no 0x66 before the `lea`,
        // unlike x86-64.
        x::R_X86_64_TLSGD => if context.tls == TlsMode::Dynamic {
            Ok(got(Kind::Got, Width::I32, GotKind::TlsGd))
        } else {
            match (
                (
                    bytes::byte_at(data, offset - 3),
                    bytes::byte_at(data, offset - 2),
                    bytes::byte_at(data, offset - 1),
                ),
                (
                    bytes::byte_at(data, offset + 4),
                    bytes::byte_at(data, offset + 5),
                    bytes::byte_at(data, offset + 6),
                    bytes::byte_at(data, offset + 7),
                ),
            ) {
                (
                    (Some(0x48), Some(0x8d), Some(0x3d)),
                    (Some(0x66), Some(0x66), Some(0x48), Some(0xe8)),
                )
                | (
                    (Some(0x48), Some(0x8d), Some(0x3d)),
                    (Some(0x66), Some(0x48), Some(0xff), Some(0x15)),
                ) => Ok(
                    class(
                        if context.tls == TlsMode::LocalExec {
                            Kind::GdToLe
                        } else {
                            Kind::GdToIe
                        },
                        Width::Nothing,
                    ).skipping(),
                ),
                _ => Err(ClassifyError::BadTlsInstruction),
            }
        },
        x::R_X86_64_GOTPCRELX | x::R_X86_64_REX_GOTPCRELX => {
            let op: Option<u8> = bytes::byte_at(data, offset - 2);
            let modrm: Option<u8> = bytes::byte_at(data, offset - 1);
            let relaxable: bool = context.relax_got && addend == -4;
            let rex: bool = has_rex(bytes::byte_at(data, offset - 3));
            let immediate: bool = relaxable && !context.pic && (r_type
                == x::R_X86_64_REX_GOTPCRELX) == rex;
            match (op, modrm) {
                (Some(o), _) if immediate && (o == 0x8b || is_binop(o)) => Ok(
                    class(Kind::RelaxGotPcNoPic, Width::I32),
                ),
                (Some(0x8b), _) if relaxable => Ok(class(Kind::RelaxGotPc, Width::I32)),
                (Some(0xff), Some(m)) if relaxable && (m == 0x15 || m == 0x25) => Ok(
                    class(Kind::RelaxGotPc, Width::I32),
                ),
                _ => Ok(class(Kind::Got, Width::I32)),
            }
        },
        _ => spec_classify(r_type, addend, data, offset, context),
    }
}

/// Classifies x32 relocation `r_type` at `offset` in section `data`: as
/// [`classify`] does for x86-64, except for x32's general-dynamic sequence
/// and for `GOTPCRELX` relaxations in position-dependent output, which
/// GNU ld makes into immediate operands: loads as well as `test` and binary
/// operators, with or without a REX prefix.
///
/// A `GOTPCRELX` (not `REX_GOTPCRELX`) instruction takes an immediate only
/// when the byte before its opcode cannot be taken for a REX prefix, so
/// that [`relax_got_x32`], which sees the instruction but not the
/// relocation type, rewrites a REX prefix only where there is one; a load
/// then becomes a `lea` instead.
///
/// # Errors
///
/// [`ClassifyError`] for unsupported types and unrecognized TLS code.
pub fn classify_x32(
    r_type: u32,
    addend: i64,
    data: &[u8],
    offset: u64,
    context: ClassifyContext,
) -> (r: Result<Class, ClassifyError>)
    ensures
        r == spec_classify_x32(r_type, addend, data@, offset, context),
{
    match r_type {
        // 48 8d 3d <x@tlsgd>, then 66 66 48 e8 <__tls_get_addr@plt> or
        // 66 48 ff 15 <__tls_get_addr@gotpcrel>: no 0x66 before the `lea`,
        // unlike x86-64.
        x::R_X86_64_TLSGD => if context.tls == TlsMode::Dynamic {
            Ok(got(Kind::Got, Width::I32, GotKind::TlsGd))
        } else {
            match (
                (
                    byte_before(data, offset, 3),
                    byte_before(data, offset, 2),
                    byte_before(data, offset, 1),
                ),
                (
                    byte_after(data, offset, 4),
                    byte_after(data, offset, 5),
                    byte_after(data, offset, 6),
                    byte_after(data, offset, 7),
                ),
            ) {
                (
                    (Some(0x48), Some(0x8d), Some(0x3d)),
                    (Some(0x66), Some(0x66), Some(0x48), Some(0xe8)),
                )
                | (
                    (Some(0x48), Some(0x8d), Some(0x3d)),
                    (Some(0x66), Some(0x48), Some(0xff), Some(0x15)),
                ) => Ok(
                    class(
                        if context.tls == TlsMode::LocalExec {
                            Kind::GdToLe
                        } else {
                            Kind::GdToIe
                        },
                        Width::Nothing,
                    ).skipping(),
                ),
                _ => Err(ClassifyError::BadTlsInstruction),
            }
        },
        x::R_X86_64_GOTPCRELX | x::R_X86_64_REX_GOTPCRELX => {
            let op: Option<u8> = byte_before(data, offset, 2);
            let modrm: Option<u8> = byte_before(data, offset, 1);
            let relaxable: bool = context.relax_got && addend == -4;
            let rex: bool = has_rex(byte_before(data, offset, 3));
            let immediate: bool = relaxable && !context.pic && (r_type
                == x::R_X86_64_REX_GOTPCRELX) == rex;
            match (op, modrm) {
                (Some(o), _) if immediate && (o == 0x8b || is_binop(o)) => Ok(
                    class(Kind::RelaxGotPcNoPic, Width::I32),
                ),
                (Some(0x8b), _) if relaxable => Ok(class(Kind::RelaxGotPc, Width::I32)),
                (Some(0xff), Some(m)) if relaxable && (m == 0x15 || m == 0x25) => Ok(
                    class(Kind::RelaxGotPc, Width::I32),
                ),
                _ => Ok(class(Kind::Got, Width::I32)),
            }
        },
        _ => classify(r_type, addend, data, offset, context),
    }
}

/// The longest no-op of at most `n` bytes (10 at most), padded with zeros to
/// 10.
#[verifier::allow_in_spec]
pub fn nop(n: usize) -> [u8; 10]
    returns
        (match n {
            1 => [0x90u8, 0x00, 0x00, 0x00, 0x00, 0x00, 0x00, 0x00, 0x00, 0x00],
            2 => [0x66u8, 0x90, 0x00, 0x00, 0x00, 0x00, 0x00, 0x00, 0x00, 0x00],
            3 => [0x0fu8, 0x1f, 0x00, 0x00, 0x00, 0x00, 0x00, 0x00, 0x00, 0x00],
            4 => [0x0fu8, 0x1f, 0x40, 0x00, 0x00, 0x00, 0x00, 0x00, 0x00, 0x00],
            5 => [0x0fu8, 0x1f, 0x44, 0x00, 0x00, 0x00, 0x00, 0x00, 0x00, 0x00],
            6 => [0x66u8, 0x0f, 0x1f, 0x44, 0x00, 0x00, 0x00, 0x00, 0x00, 0x00],
            7 => [0x0fu8, 0x1f, 0x80, 0x00, 0x00, 0x00, 0x00, 0x00, 0x00, 0x00],
            8 => [0x0fu8, 0x1f, 0x84, 0x00, 0x00, 0x00, 0x00, 0x00, 0x00, 0x00],
            9 => [0x66u8, 0x0f, 0x1f, 0x84, 0x00, 0x00, 0x00, 0x00, 0x00, 0x00],
            _ => [0x66u8, 0x2e, 0x0f, 0x1f, 0x84, 0x00, 0x00, 0x00, 0x00, 0x00],
        }),
{
    match n {
        1 => [0x90u8, 0x00, 0x00, 0x00, 0x00, 0x00, 0x00, 0x00, 0x00, 0x00],
        2 => [0x66u8, 0x90, 0x00, 0x00, 0x00, 0x00, 0x00, 0x00, 0x00, 0x00],
        3 => [0x0fu8, 0x1f, 0x00, 0x00, 0x00, 0x00, 0x00, 0x00, 0x00, 0x00],
        4 => [0x0fu8, 0x1f, 0x40, 0x00, 0x00, 0x00, 0x00, 0x00, 0x00, 0x00],
        5 => [0x0fu8, 0x1f, 0x44, 0x00, 0x00, 0x00, 0x00, 0x00, 0x00, 0x00],
        6 => [0x66u8, 0x0f, 0x1f, 0x44, 0x00, 0x00, 0x00, 0x00, 0x00, 0x00],
        7 => [0x0fu8, 0x1f, 0x80, 0x00, 0x00, 0x00, 0x00, 0x00, 0x00, 0x00],
        8 => [0x0fu8, 0x1f, 0x84, 0x00, 0x00, 0x00, 0x00, 0x00, 0x00, 0x00],
        9 => [0x66u8, 0x0f, 0x1f, 0x84, 0x00, 0x00, 0x00, 0x00, 0x00, 0x00],
        _ => [0x66u8, 0x2e, 0x0f, 0x1f, 0x84, 0x00, 0x00, 0x00, 0x00, 0x00],
    }
}

/// No-op instructions over `n` bytes: 10-byte ones as long as they fit, then
/// one that fills what is left.
pub open spec fn nops(n: nat) -> Seq<u8> {
    Seq::new(
        n,
        |i: int|
            if i < n - n % 10 {
                nop(10)@[i % 10]
            } else {
                nop((n % 10) as usize)@[i % 10]
            },
    )
}

/// Fills `out` with the longest x86 no-op instructions, as BFD's
/// `bfd_arch_i386_fill` does.
pub fn write_nops(out: &mut [u8])
    ensures
        final(out)@ == nops(old(out)@.len()),
{
    let len: usize = out.len();
    let mut i: usize = 0;
    while i < len
        invariant
            i <= len,
            len == out@.len(),
            len == old(out)@.len(),
            forall|j: int| 0 <= j < i ==> #[trigger] out@[j] == nops(len as nat)[j],
        decreases len - i,
    {
        let n: usize = if i < len - len % 10 {
            10
        } else {
            len % 10
        };
        let b: [u8; 10] = nop(n);
        out[i] = b[i % 10];
        i += 1;
    }
    assert(out@ =~= nops(len as nat));
}

/// The ModR/M byte of an immediate operand in the register of `modrm`, with
/// opcode extension bits `bits`.
#[verifier::allow_in_spec]
pub fn immediate_modrm(modrm: u8, bits: u8) -> u8
    returns
        (0xc0 | (modrm & 0x38) >> 3 | bits),
{
    0xc0 | (modrm & 0x38) >> 3 | bits
}

/// What [`relax_got`] does.
pub open spec fn spec_relax_got(s: Seq<u8>, offset: u64, kind: Kind, value: i64) -> Patched {
    let at = offset as int;
    let p = Patched::new(s);
    match (bytes::byte_at(s, at - 2), bytes::byte_at(s, at - 1)) {
        (Some(op), Some(modrm)) => if kind == Kind::RelaxGotPcNoPic {
            match bytes::byte_at(s, at - 3) {
                // test %reg, foo@GOTPCREL(%rip) -> test $foo, %reg
                // binop foo@GOTPCREL(%rip), %reg -> binop $foo, %reg
                // The immediate is sign-extended to 64 bits and replaces the
                // address loaded from the GOT: undo the -4 of the PC-relative
                // form.
                Some(rex) => p.require(value + 4 <= i64::MAX, ApplyError::Overflow).byte(
                    at - 1,
                    if op == 0x85 {
                        immediate_modrm(modrm, 0)
                    } else {
                        immediate_modrm(modrm, op & 0x3c)
                    },
                ).byte(at - 3, r_to_b(rex)).byte(
                    at - 2,
                    if op == 0x85 {
                        0xf7
                    } else {
                        0x81
                    },
                ).write_i32(at, value + 4),
                None => p.fail(ApplyError::BadInstruction),
            }
        } else {
            match (op, modrm) {
                (0x8b, _) => p.byte(at - 2, 0x8d).write_i32(at, value as int),
                // call *foo@GOTPCREL(%rip) -> addr32 call foo
                (0xff, 0x15) => p.byte(at - 2, 0x67).byte(at - 1, 0xe8).write_i32(
                    at,
                    value as int,
                ),
                // jmp *foo@GOTPCREL(%rip) -> jmp foo; nop
                (0xff, 0x25) => p.byte(at - 2, 0xe9).byte(at + 3, 0x90).require(
                    value + 1 <= i64::MAX,
                    ApplyError::Overflow,
                ).write_i32(at - 1, value + 1),
                _ => p.fail(ApplyError::BadInstruction),
            }
        },
        _ => p.fail(ApplyError::BadInstruction),
    }
}

/// Rewrites a relaxed `GOTPCRELX` instruction and writes `value`, which is
/// `S + A - P` for [`Kind::RelaxGotPc`] and `S + A` for
/// [`Kind::RelaxGotPcNoPic`].
///
/// # Errors
///
/// [`ApplyError`] if the instruction is not one that was classified as
/// relaxable, or the value does not fit.
pub fn relax_got(out: &mut [u8], offset: u64, kind: Kind, value: i64) -> (r: Result<(), ApplyError>)
    ensures
        r == spec_relax_got(old(out)@, offset, kind, value).result,
        final(out)@ == spec_relax_got(old(out)@, offset, kind, value).bytes,
{
    let op: u8 = get(out, offset, 2)?;
    let modrm: u8 = get(out, offset, 1)?;
    if kind == Kind::RelaxGotPcNoPic {
        let rex: u8 = get(out, offset, 3)?;
        let Some(value) = value.checked_add(4) else {
            return Err(ApplyError::Overflow);
        };
        if op == 0x85 {
            put(out, offset, -1, immediate_modrm(modrm, 0))?;
            put(out, offset, -3, r_to_b(rex))?;
            put(out, offset, -2, 0xf7)?;
        } else {
            put(out, offset, -1, immediate_modrm(modrm, op & 0x3c))?;
            put(out, offset, -3, r_to_b(rex))?;
            put(out, offset, -2, 0x81)?;
        }
        return write_i32(out, offset, value);
    }
    match (op, modrm) {
        (0x8b, _) => {
            put(out, offset, -2, 0x8d)?;
            write_i32(out, offset, value)
        },
        (0xff, 0x15) => {
            put(out, offset, -2, 0x67)?;
            put(out, offset, -1, 0xe8)?;
            write_i32(out, offset, value)
        },
        (0xff, 0x25) => {
            put(out, offset, -2, 0xe9)?;
            put(out, offset, 3, 0x90)?;
            let Some(value) = value.checked_add(1) else {
                return Err(ApplyError::Overflow);
            };
            write_i32(out, offset - 1, value)
        },
        _ => Err(ApplyError::BadInstruction),
    }
}

/// The opcode, ModR/M byte and REX prefix of an x32 GOT load, `test` or
/// binary operator with an immediate operand.
pub open spec fn x32_immediate(op: u8, modrm: u8, rex: Option<u8>) -> Option<(u8, u8, Option<u8>)> {
    if op == 0x8b {
        // mov foo@GOTPCREL(%rip), %reg -> movl $foo, %reg
        Some(
            (
                0xc7,
                immediate_modrm(modrm, 0),
                match rex {
                    Some(r) => Some(r & !0x08u8),
                    None => None,
                },
            ),
        )
    } else if op == 0x85 {
        // test %reg, foo@GOTPCREL(%rip) -> test $foo, %reg
        Some((0xf7, immediate_modrm(modrm, 0), rex))
    } else if is_binop(op) {
        // binop foo@GOTPCREL(%rip), %reg -> binop $foo, %reg
        Some((0x81, immediate_modrm(modrm, op & 0x38), rex))
    } else {
        None
    }
}

/// Whether there is a REX prefix with its W bit set.
#[verifier::allow_in_spec]
pub fn is_wide(rex: Option<u8>) -> bool
    returns
        (match rex {
            Some(r) => r & 0x08 != 0,
            None => false,
        }),
{
    match rex {
        Some(r) => r & 0x08 != 0,
        None => false,
    }
}

/// What [`relax_got_x32`] does.
pub open spec fn spec_relax_got_x32(s: Seq<u8>, offset: u64, kind: Kind, value: i64) -> Patched {
    let at = offset as int;
    let p = Patched::new(s);
    if kind != Kind::RelaxGotPcNoPic {
        spec_relax_got(s, offset, kind, value)
    } else {
        match (bytes::byte_at(s, at - 2), bytes::byte_at(s, at - 1)) {
            (Some(op), Some(modrm)) => {
                let before = if has_rex(bytes::byte_at(s, at - 3)) {
                    bytes::byte_at(s, at - 3)
                } else {
                    None
                };
                match x32_immediate(op, modrm, before) {
                    Some((op, modrm, rex)) => {
                        let written = p.require(value + 4 <= i64::MAX, ApplyError::Overflow).followed_by(
                            crate::elf::arch::fields::spec_write_value(
                                s,
                                offset,
                                if is_wide(rex) {
                                    Width::I32
                                } else {
                                    Width::Any32
                                },
                                ((value + 4) as i64) as u64,
                            ),
                        );
                        match rex {
                            Some(r) => written.byte(at - 3, r_to_b(r)),
                            None => written,
                        }.byte(at - 2, op).byte(at - 1, modrm)
                    },
                    None => p.fail(ApplyError::BadInstruction),
                }
            },
            _ => p.fail(ApplyError::BadInstruction),
        }
    }
}

/// Rewrites a relaxed x32 `GOTPCRELX` instruction and writes `value`, as
/// [`relax_got`] does. For an immediate operand ([`Kind::RelaxGotPcNoPic`])
/// a REX prefix, if there is one, has its R bit moved to B; a load becomes
/// `movl $foo, %reg` with REX.W cleared (x32 addresses are 32 bits), while a
/// `test` or binary operator keeps its operand size. Without REX.W the
/// immediate is not extended, so any 32-bit address fits.
///
/// # Errors
///
/// [`ApplyError`] if the instruction is not one that was classified as
/// relaxable, or the value does not fit.
pub fn relax_got_x32(out: &mut [u8], offset: u64, kind: Kind, value: i64) -> (r: Result<
    (),
    ApplyError,
>)
    ensures
        r == spec_relax_got_x32(old(out)@, offset, kind, value).result,
        final(out)@ == spec_relax_got_x32(old(out)@, offset, kind, value).bytes,
{
    if kind != Kind::RelaxGotPcNoPic {
        return relax_got(out, offset, kind, value);
    }
    let op: u8 = get(out, offset, 2)?;
    let modrm: u8 = get(out, offset, 1)?;
    let before: Option<u8> = byte_before(out, offset, 3);
    let mut rex: Option<u8> = if has_rex(before) {
        before
    } else {
        None
    };
    let (op, modrm): (u8, u8) = if op == 0x8b {
        rex = match rex {
            Some(r) => Some(r & !0x08u8),
            None => None,
        };
        (0xc7, immediate_modrm(modrm, 0))
    } else if op == 0x85 {
        (0xf7, immediate_modrm(modrm, 0))
    } else if is_binop(op) {
        (0x81, immediate_modrm(modrm, op & 0x38))
    } else {
        return Err(ApplyError::BadInstruction);
    };
    let Some(value) = value.checked_add(4) else {
        return Err(ApplyError::Overflow);
    };
    let width: Width = if is_wide(rex) {
        Width::I32
    } else {
        Width::Any32
    };
    write_value(out, offset, width, value as u64)?;
    if let Some(r) = rex {
        put(out, offset, -3, r_to_b(r))?;
    }
    put(out, offset, -2, op)?;
    put(out, offset, -1, modrm)
}

/// x32 general-dynamic to local-exec: `movl %fs:0, %eax` followed by
/// `lea x@tpoff(%rax), %rax`, from 3 bytes before the relocation.
pub const X32_GD_TO_LE: [u8; 15] = [
    0x64, 0x8b, 0x04, 0x25, 0x00, 0x00, 0x00, 0x00, 0x48, 0x8d, 0x80, 0x00, 0x00, 0x00, 0x00,
];

/// x32 general-dynamic to initial-exec: `movl %fs:0, %eax` followed by
/// `addq x@gottpoff(%rip), %rax`.
pub const X32_GD_TO_IE: [u8; 15] = [
    0x64, 0x8b, 0x04, 0x25, 0x00, 0x00, 0x00, 0x00, 0x48, 0x03, 0x05, 0x00, 0x00, 0x00, 0x00,
];

/// x32 local-dynamic to local-exec after a direct call: `nopl 0(%rax)` and
/// `movl %fs:0, %eax`.
pub const X32_LD_TO_LE: [u8; 12] = [
    0x0f, 0x1f, 0x40, 0x00, 0x64, 0x8b, 0x04, 0x25, 0x00, 0x00, 0x00, 0x00,
];

/// The same after an indirect call, one byte longer: `nopw 0(%rax)`.
pub const X32_LD_TO_LE_INDIRECT: [u8; 13] = [
    0x66, 0x0f, 0x1f, 0x40, 0x00, 0x64, 0x8b, 0x04, 0x25, 0x00, 0x00, 0x00, 0x00,
];

/// `mov %fs:0, %rax` followed by `lea x@tpoff(%rax), %rax`.
pub const GD_TO_LE: [u8; 16] = [
    0x64, 0x48, 0x8b, 0x04, 0x25, 0x00, 0x00, 0x00, 0x00, 0x48, 0x8d, 0x80, 0x00, 0x00, 0x00,
    0x00,
];

/// `mov %fs:0, %rax` followed by `add x@gottpoff(%rip), %rax`.
pub const GD_TO_IE: [u8; 16] = [
    0x64, 0x48, 0x8b, 0x04, 0x25, 0x00, 0x00, 0x00, 0x00, 0x48, 0x03, 0x05, 0x00, 0x00, 0x00,
    0x00,
];

/// `data16 data16 data16 mov %fs:0, %rax`.
pub const LD_TO_LE: [u8; 12] = [
    0x66, 0x66, 0x66, 0x64, 0x48, 0x8b, 0x04, 0x25, 0x00, 0x00, 0x00, 0x00,
];

/// The opcode, ModR/M byte and the two REX prefixes (with W and without) an
/// x32 initial-exec access becomes in local-exec code.
#[verifier::allow_in_spec]
pub fn x32_ie_to_le(op: u8, reg: u8) -> Option<(u8, u8, u8, u8)>
    returns
        (match op {
            // mov foo@gottpoff(%rip), %reg -> mov $foo, %reg
            0x8b => Some((0xc7u8, 0xc0 | reg, 0x49u8, 0x41u8)),
            // add foo@gottpoff(%rip), %esp or %r12d -> add $foo, %reg
            0x03 if reg == 4 => Some((0x81u8, 0xc0 | reg, 0x49u8, 0x41u8)),
            // add foo@gottpoff(%rip), %reg -> lea foo(%reg), %reg
            0x03 => Some((0x8du8, 0x80 | reg | reg << 3, 0x4du8, 0x45u8)),
            _ => None,
        }),
{
    match op {
        0x8b => Some((0xc7u8, 0xc0 | reg, 0x49u8, 0x41u8)),
        0x03 if reg == 4 => Some((0x81u8, 0xc0 | reg, 0x49u8, 0x41u8)),
        0x03 => Some((0x8du8, 0x80 | reg | reg << 3, 0x4du8, 0x45u8)),
        _ => None,
    }
}

/// What [`relax_tls_x32`] does.
pub open spec fn spec_relax_tls_x32(
    s: Seq<u8>,
    offset: u64,
    kind: Kind,
    values: RelaxValues,
) -> Patched {
    let at = offset as int;
    let p = Patched::new(s);
    let plus4 = values.tpoff + 4;
    match kind {
        Kind::GdToLe => p.copy(at - 3, X32_GD_TO_LE@).require(
            plus4 <= i64::MAX,
            ApplyError::Overflow,
        ).write_i32(at + 8, plus4),
        // The displacement is at P + 8 and relative to P + 12.
        Kind::GdToIe => p.copy(at - 3, X32_GD_TO_IE@).require(
            values.got_pc - 8 >= i64::MIN,
            ApplyError::Overflow,
        ).write_i32(at + 8, values.got_pc - 8),
        Kind::LdToLe => if bytes::byte_at(s, at + 4) == Some(0xffu8) {
            p.copy(at - 3, X32_LD_TO_LE_INDIRECT@)
        } else {
            p.copy(at - 3, X32_LD_TO_LE@)
        },
        // A REX prefix of 0x4c or 0x44 moves its R bit to B; any other byte
        // before the opcode is left alone.
        Kind::IeToLe => match (bytes::byte_at(s, at - 2), bytes::byte_at(s, at - 1)) {
            (Some(op), Some(modrm)) => match x32_ie_to_le(op, (modrm >> 3) & 7) {
                Some((op, modrm, rex_w, rex)) => match bytes::byte_at(s, at - 3) {
                    Some(0x4c) => p.byte(at - 3, rex_w),
                    Some(0x44) => p.byte(at - 3, rex),
                    _ => p,
                }.byte(at - 2, op).byte(at - 1, modrm).require(
                    plus4 <= i64::MAX,
                    ApplyError::Overflow,
                ).write_i32(at, plus4),
                None => p.fail(ApplyError::BadInstruction),
            },
            _ => p.fail(ApplyError::BadInstruction),
        },
        // rex leal x@tlsdesc(%rip), %reg -> rex movl $x@tpoff, %reg
        Kind::DescToLe => match (
            bytes::byte_at(s, at - 3),
            bytes::byte_at(s, at - 2),
            bytes::byte_at(s, at - 1),
        ) {
            (Some(rex), Some(op), Some(modrm)) => p.require(
                (rex & 0xfb == 0x40 || rex & 0xfb == 0x48) && op == 0x8d && modrm & 0xc7 == 0x05,
                ApplyError::BadInstruction,
            ).byte(at - 3, rex & 0x48 | (rex >> 2) & 1).byte(at - 2, 0xc7).byte(
                at - 1,
                0xc0 | (modrm >> 3) & 7,
            ).require(plus4 <= i64::MAX, ApplyError::Overflow).write_i32(at, plus4),
            _ => p.fail(ApplyError::BadInstruction),
        },
        // call *(%eax) -> nopl (%rax); call *(%rax) -> xchg %ax,%ax
        Kind::DescCallToLe => if bytes::byte_at(s, at) == Some(0x67u8) {
            p.copy(at, seq![0x0f, 0x1f, 0x00])
        } else {
            p.copy(at, seq![0x66, 0x90])
        },
        _ => spec_relax_tls(s, offset, kind, values),
    }
}

/// Copies `b` over `out` from `back` bytes before `offset`.
fn copy_back(out: &mut [u8], offset: u64, back: u64, b: &[u8]) -> (r: Result<(), ApplyError>)
    requires
        back <= 4,
        b@.len() <= 16,
    ensures
        r == Patched::new(old(out)@).copy(offset - back, b@).result,
        final(out)@ == Patched::new(old(out)@).copy(offset - back, b@).bytes,
{
    let _len: usize = out.len();
    if offset < back {
        return Err(ApplyError::BadInstruction);
    }
    copy_at(out, offset - back, b)
}

/// Relaxes an x32 TLS access to local-exec or initial-exec, with GNU ld's
/// x32 sequences.
///
/// # Errors
///
/// [`ApplyError`] for unrecognized instruction sequences.
#[verifier::rlimit(40)]
pub fn relax_tls_x32(out: &mut [u8], offset: u64, kind: Kind, values: RelaxValues) -> (r: Result<
    (),
    ApplyError,
>)
    ensures
        r == spec_relax_tls_x32(old(out)@, offset, kind, values).result,
        final(out)@ == spec_relax_tls_x32(old(out)@, offset, kind, values).bytes,
{
    let _len: usize = out.len();
    match kind {
        Kind::GdToLe => {
            copy_back(out, offset, 3, &X32_GD_TO_LE)?;
            let Some(plus4) = values.tpoff.checked_add(4) else {
                return Err(ApplyError::Overflow);
            };
            write_i32(out, offset + 8, plus4)
        },
        Kind::GdToIe => {
            copy_back(out, offset, 3, &X32_GD_TO_IE)?;
            let Some(got_pc) = values.got_pc.checked_sub(8) else {
                return Err(ApplyError::Overflow);
            };
            write_i32(out, offset + 8, got_pc)
        },
        Kind::LdToLe => {
            if byte_after(out, offset, 4) == Some(0xff) {
                copy_back(out, offset, 3, &X32_LD_TO_LE_INDIRECT)
            } else {
                copy_back(out, offset, 3, &X32_LD_TO_LE)
            }
        },
        Kind::IeToLe => {
            let prefix: Option<u8> = byte_before(out, offset, 3);
            let op: u8 = get(out, offset, 2)?;
            let modrm: u8 = get(out, offset, 1)?;
            let Some((op, modrm, rex_w, rex)) = x32_ie_to_le(op, (modrm >> 3) & 7) else {
                return Err(ApplyError::BadInstruction);
            };
            match prefix {
                Some(0x4c) => put(out, offset, -3, rex_w)?,
                Some(0x44) => put(out, offset, -3, rex)?,
                _ => {},
            }
            put(out, offset, -2, op)?;
            put(out, offset, -1, modrm)?;
            let Some(plus4) = values.tpoff.checked_add(4) else {
                return Err(ApplyError::Overflow);
            };
            write_i32(out, offset, plus4)
        },
        Kind::DescToLe => {
            let rex: u8 = get(out, offset, 3)?;
            let op: u8 = get(out, offset, 2)?;
            let modrm: u8 = get(out, offset, 1)?;
            if rex & 0xfb != 0x40 && rex & 0xfb != 0x48 || op != 0x8d || modrm & 0xc7 != 0x05 {
                return Err(ApplyError::BadInstruction);
            }
            put(out, offset, -3, rex & 0x48 | (rex >> 2) & 1)?;
            put(out, offset, -2, 0xc7)?;
            put(out, offset, -1, 0xc0 | (modrm >> 3) & 7)?;
            let Some(plus4) = values.tpoff.checked_add(4) else {
                return Err(ApplyError::Overflow);
            };
            write_i32(out, offset, plus4)
        },
        Kind::DescCallToLe => {
            if byte_after(out, offset, 0) == Some(0x67) {
                let b: [u8; 3] = [0x0f, 0x1f, 0x00];
                assert(b@ =~= seq![0x0f, 0x1f, 0x00]);
                copy_at(out, offset, &b)
            } else {
                let b: [u8; 2] = [0x66, 0x90];
                assert(b@ =~= seq![0x66, 0x90]);
                copy_at(out, offset, &b)
            }
        },
        _ => relax_tls(out, offset, kind, values),
    }
}

/// The three bytes an initial-exec access with this prefix, opcode and
/// ModR/M register field becomes in local-exec code; the last one is
/// written on its own where the register decides it.
#[verifier::allow_in_spec]
pub fn ie_to_le(prefix: u8, op: u8, reg: u8) -> Option<[u8; 3]>
    returns
        (match (prefix, op) {
            // addq foo@gottpoff(%rip),%rsp -> addq $foo,%rsp
            (0x48, 0x03) if reg == 4 => Some([0x48u8, 0x81, 0xc4]),
            // addq foo@gottpoff(%rip),%r12 -> addq $foo,%r12
            (0x4c, 0x03) if reg == 4 => Some([0x49u8, 0x81, 0xc4]),
            (0x4c, 0x03) => Some([0x4du8, 0x8d, 0x80 | reg << 3 | reg]),
            (0x48, 0x03) => Some([0x48u8, 0x8d, 0x80 | reg << 3 | reg]),
            (0x4c, 0x8b) => Some([0x49u8, 0xc7, 0xc0 | reg]),
            (0x48, 0x8b) => Some([0x48u8, 0xc7, 0xc0 | reg]),
            _ => None,
        }),
{
    match (prefix, op) {
        (0x48, 0x03) if reg == 4 => Some([0x48u8, 0x81, 0xc4]),
        (0x4c, 0x03) if reg == 4 => Some([0x49u8, 0x81, 0xc4]),
        (0x4c, 0x03) => Some([0x4du8, 0x8d, 0x80 | reg << 3 | reg]),
        (0x48, 0x03) => Some([0x48u8, 0x8d, 0x80 | reg << 3 | reg]),
        (0x4c, 0x8b) => Some([0x49u8, 0xc7, 0xc0 | reg]),
        (0x48, 0x8b) => Some([0x48u8, 0xc7, 0xc0 | reg]),
        _ => None,
    }
}

/// What [`relax_tls`] does.
pub open spec fn spec_relax_tls(
    s: Seq<u8>,
    offset: u64,
    kind: Kind,
    values: RelaxValues,
) -> Patched {
    let at = offset as int;
    let plus4 = values.tpoff + 4;
    let p = Patched::new(s);
    let le = p.require(plus4 <= i64::MAX, ApplyError::Overflow);
    match kind {
        // The displacement is at P + 8 and relative to P + 12; the addend of
        // the original relocation accounts for 4 of it.
        Kind::GdToIe => p.copy(at - 4, GD_TO_IE@).require(
            values.got_pc - 8 >= i64::MIN,
            ApplyError::Overflow,
        ).write_i32(at + 8, values.got_pc - 8),
        // lea x@tlsdesc(%rip), %reg -> mov x@gottpoff(%rip), %reg
        Kind::DescToIe => p.require(
            bytes::byte_at(s, at - 2) == Some(0x8du8),
            ApplyError::BadInstruction,
        ).byte(at - 2, 0x8b).write_i32(at, values.got_pc as int),
        // .byte 0x66; lea x@tlsgd(%rip),%rdi; then either .word 0x6666;
        // rex64; call __tls_get_addr@plt, or .byte 0x66; rex64;
        // call *__tls_get_addr@GOTPCREL(%rip). Both are 16 bytes.
        Kind::GdToLe => le.copy(at - 4, GD_TO_LE@).write_i32(at + 8, plus4),
        // lea x@tlsld(%rip),%rdi; call __tls_get_addr ->
        // data16 data16 data16 mov %fs:0,%rax
        Kind::LdToLe => if bytes::byte_at(s, at + 4) == Some(0xe8u8) {
            le.copy(at - 3, LD_TO_LE@)
        } else {
            le.byte(at - 3, 0x66).copy(at - 2, LD_TO_LE@)
        },
        Kind::IeToLe => match (
            bytes::byte_at(s, at - 3),
            bytes::byte_at(s, at - 2),
            bytes::byte_at(s, at - 1),
        ) {
            (Some(prefix), Some(op), Some(modrm)) => match ie_to_le(prefix, op, modrm >> 3) {
                Some(b) => le.copy(at - 3, b@).write_i32(at, plus4),
                None => le.fail(ApplyError::BadInstruction),
            },
            _ => le.fail(ApplyError::BadInstruction),
        },
        // lea x@tlsdesc(%rip), %reg -> mov $x@tpoff, %reg
        Kind::DescToLe => match (
            bytes::byte_at(s, at - 3),
            bytes::byte_at(s, at - 2),
            bytes::byte_at(s, at - 1),
        ) {
            (Some(rex), Some(op), Some(modrm)) => le.require(
                rex & 0xfb == 0x48 && op == 0x8d && modrm & 0xc7 == 0x05,
                ApplyError::BadInstruction,
            ).byte(at - 3, 0x48 | (rex >> 2) & 1).byte(at - 2, 0xc7).byte(
                at - 1,
                0xc0 | (modrm >> 3) & 7,
            ).write_i32(at, plus4),
            _ => le.fail(ApplyError::BadInstruction),
        },
        // call *(%rax) -> xchg %ax,%ax
        Kind::DescCallToLe => le.copy(at, seq![0x66, 0x90]),
        _ => le.fail(ApplyError::BadInstruction),
    }
}

/// Relaxes a TLS access to local-exec or initial-exec.
///
/// # Errors
///
/// [`ApplyError`] for unrecognized instruction sequences.
#[verifier::rlimit(40)]
pub fn relax_tls(out: &mut [u8], offset: u64, kind: Kind, values: RelaxValues) -> (r: Result<
    (),
    ApplyError,
>)
    ensures
        r == spec_relax_tls(old(out)@, offset, kind, values).result,
        final(out)@ == spec_relax_tls(old(out)@, offset, kind, values).bytes,
{
    let _len: usize = out.len();
    if kind == Kind::GdToIe || kind == Kind::DescToIe {
        return relax_tls_ie(out, offset, kind, values);
    }
    let Some(plus4) = values.tpoff.checked_add(4) else {
        return Err(ApplyError::Overflow);
    };
    match kind {
        Kind::GdToLe => {
            copy_back(out, offset, 4, &GD_TO_LE)?;
            write_i32(out, offset + 8, plus4)
        },
        Kind::LdToLe => {
            if byte_after(out, offset, 4) == Some(0xe8) {
                copy_back(out, offset, 3, &LD_TO_LE)
            } else {
                put(out, offset, -3, 0x66)?;
                copy_back(out, offset, 2, &LD_TO_LE)
            }
        },
        Kind::IeToLe => {
            let modrm: u8 = get(out, offset, 1)?;
            let prefix: u8 = get(out, offset, 3)?;
            let op: u8 = get(out, offset, 2)?;
            let Some(b) = ie_to_le(prefix, op, modrm >> 3) else {
                return Err(ApplyError::BadInstruction);
            };
            copy_back(out, offset, 3, &b)?;
            write_i32(out, offset, plus4)
        },
        Kind::DescToLe => {
            let rex: u8 = get(out, offset, 3)?;
            let op: u8 = get(out, offset, 2)?;
            let modrm: u8 = get(out, offset, 1)?;
            if rex & 0xfb != 0x48 || op != 0x8d || modrm & 0xc7 != 0x05 {
                return Err(ApplyError::BadInstruction);
            }
            put(out, offset, -3, 0x48 | (rex >> 2) & 1)?;
            put(out, offset, -2, 0xc7)?;
            put(out, offset, -1, 0xc0 | (modrm >> 3) & 7)?;
            write_i32(out, offset, plus4)
        },
        Kind::DescCallToLe => {
            let b: [u8; 2] = [0x66, 0x90];
            assert(b@ =~= seq![0x66, 0x90]);
            copy_at(out, offset, &b)
        },
        _ => Err(ApplyError::BadInstruction),
    }
}

/// Relaxes a general-dynamic or descriptor access to initial-exec.
fn relax_tls_ie(out: &mut [u8], offset: u64, kind: Kind, values: RelaxValues) -> (r: Result<
    (),
    ApplyError,
>)
    requires
        kind == Kind::GdToIe || kind == Kind::DescToIe,
    ensures
        r == spec_relax_tls(old(out)@, offset, kind, values).result,
        final(out)@ == spec_relax_tls(old(out)@, offset, kind, values).bytes,
{
    let _len: usize = out.len();
    match kind {
        Kind::GdToIe => {
            copy_back(out, offset, 4, &GD_TO_IE)?;
            let Some(got_pc) = values.got_pc.checked_sub(8) else {
                return Err(ApplyError::Overflow);
            };
            write_i32(out, offset + 8, got_pc)
        },
        _ => {
            let op: u8 = get(out, offset, 2)?;
            if op != 0x8d {
                return Err(ApplyError::BadInstruction);
            }
            put(out, offset, -2, 0x8b)?;
            write_i32(out, offset, values.got_pc)
        },
    }
}

/// Size of a PLT entry (all entry kinds with IBT, and `.plt` entries
/// without it).
pub const PLT_ENTRY_SIZE: u64 = 16;

/// Size of a `.plt.got` entry without IBT.
pub const PLT_GOT_ENTRY_SIZE: u64 = 8;

/// Size of an IFUNC PLT stub.
pub const IPLT_ENTRY_SIZE: u64 = 16;

/// The distance from `next` to `target`, both taken modulo 2^64.
#[verifier::allow_in_spec]
pub fn distance(target: u64, next: u64) -> i64
    returns
        (target as i64).wrapping_sub(next as i64),
{
    (target as i64).wrapping_sub(next as i64)
}

/// What [`write_plt_header`] does.
pub open spec fn spec_write_plt_header(s: Seq<u8>, plt: u64, got_plt: u64) -> Patched {
    Patched::new(s).write(0, seq![0xffu8, 0x35], ApplyError::OutOfBounds).write_i32(
        2,
        distance(got_plt.wrapping_add(8), plt.wrapping_add(6)) as int,
    ).write(6, seq![0xffu8, 0x25], ApplyError::OutOfBounds).write_i32(
        8,
        distance(got_plt.wrapping_add(16), plt.wrapping_add(12)) as int,
    ).write(12, seq![0x0fu8, 0x1f, 0x40, 0x00], ApplyError::OutOfBounds)
}

/// Writes the lazy PLT header at address `plt`: push the link map word and
/// jump to the resolver through `.got.plt` (at `got_plt`).
///
/// # Errors
///
/// [`ApplyError`] when out of range.
pub fn write_plt_header(out: &mut [u8], plt: u64, got_plt: u64) -> (r: Result<(), ApplyError>)
    ensures
        r == spec_write_plt_header(old(out)@, plt, got_plt).result,
        final(out)@ == spec_write_plt_header(old(out)@, plt, got_plt).bytes,
{
    let push: [u8; 2] = [0xff, 0x35];
    let jump: [u8; 2] = [0xff, 0x25];
    let nop: [u8; 4] = [0x0f, 0x1f, 0x40, 0x00];
    assert(push@ =~= seq![0xffu8, 0x35]);
    assert(jump@ =~= seq![0xffu8, 0x25]);
    assert(nop@ =~= seq![0x0fu8, 0x1f, 0x40, 0x00]);
    put_bytes(out, 0, &push)?;
    write_i32(out, 2, distance(got_plt.wrapping_add(8), plt.wrapping_add(6)))?;
    put_bytes(out, 6, &jump)?;
    write_i32(out, 8, distance(got_plt.wrapping_add(16), plt.wrapping_add(12)))?;
    put_bytes(out, 12, &nop)
}

/// What [`write_plt_entry`] does.
pub open spec fn spec_write_plt_entry(
    s: Seq<u8>,
    entry: u64,
    slot: u64,
    index: u32,
    plt: u64,
    ibt: bool,
) -> Patched {
    let p = Patched::new(s);
    if ibt {
        p.write(0, seq![0xf3u8, 0x0f, 0x1e, 0xfa, 0x68], ApplyError::OutOfBounds).word(
            5,
            index,
        ).byte(9, 0xe9).write_i32(10, distance(plt, entry.wrapping_add(14)) as int).write(
            14,
            seq![0x66u8, 0x90],
            ApplyError::OutOfBounds,
        )
    } else {
        p.write(0, seq![0xffu8, 0x25], ApplyError::OutOfBounds).write_i32(
            2,
            distance(slot, entry.wrapping_add(6)) as int,
        ).byte(6, 0x68).word(7, index).byte(11, 0xe9).write_i32(
            12,
            distance(plt, entry.wrapping_add(16)) as int,
        )
    }
}

/// Writes lazy `.plt` entry `index` at `entry`. Without IBT it jumps
/// through its `.got.plt` slot at `slot` (which initially points back at
/// the `push`); with IBT it is only the lazy-binding half, and the jump is
/// in `.plt.sec`.
///
/// # Errors
///
/// [`ApplyError`] when out of range.
pub fn write_plt_entry(
    out: &mut [u8],
    entry: u64,
    slot: u64,
    index: u32,
    plt: u64,
    ibt: bool,
) -> (r: Result<(), ApplyError>)
    ensures
        r == spec_write_plt_entry(old(out)@, entry, slot, index, plt, ibt).result,
        final(out)@ == spec_write_plt_entry(old(out)@, entry, slot, index, plt, ibt).bytes,
{
    let number: [u8; 4] = le32(index);
    if ibt {
        let pad: [u8; 5] = [0xf3, 0x0f, 0x1e, 0xfa, 0x68];
        let nop: [u8; 2] = [0x66, 0x90];
        assert(pad@ =~= seq![0xf3u8, 0x0f, 0x1e, 0xfa, 0x68]);
        assert(nop@ =~= seq![0x66u8, 0x90]);
        put_bytes(out, 0, &pad)?;
        put_bytes(out, 5, &number)?;
        put(out, 9, 0, 0xe9)?;
        write_i32(out, 10, distance(plt, entry.wrapping_add(14)))?;
        put_bytes(out, 14, &nop)
    } else {
        let jump: [u8; 2] = [0xff, 0x25];
        assert(jump@ =~= seq![0xffu8, 0x25]);
        put_bytes(out, 0, &jump)?;
        write_i32(out, 2, distance(slot, entry.wrapping_add(6)))?;
        put(out, 6, 0, 0x68)?;
        put_bytes(out, 7, &number)?;
        put(out, 11, 0, 0xe9)?;
        write_i32(out, 12, distance(plt, entry.wrapping_add(16)))
    }
}

/// What [`write_plt_jump`] does.
pub open spec fn spec_write_plt_jump(s: Seq<u8>, entry: u64, slot: u64, ibt: bool) -> Patched {
    let p = Patched::new(s);
    if ibt {
        p.write(0, seq![0xf3u8, 0x0f, 0x1e, 0xfa, 0xff, 0x25], ApplyError::OutOfBounds).write_i32(
            6,
            distance(slot, entry.wrapping_add(10)) as int,
        ).write(10, seq![0x66u8, 0x0f, 0x1f, 0x44, 0x00, 0x00], ApplyError::OutOfBounds)
    } else {
        p.write(0, seq![0xffu8, 0x25], ApplyError::OutOfBounds).write_i32(
            2,
            distance(slot, entry.wrapping_add(6)) as int,
        ).write(6, seq![0x66u8, 0x90], ApplyError::OutOfBounds)
    }
}

/// Writes a `.plt.sec` entry (IBT) or `.plt.got` entry at `entry` that
/// jumps through the GOT word at `slot`. `ibt` selects the 16-byte form
/// with `endbr64`; otherwise the 8-byte `.plt.got` form is written.
///
/// # Errors
///
/// [`ApplyError`] when out of range.
pub fn write_plt_jump(out: &mut [u8], entry: u64, slot: u64, ibt: bool) -> (r: Result<
    (),
    ApplyError,
>)
    ensures
        r == spec_write_plt_jump(old(out)@, entry, slot, ibt).result,
        final(out)@ == spec_write_plt_jump(old(out)@, entry, slot, ibt).bytes,
{
    if ibt {
        let jump: [u8; 6] = [0xf3, 0x0f, 0x1e, 0xfa, 0xff, 0x25];
        let nop: [u8; 6] = [0x66, 0x0f, 0x1f, 0x44, 0x00, 0x00];
        assert(jump@ =~= seq![0xf3u8, 0x0f, 0x1e, 0xfa, 0xff, 0x25]);
        assert(nop@ =~= seq![0x66u8, 0x0f, 0x1f, 0x44, 0x00, 0x00]);
        put_bytes(out, 0, &jump)?;
        write_i32(out, 6, distance(slot, entry.wrapping_add(10)))?;
        put_bytes(out, 10, &nop)
    } else {
        let jump: [u8; 2] = [0xff, 0x25];
        let nop: [u8; 2] = [0x66, 0x90];
        assert(jump@ =~= seq![0xffu8, 0x25]);
        assert(nop@ =~= seq![0x66u8, 0x90]);
        put_bytes(out, 0, &jump)?;
        write_i32(out, 2, distance(slot, entry.wrapping_add(6)))?;
        put_bytes(out, 6, &nop)
    }
}

/// `jmp *slot(%rip)`, without its displacement, and the `nop`s after it.
pub const IPLT: [u8; 16] = [
    0xff, 0x25, 0, 0, 0, 0, 0x0f, 0x1f, 0x44, 0, 0, 0x66, 0x0f, 0x1f, 0x44, 0,
];

/// What [`write_iplt`] does.
pub open spec fn spec_write_iplt(s: Seq<u8>, stub: u64, slot_address: u64) -> Patched {
    Patched::new(s).write(0, IPLT@, ApplyError::OutOfBounds).write_i32(
        2,
        distance(slot_address, stub).wrapping_sub(6) as int,
    )
}

/// Writes an IFUNC PLT stub at address `stub` that jumps through the GOT slot
/// at address `slot_address`: `endbr64` would not fit IBT-less PLTs, so this
/// is `jmp *slot(%rip)` padded with `nop`s.
///
/// # Errors
///
/// [`ApplyError::Overflow`] if the slot is out of range of the stub.
pub fn write_iplt(out: &mut [u8], stub: u64, slot_address: u64) -> (r: Result<(), ApplyError>)
    ensures
        r == spec_write_iplt(old(out)@, stub, slot_address).result,
        final(out)@ == spec_write_iplt(old(out)@, stub, slot_address).bytes,
{
    put_bytes(out, 0, &IPLT)?;
    write_i32(out, 2, distance(slot_address, stub).wrapping_sub(6))
}

/// Shared objects keep the TLS models their code was compiled for.
pub proof fn shared_objects_keep_tls_models(
    r_type: u32,
    addend: i64,
    data: Seq<u8>,
    offset: u64,
    context: ClassifyContext,
)
    requires
        context.tls == TlsMode::Dynamic,
        context.tls_ld == TlsMode::Dynamic,
    ensures
        match spec_classify(r_type, addend, data, offset, context) {
            Ok(class) => !super::changes_tls_model(class.kind),
            Err(_) => true,
        },
        match spec_classify_x32(r_type, addend, data, offset, context) {
            Ok(class) => !super::changes_tls_model(class.kind),
            Err(_) => true,
        },
{
}

/// An executable that defines a variable reaches it without a GOT entry for
/// it.
pub proof fn local_variables_need_no_got(
    r_type: u32,
    addend: i64,
    data: Seq<u8>,
    offset: u64,
    context: ClassifyContext,
)
    requires
        context.tls == TlsMode::LocalExec,
        context.tls_ld == TlsMode::LocalExec,
    ensures
        match spec_classify(r_type, addend, data, offset, context) {
            Ok(class) => class.needs_got() ==> class.slot == GotKind::Address,
            Err(_) => true,
        },
        match spec_classify_x32(r_type, addend, data, offset, context) {
            Ok(class) => class.needs_got() ==> class.slot == GotKind::Address,
            Err(_) => true,
        },
{
}

/// Loads from the GOT stay where they may not be rewritten.
pub proof fn kept_loads_stay(
    r_type: u32,
    addend: i64,
    data: Seq<u8>,
    offset: u64,
    context: ClassifyContext,
)
    requires
        !context.relax_got,
    ensures
        match spec_classify(r_type, addend, data, offset, context) {
            Ok(class) => !super::replaces_got_load(class.kind),
            Err(_) => true,
        },
        match spec_classify_x32(r_type, addend, data, offset, context) {
            Ok(class) => !super::replaces_got_load(class.kind),
            Err(_) => true,
        },
{
}

/// The field that each relocation type of the x86-64 System V psABI fills, by the
/// number of the type and by what is computed, and the GOT entry it goes
/// through.
pub open spec fn abi_field(kind: Kind, r_type: u32) -> Option<(Width, GotKind)> {
    match kind {
        Kind::Abs => match r_type {
            1 => Some((Width::W64, GotKind::Address)),
            10 => Some((Width::U32, GotKind::Address)),
            11 => Some((Width::I32, GotKind::Address)),
            12 => Some((Width::Any16, GotKind::Address)),
            14 => Some((Width::Any8, GotKind::Address)),
            _ => None,
        },
        Kind::Pc => match r_type {
            2 | 4 => Some((Width::I32, GotKind::Address)),
            13 => Some((Width::I16, GotKind::Address)),
            15 => Some((Width::I8, GotKind::Address)),
            24 => Some((Width::W64, GotKind::Address)),
            _ => None,
        },
        Kind::Got => match r_type {
            28 => Some((Width::W64, GotKind::Address)),
            _ => None,
        },
        Kind::GotSlotRel => match r_type {
            3 => Some((Width::I32, GotKind::Address)),
            27 | 30 => Some((Width::W64, GotKind::Address)),
            _ => None,
        },
        Kind::GotRel => match r_type {
            25 | 31 => Some((Width::W64, GotKind::Address)),
            _ => None,
        },
        Kind::GotBasePc => match r_type {
            26 => Some((Width::I32, GotKind::Address)),
            29 => Some((Width::W64, GotKind::Address)),
            _ => None,
        },
        Kind::Size => match r_type {
            32 => Some((Width::U32, GotKind::Address)),
            33 => Some((Width::W64, GotKind::Address)),
            _ => None,
        },
        Kind::TpOff => match r_type {
            18 => Some((Width::W64, GotKind::Address)),
            23 => Some((Width::I32, GotKind::Address)),
            _ => None,
        },
        Kind::DtpOff => match r_type {
            17 => Some((Width::W64, GotKind::Address)),
            21 => Some((Width::I32, GotKind::Address)),
            _ => None,
        },
        Kind::Nothing => match r_type {
            0 | 250 | 251 => Some((Width::Nothing, GotKind::Address)),
            _ => None,
        },
        _ => None,
    }
}

/// Every relocation type computes what the ABI defines for it and fills the
/// field the ABI gives it, whatever the code around it; and
/// no other type is taken for one that computes `S + A`, `S + A - P` or the
/// like.
#[verifier::spinoff_prover]
#[verifier::rlimit(80)]
pub proof fn types_compute_what_the_abi_says(r_type: u32, addend: i64, data: Seq<u8>, offset: u64, context: ClassifyContext, kind: Kind)
    ensures
        abi_field(kind, r_type) matches Some((width, slot)) ==> spec_classify(r_type, addend, data, offset, context) == Ok::<Class, ClassifyError>(Class { kind, width, slot, skip_next: false }),
        spec_classify(r_type, addend, data, offset, context) matches Ok(c) ==> ((c.kind == Kind::Abs || c.kind == Kind::Pc || c.kind == Kind::GotSlotRel || c.kind == Kind::GotRel || c.kind == Kind::GotBasePc || c.kind == Kind::Size || c.kind == Kind::TpOff || c.kind == Kind::DtpOff) ==> abi_field(c.kind, r_type) == Some((c.width, c.slot))),
{
}

/// What each thread-local relocation type becomes, by its number, in an
/// access of one model or another: what is computed, the field, the GOT entry,
/// and whether the relocation that follows is taken along.
pub open spec fn tls_access(r_type: u32, tls: TlsMode, tls_ld: TlsMode) -> Option<
    (Kind, Width, GotKind, bool),
> {
    match r_type {
        22 => match tls {
            TlsMode::LocalExec => Some((Kind::IeToLe, Width::Nothing, GotKind::Address, false)),
            TlsMode::InitialExec => Some((Kind::Got, Width::I32, GotKind::TpOff, false)),
            TlsMode::Dynamic => Some((Kind::Got, Width::I32, GotKind::TpOff, false)),
        },
        34 => match tls {
            TlsMode::LocalExec => Some((Kind::DescToLe, Width::Nothing, GotKind::Address, false)),
            TlsMode::InitialExec => Some((Kind::DescToIe, Width::Nothing, GotKind::Address, false)),
            TlsMode::Dynamic => Some((Kind::Got, Width::I32, GotKind::TlsDesc, false)),
        },
        35 => match tls {
            TlsMode::LocalExec => Some((Kind::DescCallToLe, Width::Nothing, GotKind::Address, false)),
            TlsMode::InitialExec => Some((Kind::DescCallToLe, Width::Nothing, GotKind::Address, false)),
            TlsMode::Dynamic => Some((Kind::Nothing, Width::Nothing, GotKind::Address, false)),
        },
        _ => None,
    }
}

/// Thread-local accesses follow the model they are linked with.
#[verifier::spinoff_prover]
#[verifier::rlimit(80)]
pub proof fn thread_local_types_follow_the_model(r_type: u32, addend: i64, data: Seq<u8>, offset: u64, context: ClassifyContext)
    ensures
        tls_access(r_type, context.tls, context.tls_ld) matches Some((kind, width, slot, skip_next)) ==> spec_classify(r_type, addend, data, offset, context) == Ok::<Class, ClassifyError>(Class { kind, width, slot, skip_next }),
{
}

/// Whether 32 bits hold the distance from `from` to `to`.
pub open spec fn is_near(from: u64, to: u64) -> bool {
    -0x8000_0000 <= to.wrapping_sub(from) as i64 <= 0x7fff_ffff
}

/// Whether the displacement at `at`, added to the address `next` of the
/// instruction that follows, gives `target`.
pub open spec fn leads_to(s: Seq<u8>, at: int, next: u64, target: u64) -> bool {
    &&& bytes::u32_at(s, at) matches Some(w)
    &&& next.wrapping_add(((w as i32) as i64) as u64) == target
}

/// The number that the 32 bits at `at` hold.
pub open spec fn immediate_at(s: Seq<u8>, at: int) -> int {
    match bytes::u32_at(s, at) {
        Some(w) => (w as i32) as int,
        None => 0x8000_0000,
    }
}

/// A distance that 32 bits hold leads to its target.
proof fn distances_lead(next: u64, target: u64)
    ensures
        is_near(next, target) <==> i32::MIN <= distance(target, next) <= i32::MAX,
        is_near(next, target) ==> next.wrapping_add(
            ((((distance(target, next) as u32) as i32) as i64) as u64),
        ) == target,
{
    let d = distance(target, next);
    crate::bits::signs(target, d);
    crate::bits::signs(next, d);
    crate::bits::signs(d as u64, d);
    crate::bits::low_bits(d as u64, 0);
    crate::bits::signs(target.wrapping_sub(next), d);
}

/// What 32 bits are given is what they hold.
proof fn immediates_are_held(s: Seq<u8>, at: int, v: int)
    requires
        bytes::inside(s, at, 4),
        i32::MIN <= v <= i32::MAX,
        s.subrange(at, at + 4) == bytes::spec_le32((v as i64) as u32),
    ensures
        immediate_at(s, at) == v,
        bytes::u32_at(s, at) == Some((v as i64) as u32),
{
    bytes::words_are_read(s, at, (v as i64) as u32);
    crate::bits::signs((v as i64) as u64, v as i64);
    crate::bits::low_bits((v as i64) as u64, 0);
}

/// A PLT entry jumps through its slot, pushes its index and jumps to the
/// header, which pushes the second word of `.got.plt` and jumps through the
/// third; an entry that starts with `endbr64` leaves the jump through the
/// slot to `.plt.sec`. What cannot be reached is an overflow.
#[verifier::rlimit(80)]
pub proof fn plt_entries_lead_to_their_slot(
    s: Seq<u8>,
    entry: u64,
    slot: u64,
    index: u32,
    plt: u64,
    got_plt: u64,
)
    requires
        s.len() >= 16,
    ensures
        ({
            let p = spec_write_plt_entry(s, entry, slot, index, plt, false);
            let b = p.bytes;
            &&& p.result is Ok <==> is_near(entry.wrapping_add(6), slot) && is_near(
                entry.wrapping_add(16),
                plt,
            )
            &&& p.result is Ok ==> b[0] == 0xff && b[1] == 0x25 && leads_to(
                b,
                2,
                entry.wrapping_add(6),
                slot,
            ) && b[6] == 0x68 && bytes::u32_at(b, 7) == Some(index) && b[11] == 0xe9 && leads_to(
                b,
                12,
                entry.wrapping_add(16),
                plt,
            )
        }),
        ({
            let p = spec_write_plt_entry(s, entry, slot, index, plt, true);
            let b = p.bytes;
            &&& p.result is Ok <==> is_near(entry.wrapping_add(14), plt)
            &&& p.result is Ok ==> b[0] == 0xf3 && b[1] == 0x0f && b[2] == 0x1e && b[3] == 0xfa
                && b[4] == 0x68 && bytes::u32_at(b, 5) == Some(index) && b[9] == 0xe9 && leads_to(
                b,
                10,
                entry.wrapping_add(14),
                plt,
            )
        }),
        ({
            let p = spec_write_plt_jump(s, entry, slot, false);
            let b = p.bytes;
            &&& p.result is Ok <==> is_near(entry.wrapping_add(6), slot)
            &&& p.result is Ok ==> b[0] == 0xff && b[1] == 0x25 && leads_to(
                b,
                2,
                entry.wrapping_add(6),
                slot,
            )
        }),
        ({
            let p = spec_write_plt_jump(s, entry, slot, true);
            let b = p.bytes;
            &&& p.result is Ok <==> is_near(entry.wrapping_add(10), slot)
            &&& p.result is Ok ==> b[0] == 0xf3 && b[1] == 0x0f && b[2] == 0x1e && b[3] == 0xfa
                && b[4] == 0xff && b[5] == 0x25 && leads_to(b, 6, entry.wrapping_add(10), slot)
        }),
        ({
            let p = spec_write_iplt(s, entry, slot);
            let b = p.bytes;
            p.result is Ok && is_near(entry.wrapping_add(6), slot) ==> b[0] == 0xff && b[1] == 0x25
                && leads_to(b, 2, entry.wrapping_add(6), slot)
        }),
        ({
            let p = spec_write_plt_header(s, plt, got_plt);
            let b = p.bytes;
            &&& p.result is Ok <==> is_near(plt.wrapping_add(6), got_plt.wrapping_add(8))
                && is_near(plt.wrapping_add(12), got_plt.wrapping_add(16))
            &&& p.result is Ok ==> b[0] == 0xff && b[1] == 0x35 && leads_to(
                b,
                2,
                plt.wrapping_add(6),
                got_plt.wrapping_add(8),
            ) && b[6] == 0xff && b[7] == 0x25 && leads_to(
                b,
                8,
                plt.wrapping_add(12),
                got_plt.wrapping_add(16),
            )
        }),
{
    distances_lead(entry.wrapping_add(6), slot);
    distances_lead(entry.wrapping_add(10), slot);
    distances_lead(entry.wrapping_add(16), plt);
    distances_lead(entry.wrapping_add(14), plt);
    distances_lead(plt.wrapping_add(6), got_plt.wrapping_add(8));
    distances_lead(plt.wrapping_add(12), got_plt.wrapping_add(16));
    let d = distance(slot, entry.wrapping_add(6));
    let to_plt = distance(plt, entry.wrapping_add(16));
    let lazy = spec_write_plt_entry(s, entry, slot, index, plt, false);
    if lazy.result is Ok {
        assert(lazy.bytes.subrange(2, 6) =~= bytes::spec_le32(d as u32));
        assert(lazy.bytes.subrange(7, 11) =~= bytes::spec_le32(index));
        assert(lazy.bytes.subrange(12, 16) =~= bytes::spec_le32(to_plt as u32));
        bytes::words_are_read(lazy.bytes, 2, d as u32);
        bytes::words_are_read(lazy.bytes, 7, index);
        bytes::words_are_read(lazy.bytes, 12, to_plt as u32);
    }
    let pad = spec_write_plt_entry(s, entry, slot, index, plt, true);
    if pad.result is Ok {
        let d = distance(plt, entry.wrapping_add(14));
        assert(pad.bytes.subrange(5, 9) =~= bytes::spec_le32(index));
        assert(pad.bytes.subrange(10, 14) =~= bytes::spec_le32(d as u32));
        bytes::words_are_read(pad.bytes, 5, index);
        bytes::words_are_read(pad.bytes, 10, d as u32);
    }
    let jump = spec_write_plt_jump(s, entry, slot, false);
    if jump.result is Ok {
        assert(jump.bytes.subrange(2, 6) =~= bytes::spec_le32(d as u32));
        bytes::words_are_read(jump.bytes, 2, d as u32);
    }
    let second = spec_write_plt_jump(s, entry, slot, true);
    if second.result is Ok {
        let d = distance(slot, entry.wrapping_add(10));
        assert(second.bytes.subrange(6, 10) =~= bytes::spec_le32(d as u32));
        bytes::words_are_read(second.bytes, 6, d as u32);
    }
    let stub = spec_write_iplt(s, entry, slot);
    if stub.result is Ok && is_near(entry.wrapping_add(6), slot) {
        crate::bits::signs(entry, 0);
        crate::bits::signs(slot, 0);
        crate::bits::signs(entry.wrapping_add(6), 0);
        assert(distance(slot, entry).wrapping_sub(6) == d);
        assert(stub.bytes.subrange(2, 6) =~= bytes::spec_le32(d as u32));
        bytes::words_are_read(stub.bytes, 2, d as u32);
    }
    let header = spec_write_plt_header(s, plt, got_plt);
    if header.result is Ok {
        let a = distance(got_plt.wrapping_add(8), plt.wrapping_add(6));
        let b = distance(got_plt.wrapping_add(16), plt.wrapping_add(12));
        assert(header.bytes.subrange(2, 6) =~= bytes::spec_le32(a as u32));
        assert(header.bytes.subrange(8, 12) =~= bytes::spec_le32(b as u32));
        bytes::words_are_read(header.bytes, 2, a as u32);
        bytes::words_are_read(header.bytes, 8, b as u32);
    }
}

/// The register that the `reg` bits of a ModR/M byte name, with its prefix.
pub open spec fn reg_of(rex: u8, modrm: u8) -> u8 {
    ((rex >> 2) & 1) << 3 | (modrm >> 3) & 7
}

/// The register that the `r/m` bits of a ModR/M byte name, with its prefix.
pub open spec fn rm_of(rex: u8, modrm: u8) -> u8 {
    (rex & 1) << 3 | modrm & 7
}

/// How prefixes and ModR/M bytes name registers.
proof fn registers(rex: u8, modrm: u8, op: u8, reg: u8)
    by (bit_vector)
    requires
        reg == (modrm >> 3) & 7,
    ensures
        rex & 1 == 0 ==> ((rex & !0x4u8 | (rex & 0x4) >> 2) & 1) << 3 | (0xc0 | (modrm & 0x38) >> 3)
            & 7 == ((rex >> 2) & 1) << 3 | (modrm >> 3) & 7,
        rex & 1 == 0 ==> ((rex & !0x4u8 | (rex & 0x4) >> 2) & 1) << 3 | (0xc0 | (modrm & 0x38) >> 3
            | 0) & 7 == ((rex >> 2) & 1) << 3 | (modrm >> 3) & 7,
        rex & 1 == 0 && op & 0xc7 == 0x03 ==> ((rex & !0x4u8 | (rex & 0x4) >> 2) & 1) << 3 | (0xc0
            | (modrm & 0x38) >> 3 | op & 0x3c) & 7 == ((rex >> 2) & 1) << 3 | (modrm >> 3) & 7,
        op & 0xc7 == 0x03 ==> ((0xc0 | (modrm & 0x38) >> 3 | op & 0x3c) >> 3) & 7 == (op >> 3) & 7,
        (0xc0 | (modrm & 0x38) >> 3 | 0) >> 3 == 0x18,
        (0xc0 | (modrm & 0x38) >> 3 | 0) >> 6 == 3,
        (0xc0 | (modrm & 0x38) >> 3 | op & 0x3c) >> 6 == 3,
        (rex & !0x4u8 | (rex & 0x4) >> 2) & 0xf8 == rex & 0xf8,
        modrm & 0xc7 == 0x05 ==> modrm >> 3 == reg,
        reg <= 7,
        (0xc0 | reg) & 7 == reg,
        (0xc0 | reg) >> 3 == 0x18,
        (0x80 | reg << 3 | reg) & 7 == reg,
        (0x80 | reg << 3 | reg) >> 3 == 0x10 | reg,
        ((0x80 | reg << 3 | reg) >> 3) & 7 == reg,
        (0x80 | reg << 3 | reg) >> 6 == 2,
        (0xc0 | reg) >> 6 == 3,
        (0x48u8 >> 2) & 1 == 0,
        0x85u8 & 0xc7 == 0x85,
        (0x4cu8 >> 2) & 1 == 1,
        0x48u8 & 1 == 0,
        0x49u8 & 1 == 1,
        0x4du8 & 1 == 1,
        (0x4du8 >> 2) & 1 == 1,
        0xc4u8 & 7 == 4,
        0xc4u8 >> 3 == 0x18,
        0xc4u8 >> 6 == 3,
        rex & 0xfb == 0x48 ==> (0x48 | (rex >> 2) & 1) & 1 == (rex >> 2) & 1,
        rex & 0xfb == 0x48 ==> (0x48 | (rex >> 2) & 1) & 0xfe == 0x48,
{
}

/// A load from the GOT that is done without one: `mov` becomes `lea` of the
/// symbol, a call or jump through the entry goes to the symbol itself, and
/// an operation takes the symbol as an immediate with the register it had.
#[verifier::rlimit(80)]
pub proof fn relaxed_loads_reach_the_symbol(s: Seq<u8>, offset: u64, value: i64)
    requires
        3 <= offset,
        offset + 4 <= s.len(),
    ensures
        ({
            let at = offset as int;
            let p = spec_relax_got(s, offset, Kind::RelaxGotPc, value);
            let b = p.bytes;
            &&& p.result is Ok <==> (s[at - 2] == 0x8b || (s[at - 2] == 0xff && s[at - 1] == 0x15))
                && -0x8000_0000 <= value <= 0x7fff_ffff || s[at - 2] == 0xff && s[at - 1] == 0x25
                && -0x8000_0001 <= value <= 0x7fff_fffe
            &&& p.result is Ok && s[at - 2] == 0x8b ==> b[at - 2] == 0x8d && b[at - 1] == s[at - 1]
                && b[at - 3] == s[at - 3] && immediate_at(b, at) == value
            &&& p.result is Ok && s[at - 2] == 0xff && s[at - 1] == 0x15 ==> b[at - 2] == 0x67 && b[at
                - 1] == 0xe8 && immediate_at(b, at) == value
            &&& p.result is Ok && s[at - 2] == 0xff && s[at - 1] == 0x25 ==> b[at - 2] == 0xe9
                && immediate_at(b, at - 1) == value + 1 && b[at + 3] == 0x90
        }),
        ({
            let at = offset as int;
            let p = spec_relax_got(s, offset, Kind::RelaxGotPcNoPic, value);
            let b = p.bytes;
            &&& p.result is Ok <==> -0x8000_0004 <= value <= 0x7fff_fffb
            &&& p.result is Ok ==> immediate_at(b, at) == value + 4 && b[at - 1] >> 6 == 3
            &&& p.result is Ok && s[at - 3] & 1 == 0 && (s[at - 2] == 0x85 || s[at - 2] & 0xc7
                == 0x03) ==> rm_of(b[at - 3], b[at - 1]) == reg_of(s[at - 3], s[at - 1])
            &&& p.result is Ok && s[at - 2] == 0x85 ==> b[at - 2] == 0xf7 && b[at - 1] >> 3 == 0x18
            &&& p.result is Ok && s[at - 2] & 0xc7 == 0x03 ==> b[at - 2] == 0x81 && (b[at - 1] >> 3)
                & 7 == (s[at - 2] >> 3) & 7
        }),
{
    let at = offset as int;
    registers(s[at - 3], s[at - 1], s[at - 2], (s[at - 1] >> 3) & 7);
    registers(s[at - 3], s[at - 1], 0x85, (s[at - 1] >> 3) & 7);
    registers(s[at - 3], s[at - 1], 0, (s[at - 1] >> 3) & 7);
    let p = spec_relax_got(s, offset, Kind::RelaxGotPc, value);
    if p.result is Ok {
        if s[at - 2] == 0xff && s[at - 1] == 0x25 {
            assert(p.bytes.subrange(at - 1, at + 3) =~= bytes::spec_le32(
                ((value + 1) as i64) as u32,
            ));
            immediates_are_held(p.bytes, at - 1, value + 1);
        } else {
            assert(p.bytes.subrange(at, at + 4) =~= bytes::spec_le32(value as u32));
            immediates_are_held(p.bytes, at, value as int);
        }
    }
    let q = spec_relax_got(s, offset, Kind::RelaxGotPcNoPic, value);
    if q.result is Ok {
        assert(q.bytes.subrange(at, at + 4) =~= bytes::spec_le32(((value + 4) as i64) as u32));
        immediates_are_held(q.bytes, at, value + 4);
    }
}

/// A thread-local access that needs no call or no GOT entry: the offset of
/// the variable from the thread pointer is in the code, or the place of the
/// GOT entry that holds it, and the register is the one that was asked for.
#[verifier::rlimit(100)]
#[verifier::spinoff_prover]
pub proof fn thread_local_accesses_hold_the_offset(s: Seq<u8>, offset: u64, values: RelaxValues)
    requires
        4 <= offset,
        offset + 12 <= s.len(),
        values.tpoff <= 0x7fff_fffb,
        values.got_pc >= -0x7fff_fff8,
    ensures
        ({
            let at = offset as int;
            let p = spec_relax_tls(s, offset, Kind::GdToLe, values);
            p.result is Ok ==> immediate_at(p.bytes, at + 8) == values.tpoff + 4 && p.bytes.subrange(
                at - 4,
                at + 8,
            ) == seq![0x64u8, 0x48, 0x8b, 0x04, 0x25, 0, 0, 0, 0, 0x48, 0x8d, 0x80]
        }),
        ({
            let at = offset as int;
            let p = spec_relax_tls(s, offset, Kind::GdToIe, values);
            p.result is Ok ==> immediate_at(p.bytes, at + 8) == values.got_pc - 8 && p.bytes.subrange(
                at - 4,
                at + 8,
            ) == seq![0x64u8, 0x48, 0x8b, 0x04, 0x25, 0, 0, 0, 0, 0x48, 0x03, 0x05]
        }),
        ({
            let at = offset as int;
            let p = spec_relax_tls(s, offset, Kind::DescToIe, values);
            p.result is Ok ==> s[at - 2] == 0x8d && p.bytes[at - 2] == 0x8b && p.bytes[at - 1] == s[at
                - 1] && p.bytes[at - 3] == s[at - 3] && immediate_at(p.bytes, at) == values.got_pc
        }),
        ({
            let at = offset as int;
            let p = spec_relax_tls(s, offset, Kind::DescToLe, values);
            let b = p.bytes;
            p.result is Ok ==> s[at - 2] == 0x8d && b[at - 2] == 0xc7 && immediate_at(b, at)
                == values.tpoff + 4 && rm_of(b[at - 3], b[at - 1]) == reg_of(s[at - 3], s[at - 1])
                && b[at - 1] >> 3 == 0x18
        }),
        ({
            let at = offset as int;
            let p = spec_relax_tls(s, offset, Kind::IeToLe, values);
            let b = p.bytes;
            s[at - 1] & 0xc7 == 0x05 && p.result is Ok ==> {
                &&& s[at - 2] == 0x8b || s[at - 2] == 0x03
                &&& immediate_at(b, at) == values.tpoff + 4
                &&& rm_of(b[at - 3], b[at - 1]) == reg_of(s[at - 3], s[at - 1])
                &&& s[at - 2] == 0x8b ==> b[at - 2] == 0xc7 && b[at - 1] >> 3 == 0x18
                &&& s[at - 2] == 0x03 ==> b[at - 2] == 0x81 && b[at - 1] >> 3 == 0x18 || b[at - 2]
                    == 0x8d && b[at - 1] >> 6 == 2 && reg_of(b[at - 3], b[at - 1]) == reg_of(
                    s[at - 3],
                    s[at - 1],
                ) && b[at - 1] & 7 != 4
            }
        }),
        ({
            let p = spec_relax_tls(s, offset, Kind::DescCallToLe, values);
            p.result is Ok ==> p.bytes[offset as int] == 0x66 && p.bytes[offset + 1] == 0x90
        }),
{
    let at = offset as int;
    registers(s[at - 3], s[at - 1], 0, (s[at - 1] >> 3) & 7);
    let plus4 = values.tpoff + 4;
    let p = spec_relax_tls(s, offset, Kind::GdToLe, values);
    if p.result is Ok {
        assert(p.bytes.subrange(at + 8, at + 12) =~= bytes::spec_le32((plus4 as i64) as u32));
        immediates_are_held(p.bytes, at + 8, plus4);
    }
    let p = spec_relax_tls(s, offset, Kind::GdToIe, values);
    if p.result is Ok {
        assert(p.bytes.subrange(at + 8, at + 12) =~= bytes::spec_le32(
            ((values.got_pc - 8) as i64) as u32,
        ));
        immediates_are_held(p.bytes, at + 8, values.got_pc - 8);
    }
    let p = spec_relax_tls(s, offset, Kind::DescToIe, values);
    if p.result is Ok {
        assert(p.bytes.subrange(at, at + 4) =~= bytes::spec_le32(values.got_pc as u32));
        immediates_are_held(p.bytes, at, values.got_pc as int);
    }
    let p = spec_relax_tls(s, offset, Kind::DescToLe, values);
    if p.result is Ok {
        assert(p.bytes.subrange(at, at + 4) =~= bytes::spec_le32((plus4 as i64) as u32));
        immediates_are_held(p.bytes, at, plus4);
    }
    let p = spec_relax_tls(s, offset, Kind::IeToLe, values);
    if p.result is Ok {
        assert(p.bytes.subrange(at, at + 4) =~= bytes::spec_le32((plus4 as i64) as u32));
        immediates_are_held(p.bytes, at, plus4);
    }
}

} // verus!
