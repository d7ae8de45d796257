//! PowerPC64 little-endian (ELFv2) relocations: classification, the TOC,
//! call stubs, the TLS relaxations and the PLT.
//!
//! [`classify`] turns a relocation type into a [`Class`]: what the ABI
//! says to compute ([`Kind`]), which GOT entry it reads ([`GotKind`]) and
//! which instruction field holds the result ([`Field`]). The relocation
//! scan and the writer both use it, so they always agree.
//!
//! **The TOC.** Code addresses data relative to `r2`, the TOC pointer,
//! which is `.got + 0x8000` (the symbol `.TOC.`); the first `.got` word
//! holds that value. TOC-relative relocations (`TOC16*`) compute
//! `S + A - .TOC.` and GOT-indirect ones (`GOT16*`) `G + A - .TOC.`, which
//! is what [`Kind::GotRel`] and [`Kind::GotSlotRel`] compute on this
//! architecture, whose GOT base is the TOC pointer. As in GNU ld and lld,
//! an `addis rT, r2, x@ha` whose `#ha` is zero becomes a `nop`, and the
//! instruction that used `rT` uses `r2` instead ([`Field::HaToc`] and its
//! companions). An access through a compiler-generated `.toc` entry that
//! holds the address of a non-preemptible symbol reads the symbol's address
//! TOC-relative instead of loading it ([`toc_indirection`]).
//!
//! **Calls.** A function has a global entry point, which computes `r2`
//! from `r12`, and a local entry point after it (`st_other` bits 5-7). A
//! `bl` to a function of the same output enters it at the local entry
//! point, since `r2` is already right. A call to a preemptible function
//! goes through a PLT call stub in `.plt.sec` that saves `r2` in the
//! caller's frame and loads the target from its `.got.plt` slot; the `nop`
//! after the `bl` becomes `ld r2, 24(r1)` to restore it. `bl` reaches
//! +/-32 MiB; farther branches go through the range-extension thunks of
//! [`crate::elf::arch::thunk`], which compute their target from the program
//! counter and so also serve Power10 callers that do not maintain `r2`
//! (`R_PPC64_REL24_NOTOC`): through one they call a function needing the
//! TOC at its global entry point, or a PLT entry by loading its word
//! PC-relatively. A caller that keeps `r2` calls a function that clobbers
//! it (`st_other` 1) through a thunk that saves `r2` first, restored by
//! the `nop` after the call as for PLT calls. Every called preemptible
//! function gets its own PLT slot (no `.plt.got`), and a dynamic output's
//! `IRELATIVE` relocations go to `.rela.dyn`, as with GNU ld.
//!
//! **The PLT.** `.plt` is the lazy-binding code the ABI calls `.glink`: a
//! 60-byte resolver, then one `b` back to it per PLT slot. `.got.plt` holds
//! the slots after two words the dynamic linker fills (the resolver and the
//! link map), and `DT_PPC64_GLINK` points 32 bytes before the first lazy
//! entry, as glibc expects. The dynamic linker initializes every slot
//! itself, so the slots are left zero.
//!
//! **TLS** follows the ELFv2 ABI and lld: in an executable,
//! general-dynamic and local-dynamic accesses to the executable's own
//! variables become local-exec, general-dynamic accesses to a shared
//! library's variables become initial-exec, and initial-exec becomes
//! local-exec. The `R_PPC64_TLSGD`/`R_PPC64_TLSLD` marker on the
//! `bl __tls_get_addr` rewrites the call, whose own relocation is then
//! skipped. The thread pointer (`r13`) is 0x7000 bytes past the start of
//! the TLS block, and `@dtprel` offsets are biased by 0x8000.

use vstd::prelude::*;

use super::{
    ApplyError, Branch, Class, ClassifyContext, ClassifyError, GotKind, Kind, RelaxValues, TlsMode,
    Width,
};
use super::apply::Address;
use super::patch::{put_bytes, put_word, refused, Patched};
use crate::arch::EncodeError;
use crate::arch::ppc64::{
    Field, ADDIS_R13, ADDIS_R3_R13, ADDI_R3_R3, ADDI_R3_R3_4096, ADD_R3_R3_R13, LD_R2_24_R1, NOP,
    PADDI_R13, PADDI_R3_R13, PADDI_R3_R13_4096,
};
use crate::arch::ppc64 as insn;
use crate::bits::{checked_offset, fits_signed};
use crate::bytes;
use crate::bytes::{fill_words, get_u32, le64, same};
use crate::elf::consts::ppc64 as r;
use crate::elf::inputs::RelocTable;
use crate::elf::refs::{Def, Refs, Target};
use crate::elf::relocation::Relocation;
use crate::order::row_set;
use crate::symbols::{SymbolFlags, ABSOLUTE, PREEMPTIBLE};

verus! {

/// A classification of an instruction field.
#[verifier::allow_in_spec]
pub fn class(kind: Kind, field: Field) -> Class
    returns
        (Class::new(kind, Width::Ppc(field))),
{
    Class::new(kind, Width::Ppc(field))
}

/// A classification through GOT entry `slot`.
#[verifier::allow_in_spec]
pub fn got(kind: Kind, field: Field, slot: GotKind) -> Class
    returns
        (Class::new(kind, Width::Ppc(field)).through(slot)),
{
    Class::new(kind, Width::Ppc(field)).through(slot)
}

/// A rewritten instruction.
#[verifier::allow_in_spec]
pub fn relax(kind: Kind) -> Class
    returns
        (Class::new(kind, Width::Nothing)),
{
    Class::new(kind, Width::Nothing)
}

/// The ABI version the output's `e_flags` records: ELFv2.
pub const ABI_VERSION: u32 = 2;

/// Set in the type of an `R_PPC64_TLSGD`/`R_PPC64_TLSLD` marker (by
/// [`annotate`]) whose `__tls_get_addr` call is PC-relative
/// (`R_PPC64_REL24_NOTOC`): that call has no `nop` after it to rewrite.
pub const PCREL_CALL_HINT: u32 = 0x8000_0000;

/// The type without [`PCREL_CALL_HINT`].
#[verifier::allow_in_spec]
pub fn base_type(r_type: u32) -> u32
    returns
        (r_type & !PCREL_CALL_HINT),
{
    r_type & !PCREL_CALL_HINT
}

/// Whether the prefixed instruction at `offset` of `data` is a `pld`,
/// which a GOT-indirect access can turn into a `paddi`.
pub open spec fn spec_is_pld(data: Seq<u8>, offset: u64) -> bool {
    match insn::prefixed_at(data, offset as int) {
        Some(i) => i & 0xfc00_0000 == 0xe400_0000,
        None => false,
    }
}

/// Whether the prefixed instruction at `offset` of `data` is a `pld`.
fn is_pld(data: &[u8], offset: u64) -> (r: bool)
    ensures
        r == spec_is_pld(data@, offset),
{
    match insn::read_prefixed(data, offset) {
        Some(i) => i & 0xfc00_0000 == 0xe400_0000,
        None => false,
    }
}

/// What [`classify`] answers.
pub open spec fn spec_classify(
    r_type: u32,
    data: Seq<u8>,
    offset: u64,
    context: ClassifyContext,
) -> Result<Class, ClassifyError> {
    let base: u32 = base_type(r_type);
    let tls: TlsMode = context.tls;
    let tls_ld: TlsMode = context.tls_ld;
    match base {
        r::R_PPC64_NONE
        | r::R_PPC64_TOCSAVE
        | r::R_PPC64_ENTRY
        | r::R_PPC64_GNU_VTINHERIT
        | r::R_PPC64_GNU_VTENTRY => Ok(Class::new(Kind::Nothing, Width::Nothing)),

        // Absolute data and instruction fields.
        r::R_PPC64_ADDR64 | r::R_PPC64_UADDR64 => Ok(Class::new(Kind::Abs, Width::W64)),
        r::R_PPC64_ADDR32 | r::R_PPC64_UADDR32 => Ok(Class::new(Kind::Abs, Width::Any32)),
        r::R_PPC64_ADDR16 | r::R_PPC64_UADDR16 => Ok(class(Kind::Abs, Field::Half16)),
        r::R_PPC64_ADDR16_LO => Ok(class(Kind::Abs, Field::Lo)),
        r::R_PPC64_ADDR16_HI => Ok(class(Kind::Abs, Field::Hi)),
        r::R_PPC64_ADDR16_HA => Ok(class(Kind::Abs, Field::Ha)),
        r::R_PPC64_ADDR16_HIGH => Ok(class(Kind::Abs, Field::High)),
        r::R_PPC64_ADDR16_HIGHA => Ok(class(Kind::Abs, Field::Higha)),
        r::R_PPC64_ADDR16_HIGHER => Ok(class(Kind::Abs, Field::Higher)),
        r::R_PPC64_ADDR16_HIGHERA => Ok(class(Kind::Abs, Field::Highera)),
        r::R_PPC64_ADDR16_HIGHEST => Ok(class(Kind::Abs, Field::Highest)),
        r::R_PPC64_ADDR16_HIGHESTA => Ok(class(Kind::Abs, Field::Highesta)),
        r::R_PPC64_ADDR16_DS => Ok(class(Kind::Abs, Field::Ds)),
        r::R_PPC64_ADDR16_LO_DS => Ok(class(Kind::Abs, Field::LoDs)),
        r::R_PPC64_ADDR24 => Ok(class(Kind::Abs, Field::Addr24)),
        r::R_PPC64_ADDR14 | r::R_PPC64_ADDR14_BRTAKEN | r::R_PPC64_ADDR14_BRNTAKEN => Ok(
            class(Kind::Abs, Field::Addr14),
        ),

        // PC-relative data, halves and branches.
        r::R_PPC64_REL64 => Ok(Class::new(Kind::Pc, Width::W64)),
        r::R_PPC64_REL32 => Ok(Class::new(Kind::Pc, Width::I32)),
        r::R_PPC64_REL16 => Ok(class(Kind::Pc, Field::Half16Signed)),
        r::R_PPC64_REL16_LO => Ok(class(Kind::Pc, Field::Lo)),
        r::R_PPC64_REL16_HI => Ok(class(Kind::Pc, Field::Hi)),
        r::R_PPC64_REL16_HA => Ok(class(Kind::Pc, Field::Ha)),
        r::R_PPC64_REL16_HIGH => Ok(class(Kind::Pc, Field::High)),
        r::R_PPC64_REL16_HIGHA => Ok(class(Kind::Pc, Field::Higha)),
        r::R_PPC64_REL16_HIGHER => Ok(class(Kind::Pc, Field::Higher)),
        r::R_PPC64_REL16_HIGHERA => Ok(class(Kind::Pc, Field::Highera)),
        r::R_PPC64_REL16_HIGHEST => Ok(class(Kind::Pc, Field::Highest)),
        r::R_PPC64_REL16_HIGHESTA => Ok(class(Kind::Pc, Field::Highesta)),
        r::R_PPC64_REL24 | r::R_PPC64_REL24_NOTOC => Ok(class(Kind::Pc, Field::Rel24)),
        r::R_PPC64_REL14 | r::R_PPC64_REL14_BRTAKEN | r::R_PPC64_REL14_BRNTAKEN => Ok(
            class(Kind::Pc, Field::Rel14),
        ),
        r::R_PPC64_PCREL34 => Ok(class(Kind::Pc, Field::Prefixed34)),

        // TOC-relative: `S + A - .TOC.`.
        r::R_PPC64_TOC16 => Ok(class(Kind::GotRel, Field::Half16)),
        r::R_PPC64_TOC16_LO => Ok(class(Kind::GotRel, Field::LoToc)),
        r::R_PPC64_TOC16_HI => Ok(class(Kind::GotRel, Field::Hi)),
        r::R_PPC64_TOC16_HA => Ok(class(Kind::GotRel, Field::HaToc)),
        r::R_PPC64_TOC16_DS => Ok(class(Kind::GotRel, Field::Ds)),
        r::R_PPC64_TOC16_LO_DS => Ok(class(Kind::GotRel, Field::LoDsToc)),

        // GOT-indirect: `G + A - .TOC.`, or PC-relative.
        r::R_PPC64_GOT16 => Ok(got(Kind::GotSlotRel, Field::Half16, GotKind::Address)),
        r::R_PPC64_GOT16_LO => Ok(got(Kind::GotSlotRel, Field::Lo, GotKind::Address)),
        r::R_PPC64_GOT16_HI => Ok(got(Kind::GotSlotRel, Field::Hi, GotKind::Address)),
        r::R_PPC64_GOT16_HA => Ok(got(Kind::GotSlotRel, Field::HaToc, GotKind::Address)),
        r::R_PPC64_GOT16_DS => Ok(got(Kind::GotSlotRel, Field::Ds, GotKind::Address)),
        r::R_PPC64_GOT16_LO_DS => Ok(got(Kind::GotSlotRel, Field::LoDsToc, GotKind::Address)),
        r::R_PPC64_GOT_PCREL34 => {
            if context.relax_got && spec_is_pld(data, offset) {
                Ok(class(Kind::Pc, Field::PldToPaddi))
            } else {
                Ok(got(Kind::Got, Field::Prefixed34, GotKind::Address))
            }
        },
        // A hint on the `pld` of a relaxable GOT access: the load or store
        // that uses the address (`A` bytes on) becomes PC-relative.
        // It has no symbol: it applies when that relocation relaxed.
        r::R_PPC64_PCREL_OPT => Ok(class(Kind::Addend, Field::PcrelOpt)),

        // Local-exec and local-dynamic offsets.
        r::R_PPC64_TPREL64 => Ok(Class::new(Kind::TpOff, Width::W64)),
        r::R_PPC64_TPREL16 => Ok(class(Kind::TpOff, Field::Half16Signed)),
        r::R_PPC64_TPREL16_LO => Ok(class(Kind::TpOff, Field::Lo)),
        r::R_PPC64_TPREL16_HI => Ok(class(Kind::TpOff, Field::Hi)),
        r::R_PPC64_TPREL16_HA => Ok(class(Kind::TpOff, Field::Ha)),
        r::R_PPC64_TPREL16_HIGH => Ok(class(Kind::TpOff, Field::High)),
        r::R_PPC64_TPREL16_HIGHA => Ok(class(Kind::TpOff, Field::Higha)),
        r::R_PPC64_TPREL16_HIGHER => Ok(class(Kind::TpOff, Field::Higher)),
        r::R_PPC64_TPREL16_HIGHERA => Ok(class(Kind::TpOff, Field::Highera)),
        r::R_PPC64_TPREL16_HIGHEST => Ok(class(Kind::TpOff, Field::Highest)),
        r::R_PPC64_TPREL16_HIGHESTA => Ok(class(Kind::TpOff, Field::Highesta)),
        r::R_PPC64_TPREL16_DS => Ok(class(Kind::TpOff, Field::Ds)),
        r::R_PPC64_TPREL16_LO_DS => Ok(class(Kind::TpOff, Field::LoDs)),
        r::R_PPC64_TPREL34 => Ok(class(Kind::TpOff, Field::Prefixed34)),
        r::R_PPC64_DTPREL64 => Ok(Class::new(Kind::DtpOff, Width::W64)),
        r::R_PPC64_DTPREL16 => Ok(class(Kind::DtpOff, Field::Half16Signed)),
        r::R_PPC64_DTPREL16_LO => Ok(class(Kind::DtpOff, Field::Lo)),
        r::R_PPC64_DTPREL16_HI => Ok(class(Kind::DtpOff, Field::Hi)),
        r::R_PPC64_DTPREL16_HA => Ok(class(Kind::DtpOff, Field::Ha)),
        r::R_PPC64_DTPREL16_HIGH => Ok(class(Kind::DtpOff, Field::High)),
        r::R_PPC64_DTPREL16_HIGHA => Ok(class(Kind::DtpOff, Field::Higha)),
        r::R_PPC64_DTPREL16_HIGHER => Ok(class(Kind::DtpOff, Field::Higher)),
        r::R_PPC64_DTPREL16_HIGHERA => Ok(class(Kind::DtpOff, Field::Highera)),
        r::R_PPC64_DTPREL16_HIGHEST => Ok(class(Kind::DtpOff, Field::Highest)),
        r::R_PPC64_DTPREL16_HIGHESTA => Ok(class(Kind::DtpOff, Field::Highesta)),
        r::R_PPC64_DTPREL16_DS => Ok(class(Kind::DtpOff, Field::Ds)),
        r::R_PPC64_DTPREL16_LO_DS => Ok(class(Kind::DtpOff, Field::LoDs)),
        r::R_PPC64_DTPREL34 => Ok(class(Kind::DtpOff, Field::Prefixed34)),

        // General-dynamic.
        r::R_PPC64_GOT_TLSGD16 | r::R_PPC64_GOT_TLSGD16_LO => match tls {
            TlsMode::Dynamic => {
                let field: Field = if base == r::R_PPC64_GOT_TLSGD16 {
                    Field::Half16
                } else {
                    Field::Lo
                };
                Ok(got(Kind::GotSlotRel, field, GotKind::TlsGd))
            },
            TlsMode::LocalExec => Ok(relax(Kind::GdToLe)),
            TlsMode::InitialExec => Ok(got(Kind::GotSlotRel, Field::LdR3LoDs, GotKind::TpOff)),
        },
        r::R_PPC64_GOT_TLSGD16_HA => match tls {
            TlsMode::Dynamic => Ok(got(Kind::GotSlotRel, Field::Ha, GotKind::TlsGd)),
            TlsMode::LocalExec => Ok(relax(Kind::GdToLe)),
            TlsMode::InitialExec => Ok(got(Kind::GotSlotRel, Field::Ha, GotKind::TpOff)),
        },
        r::R_PPC64_GOT_TLSGD16_HI => match tls {
            TlsMode::Dynamic => Ok(got(Kind::GotSlotRel, Field::Hi, GotKind::TlsGd)),
            _ => Err(ClassifyError::BadTlsInstruction),
        },
        r::R_PPC64_GOT_TLSGD_PCREL34 => match tls {
            TlsMode::Dynamic => Ok(got(Kind::Got, Field::Prefixed34, GotKind::TlsGd)),
            TlsMode::LocalExec => Ok(relax(Kind::GdToLe)),
            TlsMode::InitialExec => Ok(got(Kind::Got, Field::PldR3, GotKind::TpOff)),
        },
        r::R_PPC64_TLSGD => match tls {
            TlsMode::Dynamic => Ok(Class::new(Kind::Nothing, Width::Nothing)),
            TlsMode::LocalExec => Ok(relax(Kind::GdToLe).skipping()),
            TlsMode::InitialExec => Ok(relax(Kind::GdToIe).skipping()),
        },

        // Local-dynamic.
        r::R_PPC64_GOT_TLSLD16 | r::R_PPC64_GOT_TLSLD16_LO | r::R_PPC64_GOT_TLSLD16_HA => match tls_ld {
            TlsMode::Dynamic => {
                let field: Field = match base {
                    r::R_PPC64_GOT_TLSLD16 => Field::Half16,
                    r::R_PPC64_GOT_TLSLD16_LO => Field::Lo,
                    _ => Field::Ha,
                };
                Ok(got(Kind::GotSlotRel, field, GotKind::TlsLd))
            },
            _ => Ok(relax(Kind::LdToLe)),
        },
        r::R_PPC64_GOT_TLSLD16_HI => match tls_ld {
            TlsMode::Dynamic => Ok(got(Kind::GotSlotRel, Field::Hi, GotKind::TlsLd)),
            _ => Err(ClassifyError::BadTlsInstruction),
        },
        r::R_PPC64_GOT_TLSLD_PCREL34 => match tls_ld {
            TlsMode::Dynamic => Ok(got(Kind::Got, Field::Prefixed34, GotKind::TlsLd)),
            _ => Ok(relax(Kind::LdToLe)),
        },
        r::R_PPC64_TLSLD => match tls_ld {
            TlsMode::Dynamic => Ok(Class::new(Kind::Nothing, Width::Nothing)),
            _ => Ok(relax(Kind::LdToLe).skipping()),
        },

        // Initial-exec.
        r::R_PPC64_GOT_TPREL16_HA => match tls {
            TlsMode::LocalExec => Ok(relax(Kind::IeToLe)),
            _ => Ok(got(Kind::GotSlotRel, Field::Ha, GotKind::TpOff)),
        },
        r::R_PPC64_GOT_TPREL16_LO_DS => match tls {
            TlsMode::LocalExec => Ok(relax(Kind::IeToLe)),
            _ => Ok(got(Kind::GotSlotRel, Field::LoDs, GotKind::TpOff)),
        },
        r::R_PPC64_GOT_TPREL16_DS => match tls {
            TlsMode::LocalExec => Ok(relax(Kind::IeToLe)),
            _ => Ok(got(Kind::GotSlotRel, Field::Ds, GotKind::TpOff)),
        },
        r::R_PPC64_GOT_TPREL16_HI => match tls {
            TlsMode::LocalExec => Err(ClassifyError::BadTlsInstruction),
            _ => Ok(got(Kind::GotSlotRel, Field::Hi, GotKind::TpOff)),
        },
        r::R_PPC64_GOT_TPREL_PCREL34 => match tls {
            TlsMode::LocalExec => Ok(relax(Kind::IeToLe)),
            _ => Ok(got(Kind::Got, Field::Prefixed34, GotKind::TpOff)),
        },
        r::R_PPC64_TLS => match tls {
            TlsMode::LocalExec => Ok(relax(Kind::IeToLe)),
            _ => Ok(Class::new(Kind::Nothing, Width::Nothing)),
        },

        _ => Err(ClassifyError::Unsupported),
    }
}

/// Classifies PowerPC64 relocation `r_type` at `offset` in section `data`.
///
/// # Errors
///
/// [`ClassifyError::Unsupported`] for types that are not linked: the
/// dynamic-only types, ELFv1 function descriptors (`R_PPC64_TOC`), the
/// inline PLT sequences (`PLTSEQ`, `PLTCALL`, `PLT16_*`, `PLT_PCREL34`),
/// the section-relative and 34-bit absolute forms, and
/// `R_PPC64_GOT_DTPREL*`; [`ClassifyError::BadTlsInstruction`] for a TLS
/// access in a form that cannot be relaxed (the `_HI` halves).
pub fn classify(
    r_type: u32,
    data: &[u8],
    offset: u64,
    context: ClassifyContext,
) -> (r: Result<Class, ClassifyError>)
    ensures
        r == spec_classify(r_type, data@, offset, context),
{
    let base: u32 = base_type(r_type);
    let tls: TlsMode = context.tls;
    let tls_ld: TlsMode = context.tls_ld;
    match base {
        r::R_PPC64_NONE
        | r::R_PPC64_TOCSAVE
        | r::R_PPC64_ENTRY
        | r::R_PPC64_GNU_VTINHERIT
        | r::R_PPC64_GNU_VTENTRY => Ok(Class::new(Kind::Nothing, Width::Nothing)),

        // Absolute data and instruction fields.
        r::R_PPC64_ADDR64 | r::R_PPC64_UADDR64 => Ok(Class::new(Kind::Abs, Width::W64)),
        r::R_PPC64_ADDR32 | r::R_PPC64_UADDR32 => Ok(Class::new(Kind::Abs, Width::Any32)),
        r::R_PPC64_ADDR16 | r::R_PPC64_UADDR16 => Ok(class(Kind::Abs, Field::Half16)),
        r::R_PPC64_ADDR16_LO => Ok(class(Kind::Abs, Field::Lo)),
        r::R_PPC64_ADDR16_HI => Ok(class(Kind::Abs, Field::Hi)),
        r::R_PPC64_ADDR16_HA => Ok(class(Kind::Abs, Field::Ha)),
        r::R_PPC64_ADDR16_HIGH => Ok(class(Kind::Abs, Field::High)),
        r::R_PPC64_ADDR16_HIGHA => Ok(class(Kind::Abs, Field::Higha)),
        r::R_PPC64_ADDR16_HIGHER => Ok(class(Kind::Abs, Field::Higher)),
        r::R_PPC64_ADDR16_HIGHERA => Ok(class(Kind::Abs, Field::Highera)),
        r::R_PPC64_ADDR16_HIGHEST => Ok(class(Kind::Abs, Field::Highest)),
        r::R_PPC64_ADDR16_HIGHESTA => Ok(class(Kind::Abs, Field::Highesta)),
        r::R_PPC64_ADDR16_DS => Ok(class(Kind::Abs, Field::Ds)),
        r::R_PPC64_ADDR16_LO_DS => Ok(class(Kind::Abs, Field::LoDs)),
        r::R_PPC64_ADDR24 => Ok(class(Kind::Abs, Field::Addr24)),
        r::R_PPC64_ADDR14 | r::R_PPC64_ADDR14_BRTAKEN | r::R_PPC64_ADDR14_BRNTAKEN => Ok(
            class(Kind::Abs, Field::Addr14),
        ),

        // PC-relative data, halves and branches.
        r::R_PPC64_REL64 => Ok(Class::new(Kind::Pc, Width::W64)),
        r::R_PPC64_REL32 => Ok(Class::new(Kind::Pc, Width::I32)),
        r::R_PPC64_REL16 => Ok(class(Kind::Pc, Field::Half16Signed)),
        r::R_PPC64_REL16_LO => Ok(class(Kind::Pc, Field::Lo)),
        r::R_PPC64_REL16_HI => Ok(class(Kind::Pc, Field::Hi)),
        r::R_PPC64_REL16_HA => Ok(class(Kind::Pc, Field::Ha)),
        r::R_PPC64_REL16_HIGH => Ok(class(Kind::Pc, Field::High)),
        r::R_PPC64_REL16_HIGHA => Ok(class(Kind::Pc, Field::Higha)),
        r::R_PPC64_REL16_HIGHER => Ok(class(Kind::Pc, Field::Higher)),
        r::R_PPC64_REL16_HIGHERA => Ok(class(Kind::Pc, Field::Highera)),
        r::R_PPC64_REL16_HIGHEST => Ok(class(Kind::Pc, Field::Highest)),
        r::R_PPC64_REL16_HIGHESTA => Ok(class(Kind::Pc, Field::Highesta)),
        r::R_PPC64_REL24 | r::R_PPC64_REL24_NOTOC => Ok(class(Kind::Pc, Field::Rel24)),
        r::R_PPC64_REL14 | r::R_PPC64_REL14_BRTAKEN | r::R_PPC64_REL14_BRNTAKEN => Ok(
            class(Kind::Pc, Field::Rel14),
        ),
        r::R_PPC64_PCREL34 => Ok(class(Kind::Pc, Field::Prefixed34)),

        // TOC-relative: `S + A - .TOC.`.
        r::R_PPC64_TOC16 => Ok(class(Kind::GotRel, Field::Half16)),
        r::R_PPC64_TOC16_LO => Ok(class(Kind::GotRel, Field::LoToc)),
        r::R_PPC64_TOC16_HI => Ok(class(Kind::GotRel, Field::Hi)),
        r::R_PPC64_TOC16_HA => Ok(class(Kind::GotRel, Field::HaToc)),
        r::R_PPC64_TOC16_DS => Ok(class(Kind::GotRel, Field::Ds)),
        r::R_PPC64_TOC16_LO_DS => Ok(class(Kind::GotRel, Field::LoDsToc)),

        // GOT-indirect: `G + A - .TOC.`, or PC-relative.
        r::R_PPC64_GOT16 => Ok(got(Kind::GotSlotRel, Field::Half16, GotKind::Address)),
        r::R_PPC64_GOT16_LO => Ok(got(Kind::GotSlotRel, Field::Lo, GotKind::Address)),
        r::R_PPC64_GOT16_HI => Ok(got(Kind::GotSlotRel, Field::Hi, GotKind::Address)),
        r::R_PPC64_GOT16_HA => Ok(got(Kind::GotSlotRel, Field::HaToc, GotKind::Address)),
        r::R_PPC64_GOT16_DS => Ok(got(Kind::GotSlotRel, Field::Ds, GotKind::Address)),
        r::R_PPC64_GOT16_LO_DS => Ok(got(Kind::GotSlotRel, Field::LoDsToc, GotKind::Address)),
        r::R_PPC64_GOT_PCREL34 => {
            if context.relax_got && is_pld(data, offset) {
                Ok(class(Kind::Pc, Field::PldToPaddi))
            } else {
                Ok(got(Kind::Got, Field::Prefixed34, GotKind::Address))
            }
        },
        // A hint on the `pld` of a relaxable GOT access: the load or store
        // that uses the address (`A` bytes on) becomes PC-relative.
        // It has no symbol: it applies when that relocation relaxed.
        r::R_PPC64_PCREL_OPT => Ok(class(Kind::Addend, Field::PcrelOpt)),

        // Local-exec and local-dynamic offsets.
        r::R_PPC64_TPREL64 => Ok(Class::new(Kind::TpOff, Width::W64)),
        r::R_PPC64_TPREL16 => Ok(class(Kind::TpOff, Field::Half16Signed)),
        r::R_PPC64_TPREL16_LO => Ok(class(Kind::TpOff, Field::Lo)),
        r::R_PPC64_TPREL16_HI => Ok(class(Kind::TpOff, Field::Hi)),
        r::R_PPC64_TPREL16_HA => Ok(class(Kind::TpOff, Field::Ha)),
        r::R_PPC64_TPREL16_HIGH => Ok(class(Kind::TpOff, Field::High)),
        r::R_PPC64_TPREL16_HIGHA => Ok(class(Kind::TpOff, Field::Higha)),
        r::R_PPC64_TPREL16_HIGHER => Ok(class(Kind::TpOff, Field::Higher)),
        r::R_PPC64_TPREL16_HIGHERA => Ok(class(Kind::TpOff, Field::Highera)),
        r::R_PPC64_TPREL16_HIGHEST => Ok(class(Kind::TpOff, Field::Highest)),
        r::R_PPC64_TPREL16_HIGHESTA => Ok(class(Kind::TpOff, Field::Highesta)),
        r::R_PPC64_TPREL16_DS => Ok(class(Kind::TpOff, Field::Ds)),
        r::R_PPC64_TPREL16_LO_DS => Ok(class(Kind::TpOff, Field::LoDs)),
        r::R_PPC64_TPREL34 => Ok(class(Kind::TpOff, Field::Prefixed34)),
        r::R_PPC64_DTPREL64 => Ok(Class::new(Kind::DtpOff, Width::W64)),
        r::R_PPC64_DTPREL16 => Ok(class(Kind::DtpOff, Field::Half16Signed)),
        r::R_PPC64_DTPREL16_LO => Ok(class(Kind::DtpOff, Field::Lo)),
        r::R_PPC64_DTPREL16_HI => Ok(class(Kind::DtpOff, Field::Hi)),
        r::R_PPC64_DTPREL16_HA => Ok(class(Kind::DtpOff, Field::Ha)),
        r::R_PPC64_DTPREL16_HIGH => Ok(class(Kind::DtpOff, Field::High)),
        r::R_PPC64_DTPREL16_HIGHA => Ok(class(Kind::DtpOff, Field::Higha)),
        r::R_PPC64_DTPREL16_HIGHER => Ok(class(Kind::DtpOff, Field::Higher)),
        r::R_PPC64_DTPREL16_HIGHERA => Ok(class(Kind::DtpOff, Field::Highera)),
        r::R_PPC64_DTPREL16_HIGHEST => Ok(class(Kind::DtpOff, Field::Highest)),
        r::R_PPC64_DTPREL16_HIGHESTA => Ok(class(Kind::DtpOff, Field::Highesta)),
        r::R_PPC64_DTPREL16_DS => Ok(class(Kind::DtpOff, Field::Ds)),
        r::R_PPC64_DTPREL16_LO_DS => Ok(class(Kind::DtpOff, Field::LoDs)),
        r::R_PPC64_DTPREL34 => Ok(class(Kind::DtpOff, Field::Prefixed34)),

        // General-dynamic.
        r::R_PPC64_GOT_TLSGD16 | r::R_PPC64_GOT_TLSGD16_LO => match tls {
            TlsMode::Dynamic => {
                let field: Field = if base == r::R_PPC64_GOT_TLSGD16 {
                    Field::Half16
                } else {
                    Field::Lo
                };
                Ok(got(Kind::GotSlotRel, field, GotKind::TlsGd))
            },
            TlsMode::LocalExec => Ok(relax(Kind::GdToLe)),
            TlsMode::InitialExec => Ok(got(Kind::GotSlotRel, Field::LdR3LoDs, GotKind::TpOff)),
        },
        r::R_PPC64_GOT_TLSGD16_HA => match tls {
            TlsMode::Dynamic => Ok(got(Kind::GotSlotRel, Field::Ha, GotKind::TlsGd)),
            TlsMode::LocalExec => Ok(relax(Kind::GdToLe)),
            TlsMode::InitialExec => Ok(got(Kind::GotSlotRel, Field::Ha, GotKind::TpOff)),
        },
        r::R_PPC64_GOT_TLSGD16_HI => match tls {
            TlsMode::Dynamic => Ok(got(Kind::GotSlotRel, Field::Hi, GotKind::TlsGd)),
            _ => Err(ClassifyError::BadTlsInstruction),
        },
        r::R_PPC64_GOT_TLSGD_PCREL34 => match tls {
            TlsMode::Dynamic => Ok(got(Kind::Got, Field::Prefixed34, GotKind::TlsGd)),
            TlsMode::LocalExec => Ok(relax(Kind::GdToLe)),
            TlsMode::InitialExec => Ok(got(Kind::Got, Field::PldR3, GotKind::TpOff)),
        },
        r::R_PPC64_TLSGD => match tls {
            TlsMode::Dynamic => Ok(Class::new(Kind::Nothing, Width::Nothing)),
            TlsMode::LocalExec => Ok(relax(Kind::GdToLe).skipping()),
            TlsMode::InitialExec => Ok(relax(Kind::GdToIe).skipping()),
        },

        // Local-dynamic.
        r::R_PPC64_GOT_TLSLD16 | r::R_PPC64_GOT_TLSLD16_LO | r::R_PPC64_GOT_TLSLD16_HA => match tls_ld {
            TlsMode::Dynamic => {
                let field: Field = match base {
                    r::R_PPC64_GOT_TLSLD16 => Field::Half16,
                    r::R_PPC64_GOT_TLSLD16_LO => Field::Lo,
                    _ => Field::Ha,
                };
                Ok(got(Kind::GotSlotRel, field, GotKind::TlsLd))
            },
            _ => Ok(relax(Kind::LdToLe)),
        },
        r::R_PPC64_GOT_TLSLD16_HI => match tls_ld {
            TlsMode::Dynamic => Ok(got(Kind::GotSlotRel, Field::Hi, GotKind::TlsLd)),
            _ => Err(ClassifyError::BadTlsInstruction),
        },
        r::R_PPC64_GOT_TLSLD_PCREL34 => match tls_ld {
            TlsMode::Dynamic => Ok(got(Kind::Got, Field::Prefixed34, GotKind::TlsLd)),
            _ => Ok(relax(Kind::LdToLe)),
        },
        r::R_PPC64_TLSLD => match tls_ld {
            TlsMode::Dynamic => Ok(Class::new(Kind::Nothing, Width::Nothing)),
            _ => Ok(relax(Kind::LdToLe).skipping()),
        },

        // Initial-exec.
        r::R_PPC64_GOT_TPREL16_HA => match tls {
            TlsMode::LocalExec => Ok(relax(Kind::IeToLe)),
            _ => Ok(got(Kind::GotSlotRel, Field::Ha, GotKind::TpOff)),
        },
        r::R_PPC64_GOT_TPREL16_LO_DS => match tls {
            TlsMode::LocalExec => Ok(relax(Kind::IeToLe)),
            _ => Ok(got(Kind::GotSlotRel, Field::LoDs, GotKind::TpOff)),
        },
        r::R_PPC64_GOT_TPREL16_DS => match tls {
            TlsMode::LocalExec => Ok(relax(Kind::IeToLe)),
            _ => Ok(got(Kind::GotSlotRel, Field::Ds, GotKind::TpOff)),
        },
        r::R_PPC64_GOT_TPREL16_HI => match tls {
            TlsMode::LocalExec => Err(ClassifyError::BadTlsInstruction),
            _ => Ok(got(Kind::GotSlotRel, Field::Hi, GotKind::TpOff)),
        },
        r::R_PPC64_GOT_TPREL_PCREL34 => match tls {
            TlsMode::LocalExec => Ok(relax(Kind::IeToLe)),
            _ => Ok(got(Kind::Got, Field::Prefixed34, GotKind::TpOff)),
        },
        r::R_PPC64_TLS => match tls {
            TlsMode::LocalExec => Ok(relax(Kind::IeToLe)),
            _ => Ok(Class::new(Kind::Nothing, Width::Nothing)),
        },

        _ => Err(ClassifyError::Unsupported),
    }
}

/// `rel` with [`PCREL_CALL_HINT`] set when it is a `__tls_get_addr` marker
/// on a PC-relative call.
pub open spec fn spec_annotate(rel: Relocation, next: Option<Relocation>) -> Relocation {
    if (rel.r_type == r::R_PPC64_TLSGD || rel.r_type == r::R_PPC64_TLSLD) && match next {
        Some(next) => next.r_type == r::R_PPC64_REL24_NOTOC,
        None => false,
    } {
        Relocation { r_type: rel.r_type | PCREL_CALL_HINT, ..rel }
    } else {
        rel
    }
}

/// `rel` with [`PCREL_CALL_HINT`] set when it is a `__tls_get_addr` marker
/// on a PC-relative call, which the relocation that follows (`next`)
/// tells.
pub fn annotate(rel: Relocation, next: Option<&Relocation>) -> (r: Relocation)
    ensures
        r == spec_annotate(
            rel,
            match next {
                Some(n) => Some(*n),
                None => None,
            },
        ),
{
    let hinted: bool = (rel.r_type == r::R_PPC64_TLSGD || rel.r_type == r::R_PPC64_TLSLD)
        && match next {
        Some(next) => next.r_type == r::R_PPC64_REL24_NOTOC,
        None => false,
    };
    if hinted {
        return Relocation { r_type: rel.r_type | PCREL_CALL_HINT, ..rel };
    }
    rel
}

/// A marker's annotation changes nothing but the hint in its type.
pub proof fn annotation_keeps_the_base_type(rel: Relocation, next: Option<Relocation>)
    requires
        rel.r_type & PCREL_CALL_HINT == 0,
    ensures
        base_type(spec_annotate(rel, next).r_type) == rel.r_type,
        spec_annotate(rel, next).offset == rel.offset,
        spec_annotate(rel, next).symbol == rel.symbol,
        spec_annotate(rel, next).addend == rel.addend,
{
    let t = rel.r_type;
    assert(t & 0x8000_0000 == 0 ==> (t | 0x8000_0000) & !0x8000_0000u32 == t && t
        & !0x8000_0000u32 == t) by (bit_vector);
}

/// Instruction `i` with `field` holding `value`.
pub open spec fn spec_packed(i: u32, field: Field, value: i64) -> Result<u32, EncodeError> {
    if field.bytes() == 2 {
        match field.encoded16(i as u16, value) {
            Ok(half) => Ok(i & 0xffff_0000 | half as u32),
            Err(e) => Err(e),
        }
    } else {
        field.encoded32(i, value)
    }
}

/// Instruction `i` with `field` holding `value`.
fn packed(i: u32, field: Field, value: i64) -> (r: Result<u32, EncodeError>)
    ensures
        r == spec_packed(i, field, value),
{
    if field.bytes() == 2 {
        match field.encode16(i as u16, value) {
            Ok(half) => Ok(i & 0xffff_0000 | half as u32),
            Err(e) => Err(e),
        }
    } else {
        field.encode32(i, value)
    }
}

/// `p` with the instruction at `at` replaced by `i`, or failed.
pub open spec fn with_insn(p: Patched, at: int, i: Result<u32, EncodeError>) -> Patched {
    match i {
        Ok(w) => p.word(at, w),
        Err(e) => p.fail(refused(e)),
    }
}

/// `p` with the prefixed instruction at `at` replaced by `i`, or failed.
pub open spec fn with_prefixed(p: Patched, at: int, i: Result<u64, EncodeError>) -> Patched {
    match i {
        Ok(w) => p.write(at, insn::spec_prefixed(w), ApplyError::OutOfBounds),
        Err(e) => p.fail(refused(e)),
    }
}

/// The instruction word at `offset`.
///
/// # Errors
///
/// [`ApplyError::OutOfBounds`] when there is none.
fn get(out: &[u8], offset: u64) -> (r: Result<u32, ApplyError>)
    ensures
        r == (match bytes::u32_at(out@, offset as int) {
            Some(w) => Ok(w),
            None => Err(ApplyError::OutOfBounds),
        }),
{
    match get_u32(out, offset) {
        Some(w) => Ok(w),
        None => Err(ApplyError::OutOfBounds),
    }
}

/// The prefixed instruction at `offset`.
///
/// # Errors
///
/// [`ApplyError::OutOfBounds`] when there is none.
fn get_prefixed(out: &[u8], offset: u64) -> (r: Result<u64, ApplyError>)
    ensures
        r == (match insn::prefixed_at(out@, offset as int) {
            Some(w) => Ok(w),
            None => Err(ApplyError::OutOfBounds),
        }),
{
    match insn::read_prefixed(out, offset) {
        Some(w) => Ok(w),
        None => Err(ApplyError::OutOfBounds),
    }
}

/// Writes an encoded instruction at `offset`.
fn put(out: &mut [u8], offset: u64, i: Result<u32, EncodeError>) -> (r: Result<(), ApplyError>)
    ensures
        r == with_insn(Patched::new(old(out)@), offset as int, i).result,
        final(out)@ == with_insn(Patched::new(old(out)@), offset as int, i).bytes,
{
    match i {
        Ok(w) => put_word(out, offset, w),
        Err(e) => Err(refused(e)),
    }
}

/// Writes an encoded prefixed instruction at `offset`.
fn put_prefixed(out: &mut [u8], offset: u64, i: Result<u64, EncodeError>) -> (r: Result<
    (),
    ApplyError,
>)
    ensures
        r == with_prefixed(Patched::new(old(out)@), offset as int, i).result,
        final(out)@ == with_prefixed(Patched::new(old(out)@), offset as int, i).bytes,
{
    match i {
        Ok(w) => if insn::write_prefixed(out, offset, w) {
            Ok(())
        } else {
            Err(ApplyError::OutOfBounds)
        },
        Err(e) => Err(refused(e)),
    }
}

/// What [`relax_tls`] does.
pub open spec fn spec_relax_tls(
    s: Seq<u8>,
    offset: u64,
    kind: Kind,
    r_type: u32,
    values: RelaxValues,
) -> Patched {
    let p = Patched::new(s);
    let at = offset as int;
    let next = offset.wrapping_add(4) as int;
    let tpoff = values.tpoff;
    let pcrel = r_type & PCREL_CALL_HINT != 0;
    match (kind, base_type(r_type)) {
        (Kind::GdToLe, r::R_PPC64_GOT_TLSGD16_HA)
        | (Kind::LdToLe, r::R_PPC64_GOT_TLSLD16_HA)
        | (Kind::IeToLe, r::R_PPC64_GOT_TPREL16_HA) => p.word(at, NOP),
        // addi r3, r3, x@got@tlsgd@l -> addis r3, r13, x@tprel@ha
        (Kind::GdToLe, r::R_PPC64_GOT_TLSGD16 | r::R_PPC64_GOT_TLSGD16_LO) => with_insn(
            p,
            at,
            spec_packed(ADDIS_R3_R13, Field::Ha, tpoff),
        ),
        // addi r3, r3, x@got@tlsld@l -> addis r3, r13, 0
        (Kind::LdToLe, r::R_PPC64_GOT_TLSLD16 | r::R_PPC64_GOT_TLSLD16_LO) => p.word(
            at,
            ADDIS_R3_R13,
        ),
        // paddi r3, 0, x@got@tlsgd@pcrel, 1 -> paddi r3, r13, x@tprel, 0
        (Kind::GdToLe, r::R_PPC64_GOT_TLSGD_PCREL34) => with_prefixed(
            p,
            at,
            insn::spec_prefixed34(PADDI_R3_R13, tpoff),
        ),
        // paddi r3, 0, x@got@tlsld@pcrel, 1 -> paddi r3, r13, 0x1000, 0
        (Kind::LdToLe, r::R_PPC64_GOT_TLSLD_PCREL34) => with_prefixed(
            p,
            at,
            Ok(PADDI_R3_R13_4096),
        ),
        // bl __tls_get_addr(x@tlsgd); nop -> nop; addi r3, r3, x@tprel@l
        (Kind::GdToLe, r::R_PPC64_TLSGD) => if pcrel {
            p.word(at, NOP)
        } else {
            with_insn(p.word(at, NOP), next, spec_packed(ADDI_R3_R3, Field::Lo, tpoff))
        },
        // bl __tls_get_addr(x@tlsld); nop -> nop; addi r3, r3, 4096
        (Kind::LdToLe, r::R_PPC64_TLSLD) => if pcrel {
            p.word(at, NOP)
        } else {
            p.word(at, NOP).word(next, ADDI_R3_R3_4096)
        },
        // bl __tls_get_addr(x@tlsgd); nop -> nop; add r3, r3, r13
        (Kind::GdToIe, r::R_PPC64_TLSGD) => if pcrel {
            p.word(at, ADD_R3_R3_R13)
        } else {
            p.word(at, NOP).word(next, ADD_R3_R3_R13)
        },
        // ld rT, x@got@tprel@l(rA) -> addis rT, r13, x@tprel@ha
        (Kind::IeToLe, r::R_PPC64_GOT_TPREL16_LO_DS | r::R_PPC64_GOT_TPREL16_DS) => match bytes::u32_at(
            s,
            at,
        ) {
            Some(i) => with_insn(
                p,
                at,
                spec_packed(ADDIS_R13 | i & 0x03e0_0000, Field::Ha, tpoff),
            ),
            None => p.fail(ApplyError::OutOfBounds),
        },
        // pld rT, x@got@tprel@pcrel -> paddi rT, r13, x@tprel, 0
        (Kind::IeToLe, r::R_PPC64_GOT_TPREL_PCREL34) => match insn::prefixed_at(s, at) {
            Some(i) => with_prefixed(
                p,
                at,
                insn::spec_prefixed34(PADDI_R13 | i & 0x03e0_0000, tpoff),
            ),
            None => p.fail(ApplyError::OutOfBounds),
        },
        (Kind::IeToLe, r::R_PPC64_TLS) => spec_relax_tls_marker(s, offset, tpoff),
        _ => p.fail(ApplyError::BadInstruction),
    }
}

/// Rewrites one instruction of a relaxed TLS sequence.
///
/// # Errors
///
/// [`ApplyError`] for sequences that cannot be rewritten, and for offsets
/// that do not fit the replacement instructions.
#[verifier::rlimit(40)]
pub fn relax_tls(
    out: &mut [u8],
    offset: u64,
    kind: Kind,
    r_type: u32,
    values: RelaxValues,
) -> (r: Result<(), ApplyError>)
    ensures
        r == spec_relax_tls(old(out)@, offset, kind, r_type, values).result,
        final(out)@ == spec_relax_tls(old(out)@, offset, kind, r_type, values).bytes,
{
    let tpoff: i64 = values.tpoff;
    let pcrel: bool = r_type & PCREL_CALL_HINT != 0;
    match (kind, base_type(r_type)) {
        (Kind::GdToLe, r::R_PPC64_GOT_TLSGD16_HA)
        | (Kind::LdToLe, r::R_PPC64_GOT_TLSLD16_HA)
        | (Kind::IeToLe, r::R_PPC64_GOT_TPREL16_HA) => put_word(out, offset, NOP),
        (Kind::GdToLe, r::R_PPC64_GOT_TLSGD16 | r::R_PPC64_GOT_TLSGD16_LO) => put(
            out,
            offset,
            packed(ADDIS_R3_R13, Field::Ha, tpoff),
        ),
        (Kind::LdToLe, r::R_PPC64_GOT_TLSLD16 | r::R_PPC64_GOT_TLSLD16_LO) => put_word(
            out,
            offset,
            ADDIS_R3_R13,
        ),
        (Kind::GdToLe, r::R_PPC64_GOT_TLSGD_PCREL34) => put_prefixed(
            out,
            offset,
            insn::prefixed34(PADDI_R3_R13, tpoff),
        ),
        (Kind::LdToLe, r::R_PPC64_GOT_TLSLD_PCREL34) => put_prefixed(
            out,
            offset,
            Ok(PADDI_R3_R13_4096),
        ),
        (Kind::GdToLe, r::R_PPC64_TLSGD) => {
            put_word(out, offset, NOP)?;
            if pcrel {
                return Ok(());
            }
            put(out, offset.wrapping_add(4), packed(ADDI_R3_R3, Field::Lo, tpoff))
        },
        (Kind::LdToLe, r::R_PPC64_TLSLD) => {
            put_word(out, offset, NOP)?;
            if pcrel {
                return Ok(());
            }
            put_word(out, offset.wrapping_add(4), ADDI_R3_R3_4096)
        },
        (Kind::GdToIe, r::R_PPC64_TLSGD) => {
            if pcrel {
                return put_word(out, offset, ADD_R3_R3_R13);
            }
            put_word(out, offset, NOP)?;
            put_word(out, offset.wrapping_add(4), ADD_R3_R3_R13)
        },
        (Kind::IeToLe, r::R_PPC64_GOT_TPREL16_LO_DS | r::R_PPC64_GOT_TPREL16_DS) => {
            let rt: u32 = get(out, offset)? & 0x03e0_0000;
            put(out, offset, packed(ADDIS_R13 | rt, Field::Ha, tpoff))
        },
        (Kind::IeToLe, r::R_PPC64_GOT_TPREL_PCREL34) => {
            let rt: u64 = get_prefixed(out, offset)? & 0x03e0_0000;
            put_prefixed(out, offset, insn::prefixed34(PADDI_R13 | rt, tpoff))
        },
        (Kind::IeToLe, r::R_PPC64_TLS) => relax_tls_marker(out, offset, tpoff),
        _ => Err(ApplyError::BadInstruction),
    }
}

/// What `add rT, rA, r13` becomes when the address is already in `rA`.
#[verifier::allow_in_spec]
pub fn move_of_add(old: u32) -> u32
    returns
        (if (old >> 21) & 0x1f == (old >> 16) & 0x1f {
            NOP
        } else {
            0x7c00_0378 | ((old >> 21) & 0x1f) << 16 | ((old >> 16) & 0x1f) << 21 | ((old >> 16)
                & 0x1f) << 11
        }),
{
    if (old >> 21) & 0x1f == (old >> 16) & 0x1f {
        NOP
    } else {
        0x7c00_0378 | ((old >> 21) & 0x1f) << 16 | ((old >> 16) & 0x1f) << 21 | ((old >> 16)
            & 0x1f) << 11
    }
}

/// The initial-exec to local-exec rewrite of the instruction an
/// `R_PPC64_TLS` marks: the X-form access that adds `r13` becomes the
/// D-form one with `x@tprel@l` as its displacement. The PC-relative form
/// marks the instruction one byte before it, and needs no displacement
/// because the `paddi` before it computed the whole address.
pub open spec fn spec_relax_tls_marker(s: Seq<u8>, offset: u64, tpoff: i64) -> Patched {
    let p = Patched::new(s);
    match offset & 3 {
        0 => match bytes::u32_at(s, offset as int) {
            Some(i) => match insn::x_to_d_form(i) {
                Some((d_form, ds)) => with_insn(
                    p,
                    offset as int,
                    spec_packed(
                        d_form,
                        if ds {
                            Field::LoDs
                        } else {
                            Field::Lo
                        },
                        tpoff,
                    ),
                ),
                None => p.fail(ApplyError::BadInstruction),
            },
            None => p.fail(ApplyError::OutOfBounds),
        },
        1 => match bytes::u32_at(s, offset.wrapping_sub(1) as int) {
            Some(i) => if insn::primary_opcode(i) == 31 && (i >> 1) & 0x3ff == 266 {
                p.word(offset.wrapping_sub(1) as int, move_of_add(i))
            } else {
                match insn::x_to_d_form(i) {
                    Some((d_form, _)) => p.word(offset.wrapping_sub(1) as int, d_form),
                    None => p.fail(ApplyError::BadInstruction),
                }
            },
            None => p.fail(ApplyError::OutOfBounds),
        },
        _ => p.fail(ApplyError::BadInstruction),
    }
}

/// The rewrite of the instruction an `R_PPC64_TLS` marks.
fn relax_tls_marker(out: &mut [u8], offset: u64, tpoff: i64) -> (r: Result<(), ApplyError>)
    ensures
        r == spec_relax_tls_marker(old(out)@, offset, tpoff).result,
        final(out)@ == spec_relax_tls_marker(old(out)@, offset, tpoff).bytes,
{
    match offset & 3 {
        0 => {
            let i: u32 = get(out, offset)?;
            let Some((d_form, ds)) = insn::x_to_d_form(i) else {
                return Err(ApplyError::BadInstruction);
            };
            let field: Field = if ds {
                Field::LoDs
            } else {
                Field::Lo
            };
            put(out, offset, packed(d_form, field, tpoff))
        },
        1 => {
            let offset: u64 = offset.wrapping_sub(1);
            let i: u32 = get(out, offset)?;
            if insn::primary_opcode(i) == 31 && (i >> 1) & 0x3ff == 266 {
                return put_word(out, offset, move_of_add(i));
            }
            let Some((d_form, _)) = insn::x_to_d_form(i) else {
                return Err(ApplyError::BadInstruction);
            };
            put_word(out, offset, d_form)
        },
        _ => Err(ApplyError::BadInstruction),
    }
}

/// What [`relax_pcrel_opt`] does.
pub open spec fn spec_relax_pcrel_opt(s: Seq<u8>, offset: u64, addend: i64) -> Patched {
    let p = Patched::new(s);
    let access_at = offset.wrapping_add_signed(addend) as int;
    match insn::prefixed_at(s, offset as int) {
        None => p.fail(ApplyError::OutOfBounds),
        // paddi rX, 0, sym@pcrel, 1
        Some(paddi) => if paddi & 0xff10_0000_fc1f_0000 != 0x0610_0000_3800_0000 {
            p
        } else {
            match bytes::u32_at(s, access_at) {
                None => p.fail(ApplyError::OutOfBounds),
                Some(access) => match insn::pcrel_form(access) {
                    None => p.fail(ApplyError::BadInstruction),
                    Some(form) => match insn::spec_prefixed34(
                        form,
                        insn::total_displacement(paddi, access),
                    ) {
                        Ok(relaxed) => p.write(
                            offset as int,
                            insn::spec_prefixed(relaxed),
                            ApplyError::OutOfBounds,
                        ).word(access_at, NOP),
                        Err(_) => p,
                    },
                },
            }
        },
    }
}

/// Relaxes an `R_PPC64_PCREL_OPT` pair at `offset`, after the
/// `R_PPC64_GOT_PCREL34` there turned its `pld` into `paddi rX, sym`: the
/// load or store `addend` bytes on that used `rX` becomes the prefixed
/// PC-relative access of `sym` in its place, and itself a `nop`. When the
/// GOT access was not relaxed, or the displacement does not fit, both stay
/// as they are.
///
/// # Errors
///
/// [`ApplyError::BadInstruction`] when the second instruction has no
/// PC-relative form.
pub fn relax_pcrel_opt(out: &mut [u8], offset: u64, addend: i64) -> (r: Result<(), ApplyError>)
    ensures
        r == spec_relax_pcrel_opt(old(out)@, offset, addend).result,
        final(out)@ == spec_relax_pcrel_opt(old(out)@, offset, addend).bytes,
{
    let paddi: u64 = get_prefixed(out, offset)?;
    if paddi & 0xff10_0000_fc1f_0000 != 0x0610_0000_3800_0000 {
        return Ok(());
    }
    let access_at: u64 = offset.wrapping_add_signed(addend);
    let access: u32 = get(out, access_at)?;
    let Some(form) = insn::pcrel_form(access) else {
        return Err(ApplyError::BadInstruction);
    };
    match insn::prefixed34(form, insn::total_displacement(paddi, access)) {
        Ok(relaxed) => {
            put_prefixed(out, offset, Ok(relaxed))?;
            put_word(out, access_at, NOP)
        },
        Err(_) => Ok(()),
    }
}

/// The address a direct branch jumps to: a `bl` from code that keeps the
/// TOC pointer enters a function of this output at its local entry point.
#[verifier::allow_in_spec]
pub fn branch_destination(branch: Branch) -> u64
    returns
        (if branch.r_type == r::R_PPC64_REL24 && !branch.via_stub {
            branch.target.wrapping_add(insn::local_entry_offset(branch.st_other))
        } else {
            branch.target
        }),
{
    if branch.r_type == r::R_PPC64_REL24 && !branch.via_stub {
        branch.target.wrapping_add(insn::local_entry_offset(branch.st_other))
    } else {
        branch.target
    }
}

/// Whether relocation `r_type` is a branch that range-extension thunks
/// serve.
#[verifier::allow_in_spec]
pub fn is_thunk_branch(r_type: u32) -> bool
    returns
        (r_type == r::R_PPC64_REL24 || r_type == r::R_PPC64_REL24_NOTOC),
{
    r_type == r::R_PPC64_REL24 || r_type == r::R_PPC64_REL24_NOTOC
}

/// What [`branch_thunk`] answers.
pub open spec fn spec_branch_thunk(branch: Branch) -> Option<u64> {
    let notoc: bool = branch.r_type == r::R_PPC64_REL24_NOTOC;
    let destination: u64 = branch_destination(branch);
    if !is_thunk_branch(branch.r_type) {
        None
    } else if notoc && branch.via_stub {
        match branch.slot {
            Some(slot) => Some(slot | insn::THUNK_VIA_SLOT),
            None => None,
        }
    } else if !notoc && !branch.via_stub && insn::clobbers_toc(branch.st_other) {
        Some(destination | insn::THUNK_SAVE_TOC)
    } else if (notoc && !branch.via_stub && insn::local_entry_offset(branch.st_other) != 0)
        || !insn::spec_branch24_in_range(branch.place, destination) {
        Some(destination)
    } else {
        None
    }
}

/// The key of the thunk a branch needs, if it needs one
/// ([`crate::arch::ppc64::thunk`]): a branch out of range; a call from
/// code without a TOC pointer to a function that needs one, which the
/// thunk enters at its global entry point with `r12` set, or through the
/// PLT, which it reaches by loading the PLT word PC-relatively; or a call
/// from code with a TOC pointer to a function that clobbers it, which the
/// thunk saves first.
pub fn branch_thunk(branch: Branch) -> (r: Option<u64>)
    ensures
        r == spec_branch_thunk(branch),
{
    let notoc: bool = branch.r_type == r::R_PPC64_REL24_NOTOC;
    let destination: u64 = branch_destination(branch);
    if !is_thunk_branch(branch.r_type) {
        None
    } else if notoc && branch.via_stub {
        match branch.slot {
            Some(slot) => Some(slot | insn::THUNK_VIA_SLOT),
            None => None,
        }
    } else if !notoc && !branch.via_stub && insn::clobbers_toc(branch.st_other) {
        Some(destination | insn::THUNK_SAVE_TOC)
    } else if (notoc && !branch.via_stub && insn::local_entry_offset(branch.st_other) != 0)
        || !insn::branch24_in_range(branch.place, destination) {
        Some(destination)
    } else {
        None
    }
}

/// What [`finish_call`] does.
pub open spec fn spec_finish_call(s: Seq<u8>, offset: u64, branch: Branch) -> Patched {
    let p = Patched::new(s);
    let next = offset.wrapping_add(4) as int;
    if branch.r_type == r::R_PPC64_REL24 && (branch.via_stub || insn::clobbers_toc(
        branch.st_other,
    )) {
        if bytes::u32_at(s, next) == Some(NOP) {
            p.word(next, LD_R2_24_R1)
        } else {
            p
        }
    } else if branch.r_type == r::R_PPC64_REL24_NOTOC && branch.via_stub && branch.slot is None {
        p.fail(ApplyError::BadInstruction)
    } else {
        p
    }
}

/// Finishes a direct call written at `offset`: a call through a stub that
/// saves the TOC pointer (a PLT or IFUNC stub, or the thunk of a call to a
/// function that clobbers `r2`) gets the `nop` after it turned into the
/// `ld r2, 24(r1)` that restores it.
///
/// A recursive call without the `nop` is accepted, as GCC once emitted
/// those and the function is not really preempted in practice (lld does
/// the same).
///
/// # Errors
///
/// [`ApplyError::BadInstruction`] for a PLT call from code without a TOC
/// pointer whose PLT word is unknown.
pub fn finish_call(out: &mut [u8], offset: u64, branch: Branch) -> (r: Result<(), ApplyError>)
    ensures
        r == spec_finish_call(old(out)@, offset, branch).result,
        final(out)@ == spec_finish_call(old(out)@, offset, branch).bytes,
{
    if branch.r_type == r::R_PPC64_REL24 && (branch.via_stub || insn::clobbers_toc(
        branch.st_other,
    )) {
        let next: u64 = offset.wrapping_add(4);
        match get_u32(out, next) {
            Some(NOP) => put_word(out, next, LD_R2_24_R1),
            _ => Ok(()),
        }
    } else if branch.r_type == r::R_PPC64_REL24_NOTOC && branch.via_stub
        && branch.slot.is_none() {
        Err(ApplyError::BadInstruction)
    } else {
        Ok(())
    }
}

/// Replaces a `bl` to an undefined weak symbol with a `nop`, as GNU ld
/// does: the symbol has no address, so the call is skipped.
///
/// # Errors
///
/// [`ApplyError::OutOfBounds`] when the instruction is outside the section.
pub fn nop_undefined_branch(out: &mut [u8], offset: u64, r_type: u32) -> (r: Result<
    bool,
    ApplyError,
>)
    ensures
        ({
            let p = Patched::new(old(out)@).word(offset as int, NOP);
            if is_thunk_branch(r_type) {
                &&& final(out)@ == p.bytes
                &&& match p.result {
                    Ok(_) => r == Ok::<bool, ApplyError>(true),
                    Err(e) => r == Err::<bool, ApplyError>(e),
                }
            } else {
                final(out)@ == old(out)@ && r == Ok::<bool, ApplyError>(false)
            }
        }),
{
    if !is_thunk_branch(r_type) {
        return Ok(false);
    }
    put_word(out, offset, NOP)?;
    Ok(true)
}

/// Fills `out` with `nop` instructions; a partial word is zeroed.
pub fn write_nops(out: &mut [u8])
    ensures
        final(out)@ == bytes::filled_with(old(out)@, NOP),
{
    fill_words(out, NOP)
}

/// What [`write_plt_header`] does.
pub open spec fn spec_write_plt_header(s: Seq<u8>, plt: u64, got_plt: u64) -> Patched {
    Patched::new(s).write(
        0,
        insn::spec_words(insn::glink_header()@),
        ApplyError::Overflow,
    ).write(52, bytes::spec_le64(got_plt.wrapping_sub(plt.wrapping_add(8))), ApplyError::OutOfBounds)
}

/// Writes the lazy-binding resolver at address `plt` (the start of
/// `.plt`, the ABI's `.glink`), which reaches `.got.plt` at `got_plt`.
///
/// # Errors
///
/// [`ApplyError`] when `out` is too short.
pub fn write_plt_header(out: &mut [u8], plt: u64, got_plt: u64) -> (r: Result<(), ApplyError>)
    ensures
        r == spec_write_plt_header(old(out)@, plt, got_plt).result,
        final(out)@ == spec_write_plt_header(old(out)@, plt, got_plt).bytes,
{
    let words: [u32; 13] = insn::glink_header();
    proof {
        insn::words_length(words@);
    }
    if !insn::write_words(out, &words) {
        return Err(ApplyError::Overflow);
    }
    let tail: [u8; 8] = le64(got_plt.wrapping_sub(plt.wrapping_add(8)));
    put_bytes(out, 52, &tail)
}

/// Writes the lazy `.plt` entry at address `entry`: a branch back to the
/// resolver at `plt`.
///
/// # Errors
///
/// [`ApplyError`] when the resolver is out of reach.
pub fn write_plt_entry(out: &mut [u8], entry: u64, plt: u64) -> (r: Result<(), ApplyError>)
    ensures
        r == with_insn(
            Patched::new(old(out)@),
            0,
            insn::spec_glink_entry(entry.wrapping_sub(plt)),
        ).result,
        final(out)@ == with_insn(
            Patched::new(old(out)@),
            0,
            insn::spec_glink_entry(entry.wrapping_sub(plt)),
        ).bytes,
{
    put(out, 0, insn::glink_entry(entry.wrapping_sub(plt)))
}

/// What [`write_call_stub`] does.
pub open spec fn spec_write_call_stub(s: Seq<u8>, slot: u64, toc: u64) -> Patched {
    let offset = slot.wrapping_sub(toc) as i64;
    Patched::new(s).require(insn::call_stub_reaches(offset), ApplyError::Overflow).write(
        0,
        insn::spec_words(insn::call_stub_words(offset)@),
        ApplyError::Overflow,
    )
}

/// Writes a PLT call stub that jumps through the GOT word at `slot`,
/// addressed from the TOC pointer `toc`.
///
/// # Errors
///
/// [`ApplyError`] when the slot is more than 2 GiB from the TOC pointer.
pub fn write_call_stub(out: &mut [u8], slot: u64, toc: u64) -> (r: Result<(), ApplyError>)
    ensures
        r == spec_write_call_stub(old(out)@, slot, toc).result,
        final(out)@ == spec_write_call_stub(old(out)@, slot, toc).bytes,
{
    match insn::plt_call_stub(slot.wrapping_sub(toc) as i64) {
        Ok(words) => {
            proof {
                insn::words_length(words@);
            }
            if insn::write_words(out, &words) {
                Ok(())
            } else {
                Err(ApplyError::Overflow)
            }
        },
        Err(e) => Err(refused(e)),
    }
}

/// The `.toc` entry a relocation against a `.toc` section symbol names.
pub open spec fn spec_toc_entry(refs: Refs, file: int, rel: Relocation) -> Option<(u32, u64)> {
    match refs.spec_target(file, rel.symbol as int) {
        None => None,
        Some(target) => match target.def {
            Def::Section { file: owner, section, value } => if owner != file
                || !target.section_symbol || rel.addend < 0 || file >= refs.files@.len() {
                None
            } else {
                match refs.files@[file].object {
                    None => None,
                    Some(object) => match object.spec_section(section as int) {
                        None => None,
                        Some(s) => if s.name@ == toc_name() {
                            match crate::bits::offset_by(value, rel.addend) {
                                Some(offset) => Some((section, offset)),
                                None => None,
                            }
                        } else {
                            None
                        },
                    },
                }
            },
            _ => None,
        },
    }
}

/// `.toc`.
pub open spec fn toc_name() -> Seq<u8> {
    seq![0x2e, 0x74, 0x6f, 0x63]
}

/// The `.toc` entry a relocation against a `.toc` section symbol names:
/// `(section index, offset)`.
pub fn toc_entry(refs: &Refs, file: usize, rel: Relocation) -> (r: Option<(u32, u64)>)
    ensures
        r == spec_toc_entry(*refs, file as int, rel),
{
    let Some(target) = refs.target(file, rel.symbol) else {
        return None;
    };
    let Def::Section { file: owner, section, value } = target.def else {
        return None;
    };
    if owner != file || !target.section_symbol || rel.addend < 0 || file >= refs.files.len() {
        return None;
    }
    let Some(object) = &refs.files[file].object else {
        return None;
    };
    let Some(s) = object.section(section) else {
        return None;
    };
    let name: [u8; 4] = [0x2e, 0x74, 0x6f, 0x63];
    assert(name@ =~= toc_name());
    if !same(&s.name, &name) {
        return None;
    }
    match checked_offset(value, rel.addend) {
        Some(offset) => Some((section, offset)),
        None => None,
    }
}

/// Whether relocation `i` of a table takes the address of `.toc` entry
/// `entry`.
pub open spec fn pins(
    refs: Refs,
    file: int,
    relocs: Seq<Relocation>,
    entry: (u32, u64),
    i: int,
) -> bool {
    relocs[i].r_type == r::R_PPC64_TOC16_LO && spec_toc_entry(refs, file, relocs[i]) == Some(entry)
}

/// Whether one of the first `n` relocations of a table takes the address of
/// `.toc` entry `entry`.
pub open spec fn is_pinned(
    refs: Refs,
    file: int,
    relocs: Seq<Relocation>,
    entry: (u32, u64),
    n: int,
) -> bool {
    exists|i: int| 0 <= i < n && #[trigger] pins(refs, file, relocs, entry, i)
}

/// Entries in order, each once.
pub open spec fn entries_sorted(list: Seq<(u32, u64)>) -> bool {
    forall|i: int, j: int|
        0 <= i < j < list.len() ==> entry_less(#[trigger] list[i], #[trigger] list[j])
}

/// The order of `.toc` entries: by section, then by offset.
pub open spec fn entry_less(a: (u32, u64), b: (u32, u64)) -> bool {
    a.0 < b.0 || (a.0 == b.0 && a.1 < b.1)
}

/// The relocations of a table that holds addends.
pub open spec fn relas_of(table: RelocTable) -> Seq<Relocation> {
    match table {
        RelocTable::Rela(list) => list@,
        _ => Seq::empty(),
    }
}

/// The TOC entries a section addresses with `R_PPC64_TOC16_LO` (an `addi`
/// taking the entry's address rather than loading it): the `addis` of such
/// a pair must keep addressing the entry, so accesses to these entries are
/// not relaxed ([`toc_indirection`]). Each is `(.toc section index, offset
/// in it)`, sorted.
pub fn pinned_toc_entries(refs: &Refs, file: usize, relocations: &RelocTable) -> (r: Vec<
    (u32, u64),
>)
    ensures
        entries_sorted(r@),
        forall|entry: (u32, u64)| #[trigger]
            r@.contains(entry) <==> is_pinned(
                *refs,
                file as int,
                relas_of(*relocations),
                entry,
                relas_of(*relocations).len() as int,
            ),
{
    let RelocTable::Rela(relas) = relocations else {
        return Vec::new();
    };
    let mut rows: Vec<(u64, u64, u64)> = Vec::new();
    let mut i: usize = 0;
    while i < relas.len()
        invariant
            i <= relas@.len(),
            forall|k: int|
                0 <= k < rows@.len() ==> (#[trigger] rows@[k]).0 <= u32::MAX && rows@[k].2 == 0
                    && is_pinned(
                    *refs,
                    file as int,
                    relas@,
                    (rows@[k].0 as u32, rows@[k].1),
                    i as int,
                ),
            forall|j: int, entry: (u32, u64)|
                0 <= j < i && #[trigger] pins(*refs, file as int, relas@, entry, j)
                    ==> rows@.contains((entry.0 as u64, entry.1, 0u64)),
        decreases relas@.len() - i,
    {
        let rel: Relocation = relas[i];
        let ghost before = rows@;
        if rel.r_type == r::R_PPC64_TOC16_LO {
            if let Some(entry) = toc_entry(refs, file, rel) {
                rows.push((entry.0 as u64, entry.1, 0));
                assert(pins(*refs, file as int, relas@, entry, i as int));
                assert(rows@[before.len() as int] == (entry.0 as u64, entry.1, 0u64));
            }
        }
        proof {
            assert forall|j: int, entry: (u32, u64)|
                0 <= j < i + 1 && #[trigger] pins(
                    *refs,
                    file as int,
                    relas@,
                    entry,
                    j,
                ) implies rows@.contains((entry.0 as u64, entry.1, 0u64)) by {
                if j < i {
                    assert(before.contains((entry.0 as u64, entry.1, 0u64)));
                    let n = choose|n: int|
                        0 <= n < before.len() && before[n] == (entry.0 as u64, entry.1, 0u64);
                    assert(rows@[n] == before[n]);
                }
            }
            assert forall|k: int| 0 <= k < rows@.len() implies (#[trigger] rows@[k]).0 <= u32::MAX
                && rows@[k].2 == 0 && is_pinned(
                *refs,
                file as int,
                relas@,
                (rows@[k].0 as u32, rows@[k].1),
                i + 1,
            ) by {
                let entry = (rows@[k].0 as u32, rows@[k].1);
                if k < before.len() {
                    assert(before[k] == rows@[k]);
                    assert(is_pinned(*refs, file as int, relas@, entry, i as int));
                    let j = choose|j: int|
                        0 <= j < i && #[trigger] pins(*refs, file as int, relas@, entry, j);
                    assert(pins(*refs, file as int, relas@, entry, j));
                } else {
                    assert(pins(*refs, file as int, relas@, entry, i as int));
                }
            }
        }
        i += 1;
    }
    let ghost listed = rows@;
    let sorted: Vec<(u64, u64, u64)> = row_set(rows);
    let mut out: Vec<(u32, u64)> = Vec::new();
    let mut k: usize = 0;
    while k < sorted.len()
        invariant
            k <= sorted@.len(),
            crate::order::is_row_set(listed, sorted@),
            forall|m: int| 0 <= m < listed.len() ==> (#[trigger] listed[m]).0 <= u32::MAX,
            out@.len() == k,
            forall|m: int|
                0 <= m < k ==> sorted@[m].0 <= u32::MAX && #[trigger] out@[m] == (
                    sorted@[m].0 as u32,
                    sorted@[m].1,
                ),
        decreases sorted@.len() - k,
    {
        assert(sorted@.contains(sorted@[k as int]));
        out.push((sorted[k].0 as u32, sorted[k].1));
        k += 1;
    }
    proof {
        assert forall|m: int| 0 <= m < sorted@.len() implies (#[trigger] sorted@[m]).2 == 0 by {
            assert(sorted@.contains(sorted@[m]));
        }
        assert forall|a: int, b: int| 0 <= a < b < out@.len() implies entry_less(
            #[trigger] out@[a],
            #[trigger] out@[b],
        ) by {
            assert(crate::order::row_less(sorted@[a], sorted@[b]));
        }
        assert forall|entry: (u32, u64)| #[trigger] out@.contains(entry) implies is_pinned(
            *refs,
            file as int,
            relas@,
            entry,
            relas@.len() as int,
        ) by {
            let m = choose|m: int| 0 <= m < out@.len() && out@[m] == entry;
            assert(sorted@.contains(sorted@[m]));
            let n = choose|n: int| 0 <= n < listed.len() && listed[n] == sorted@[m];
            assert((listed[n].0 as u32, listed[n].1) == entry);
        }
        assert forall|entry: (u32, u64)|
            is_pinned(
                *refs,
                file as int,
                relas@,
                entry,
                relas@.len() as int,
            ) implies #[trigger] out@.contains(entry) by {
            let row = (entry.0 as u64, entry.1, 0u64);
            assert(listed.contains(row));
            assert(sorted@.contains(row));
            let m = choose|m: int| 0 <= m < sorted@.len() && sorted@[m] == row;
            assert(out@[m] == entry);
        }
    }
    out
}

/// Whether an entry is in a sorted list.
fn is_listed(list: &[(u32, u64)], entry: (u32, u64)) -> (r: bool)
    requires
        entries_sorted(list@),
    ensures
        r == list@.contains(entry),
{
    let mut low: usize = 0;
    let mut high: usize = list.len();
    while low < high
        invariant
            low <= high <= list@.len(),
            entries_sorted(list@),
            forall|k: int| 0 <= k < low ==> entry_less(#[trigger] list@[k], entry),
            forall|k: int| high <= k < list@.len() ==> !entry_less(#[trigger] list@[k], entry),
        decreases high - low,
    {
        let middle: usize = low + (high - low) / 2;
        let (section, offset) = list[middle];
        if section < entry.0 || (section == entry.0 && offset < entry.1) {
            low = middle + 1;
        } else {
            high = middle;
        }
    }
    if low < list.len() && list[low].0 == entry.0 && list[low].1 == entry.1 {
        assert(list@[low as int] == entry);
        true
    } else {
        proof {
            if list@.contains(entry) {
                let k = choose|k: int| 0 <= k < list@.len() && list@[k] == entry;
                assert(k > low);
                assert(entry_less(list@[low as int], list@[k]));
            }
        }
        false
    }
}

/// The relocation of a `.toc` entry at `offset`, searched downwards from
/// `i`.
pub open spec fn slot_from(relocs: Seq<Relocation>, offset: u64, i: int) -> Option<int>
    decreases i + 1,
{
    if i < 0 || i >= relocs.len() || relocs[i].offset < offset {
        None
    } else if relocs[i].offset == offset {
        Some(i)
    } else {
        slot_from(relocs, offset, i - 1)
    }
}

/// Where the search for the relocation of a `.toc` entry starts. `.rela.toc`
/// holds one `R_PPC64_ADDR64` per 8-byte entry, sorted, so the entry is
/// usually at index `offset / 8`; entries holding constants have none, so
/// the search goes down from there.
pub open spec fn slot_start(count: int, offset: u64) -> int {
    if offset / 8 < count - 1 {
        offset as int / 8
    } else {
        count - 1
    }
}

/// The relocation of the `.toc` entry at `offset`.
fn find_slot(relocs: &Vec<Relocation>, offset: u64) -> (r: Option<usize>)
    ensures
        match r {
            Some(i) => i < relocs@.len() && slot_from(
                relocs@,
                offset,
                slot_start(relocs@.len() as int, offset),
            ) == Some(i as int),
            None => slot_from(
                relocs@,
                offset,
                slot_start(relocs@.len() as int, offset),
            ) is None,
        },
{
    let count: usize = relocs.len();
    if count == 0 {
        return None;
    }
    let mut i: usize = if offset / 8 < (count - 1) as u64 {
        (offset / 8) as usize
    } else {
        count - 1
    };
    let ghost start = slot_start(count as int, offset);
    assert(start == i);
    while relocs[i].offset > offset
        invariant
            i < count,
            count == relocs@.len(),
            start == slot_start(count as int, offset),
            slot_from(relocs@, offset, start) == slot_from(relocs@, offset, i as int),
        decreases i,
    {
        if i == 0 {
            assert(slot_from(relocs@, offset, -1) is None);
            return None;
        }
        i -= 1;
    }
    if relocs[i].offset == offset {
        Some(i)
    } else {
        None
    }
}

/// The field that packs the address a TOC-indirect access uses instead.
#[verifier::allow_in_spec]
pub fn indirection_field(r_type: u32) -> Option<Field>
    returns
        (match r_type {
            r::R_PPC64_TOC16_HA => Some(Field::HaToc),
            r::R_PPC64_TOC16_LO_DS => Some(Field::LoDsToAddi),
            _ => None,
        }),
{
    match r_type {
        r::R_PPC64_TOC16_HA => Some(Field::HaToc),
        r::R_PPC64_TOC16_LO_DS => Some(Field::LoDsToAddi),
        _ => None,
    }
}

/// Whether the address of a symbol is known at link time: it is defined in
/// this output and not preemptible, and absolute only where the output is
/// not position-independent.
#[verifier::allow_in_spec]
pub fn is_settled(target: Target, flags: SymbolFlags, pic: bool) -> bool
    returns
        (!flags.contains(PREEMPTIBLE) && !target.ifunc && !(flags.contains(ABSOLUTE) && pic) && (
        match target.def {
            Def::Section { .. } => true,
            Def::Common(_) => true,
            Def::Linker(_) => true,
            Def::Absolute(_) => !pic,
            _ => false,
        })),
{
    !flags.contains(PREEMPTIBLE) && !target.ifunc && !(flags.contains(ABSOLUTE) && pic) && (
    match target.def {
        Def::Section { .. } => true,
        Def::Common(_) => true,
        Def::Linker(_) => true,
        Def::Absolute(_) => !pic,
        _ => false,
    })
}

/// The table of a section of `file`.
pub open spec fn table_of(refs: Refs, file: int, section: int) -> Seq<Relocation> {
    if 0 <= file < refs.files@.len() {
        match refs.files@[file].object {
            Some(object) => match object.spec_section(section) {
                Some(s) => relas_of(s.relocations),
                None => Seq::empty(),
            },
            None => Seq::empty(),
        }
    } else {
        Seq::empty()
    }
}

/// What [`toc_slot`] answers.
pub open spec fn spec_toc_slot(
    refs: Refs,
    file: int,
    rel: Relocation,
    pinned: Seq<(u32, u64)>,
    pic: bool,
) -> Option<int> {
    match (indirection_field(rel.r_type), spec_toc_entry(refs, file, rel)) {
        (Some(_), Some(entry)) => if pinned.contains(entry) {
            None
        } else {
            let relocs = table_of(refs, file, entry.0 as int);
            match slot_from(relocs, entry.1, slot_start(relocs.len() as int, entry.1)) {
                Some(slot) => if relocs[slot].r_type != r::R_PPC64_ADDR64 {
                    None
                } else {
                    match refs.spec_target(file, relocs[slot].symbol as int) {
                        Some(target) => if is_settled(target, refs.flags_of(target), pic) {
                            Some(slot)
                        } else {
                            None
                        },
                        None => None,
                    }
                },
                None => None,
            }
        },
        _ => None,
    }
}

/// The position among the relocations of its `.toc` section of the one that
/// fills the entry `rel` loads, when the symbol whose address the entry
/// holds can be addressed directly.
pub fn toc_slot(
    refs: &Refs,
    file: usize,
    rel: Relocation,
    pinned: &[(u32, u64)],
    pic: bool,
) -> (r: Option<usize>)
    requires
        entries_sorted(pinned@),
    ensures
        match r {
            Some(slot) => spec_toc_slot(*refs, file as int, rel, pinned@, pic) == Some(slot as int),
            None => spec_toc_slot(*refs, file as int, rel, pinned@, pic) is None,
        },
{
    if indirection_field(rel.r_type).is_none() {
        return None;
    }
    let Some(entry) = toc_entry(refs, file, rel) else {
        return None;
    };
    if is_listed(pinned, entry) {
        return None;
    }
    let Some(object) = &refs.files[file].object else {
        return None;
    };
    let Some(toc) = object.section(entry.0) else {
        return None;
    };
    let RelocTable::Rela(relocs) = &toc.relocations else {
        return None;
    };
    let Some(slot) = find_slot(relocs, entry.1) else {
        return None;
    };
    if relocs[slot].r_type != r::R_PPC64_ADDR64 {
        return None;
    }
    let Some(target) = refs.target(file, relocs[slot].symbol) else {
        return None;
    };
    if is_settled(target, refs.target_flags(target), pic) {
        Some(slot)
    } else {
        None
    }
}

/// What [`toc_indirection`] answers.
pub open spec fn spec_toc_indirection(
    refs: Refs,
    file: int,
    rel: Relocation,
    pinned: Seq<(u32, u64)>,
    pic: bool,
    addresses: Seq<Option<Address>>,
    got_base: u64,
) -> Option<(u64, Field)> {
    match (
        spec_toc_slot(refs, file, rel, pinned, pic),
        indirection_field(rel.r_type),
    ) {
        (Some(slot), Some(field)) => if slot < addresses.len() {
            match addresses[slot] {
                Some(address) => {
                    let relative = address.sum().wrapping_sub(got_base) as i64;
                    if crate::bits::spec_fits_signed(relative as int, 32) {
                        Some((address.sum(), field))
                    } else {
                        None
                    }
                },
                None => None,
            }
        } else {
            None
        },
        _ => None,
    }
}

/// The TOC-relative address to use instead of a TOC-indirect load: when
/// `rel` (an `R_PPC64_TOC16_HA` or `R_PPC64_TOC16_LO_DS`) addresses a
/// `.toc` entry that holds the address of a symbol defined in this output
/// and not preemptible, within 2 GiB of the TOC pointer, returns that
/// address and the field that packs it (the `ld` becomes an `addi`).
/// `pinned` comes from [`pinned_toc_entries`]; `addresses` holds the address
/// of each symbol that the relocations of the `.toc` section name.
pub fn toc_indirection(
    refs: &Refs,
    file: usize,
    rel: Relocation,
    pinned: &[(u32, u64)],
    pic: bool,
    addresses: &[Option<Address>],
    got_base: u64,
) -> (r: Option<(u64, Field)>)
    requires
        entries_sorted(pinned@),
    ensures
        r == spec_toc_indirection(
            *refs,
            file as int,
            rel,
            pinned@,
            pic,
            addresses@,
            got_base,
        ),
{
    let Some(slot) = toc_slot(refs, file, rel, pinned, pic) else {
        return None;
    };
    let Some(field) = indirection_field(rel.r_type) else {
        return None;
    };
    if slot >= addresses.len() {
        return None;
    }
    let Some(address) = addresses[slot] else {
        return None;
    };
    let relative: i64 = address.sum().wrapping_sub(got_base) as i64;
    if fits_signed(relative, 32) {
        Some((address.sum(), field))
    } else {
        None
    }
}

/// Shared objects keep the TLS models their code was compiled for.
pub proof fn shared_objects_keep_tls_models(
    r_type: u32,
    data: Seq<u8>,
    offset: u64,
    context: ClassifyContext,
)
    requires
        context.tls == TlsMode::Dynamic,
        context.tls_ld == TlsMode::Dynamic,
    ensures
        match spec_classify(r_type, data, offset, context) {
            Ok(class) => !super::changes_tls_model(class.kind),
            Err(_) => true,
        },
{
}

/// The field that each relocation type of the PowerPC64 ELFv2 ABI fills, by the
/// number of the type and by what is computed, and the GOT entry it goes
/// through.
pub open spec fn abi_field(kind: Kind, r_type: u32) -> Option<(Width, GotKind)> {
    match kind {
        Kind::Abs => match r_type {
            1 | 24 => Some((Width::Any32, GotKind::Address)),
            2 => Some((Width::Ppc(Field::Addr24), GotKind::Address)),
            3 | 25 => Some((Width::Ppc(Field::Half16), GotKind::Address)),
            4 => Some((Width::Ppc(Field::Lo), GotKind::Address)),
            5 => Some((Width::Ppc(Field::Hi), GotKind::Address)),
            6 => Some((Width::Ppc(Field::Ha), GotKind::Address)),
            7 | 8 | 9 => Some((Width::Ppc(Field::Addr14), GotKind::Address)),
            38 | 43 => Some((Width::W64, GotKind::Address)),
            39 => Some((Width::Ppc(Field::Higher), GotKind::Address)),
            40 => Some((Width::Ppc(Field::Highera), GotKind::Address)),
            41 => Some((Width::Ppc(Field::Highest), GotKind::Address)),
            42 => Some((Width::Ppc(Field::Highesta), GotKind::Address)),
            56 => Some((Width::Ppc(Field::Ds), GotKind::Address)),
            57 => Some((Width::Ppc(Field::LoDs), GotKind::Address)),
            110 => Some((Width::Ppc(Field::High), GotKind::Address)),
            111 => Some((Width::Ppc(Field::Higha), GotKind::Address)),
            _ => None,
        },
        Kind::Pc => match r_type {
            10 | 116 => Some((Width::Ppc(Field::Rel24), GotKind::Address)),
            11 | 12 | 13 => Some((Width::Ppc(Field::Rel14), GotKind::Address)),
            26 => Some((Width::I32, GotKind::Address)),
            44 => Some((Width::W64, GotKind::Address)),
            132 => Some((Width::Ppc(Field::Prefixed34), GotKind::Address)),
            240 => Some((Width::Ppc(Field::High), GotKind::Address)),
            241 => Some((Width::Ppc(Field::Higha), GotKind::Address)),
            242 => Some((Width::Ppc(Field::Higher), GotKind::Address)),
            243 => Some((Width::Ppc(Field::Highera), GotKind::Address)),
            244 => Some((Width::Ppc(Field::Highest), GotKind::Address)),
            245 => Some((Width::Ppc(Field::Highesta), GotKind::Address)),
            249 => Some((Width::Ppc(Field::Half16Signed), GotKind::Address)),
            250 => Some((Width::Ppc(Field::Lo), GotKind::Address)),
            251 => Some((Width::Ppc(Field::Hi), GotKind::Address)),
            252 => Some((Width::Ppc(Field::Ha), GotKind::Address)),
            _ => None,
        },
        Kind::GotSlotRel => match r_type {
            14 => Some((Width::Ppc(Field::Half16), GotKind::Address)),
            15 => Some((Width::Ppc(Field::Lo), GotKind::Address)),
            16 => Some((Width::Ppc(Field::Hi), GotKind::Address)),
            17 => Some((Width::Ppc(Field::HaToc), GotKind::Address)),
            58 => Some((Width::Ppc(Field::Ds), GotKind::Address)),
            59 => Some((Width::Ppc(Field::LoDsToc), GotKind::Address)),
            _ => None,
        },
        Kind::GotRel => match r_type {
            47 => Some((Width::Ppc(Field::Half16), GotKind::Address)),
            48 => Some((Width::Ppc(Field::LoToc), GotKind::Address)),
            49 => Some((Width::Ppc(Field::Hi), GotKind::Address)),
            50 => Some((Width::Ppc(Field::HaToc), GotKind::Address)),
            63 => Some((Width::Ppc(Field::Ds), GotKind::Address)),
            64 => Some((Width::Ppc(Field::LoDsToc), GotKind::Address)),
            _ => None,
        },
        Kind::Addend => match r_type {
            123 => Some((Width::Ppc(Field::PcrelOpt), GotKind::Address)),
            _ => None,
        },
        Kind::TpOff => match r_type {
            69 => Some((Width::Ppc(Field::Half16Signed), GotKind::Address)),
            70 => Some((Width::Ppc(Field::Lo), GotKind::Address)),
            71 => Some((Width::Ppc(Field::Hi), GotKind::Address)),
            72 => Some((Width::Ppc(Field::Ha), GotKind::Address)),
            73 => Some((Width::W64, GotKind::Address)),
            95 => Some((Width::Ppc(Field::Ds), GotKind::Address)),
            96 => Some((Width::Ppc(Field::LoDs), GotKind::Address)),
            97 => Some((Width::Ppc(Field::Higher), GotKind::Address)),
            98 => Some((Width::Ppc(Field::Highera), GotKind::Address)),
            99 => Some((Width::Ppc(Field::Highest), GotKind::Address)),
            100 => Some((Width::Ppc(Field::Highesta), GotKind::Address)),
            112 => Some((Width::Ppc(Field::High), GotKind::Address)),
            113 => Some((Width::Ppc(Field::Higha), GotKind::Address)),
            146 => Some((Width::Ppc(Field::Prefixed34), GotKind::Address)),
            _ => None,
        },
        Kind::DtpOff => match r_type {
            74 => Some((Width::Ppc(Field::Half16Signed), GotKind::Address)),
            75 => Some((Width::Ppc(Field::Lo), GotKind::Address)),
            76 => Some((Width::Ppc(Field::Hi), GotKind::Address)),
            77 => Some((Width::Ppc(Field::Ha), GotKind::Address)),
            78 => Some((Width::W64, GotKind::Address)),
            101 => Some((Width::Ppc(Field::Ds), GotKind::Address)),
            102 => Some((Width::Ppc(Field::LoDs), GotKind::Address)),
            103 => Some((Width::Ppc(Field::Higher), GotKind::Address)),
            104 => Some((Width::Ppc(Field::Highera), GotKind::Address)),
            105 => Some((Width::Ppc(Field::Highest), GotKind::Address)),
            106 => Some((Width::Ppc(Field::Highesta), GotKind::Address)),
            114 => Some((Width::Ppc(Field::High), GotKind::Address)),
            115 => Some((Width::Ppc(Field::Higha), GotKind::Address)),
            147 => Some((Width::Ppc(Field::Prefixed34), GotKind::Address)),
            _ => None,
        },
        Kind::Nothing => match r_type {
            0 | 109 | 118 | 253 | 254 => Some((Width::Nothing, GotKind::Address)),
            _ => None,
        },
        _ => None,
    }
}

/// Every relocation type computes what the ABI defines for it and fills the
/// field the ABI gives it, whatever the code around it; and
/// no other type is taken for one that computes `S + A`, `S + A - P` or the
/// like.
#[verifier::spinoff_prover]
#[verifier::rlimit(80)]
pub proof fn types_compute_what_the_abi_says(r_type: u32, data: Seq<u8>, offset: u64, context: ClassifyContext, kind: Kind)
    requires
        r_type < 0x1000,
    ensures
        abi_field(kind, r_type) matches Some((width, slot)) ==> spec_classify(r_type, data, offset, context) == Ok::<Class, ClassifyError>(Class { kind, width, slot, skip_next: false }),
        spec_classify(r_type, data, offset, context) matches Ok(c) ==> ((c.kind == Kind::Abs || c.kind == Kind::GotRel || c.kind == Kind::Addend || c.kind == Kind::TpOff || c.kind == Kind::DtpOff) ==> abi_field(c.kind, r_type) == Some((c.width, c.slot))),
{
    crate::bits::small_numbers(r_type);
}

/// What each thread-local relocation type becomes, by its number, in an
/// access of one model or another: what is computed, the field, the GOT entry,
/// and whether the relocation that follows is taken along.
pub open spec fn tls_access(r_type: u32, tls: TlsMode, tls_ld: TlsMode) -> Option<
    (Kind, Width, GotKind, bool),
> {
    match r_type {
        67 => match tls {
            TlsMode::LocalExec => Some((Kind::IeToLe, Width::Nothing, GotKind::Address, false)),
            TlsMode::InitialExec => Some((Kind::Nothing, Width::Nothing, GotKind::Address, false)),
            TlsMode::Dynamic => Some((Kind::Nothing, Width::Nothing, GotKind::Address, false)),
        },
        79 | 80 => match tls {
            TlsMode::LocalExec => Some((Kind::GdToLe, Width::Nothing, GotKind::Address, false)),
            TlsMode::InitialExec => Some((Kind::GotSlotRel, Width::Ppc(Field::LdR3LoDs), GotKind::TpOff, false)),
            TlsMode::Dynamic => None,
        },
        81 => match tls {
            TlsMode::LocalExec => None,
            TlsMode::InitialExec => None,
            TlsMode::Dynamic => Some((Kind::GotSlotRel, Width::Ppc(Field::Hi), GotKind::TlsGd, false)),
        },
        82 => match tls {
            TlsMode::LocalExec => Some((Kind::GdToLe, Width::Nothing, GotKind::Address, false)),
            TlsMode::InitialExec => Some((Kind::GotSlotRel, Width::Ppc(Field::Ha), GotKind::TpOff, false)),
            TlsMode::Dynamic => Some((Kind::GotSlotRel, Width::Ppc(Field::Ha), GotKind::TlsGd, false)),
        },
        83 | 84 | 86 => match tls_ld {
            TlsMode::LocalExec => Some((Kind::LdToLe, Width::Nothing, GotKind::Address, false)),
            TlsMode::InitialExec => Some((Kind::LdToLe, Width::Nothing, GotKind::Address, false)),
            TlsMode::Dynamic => None,
        },
        85 => match tls_ld {
            TlsMode::LocalExec => None,
            TlsMode::InitialExec => None,
            TlsMode::Dynamic => Some((Kind::GotSlotRel, Width::Ppc(Field::Hi), GotKind::TlsLd, false)),
        },
        87 => match tls {
            TlsMode::LocalExec => Some((Kind::IeToLe, Width::Nothing, GotKind::Address, false)),
            TlsMode::InitialExec => Some((Kind::GotSlotRel, Width::Ppc(Field::Ds), GotKind::TpOff, false)),
            TlsMode::Dynamic => Some((Kind::GotSlotRel, Width::Ppc(Field::Ds), GotKind::TpOff, false)),
        },
        88 => match tls {
            TlsMode::LocalExec => Some((Kind::IeToLe, Width::Nothing, GotKind::Address, false)),
            TlsMode::InitialExec => Some((Kind::GotSlotRel, Width::Ppc(Field::LoDs), GotKind::TpOff, false)),
            TlsMode::Dynamic => Some((Kind::GotSlotRel, Width::Ppc(Field::LoDs), GotKind::TpOff, false)),
        },
        89 => match tls {
            TlsMode::LocalExec => None,
            TlsMode::InitialExec => Some((Kind::GotSlotRel, Width::Ppc(Field::Hi), GotKind::TpOff, false)),
            TlsMode::Dynamic => Some((Kind::GotSlotRel, Width::Ppc(Field::Hi), GotKind::TpOff, false)),
        },
        90 => match tls {
            TlsMode::LocalExec => Some((Kind::IeToLe, Width::Nothing, GotKind::Address, false)),
            TlsMode::InitialExec => Some((Kind::GotSlotRel, Width::Ppc(Field::Ha), GotKind::TpOff, false)),
            TlsMode::Dynamic => Some((Kind::GotSlotRel, Width::Ppc(Field::Ha), GotKind::TpOff, false)),
        },
        107 => match tls {
            TlsMode::LocalExec => Some((Kind::GdToLe, Width::Nothing, GotKind::Address, true)),
            TlsMode::InitialExec => Some((Kind::GdToIe, Width::Nothing, GotKind::Address, true)),
            TlsMode::Dynamic => Some((Kind::Nothing, Width::Nothing, GotKind::Address, false)),
        },
        108 => match tls_ld {
            TlsMode::LocalExec => Some((Kind::LdToLe, Width::Nothing, GotKind::Address, true)),
            TlsMode::InitialExec => Some((Kind::LdToLe, Width::Nothing, GotKind::Address, true)),
            TlsMode::Dynamic => Some((Kind::Nothing, Width::Nothing, GotKind::Address, false)),
        },
        148 => match tls {
            TlsMode::LocalExec => Some((Kind::GdToLe, Width::Nothing, GotKind::Address, false)),
            TlsMode::InitialExec => Some((Kind::Got, Width::Ppc(Field::PldR3), GotKind::TpOff, false)),
            TlsMode::Dynamic => Some((Kind::Got, Width::Ppc(Field::Prefixed34), GotKind::TlsGd, false)),
        },
        149 => match tls_ld {
            TlsMode::LocalExec => Some((Kind::LdToLe, Width::Nothing, GotKind::Address, false)),
            TlsMode::InitialExec => Some((Kind::LdToLe, Width::Nothing, GotKind::Address, false)),
            TlsMode::Dynamic => Some((Kind::Got, Width::Ppc(Field::Prefixed34), GotKind::TlsLd, false)),
        },
        150 => match tls {
            TlsMode::LocalExec => Some((Kind::IeToLe, Width::Nothing, GotKind::Address, false)),
            TlsMode::InitialExec => Some((Kind::Got, Width::Ppc(Field::Prefixed34), GotKind::TpOff, false)),
            TlsMode::Dynamic => Some((Kind::Got, Width::Ppc(Field::Prefixed34), GotKind::TpOff, false)),
        },
        _ => None,
    }
}

/// Thread-local accesses follow the model they are linked with.
#[verifier::spinoff_prover]
#[verifier::rlimit(80)]
pub proof fn thread_local_types_follow_the_model(r_type: u32, data: Seq<u8>, offset: u64, context: ClassifyContext)
    requires
        r_type < 0x1000,
    ensures
        tls_access(r_type, context.tls, context.tls_ld) matches Some((kind, width, slot, skip_next)) ==> spec_classify(r_type, data, offset, context) == Ok::<Class, ClassifyError>(Class { kind, width, slot, skip_next }),
{
    crate::bits::small_numbers(r_type);
}

/// A call that uses the TOC goes to the local entry of its function, and one
/// that does not to the global one. It needs a thunk where it cannot reach,
/// where the function does not keep the TOC pointer, or where a call without
/// a TOC pointer goes to code that wants one or through a stub.
pub proof fn calls_need_a_thunk_for_a_reason(branch: Branch)
    ensures
        ({
            let toc = branch.r_type == 10;
            let notoc = branch.r_type == 116;
            let three = (branch.st_other >> 5) & 7;
            let there = branch_destination(branch);
            let away = there.wrapping_sub(branch.place) as i64;
            let near = -0x200_0000 <= away < 0x200_0000;
            let thunk = spec_branch_thunk(branch);
            &&& notoc || branch.via_stub ==> there == branch.target
            &&& toc && !branch.via_stub && three == 3 ==> there == branch.target.wrapping_add(8)
            &&& toc && !branch.via_stub && three < 2 ==> there == branch.target
            &&& !toc && !notoc ==> thunk is None
            &&& toc && !branch.via_stub && three == 1 ==> thunk == Some(there | 2)
            &&& toc && (branch.via_stub || three != 1) ==> thunk == (if near {
                None
            } else {
                Some(there)
            })
            &&& notoc && branch.via_stub ==> match branch.slot {
                Some(slot) => thunk == Some(slot | 1),
                None => thunk is None,
            }
            &&& notoc && !branch.via_stub && 2 <= three <= 6 ==> thunk == Some(there)
            &&& notoc && !branch.via_stub && (three < 2 || three == 7) ==> thunk == (if near {
                None
            } else {
                Some(there)
            })
        }),
{
    vstd::arithmetic::power2::lemma2_to64();
    insn::local_entries_are_behind_the_global_one(branch.st_other);
}

/// The `nop` behind a call that may change the TOC pointer becomes the load
/// that restores it; nothing else changes.
pub proof fn calls_restore_the_toc(s: Seq<u8>, offset: u64, branch: Branch)
    requires
        offset + 8 <= s.len(),
        s.len() <= u64::MAX,
    ensures
        ({
            let p = spec_finish_call(s, offset, branch);
            let changes = branch.r_type == 10 && (branch.via_stub || (branch.st_other >> 5) & 7
                == 1) && bytes::u32_at(s, offset + 4) == Some(0x6000_0000u32);
            &&& p.bytes.len() == s.len()
            &&& changes ==> p.result is Ok && bytes::u32_at(p.bytes, offset + 4) == Some(
                0xe841_0018u32,
            )
            &&& !changes ==> p.bytes == s
            &&& forall|i: int|
                0 <= i < s.len() && !(offset + 4 <= i < offset + 8) ==> #[trigger] p.bytes[i] == s[i]
        }),
{
    insn::local_entries_are_behind_the_global_one(branch.st_other);
    let p = spec_finish_call(s, offset, branch);
    let next = offset.wrapping_add(4) as int;
    let word = bytes::spec_le32(LD_R2_24_R1);
    bytes::u32_round_trip(s, next, LD_R2_24_R1);
    assert(next == offset + 4 || offset + 8 > u64::MAX);
    assert(Patched::new(s).word(next, LD_R2_24_R1).bytes =~= bytes::stored(s, next, word));
}

} // verus!
