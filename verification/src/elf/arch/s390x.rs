//! s390x relocations: classification, relaxation, and the PLT.
//!
//! s390x is big-endian, uses `SHT_RELA`, and counts PC-relative offsets of
//! instructions in halfwords (`R_390_PC32DBL`, `R_390_PLT32DBL`, ...; see
//! [`crate::arch::s390x`]). Everything follows GNU ld's `elf64-s390.c`,
//! the reference (lld has no s390x port).
//!
//! **The GOT pointer** (`_GLOBAL_OFFSET_TABLE_`, which PIC code keeps in
//! `%r12` and `R_390_GOTPCDBL` computes) is at the very start of the GOT,
//! and every GOT-relative relocation (`R_390_GOT12`, `GOT20`, ...) counts
//! from it, some of them unsigned. Its first three words are reserved for
//! the dynamic linker (`_DYNAMIC`, the link map, the resolver), and
//! `DT_PLTGOT` points at them. With `-z now`, `.got.plt` comes first, at
//! the start of `.got`, and holds them; otherwise `.got` comes first, and
//! the three words are the start of `.got`.
//!
//! **The PLT** has a 32-byte header and 32-byte entries that load their
//! `.got.plt` slot with `larl` + `lg`; a slot starts out pointing into its
//! own entry, which passes the offset of its `R_390_JMP_SLOT` relocation to
//! the header. IFUNC stubs are PLT entries too.
//!
//! **Relaxations** (in executables only, as GNU ld does):
//!
//! - `lgrl %rx,sym@GOTENT` and `lg %rx,sym@GOT(%r12)` become
//!   `larl %rx,sym` when the output is position-independent, `sym` is
//!   defined in it and cannot be preempted, and its address is even
//!   ([`Kind::GotRelax`]). The GOT entry stays, as in GNU ld.
//! - TLS: the literal pool entry of a general-dynamic access
//!   (`R_390_TLS_GD64`) becomes the offset of an initial-exec GOT entry,
//!   and the `brasl %r14,__tls_get_offset` marked by `R_390_TLS_GDCALL`
//!   becomes `lg %r2,0(%r2,%r12)`, for a variable of a shared library; for
//!   one of the executable the entry becomes the thread pointer offset and
//!   the call `brcl 0,.`. Local-dynamic becomes local-exec the same way
//!   (`R_390_TLS_LDM64`, `R_390_TLS_LDCALL`, `R_390_TLS_LDO64`), and so
//!   does initial-exec through the literal pool (`R_390_TLS_GOTIE64` and
//!   `R_390_TLS_IE64`, with the load marked by `R_390_TLS_LOAD` turned into
//!   `sllg`). Initial-exec through `R_390_TLS_GOTIE12`, `GOTIE20` and
//!   `IEENT` keeps its GOT entry, which then holds a constant.
//!
//! `R_390_GOTPLT*` relocations use the symbol's GOT entry, not its
//! `.got.plt` slot (GNU ld's choice when the symbol has a PLT entry), and
//! `R_390_PLTOFF*`, which gcc does not emit, are not linked.

use vstd::prelude::*;

use crate::bytes;
pub use super::{
    ApplyError, Class, ClassifyContext, ClassifyError, GotKind, Kind, RelaxValues, TlsMode, Width,
};
use super::patch::{put_bytes, Patched};
use crate::arch::s390x::Field;
use crate::arch::s390x as insn;
use crate::bytes::{be64, byte_after, byte_before, place};

verus! {

/// No relocation.
pub const R_390_NONE: u32 = 0;

/// `S + A`, 8 bits.
pub const R_390_8: u32 = 1;

/// `S + A`, a 12-bit displacement.
pub const R_390_12: u32 = 2;

/// `S + A`, 16 bits.
pub const R_390_16: u32 = 3;

/// `S + A`, 32 bits.
pub const R_390_32: u32 = 4;

/// `S + A - P`, 32 bits.
pub const R_390_PC32: u32 = 5;

/// `G + A - GOT`, a 12-bit displacement.
pub const R_390_GOT12: u32 = 6;

/// `G + A - GOT`, 32 bits.
pub const R_390_GOT32: u32 = 7;

/// `L + A - P`, 32 bits.
pub const R_390_PLT32: u32 = 8;

/// Dynamic: copy the symbol's data.
pub const R_390_COPY: u32 = 9;

/// Dynamic: a GOT entry.
pub const R_390_GLOB_DAT: u32 = 10;

/// Dynamic: a lazily bound `.got.plt` slot.
pub const R_390_JMP_SLOT: u32 = 11;

/// Dynamic: `B + A`.
pub const R_390_RELATIVE: u32 = 12;

/// `S + A - GOT`, 32 bits.
pub const R_390_GOTOFF32: u32 = 13;

/// `GOT + A - P`, 64 bits.
pub const R_390_GOTPC: u32 = 14;

/// `G + A - GOT`, 16 bits.
pub const R_390_GOT16: u32 = 15;

/// `S + A - P`, 16 bits.
pub const R_390_PC16: u32 = 16;

/// `(S + A - P) >> 1`, 16 bits.
pub const R_390_PC16DBL: u32 = 17;

/// `(L + A - P) >> 1`, 16 bits.
pub const R_390_PLT16DBL: u32 = 18;

/// `(S + A - P) >> 1`, 32 bits.
pub const R_390_PC32DBL: u32 = 19;

/// `(L + A - P) >> 1`, 32 bits.
pub const R_390_PLT32DBL: u32 = 20;

/// `(GOT + A - P) >> 1`, 32 bits.
pub const R_390_GOTPCDBL: u32 = 21;

/// `S + A`, 64 bits.
pub const R_390_64: u32 = 22;

/// `S + A - P`, 64 bits.
pub const R_390_PC64: u32 = 23;

/// `G + A - GOT`, 64 bits.
pub const R_390_GOT64: u32 = 24;

/// `L + A - P`, 64 bits.
pub const R_390_PLT64: u32 = 25;

/// `(G + A - P) >> 1`, 32 bits.
pub const R_390_GOTENT: u32 = 26;

/// `S + A - GOT`, 16 bits.
pub const R_390_GOTOFF16: u32 = 27;

/// `S + A - GOT`, 64 bits.
pub const R_390_GOTOFF64: u32 = 28;

/// `G + A - GOT` of the `.got.plt` slot, a 12-bit displacement.
pub const R_390_GOTPLT12: u32 = 29;

/// `G + A - GOT` of the `.got.plt` slot, 16 bits.
pub const R_390_GOTPLT16: u32 = 30;

/// `G + A - GOT` of the `.got.plt` slot, 32 bits.
pub const R_390_GOTPLT32: u32 = 31;

/// `G + A - GOT` of the `.got.plt` slot, 64 bits.
pub const R_390_GOTPLT64: u32 = 32;

/// `(G + A - P) >> 1` of the `.got.plt` slot, 32 bits.
pub const R_390_GOTPLTENT: u32 = 33;

/// `L + A - GOT`, 16 bits.
pub const R_390_PLTOFF16: u32 = 34;

/// `L + A - GOT`, 32 bits.
pub const R_390_PLTOFF32: u32 = 35;

/// `L + A - GOT`, 64 bits.
pub const R_390_PLTOFF64: u32 = 36;

/// Marks the initial-exec load of a thread pointer offset.
pub const R_390_TLS_LOAD: u32 = 37;

/// Marks the `__tls_get_offset` call of a general-dynamic access.
pub const R_390_TLS_GDCALL: u32 = 38;

/// Marks the `__tls_get_offset` call of a local-dynamic access.
pub const R_390_TLS_LDCALL: u32 = 39;

/// General-dynamic GOT offset, 32 bits (31-bit code).
pub const R_390_TLS_GD32: u32 = 40;

/// General-dynamic GOT offset, 64 bits.
pub const R_390_TLS_GD64: u32 = 41;

/// Initial-exec GOT offset, a 12-bit displacement.
pub const R_390_TLS_GOTIE12: u32 = 42;

/// Initial-exec GOT offset, 32 bits (31-bit code).
pub const R_390_TLS_GOTIE32: u32 = 43;

/// Initial-exec GOT offset, 64 bits.
pub const R_390_TLS_GOTIE64: u32 = 44;

/// Local-dynamic GOT offset, 32 bits (31-bit code).
pub const R_390_TLS_LDM32: u32 = 45;

/// Local-dynamic GOT offset, 64 bits.
pub const R_390_TLS_LDM64: u32 = 46;

/// Initial-exec GOT entry address, 32 bits (31-bit code).
pub const R_390_TLS_IE32: u32 = 47;

/// Initial-exec GOT entry address, 64 bits.
pub const R_390_TLS_IE64: u32 = 48;

/// Initial-exec GOT entry, PC-relative in halfwords.
pub const R_390_TLS_IEENT: u32 = 49;

/// Local-exec offset, 32 bits (31-bit code).
pub const R_390_TLS_LE32: u32 = 50;

/// Local-exec offset, 64 bits.
pub const R_390_TLS_LE64: u32 = 51;

/// Offset in the module's TLS block, 32 bits (31-bit code).
pub const R_390_TLS_LDO32: u32 = 52;

/// Offset in the module's TLS block, 64 bits.
pub const R_390_TLS_LDO64: u32 = 53;

/// Dynamic: the TLS module ID.
pub const R_390_TLS_DTPMOD: u32 = 54;

/// Dynamic: the offset in the module's TLS block.
pub const R_390_TLS_DTPOFF: u32 = 55;

/// Dynamic: the offset from the thread pointer.
pub const R_390_TLS_TPOFF: u32 = 56;

/// `S + A`, a 20-bit displacement.
pub const R_390_20: u32 = 57;

/// `G + A - GOT`, a 20-bit displacement.
pub const R_390_GOT20: u32 = 58;

/// `G + A - GOT` of the `.got.plt` slot, a 20-bit displacement.
pub const R_390_GOTPLT20: u32 = 59;

/// Initial-exec GOT offset, a 20-bit displacement.
pub const R_390_TLS_GOTIE20: u32 = 60;

/// Dynamic: call the resolver at `B + A`.
pub const R_390_IRELATIVE: u32 = 61;

/// `(S + A - P) >> 1`, 12 bits.
pub const R_390_PC12DBL: u32 = 62;

/// `(L + A - P) >> 1`, 12 bits.
pub const R_390_PLT12DBL: u32 = 63;

/// `(S + A - P) >> 1`, 24 bits.
pub const R_390_PC24DBL: u32 = 64;

/// `(L + A - P) >> 1`, 24 bits.
pub const R_390_PLT24DBL: u32 = 65;

/// C++ vtable hierarchy (for `--gc-sections`; ignored).
pub const R_390_GNU_VTINHERIT: u32 = 250;

/// C++ vtable member use (for `--gc-sections`; ignored).
pub const R_390_GNU_VTENTRY: u32 = 251;

/// `PT_S390_PGSTE`: `--s390-pgste` asks the kernel for page tables with
/// guest storage extension (for programs that run virtual machines).
pub const PT_S390_PGSTE: u32 = 0x7000_0000;

/// The name of relocation type `r_type`, as `readelf` prints it.
#[verifier::allow_in_spec]
pub fn reloc_name(r_type: u32) -> Option<&'static str>
    returns
        (match r_type {
            R_390_NONE => Some("R_390_NONE"),
            R_390_8 => Some("R_390_8"),
            R_390_12 => Some("R_390_12"),
            R_390_16 => Some("R_390_16"),
            R_390_32 => Some("R_390_32"),
            R_390_PC32 => Some("R_390_PC32"),
            R_390_GOT12 => Some("R_390_GOT12"),
            R_390_GOT32 => Some("R_390_GOT32"),
            R_390_PLT32 => Some("R_390_PLT32"),
            R_390_COPY => Some("R_390_COPY"),
            R_390_GLOB_DAT => Some("R_390_GLOB_DAT"),
            R_390_JMP_SLOT => Some("R_390_JMP_SLOT"),
            R_390_RELATIVE => Some("R_390_RELATIVE"),
            R_390_GOTOFF32 => Some("R_390_GOTOFF32"),
            R_390_GOTPC => Some("R_390_GOTPC"),
            R_390_GOT16 => Some("R_390_GOT16"),
            R_390_PC16 => Some("R_390_PC16"),
            R_390_PC16DBL => Some("R_390_PC16DBL"),
            R_390_PLT16DBL => Some("R_390_PLT16DBL"),
            R_390_PC32DBL => Some("R_390_PC32DBL"),
            R_390_PLT32DBL => Some("R_390_PLT32DBL"),
            R_390_GOTPCDBL => Some("R_390_GOTPCDBL"),
            R_390_64 => Some("R_390_64"),
            R_390_PC64 => Some("R_390_PC64"),
            R_390_GOT64 => Some("R_390_GOT64"),
            R_390_PLT64 => Some("R_390_PLT64"),
            R_390_GOTENT => Some("R_390_GOTENT"),
            R_390_GOTOFF16 => Some("R_390_GOTOFF16"),
            R_390_GOTOFF64 => Some("R_390_GOTOFF64"),
            R_390_GOTPLT12 => Some("R_390_GOTPLT12"),
            R_390_GOTPLT16 => Some("R_390_GOTPLT16"),
            R_390_GOTPLT32 => Some("R_390_GOTPLT32"),
            R_390_GOTPLT64 => Some("R_390_GOTPLT64"),
            R_390_GOTPLTENT => Some("R_390_GOTPLTENT"),
            R_390_PLTOFF16 => Some("R_390_PLTOFF16"),
            R_390_PLTOFF32 => Some("R_390_PLTOFF32"),
            R_390_PLTOFF64 => Some("R_390_PLTOFF64"),
            R_390_TLS_LOAD => Some("R_390_TLS_LOAD"),
            R_390_TLS_GDCALL => Some("R_390_TLS_GDCALL"),
            R_390_TLS_LDCALL => Some("R_390_TLS_LDCALL"),
            R_390_TLS_GD32 => Some("R_390_TLS_GD32"),
            R_390_TLS_GD64 => Some("R_390_TLS_GD64"),
            R_390_TLS_GOTIE12 => Some("R_390_TLS_GOTIE12"),
            R_390_TLS_GOTIE32 => Some("R_390_TLS_GOTIE32"),
            R_390_TLS_GOTIE64 => Some("R_390_TLS_GOTIE64"),
            R_390_TLS_LDM32 => Some("R_390_TLS_LDM32"),
            R_390_TLS_LDM64 => Some("R_390_TLS_LDM64"),
            R_390_TLS_IE32 => Some("R_390_TLS_IE32"),
            R_390_TLS_IE64 => Some("R_390_TLS_IE64"),
            R_390_TLS_IEENT => Some("R_390_TLS_IEENT"),
            R_390_TLS_LE32 => Some("R_390_TLS_LE32"),
            R_390_TLS_LE64 => Some("R_390_TLS_LE64"),
            R_390_TLS_LDO32 => Some("R_390_TLS_LDO32"),
            R_390_TLS_LDO64 => Some("R_390_TLS_LDO64"),
            R_390_TLS_DTPMOD => Some("R_390_TLS_DTPMOD"),
            R_390_TLS_DTPOFF => Some("R_390_TLS_DTPOFF"),
            R_390_TLS_TPOFF => Some("R_390_TLS_TPOFF"),
            R_390_20 => Some("R_390_20"),
            R_390_GOT20 => Some("R_390_GOT20"),
            R_390_GOTPLT20 => Some("R_390_GOTPLT20"),
            R_390_TLS_GOTIE20 => Some("R_390_TLS_GOTIE20"),
            R_390_IRELATIVE => Some("R_390_IRELATIVE"),
            R_390_PC12DBL => Some("R_390_PC12DBL"),
            R_390_PLT12DBL => Some("R_390_PLT12DBL"),
            R_390_PC24DBL => Some("R_390_PC24DBL"),
            R_390_PLT24DBL => Some("R_390_PLT24DBL"),
            R_390_GNU_VTINHERIT => Some("R_390_GNU_VTINHERIT"),
            R_390_GNU_VTENTRY => Some("R_390_GNU_VTENTRY"),
            _ => None,
        }),
{
    match r_type {
        R_390_NONE => Some("R_390_NONE"),
        R_390_8 => Some("R_390_8"),
        R_390_12 => Some("R_390_12"),
        R_390_16 => Some("R_390_16"),
        R_390_32 => Some("R_390_32"),
        R_390_PC32 => Some("R_390_PC32"),
        R_390_GOT12 => Some("R_390_GOT12"),
        R_390_GOT32 => Some("R_390_GOT32"),
        R_390_PLT32 => Some("R_390_PLT32"),
        R_390_COPY => Some("R_390_COPY"),
        R_390_GLOB_DAT => Some("R_390_GLOB_DAT"),
        R_390_JMP_SLOT => Some("R_390_JMP_SLOT"),
        R_390_RELATIVE => Some("R_390_RELATIVE"),
        R_390_GOTOFF32 => Some("R_390_GOTOFF32"),
        R_390_GOTPC => Some("R_390_GOTPC"),
        R_390_GOT16 => Some("R_390_GOT16"),
        R_390_PC16 => Some("R_390_PC16"),
        R_390_PC16DBL => Some("R_390_PC16DBL"),
        R_390_PLT16DBL => Some("R_390_PLT16DBL"),
        R_390_PC32DBL => Some("R_390_PC32DBL"),
        R_390_PLT32DBL => Some("R_390_PLT32DBL"),
        R_390_GOTPCDBL => Some("R_390_GOTPCDBL"),
        R_390_64 => Some("R_390_64"),
        R_390_PC64 => Some("R_390_PC64"),
        R_390_GOT64 => Some("R_390_GOT64"),
        R_390_PLT64 => Some("R_390_PLT64"),
        R_390_GOTENT => Some("R_390_GOTENT"),
        R_390_GOTOFF16 => Some("R_390_GOTOFF16"),
        R_390_GOTOFF64 => Some("R_390_GOTOFF64"),
        R_390_GOTPLT12 => Some("R_390_GOTPLT12"),
        R_390_GOTPLT16 => Some("R_390_GOTPLT16"),
        R_390_GOTPLT32 => Some("R_390_GOTPLT32"),
        R_390_GOTPLT64 => Some("R_390_GOTPLT64"),
        R_390_GOTPLTENT => Some("R_390_GOTPLTENT"),
        R_390_PLTOFF16 => Some("R_390_PLTOFF16"),
        R_390_PLTOFF32 => Some("R_390_PLTOFF32"),
        R_390_PLTOFF64 => Some("R_390_PLTOFF64"),
        R_390_TLS_LOAD => Some("R_390_TLS_LOAD"),
        R_390_TLS_GDCALL => Some("R_390_TLS_GDCALL"),
        R_390_TLS_LDCALL => Some("R_390_TLS_LDCALL"),
        R_390_TLS_GD32 => Some("R_390_TLS_GD32"),
        R_390_TLS_GD64 => Some("R_390_TLS_GD64"),
        R_390_TLS_GOTIE12 => Some("R_390_TLS_GOTIE12"),
        R_390_TLS_GOTIE32 => Some("R_390_TLS_GOTIE32"),
        R_390_TLS_GOTIE64 => Some("R_390_TLS_GOTIE64"),
        R_390_TLS_LDM32 => Some("R_390_TLS_LDM32"),
        R_390_TLS_LDM64 => Some("R_390_TLS_LDM64"),
        R_390_TLS_IE32 => Some("R_390_TLS_IE32"),
        R_390_TLS_IE64 => Some("R_390_TLS_IE64"),
        R_390_TLS_IEENT => Some("R_390_TLS_IEENT"),
        R_390_TLS_LE32 => Some("R_390_TLS_LE32"),
        R_390_TLS_LE64 => Some("R_390_TLS_LE64"),
        R_390_TLS_LDO32 => Some("R_390_TLS_LDO32"),
        R_390_TLS_LDO64 => Some("R_390_TLS_LDO64"),
        R_390_TLS_DTPMOD => Some("R_390_TLS_DTPMOD"),
        R_390_TLS_DTPOFF => Some("R_390_TLS_DTPOFF"),
        R_390_TLS_TPOFF => Some("R_390_TLS_TPOFF"),
        R_390_20 => Some("R_390_20"),
        R_390_GOT20 => Some("R_390_GOT20"),
        R_390_GOTPLT20 => Some("R_390_GOTPLT20"),
        R_390_TLS_GOTIE20 => Some("R_390_TLS_GOTIE20"),
        R_390_IRELATIVE => Some("R_390_IRELATIVE"),
        R_390_PC12DBL => Some("R_390_PC12DBL"),
        R_390_PLT12DBL => Some("R_390_PLT12DBL"),
        R_390_PC24DBL => Some("R_390_PC24DBL"),
        R_390_PLT24DBL => Some("R_390_PLT24DBL"),
        R_390_GNU_VTINHERIT => Some("R_390_GNU_VTINHERIT"),
        R_390_GNU_VTENTRY => Some("R_390_GNU_VTENTRY"),
        _ => None,
    }
}

/// A classification with no GOT entry.
#[verifier::allow_in_spec]
pub fn class(kind: Kind, width: Width) -> Class
    returns
        (Class::new(kind, width)),
{
    Class::new(kind, width)
}

/// A classification through GOT entry `slot`.
#[verifier::allow_in_spec]
pub fn got(kind: Kind, width: Width, slot: GotKind) -> Class
    returns
        (Class::new(kind, width).through(slot)),
{
    Class::new(kind, width).through(slot)
}

/// An instruction field.
#[verifier::allow_in_spec]
pub fn field(field: Field) -> Width
    returns
        (Width::S390(field)),
{
    Width::S390(field)
}

/// Whether relocation `r_type` is a call or jump through the PLT.
#[verifier::allow_in_spec]
pub fn is_branch(r_type: u32) -> bool
    returns
        (match r_type {
            R_390_PLT12DBL
            | R_390_PLT16DBL
            | R_390_PLT24DBL
            | R_390_PLT32DBL
            | R_390_PLT32
            | R_390_PLT64 => true,
            _ => false,
        }),
{
    match r_type {
        R_390_PLT12DBL
        | R_390_PLT16DBL
        | R_390_PLT24DBL
        | R_390_PLT32DBL
        | R_390_PLT32
        | R_390_PLT64 => true,
        _ => false,
    }
}

/// What [`got_load_relaxes`] answers.
pub open spec fn spec_got_load_relaxes(
    r_type: u32,
    data: Seq<u8>,
    offset: u64,
    context: ClassifyContext,
) -> bool {
    if !(context.relax_got && context.pic) {
        false
    } else {
        match r_type {
            R_390_GOTENT => match (bytes::byte_at(data, offset - 2), bytes::byte_at(data, offset - 1)) {
                (Some(a), Some(b)) => insn::is_lgrl(a, b),
                _ => false,
            },
            R_390_GOT20 => match (
                bytes::byte_at(data, offset - 2),
                bytes::byte_at(data, offset + 0),
                bytes::byte_at(data, offset + 3),
            ) {
                (Some(first), Some(third), Some(last)) => insn::is_lg_got(first, third, last),
                _ => false,
            },
            _ => false,
        }
    }
}

/// Whether a GOT load may become `larl`, as far as the instruction and the
/// link tell: GNU ld relaxes only in position-independent output, and
/// [`relax_got`] still checks the symbol's address.
pub fn got_load_relaxes(
    r_type: u32,
    data: &[u8],
    offset: u64,
    context: ClassifyContext,
) -> (r: bool)
    ensures
        r == spec_got_load_relaxes(r_type, data@, offset, context),
{
    if !(context.relax_got && context.pic) {
        false
    } else {
        match r_type {
            R_390_GOTENT => match (byte_before(data, offset, 2), byte_before(data, offset, 1)) {
                (Some(a), Some(b)) => insn::is_lgrl(a, b),
                _ => false,
            },
            R_390_GOT20 => match (
                byte_before(data, offset, 2),
                byte_after(data, offset, 0),
                byte_after(data, offset, 3),
            ) {
                (Some(first), Some(third), Some(last)) => insn::is_lg_got(first, third, last),
                _ => false,
            },
            _ => false,
        }
    }
}

/// What [`has_brasl`] answers.
pub open spec fn spec_has_brasl(data: Seq<u8>, offset: u64) -> bool {
    match (
        bytes::byte_at(data, offset + 0),
        bytes::byte_at(data, offset + 1),
        bytes::byte_at(data, offset + 5),
    ) {
        (Some(a), Some(b), Some(_)) => insn::is_brasl_r14(a, b),
        _ => false,
    }
}

/// Whether a 6-byte `brasl %r14,..` is at `offset`: the call a TLS marker
/// relaxes.
pub fn has_brasl(data: &[u8], offset: u64) -> (r: bool)
    ensures
        r == spec_has_brasl(data@, offset),
{
    match (byte_after(data, offset, 0), byte_after(data, offset, 1), byte_after(data, offset, 5)) {
        (Some(a), Some(b), Some(_)) => insn::is_brasl_r14(a, b),
        _ => false,
    }
}

/// What [`classify`] answers.
pub open spec fn spec_classify(
    r_type: u32,
    data: Seq<u8>,
    offset: u64,
    context: ClassifyContext,
) -> Result<Class, ClassifyError> {
    let call: bool = spec_has_brasl(data, offset);
    match r_type {
        R_390_NONE | R_390_GNU_VTINHERIT | R_390_GNU_VTENTRY => Ok(
            class(Kind::Nothing, Width::Nothing),
        ),
        R_390_8 => Ok(class(Kind::Abs, Width::Any8)),
        R_390_12 => Ok(class(Kind::Abs, field(Field::Imm12))),
        R_390_16 => Ok(class(Kind::Abs, Width::Any16)),
        R_390_20 => Ok(class(Kind::Abs, field(Field::Disp20))),
        R_390_32 => Ok(class(Kind::Abs, Width::Any32)),
        R_390_64 => Ok(class(Kind::Abs, Width::W64)),
        R_390_PC16 => Ok(class(Kind::Pc, Width::Any16)),
        R_390_PC32 | R_390_PLT32 => Ok(class(Kind::Pc, Width::Any32)),
        R_390_PC64 | R_390_PLT64 => Ok(class(Kind::Pc, Width::W64)),
        R_390_PC12DBL | R_390_PLT12DBL => Ok(class(Kind::Pc, field(Field::Pc12Dbl))),
        R_390_PC16DBL | R_390_PLT16DBL => Ok(class(Kind::Pc, field(Field::Pc16Dbl))),
        R_390_PC24DBL | R_390_PLT24DBL => Ok(class(Kind::Pc, field(Field::Pc24Dbl))),
        R_390_PC32DBL | R_390_PLT32DBL => Ok(class(Kind::Pc, field(Field::Pc32Dbl))),
        R_390_GOT12 | R_390_GOTPLT12 => Ok(class(Kind::GotSlotRel, field(Field::Imm12))),
        R_390_GOT16 | R_390_GOTPLT16 => Ok(class(Kind::GotSlotRel, Width::Any16)),
        R_390_GOT20 if spec_got_load_relaxes(r_type, data, offset, context) => Ok(
            class(Kind::GotRelax, field(Field::Disp20)),
        ),
        R_390_GOT20 | R_390_GOTPLT20 => Ok(class(Kind::GotSlotRel, field(Field::Disp20))),
        R_390_GOT32 | R_390_GOTPLT32 => Ok(class(Kind::GotSlotRel, Width::Any32)),
        R_390_GOT64 | R_390_GOTPLT64 => Ok(class(Kind::GotSlotRel, Width::W64)),
        R_390_GOTENT if spec_got_load_relaxes(r_type, data, offset, context) => Ok(
            class(Kind::GotRelax, field(Field::Pc32Dbl)),
        ),
        R_390_GOTENT | R_390_GOTPLTENT => Ok(class(Kind::Got, field(Field::Pc32Dbl))),
        R_390_GOTOFF16 => Ok(class(Kind::GotRel, Width::Any16)),
        R_390_GOTOFF32 => Ok(class(Kind::GotRel, Width::Any32)),
        R_390_GOTOFF64 => Ok(class(Kind::GotRel, Width::W64)),
        R_390_GOTPC => Ok(class(Kind::GotBasePc, Width::W64)),
        R_390_GOTPCDBL => Ok(class(Kind::GotBasePc, field(Field::Pc32Dbl))),

        // Literal pool entries of TLS sequences.
        R_390_TLS_GD64 => match context.tls {
            TlsMode::Dynamic => Ok(got(Kind::GotSlotRel, Width::W64, GotKind::TlsGd)),
            TlsMode::InitialExec => Ok(class(Kind::GdToIe, Width::W64)),
            TlsMode::LocalExec => Ok(class(Kind::GdToLe, Width::W64)),
        },
        R_390_TLS_LDM64 => match context.tls_ld {
            TlsMode::LocalExec => Ok(class(Kind::LdToLe, Width::W64)),
            _ => Ok(got(Kind::GotSlotRel, Width::W64, GotKind::TlsLd)),
        },
        R_390_TLS_LDO64 => Ok(class(Kind::DtpOff, Width::W64)),
        R_390_TLS_GOTIE64 => match context.tls {
            TlsMode::LocalExec => Ok(class(Kind::IeToLe, Width::W64)),
            _ => Ok(got(Kind::GotSlotRel, Width::W64, GotKind::TpOff)),
        },
        R_390_TLS_IE64 => match context.tls {
            TlsMode::LocalExec => Ok(class(Kind::IeToLe, Width::W64)),
            _ => Ok(got(Kind::GotAbs, Width::W64, GotKind::TpOff)),
        },
        R_390_TLS_LE64 => Ok(class(Kind::TpOff, Width::W64)),
        // Initial-exec accesses that load the GOT entry themselves keep it.
        R_390_TLS_GOTIE12 => Ok(got(Kind::GotSlotRel, field(Field::Imm12), GotKind::TpOff)),
        R_390_TLS_GOTIE20 => Ok(got(Kind::GotSlotRel, field(Field::Disp20), GotKind::TpOff)),
        R_390_TLS_IEENT => Ok(got(Kind::Got, field(Field::Pc32Dbl), GotKind::TpOff)),

        // Instruction markers.
        R_390_TLS_LOAD => match context.tls {
            TlsMode::LocalExec => Ok(class(Kind::IeToLe, Width::Nothing)),
            _ => Ok(class(Kind::Nothing, Width::Nothing)),
        },
        R_390_TLS_GDCALL => match context.tls {
            TlsMode::Dynamic => Ok(class(Kind::Nothing, Width::Nothing)),
            TlsMode::InitialExec => {
                if call {
                    Ok(class(Kind::GdToIe, Width::Nothing))
                } else {
                    Err(ClassifyError::BadTlsInstruction)
                }
            },
            TlsMode::LocalExec => {
                if call {
                    Ok(class(Kind::GdToLe, Width::Nothing))
                } else {
                    Err(ClassifyError::BadTlsInstruction)
                }
            }
        },
        R_390_TLS_LDCALL => match context.tls_ld {
            TlsMode::LocalExec => {
                if call {
                    Ok(class(Kind::LdToLe, Width::Nothing))
                } else {
                    Err(ClassifyError::BadTlsInstruction)
                }
            },
            _ => Ok(class(Kind::Nothing, Width::Nothing)),
        },
        _ => Err(ClassifyError::Unsupported),
    }
}

/// Classifies relocation `r_type` at `offset` in section `data`.
///
/// # Errors
///
/// [`ClassifyError`] for unsupported types and unrecognized TLS code.
pub fn classify(
    r_type: u32,
    data: &[u8],
    offset: u64,
    context: ClassifyContext,
) -> (r: Result<Class, ClassifyError>)
    ensures
        r == spec_classify(r_type, data@, offset, context),
{
    let call: bool = has_brasl(data, offset);
    match r_type {
        R_390_NONE | R_390_GNU_VTINHERIT | R_390_GNU_VTENTRY => Ok(
            class(Kind::Nothing, Width::Nothing),
        ),
        R_390_8 => Ok(class(Kind::Abs, Width::Any8)),
        R_390_12 => Ok(class(Kind::Abs, field(Field::Imm12))),
        R_390_16 => Ok(class(Kind::Abs, Width::Any16)),
        R_390_20 => Ok(class(Kind::Abs, field(Field::Disp20))),
        R_390_32 => Ok(class(Kind::Abs, Width::Any32)),
        R_390_64 => Ok(class(Kind::Abs, Width::W64)),
        R_390_PC16 => Ok(class(Kind::Pc, Width::Any16)),
        R_390_PC32 | R_390_PLT32 => Ok(class(Kind::Pc, Width::Any32)),
        R_390_PC64 | R_390_PLT64 => Ok(class(Kind::Pc, Width::W64)),
        R_390_PC12DBL | R_390_PLT12DBL => Ok(class(Kind::Pc, field(Field::Pc12Dbl))),
        R_390_PC16DBL | R_390_PLT16DBL => Ok(class(Kind::Pc, field(Field::Pc16Dbl))),
        R_390_PC24DBL | R_390_PLT24DBL => Ok(class(Kind::Pc, field(Field::Pc24Dbl))),
        R_390_PC32DBL | R_390_PLT32DBL => Ok(class(Kind::Pc, field(Field::Pc32Dbl))),
        R_390_GOT12 | R_390_GOTPLT12 => Ok(class(Kind::GotSlotRel, field(Field::Imm12))),
        R_390_GOT16 | R_390_GOTPLT16 => Ok(class(Kind::GotSlotRel, Width::Any16)),
        R_390_GOT20 if got_load_relaxes(r_type, data, offset, context) => Ok(
            class(Kind::GotRelax, field(Field::Disp20)),
        ),
        R_390_GOT20 | R_390_GOTPLT20 => Ok(class(Kind::GotSlotRel, field(Field::Disp20))),
        R_390_GOT32 | R_390_GOTPLT32 => Ok(class(Kind::GotSlotRel, Width::Any32)),
        R_390_GOT64 | R_390_GOTPLT64 => Ok(class(Kind::GotSlotRel, Width::W64)),
        R_390_GOTENT if got_load_relaxes(r_type, data, offset, context) => Ok(
            class(Kind::GotRelax, field(Field::Pc32Dbl)),
        ),
        R_390_GOTENT | R_390_GOTPLTENT => Ok(class(Kind::Got, field(Field::Pc32Dbl))),
        R_390_GOTOFF16 => Ok(class(Kind::GotRel, Width::Any16)),
        R_390_GOTOFF32 => Ok(class(Kind::GotRel, Width::Any32)),
        R_390_GOTOFF64 => Ok(class(Kind::GotRel, Width::W64)),
        R_390_GOTPC => Ok(class(Kind::GotBasePc, Width::W64)),
        R_390_GOTPCDBL => Ok(class(Kind::GotBasePc, field(Field::Pc32Dbl))),

        // Literal pool entries of TLS sequences.
        R_390_TLS_GD64 => match context.tls {
            TlsMode::Dynamic => Ok(got(Kind::GotSlotRel, Width::W64, GotKind::TlsGd)),
            TlsMode::InitialExec => Ok(class(Kind::GdToIe, Width::W64)),
            TlsMode::LocalExec => Ok(class(Kind::GdToLe, Width::W64)),
        },
        R_390_TLS_LDM64 => match context.tls_ld {
            TlsMode::LocalExec => Ok(class(Kind::LdToLe, Width::W64)),
            _ => Ok(got(Kind::GotSlotRel, Width::W64, GotKind::TlsLd)),
        },
        R_390_TLS_LDO64 => Ok(class(Kind::DtpOff, Width::W64)),
        R_390_TLS_GOTIE64 => match context.tls {
            TlsMode::LocalExec => Ok(class(Kind::IeToLe, Width::W64)),
            _ => Ok(got(Kind::GotSlotRel, Width::W64, GotKind::TpOff)),
        },
        R_390_TLS_IE64 => match context.tls {
            TlsMode::LocalExec => Ok(class(Kind::IeToLe, Width::W64)),
            _ => Ok(got(Kind::GotAbs, Width::W64, GotKind::TpOff)),
        },
        R_390_TLS_LE64 => Ok(class(Kind::TpOff, Width::W64)),
        // Initial-exec accesses that load the GOT entry themselves keep it.
        R_390_TLS_GOTIE12 => Ok(got(Kind::GotSlotRel, field(Field::Imm12), GotKind::TpOff)),
        R_390_TLS_GOTIE20 => Ok(got(Kind::GotSlotRel, field(Field::Disp20), GotKind::TpOff)),
        R_390_TLS_IEENT => Ok(got(Kind::Got, field(Field::Pc32Dbl), GotKind::TpOff)),

        // Instruction markers.
        R_390_TLS_LOAD => match context.tls {
            TlsMode::LocalExec => Ok(class(Kind::IeToLe, Width::Nothing)),
            _ => Ok(class(Kind::Nothing, Width::Nothing)),
        },
        R_390_TLS_GDCALL => match context.tls {
            TlsMode::Dynamic => Ok(class(Kind::Nothing, Width::Nothing)),
            TlsMode::InitialExec => {
                if call {
                    Ok(class(Kind::GdToIe, Width::Nothing))
                } else {
                    Err(ClassifyError::BadTlsInstruction)
                }
            },
            TlsMode::LocalExec => {
                if call {
                    Ok(class(Kind::GdToLe, Width::Nothing))
                } else {
                    Err(ClassifyError::BadTlsInstruction)
                }
            }
        },
        R_390_TLS_LDCALL => match context.tls_ld {
            TlsMode::LocalExec => {
                if call {
                    Ok(class(Kind::LdToLe, Width::Nothing))
                } else {
                    Err(ClassifyError::BadTlsInstruction)
                }
            },
            _ => Ok(class(Kind::Nothing, Width::Nothing)),
        },
        _ => Err(ClassifyError::Unsupported),
    }
}

/// `p` with `field` at `at` holding `value`.
pub open spec fn with_field(p: Patched, at: int, field: Field, value: u64) -> Patched {
    p.require(
        bytes::inside(p.bytes, at, field.bytes() as int),
        ApplyError::OutOfBounds,
    ).require(field.accepts(value as i64), ApplyError::Overflow).write(
        at,
        field.packed(p.bytes[at], value as i64),
        ApplyError::OutOfBounds,
    )
}

/// Writes `value` into field `field` at `offset`.
///
/// # Errors
///
/// [`ApplyError::Overflow`] when the value does not fit (or is odd where
/// halfwords are counted), [`ApplyError::OutOfBounds`] past the section.
pub fn write_field(out: &mut [u8], offset: u64, field: Field, value: u64) -> (r: Result<
    (),
    ApplyError,
>)
    ensures
        r == with_field(Patched::new(old(out)@), offset as int, field, value).result,
        final(out)@ == with_field(Patched::new(old(out)@), offset as int, field, value).bytes,
{
    let Some(at) = place(out.len(), offset, field.bytes()) else {
        return Err(ApplyError::OutOfBounds);
    };
    match insn::encode(field, out[at], value as i64) {
        Ok(b) => put_bytes(out, offset, &b),
        Err(_) => Err(ApplyError::Overflow),
    }
}

/// What [`relax_got`] does.
pub open spec fn spec_relax_got(
    s: Seq<u8>,
    offset: u64,
    r_type: u32,
    symbol: u64,
    values: RelaxValues,
) -> Patched {
    let p = Patched::new(s);
    let at = offset as int;
    if symbol & 1 != 0 {
        if r_type == R_390_GOT20 {
            with_field(p, at, Field::Disp20, values.got.wrapping_sub(values.got_base))
        } else {
            with_field(p, at, Field::Pc32Dbl, values.got.wrapping_sub(values.place))
        }
    } else {
        // The instruction starts two bytes before the field, and `larl`
        // counts from there.
        match bytes::byte_at(s, at - 1) {
            Some(b) => with_field(
                p.write(at - 2, seq![0xc0u8, b & 0xf0], ApplyError::OutOfBounds),
                at,
                Field::Pc32Dbl,
                symbol.wrapping_add(2).wrapping_sub(values.place),
            ),
            None => p.fail(ApplyError::OutOfBounds),
        }
    }
}

/// Writes a GOT load classified [`Kind::GotRelax`]: `larl` of `symbol`
/// when its address is even, as `larl` needs, else the GOT access through
/// `values.got` (the GOT entry's address plus the addend): `G + A - P`
/// for `R_390_GOTENT`, `G + A - GOT` for `R_390_GOT20`.
///
/// # Errors
///
/// [`ApplyError`] when a field does not fit.
pub fn relax_got(
    out: &mut [u8],
    offset: u64,
    r_type: u32,
    symbol: u64,
    values: RelaxValues,
) -> (r: Result<(), ApplyError>)
    ensures
        r == spec_relax_got(old(out)@, offset, r_type, symbol, values).result,
        final(out)@ == spec_relax_got(old(out)@, offset, r_type, symbol, values).bytes,
{
    let _len: usize = out.len();
    if symbol & 1 != 0 {
        return if r_type == R_390_GOT20 {
            write_field(out, offset, Field::Disp20, values.got.wrapping_sub(values.got_base))
        } else {
            write_field(out, offset, Field::Pc32Dbl, values.got.wrapping_sub(values.place))
        };
    }
    let Some(b) = byte_before(out, offset, 1) else {
        return Err(ApplyError::OutOfBounds);
    };
    if offset < 2 {
        return Err(ApplyError::OutOfBounds);
    }
    let opcode: [u8; 2] = [0xc0, b & 0xf0];
    assert(opcode@ =~= seq![0xc0u8, b & 0xf0]);
    put_bytes(out, offset - 2, &opcode)?;
    write_field(
        out,
        offset,
        Field::Pc32Dbl,
        symbol.wrapping_add(2).wrapping_sub(values.place),
    )
}

/// `p` with the `__tls_get_offset` call at `at` replaced by `code`.
pub open spec fn with_call(p: Patched, at: int, code: Seq<u8>) -> Patched {
    p.require(bytes::inside(p.bytes, at, 6), ApplyError::OutOfBounds).require(
        insn::is_brasl_r14(p.bytes[at], p.bytes[at + 1]),
        ApplyError::BadInstruction,
    ).write(at, code, ApplyError::OutOfBounds)
}

/// What [`relax_tls`] does.
pub open spec fn spec_relax_tls(
    s: Seq<u8>,
    offset: u64,
    kind: Kind,
    r_type: u32,
    values: RelaxValues,
) -> Patched {
    let p = Patched::new(s);
    let at = offset as int;
    match (kind, r_type) {
        // The literal pool entries.
        (Kind::GdToIe, R_390_TLS_GD64) => p.write(
            at,
            bytes::spec_be64(values.got.wrapping_sub(values.got_base)),
            ApplyError::OutOfBounds,
        ),
        (Kind::GdToLe | Kind::IeToLe, R_390_TLS_GD64 | R_390_TLS_GOTIE64 | R_390_TLS_IE64) => p.write(
            at,
            bytes::spec_be64(values.tpoff as u64),
            ApplyError::OutOfBounds,
        ),
        // The module's block starts at the thread pointer's offset 0 plus
        // what the `@dtpoff` entries hold, which are relaxed to thread
        // pointer offsets.
        (Kind::LdToLe, R_390_TLS_LDM64) => p.write(at, bytes::spec_be64(0), ApplyError::OutOfBounds),
        // The calls to `__tls_get_offset`.
        (Kind::GdToIe, R_390_TLS_GDCALL) => with_call(p, at, insn::LG_R2_GOT@),
        (Kind::GdToLe, R_390_TLS_GDCALL) | (Kind::LdToLe, R_390_TLS_LDCALL) => with_call(
            p,
            at,
            insn::BRCL_NOP@,
        ),
        // The load of the offset.
        (Kind::IeToLe, R_390_TLS_LOAD) => if bytes::inside(s, at, 6) {
            match insn::spec_ie_load_to_le(s.subrange(at, at + 6)) {
                Some(code) => p.write(at, code, ApplyError::OutOfBounds),
                None => p.fail(ApplyError::BadInstruction),
            }
        } else {
            p.fail(ApplyError::OutOfBounds)
        },
        _ => p.fail(ApplyError::BadInstruction),
    }
}

/// Replaces the `__tls_get_offset` call at `offset` by `code`.
fn replace_call(out: &mut [u8], offset: u64, code: &[u8]) -> (r: Result<(), ApplyError>)
    ensures
        r == with_call(Patched::new(old(out)@), offset as int, code@).result,
        final(out)@ == with_call(Patched::new(old(out)@), offset as int, code@).bytes,
{
    let Some(at) = place(out.len(), offset, 6) else {
        return Err(ApplyError::OutOfBounds);
    };
    if !insn::is_brasl_r14(out[at], out[at + 1]) {
        return Err(ApplyError::BadInstruction);
    }
    put_bytes(out, offset, code)
}

/// Writes a literal pool entry.
fn put_pool(out: &mut [u8], offset: u64, value: u64) -> (r: Result<(), ApplyError>)
    ensures
        r == Patched::new(old(out)@).write(
            offset as int,
            bytes::spec_be64(value),
            ApplyError::OutOfBounds,
        ).result,
        final(out)@ == Patched::new(old(out)@).write(
            offset as int,
            bytes::spec_be64(value),
            ApplyError::OutOfBounds,
        ).bytes,
{
    let b: [u8; 8] = be64(value);
    put_bytes(out, offset, &b)
}

/// Relaxes a TLS access to local-exec or initial-exec: rewrites the
/// instruction a marker (`R_390_TLS_GDCALL`, `LDCALL`, `LOAD`) is on, or
/// stores the relaxed value of a literal pool entry.
///
/// # Errors
///
/// [`ApplyError`] for unrecognized instructions.
pub fn relax_tls(
    out: &mut [u8],
    offset: u64,
    kind: Kind,
    r_type: u32,
    values: RelaxValues,
) -> (r: Result<(), ApplyError>)
    ensures
        r == spec_relax_tls(old(out)@, offset, kind, r_type, values).result,
        final(out)@ == spec_relax_tls(old(out)@, offset, kind, r_type, values).bytes,
{
    match (kind, r_type) {
        (Kind::GdToIe, R_390_TLS_GD64) => put_pool(
            out,
            offset,
            values.got.wrapping_sub(values.got_base),
        ),
        (Kind::GdToLe | Kind::IeToLe, R_390_TLS_GD64 | R_390_TLS_GOTIE64 | R_390_TLS_IE64) => put_pool(
            out,
            offset,
            values.tpoff as u64,
        ),
        (Kind::LdToLe, R_390_TLS_LDM64) => put_pool(out, offset, 0),
        (Kind::GdToIe, R_390_TLS_GDCALL) => replace_call(out, offset, &insn::LG_R2_GOT),
        (Kind::GdToLe, R_390_TLS_GDCALL) | (Kind::LdToLe, R_390_TLS_LDCALL) => replace_call(
            out,
            offset,
            &insn::BRCL_NOP,
        ),
        (Kind::IeToLe, R_390_TLS_LOAD) => {
            let Some(at) = place(out.len(), offset, 6) else {
                return Err(ApplyError::OutOfBounds);
            };
            let load: [u8; 6] = [
                out[at],
                out[at + 1],
                out[at + 2],
                out[at + 3],
                out[at + 4],
                out[at + 5],
            ];
            assert(load@ =~= out@.subrange(at as int, at + 6));
            match insn::ie_load_to_le(&load) {
                Some(code) => put_bytes(out, offset, &code),
                None => Err(ApplyError::BadInstruction),
            }
        },
        _ => Err(ApplyError::BadInstruction),
    }
}

/// Size of the PLT header.
pub const PLT_HEADER_SIZE: u64 = 32;

/// Size of a PLT entry and of an IFUNC stub.
pub const PLT_ENTRY_SIZE: u64 = 32;

/// What [`write_plt_header`] does.
pub open spec fn spec_write_plt_header(s: Seq<u8>, plt: u64, got: u64) -> Patched {
    Patched::new(s).require(insn::header_reaches(plt, got), ApplyError::Overflow).write(
        0,
        insn::header_code(plt, got),
        ApplyError::OutOfBounds,
    )
}

/// Writes the PLT header at address `plt`, which reaches the dynamic
/// linker's words at the GOT pointer `got`.
///
/// # Errors
///
/// [`ApplyError::Overflow`] when the GOT is out of reach.
pub fn write_plt_header(out: &mut [u8], plt: u64, got: u64) -> (r: Result<(), ApplyError>)
    ensures
        r == spec_write_plt_header(old(out)@, plt, got).result,
        final(out)@ == spec_write_plt_header(old(out)@, plt, got).bytes,
{
    match insn::plt_header(plt, got) {
        Ok(code) => put_bytes(out, 0, &code),
        Err(_) => Err(ApplyError::Overflow),
    }
}

/// `p` with the code of a PLT entry at its start.
pub open spec fn with_entry(p: Patched, entry: u64, slot: u64, plt: u64, rela: u32) -> Patched {
    p.require(insn::entry_reaches(entry, slot, plt), ApplyError::Overflow).write(
        0,
        insn::entry_code(entry, slot, plt, rela),
        ApplyError::OutOfBounds,
    )
}

/// What [`write_plt_entry`] does.
pub open spec fn spec_write_plt_entry(
    s: Seq<u8>,
    entry: u64,
    slot_address: u64,
    index: u32,
    plt: u64,
) -> Patched {
    // The byte offset of the entry's relocation in `.rela.plt`.
    with_entry(
        Patched::new(s).require(index * 24 <= u32::MAX, ApplyError::Overflow),
        entry,
        slot_address,
        plt,
        (index * 24) as u32,
    )
}

/// Writes PLT entry `index` at `entry`, which jumps through `.got.plt` slot
/// `slot_address` and falls back to the header at `plt`.
///
/// # Errors
///
/// [`ApplyError::Overflow`] when out of reach.
pub fn write_plt_entry(
    out: &mut [u8],
    entry: u64,
    slot_address: u64,
    index: u32,
    plt: u64,
) -> (r: Result<(), ApplyError>)
    ensures
        r == spec_write_plt_entry(old(out)@, entry, slot_address, index, plt).result,
        final(out)@ == spec_write_plt_entry(old(out)@, entry, slot_address, index, plt).bytes,
{
    let Some(rela) = index.checked_mul(24) else {
        return Err(ApplyError::Overflow);
    };
    match insn::plt_entry(entry, slot_address, plt, rela) {
        Ok(code) => put_bytes(out, 0, &code),
        Err(_) => Err(ApplyError::Overflow),
    }
}

/// Writes the IFUNC stub at `stub` of a static executable, which jumps
/// through the slot at `slot_address` (filled by `R_390_IRELATIVE`). GNU
/// ld writes a whole PLT entry; the lazy half is never reached, and here
/// branches to itself.
///
/// # Errors
///
/// [`ApplyError::Overflow`] when out of reach.
pub fn write_iplt(out: &mut [u8], stub: u64, slot_address: u64) -> (r: Result<(), ApplyError>)
    ensures
        r == with_entry(
            Patched::new(old(out)@),
            stub,
            slot_address,
            stub.wrapping_add(22),
            0,
        ).result,
        final(out)@ == with_entry(
            Patched::new(old(out)@),
            stub,
            slot_address,
            stub.wrapping_add(22),
            0,
        ).bytes,
{
    match insn::plt_entry(stub, slot_address, stub.wrapping_add(22), 0) {
        Ok(code) => put_bytes(out, 0, &code),
        Err(_) => Err(ApplyError::Overflow),
    }
}

/// Fills `out` with no-op instructions.
pub fn write_nops(out: &mut [u8])
    ensures
        final(out)@ == Seq::new(old(out)@.len(), |i: int| 0x07u8),
{
    insn::write_nops(out);
}

/// Shared objects keep the TLS models their code was compiled for.
pub proof fn shared_objects_keep_tls_models(
    r_type: u32,
    data: Seq<u8>,
    offset: u64,
    context: ClassifyContext,
)
    requires
        context.tls == TlsMode::Dynamic,
        context.tls_ld == TlsMode::Dynamic,
    ensures
        match spec_classify(r_type, data, offset, context) {
            Ok(class) => !super::changes_tls_model(class.kind),
            Err(_) => true,
        },
{
}

/// The field that each relocation type of the s390x ELF ABI fills, by the
/// number of the type and by what is computed, and the GOT entry it goes
/// through.
pub open spec fn abi_field(kind: Kind, r_type: u32) -> Option<(Width, GotKind)> {
    match kind {
        Kind::Abs => match r_type {
            1 => Some((Width::Any8, GotKind::Address)),
            2 => Some((Width::S390(Field::Imm12), GotKind::Address)),
            3 => Some((Width::Any16, GotKind::Address)),
            4 => Some((Width::Any32, GotKind::Address)),
            22 => Some((Width::W64, GotKind::Address)),
            57 => Some((Width::S390(Field::Disp20), GotKind::Address)),
            _ => None,
        },
        Kind::Pc => match r_type {
            5 | 8 => Some((Width::Any32, GotKind::Address)),
            16 => Some((Width::Any16, GotKind::Address)),
            17 | 18 => Some((Width::S390(Field::Pc16Dbl), GotKind::Address)),
            19 | 20 => Some((Width::S390(Field::Pc32Dbl), GotKind::Address)),
            23 | 25 => Some((Width::W64, GotKind::Address)),
            62 | 63 => Some((Width::S390(Field::Pc12Dbl), GotKind::Address)),
            64 | 65 => Some((Width::S390(Field::Pc24Dbl), GotKind::Address)),
            _ => None,
        },
        Kind::Got => match r_type {
            26 | 33 => Some((Width::S390(Field::Pc32Dbl), GotKind::Address)),
            49 => Some((Width::S390(Field::Pc32Dbl), GotKind::TpOff)),
            _ => None,
        },
        Kind::GotSlotRel => match r_type {
            6 | 29 => Some((Width::S390(Field::Imm12), GotKind::Address)),
            7 | 31 => Some((Width::Any32, GotKind::Address)),
            15 | 30 => Some((Width::Any16, GotKind::Address)),
            24 | 32 => Some((Width::W64, GotKind::Address)),
            42 => Some((Width::S390(Field::Imm12), GotKind::TpOff)),
            58 | 59 => Some((Width::S390(Field::Disp20), GotKind::Address)),
            60 => Some((Width::S390(Field::Disp20), GotKind::TpOff)),
            _ => None,
        },
        Kind::GotRel => match r_type {
            13 => Some((Width::Any32, GotKind::Address)),
            27 => Some((Width::Any16, GotKind::Address)),
            28 => Some((Width::W64, GotKind::Address)),
            _ => None,
        },
        Kind::GotBasePc => match r_type {
            14 => Some((Width::W64, GotKind::Address)),
            21 => Some((Width::S390(Field::Pc32Dbl), GotKind::Address)),
            _ => None,
        },
        Kind::TpOff => match r_type {
            51 => Some((Width::W64, GotKind::Address)),
            _ => None,
        },
        Kind::DtpOff => match r_type {
            53 => Some((Width::W64, GotKind::Address)),
            _ => None,
        },
        Kind::Nothing => match r_type {
            0 | 250 | 251 => Some((Width::Nothing, GotKind::Address)),
            _ => None,
        },
        _ => None,
    }
}

/// Every relocation type computes what the ABI defines for it and fills the
/// field the ABI gives it, whatever the code around it (but for those that
/// relaxation may rewrite); and
/// no other type is taken for one that computes `S + A`, `S + A - P` or the
/// like.
#[verifier::spinoff_prover]
#[verifier::rlimit(80)]
pub proof fn types_compute_what_the_abi_says(r_type: u32, data: Seq<u8>, offset: u64, context: ClassifyContext, kind: Kind)
    ensures
        abi_field(kind, r_type) matches Some((width, slot)) ==> ((r_type == 26 || r_type == 58) && (context.relax_got || context.tls == TlsMode::LocalExec) || spec_classify(r_type, data, offset, context) == Ok::<Class, ClassifyError>(Class { kind, width, slot, skip_next: false })),
        spec_classify(r_type, data, offset, context) matches Ok(c) ==> ((c.kind == Kind::Abs || c.kind == Kind::Pc || c.kind == Kind::Got || c.kind == Kind::GotRel || c.kind == Kind::GotBasePc || c.kind == Kind::TpOff || c.kind == Kind::DtpOff) ==> abi_field(c.kind, r_type) == Some((c.width, c.slot))),
{
}

/// What each thread-local relocation type becomes, by its number, in an
/// access of one model or another: what is computed, the field, the GOT entry,
/// and whether the relocation that follows is taken along.
pub open spec fn tls_access(r_type: u32, tls: TlsMode, tls_ld: TlsMode) -> Option<
    (Kind, Width, GotKind, bool),
> {
    match r_type {
        37 => match tls {
            TlsMode::LocalExec => Some((Kind::IeToLe, Width::Nothing, GotKind::Address, false)),
            TlsMode::InitialExec => Some((Kind::Nothing, Width::Nothing, GotKind::Address, false)),
            TlsMode::Dynamic => Some((Kind::Nothing, Width::Nothing, GotKind::Address, false)),
        },
        38 => match tls {
            TlsMode::LocalExec => None,
            TlsMode::InitialExec => None,
            TlsMode::Dynamic => Some((Kind::Nothing, Width::Nothing, GotKind::Address, false)),
        },
        39 => match tls_ld {
            TlsMode::LocalExec => None,
            TlsMode::InitialExec => Some((Kind::Nothing, Width::Nothing, GotKind::Address, false)),
            TlsMode::Dynamic => Some((Kind::Nothing, Width::Nothing, GotKind::Address, false)),
        },
        41 => match tls {
            TlsMode::LocalExec => Some((Kind::GdToLe, Width::W64, GotKind::Address, false)),
            TlsMode::InitialExec => Some((Kind::GdToIe, Width::W64, GotKind::Address, false)),
            TlsMode::Dynamic => Some((Kind::GotSlotRel, Width::W64, GotKind::TlsGd, false)),
        },
        44 => match tls {
            TlsMode::LocalExec => Some((Kind::IeToLe, Width::W64, GotKind::Address, false)),
            TlsMode::InitialExec => Some((Kind::GotSlotRel, Width::W64, GotKind::TpOff, false)),
            TlsMode::Dynamic => Some((Kind::GotSlotRel, Width::W64, GotKind::TpOff, false)),
        },
        46 => match tls_ld {
            TlsMode::LocalExec => Some((Kind::LdToLe, Width::W64, GotKind::Address, false)),
            TlsMode::InitialExec => Some((Kind::GotSlotRel, Width::W64, GotKind::TlsLd, false)),
            TlsMode::Dynamic => Some((Kind::GotSlotRel, Width::W64, GotKind::TlsLd, false)),
        },
        48 => match tls {
            TlsMode::LocalExec => Some((Kind::IeToLe, Width::W64, GotKind::Address, false)),
            TlsMode::InitialExec => Some((Kind::GotAbs, Width::W64, GotKind::TpOff, false)),
            TlsMode::Dynamic => Some((Kind::GotAbs, Width::W64, GotKind::TpOff, false)),
        },
        _ => None,
    }
}

/// Thread-local accesses follow the model they are linked with.
#[verifier::spinoff_prover]
#[verifier::rlimit(80)]
pub proof fn thread_local_types_follow_the_model(r_type: u32, data: Seq<u8>, offset: u64, context: ClassifyContext)
    ensures
        tls_access(r_type, context.tls, context.tls_ld) matches Some((kind, width, slot, skip_next)) ==> spec_classify(r_type, data, offset, context) == Ok::<Class, ClassifyError>(Class { kind, width, slot, skip_next }),
{
}

} // verus!
