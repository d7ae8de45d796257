//! 32-bit Arm (`armelf_linux_eabi`: ARMv7-A, little-endian) relocations.
//!
//! Arm objects use `SHT_REL`: a relocation's addend is in the field it
//! patches, which for most relocations is an instruction field
//! ([`implicit_addend`], [`crate::arch::arm::Field::decode`]); dynamic
//! relocations are `SHT_REL` too, as on i386.
//!
//! Code comes in two instruction sets, A32 ("Arm") and Thumb, which call
//! each other. A Thumb function's symbol has bit 0 of its value set, so `S`
//! of a relocation against it carries the Thumb bit that the ABI's `T`
//! stands for. Besides [`classify`], the backend has its own section
//! writer ([`apply`]), because of what Arm branches need:
//!
//! - **Interworking.** A `bl` to a function in the other state becomes a
//!   `blx` (and back), in both A32 and Thumb, as GNU ld and lld do for
//!   `R_ARM_CALL` and `R_ARM_THM_CALL` against `STT_FUNC` symbols and PLT
//!   entries (which are A32). A branch that cannot change state (`b`,
//!   `b.w`, `bl<cond>`) goes through an interworking thunk.
//! - **Range extension.** A32 branches reach +/-32 MiB, Thumb-2 `bl`/`b.w`
//!   +/-16 MiB and `b<cond>.w` +/-1 MiB. Farther branches go through a thunk
//!   placed by the shared thunk framework ([`super::thunk`]); [`thunks`]
//!   decides which branches need one. A thunk is in its callers' state and
//!   loads the destination with `movw`/`movt` (position-independent in a
//!   PIE or shared object) and `bx`s to it.
//! - **Undefined weak** branch targets without a PLT entry become `nop`s,
//!   as in GNU ld.
//!
//! The exception index (`.ARM.exidx`, [`exidx`]) is rebuilt as one table
//! sorted by code address, with `EXIDX_CANTUNWIND` entries for code
//! without unwind information and a terminating sentinel, and
//! `.ARM.attributes` sections are merged into one ([`attributes`]), which
//! also gives the float ABI of `e_flags`.
//!
//! **TLS** follows lld: general-dynamic, local-dynamic, initial-exec and
//! local-exec accesses are linked as they are, without relaxation (the
//! code sequences are not fixed enough to rewrite); GOT pairs and entries
//! are link-time constants in an executable.
//!
//! **The PLT** is GNU ld's: a 20-byte header that jumps to the resolver
//! through `.got.plt[2]` and 12-byte A32 entries (`add ip, pc; add ip, ip;
//! ldr pc, [ip]!`). Thumb callers reach it with `blx`.

pub mod apply;
pub mod attributes;
pub mod exidx;
pub mod thunks;

use vstd::prelude::*;

use super::{ApplyError, Class, ClassifyContext, ClassifyError, GotKind, Kind, Width};
use super::patch::{put_word, Patched};
use crate::arch::arm::Field;
use crate::arch::arm as insn;
use crate::bits;
use crate::bits::fits_signed;
use crate::bytes;
use crate::bytes::{get_byte, get_u16, get_u32};
use crate::elf::layout::Placement;
use crate::elf::refs::Refs;

verus! {

/// No relocation.
pub const R_ARM_NONE: u32 = 0;

/// A32 `b`/`bl` (deprecated form of `CALL`/`JUMP24`).
pub const R_ARM_PC24: u32 = 1;

/// `S + A | T`, 32 bits.
pub const R_ARM_ABS32: u32 = 2;

/// `(S + A | T) - P`, 32 bits.
pub const R_ARM_REL32: u32 = 3;

/// A32 `ldr` from a literal, `S + A - P`.
pub const R_ARM_LDR_PC_G0: u32 = 4;

/// `S + A`, 16 bits.
pub const R_ARM_ABS16: u32 = 5;

/// `S + A`, 8 bits.
pub const R_ARM_ABS8: u32 = 8;

/// Thumb `bl`/`blx`.
pub const R_ARM_THM_CALL: u32 = 10;

/// Dynamic: a TLS descriptor.
pub const R_ARM_TLS_DESC: u32 = 13;

/// Dynamic: the TLS module ID.
pub const R_ARM_TLS_DTPMOD32: u32 = 17;

/// Dynamic: the offset in the module's TLS block.
pub const R_ARM_TLS_DTPOFF32: u32 = 18;

/// Dynamic: the offset from the thread pointer.
pub const R_ARM_TLS_TPOFF32: u32 = 19;

/// Dynamic: copy relocation.
pub const R_ARM_COPY: u32 = 20;

/// Dynamic: a GOT entry.
pub const R_ARM_GLOB_DAT: u32 = 21;

/// Dynamic: a PLT slot.
pub const R_ARM_JUMP_SLOT: u32 = 22;

/// Dynamic: the load base plus the addend.
pub const R_ARM_RELATIVE: u32 = 23;

/// `S + A - GOT_ORG`.
pub const R_ARM_GOTOFF32: u32 = 24;

/// `GOT_ORG + A - P`.
pub const R_ARM_BASE_PREL: u32 = 25;

/// `GOT(S) + A - GOT_ORG`.
pub const R_ARM_GOT_BREL: u32 = 26;

/// A32 `bl` (deprecated).
pub const R_ARM_PLT32: u32 = 27;

/// A32 `bl`/`blx`.
pub const R_ARM_CALL: u32 = 28;

/// A32 `b`, `bl<cond>`.
pub const R_ARM_JUMP24: u32 = 29;

/// Thumb-2 `b.w`.
pub const R_ARM_THM_JUMP24: u32 = 30;

/// `GOT_ORG + A`.
pub const R_ARM_BASE_ABS: u32 = 31;

/// `R_ARM_ABS32` on Linux (`.init_array`), or `R_ARM_REL32` with
/// `--target1-rel`.
pub const R_ARM_TARGET1: u32 = 38;

/// Marks a `bx` for `--fix-v4bx`.
pub const R_ARM_V4BX: u32 = 40;

/// `R_ARM_GOT_PREL` on Linux (exception tables' type information).
pub const R_ARM_TARGET2: u32 = 41;

/// `(S + A | T) - P`, 31 bits (`.ARM.exidx`, `.ARM.extab`).
pub const R_ARM_PREL31: u32 = 42;

/// A32 `movw` of `S + A | T`.
pub const R_ARM_MOVW_ABS_NC: u32 = 43;

/// A32 `movt` of `S + A`.
pub const R_ARM_MOVT_ABS: u32 = 44;

/// A32 `movw` of `(S + A | T) - P`.
pub const R_ARM_MOVW_PREL_NC: u32 = 45;

/// A32 `movt` of `S + A - P`.
pub const R_ARM_MOVT_PREL: u32 = 46;

/// Thumb `movw` of `S + A | T`.
pub const R_ARM_THM_MOVW_ABS_NC: u32 = 47;

/// Thumb `movt` of `S + A`.
pub const R_ARM_THM_MOVT_ABS: u32 = 48;

/// Thumb `movw` of `(S + A | T) - P`.
pub const R_ARM_THM_MOVW_PREL_NC: u32 = 49;

/// Thumb `movt` of `S + A - P`.
pub const R_ARM_THM_MOVT_PREL: u32 = 50;

/// Thumb-2 `b<cond>.w`.
pub const R_ARM_THM_JUMP19: u32 = 51;

/// Thumb-2 `adr.w`.
pub const R_ARM_THM_ALU_PREL_11_0: u32 = 53;

/// Thumb-2 `ldr.w` from a literal.
pub const R_ARM_THM_PC12: u32 = 54;

/// `S + A`, 32 bits, not to be turned into an interworking address.
pub const R_ARM_ABS32_NOI: u32 = 55;

/// `S + A - P`, 32 bits, likewise.
pub const R_ARM_REL32_NOI: u32 = 56;

/// A32 `add`/`sub` from the PC, unchecked.
pub const R_ARM_ALU_PC_G0_NC: u32 = 57;

/// A32 `add`/`sub` from the PC.
pub const R_ARM_ALU_PC_G0: u32 = 58;

/// A TLS descriptor's GOT entry (GNU descriptors).
pub const R_ARM_TLS_GOTDESC: u32 = 90;

/// A32 call to a TLS descriptor's resolver.
pub const R_ARM_TLS_CALL: u32 = 91;

/// A32 TLS descriptor sequence marker.
pub const R_ARM_TLS_DESCSEQ: u32 = 92;

/// Thumb call to a TLS descriptor's resolver.
pub const R_ARM_THM_TLS_CALL: u32 = 93;

/// `GOT(S) + A`.
pub const R_ARM_GOT_ABS: u32 = 95;

/// `GOT(S) + A - P`.
pub const R_ARM_GOT_PREL: u32 = 96;

/// C++ virtual table garbage collection marker.
pub const R_ARM_GNU_VTENTRY: u32 = 100;

/// C++ virtual table garbage collection marker.
pub const R_ARM_GNU_VTINHERIT: u32 = 101;

/// Thumb `b`.
pub const R_ARM_THM_JUMP11: u32 = 102;

/// Thumb `b<cond>`.
pub const R_ARM_THM_JUMP8: u32 = 103;

/// `GOT_TLSGD(S) + A - P`: general-dynamic.
pub const R_ARM_TLS_GD32: u32 = 104;

/// `GOT_TLSLDM + A - P`: local-dynamic.
pub const R_ARM_TLS_LDM32: u32 = 105;

/// `S + A - TLS`: the offset in the module's block.
pub const R_ARM_TLS_LDO32: u32 = 106;

/// `GOT_TPOFF(S) + A - P`: initial-exec.
pub const R_ARM_TLS_IE32: u32 = 107;

/// `S + A - TP`: local-exec.
pub const R_ARM_TLS_LE32: u32 = 108;

/// Thumb TLS descriptor sequence marker (16-bit).
pub const R_ARM_THM_TLS_DESCSEQ16: u32 = 129;

/// Thumb TLS descriptor sequence marker (32-bit).
pub const R_ARM_THM_TLS_DESCSEQ32: u32 = 130;

/// Dynamic: an IFUNC resolved at startup.
pub const R_ARM_IRELATIVE: u32 = 160;

/// Section type of `.ARM.exidx`.
pub const SHT_ARM_EXIDX: u32 = 0x7000_0001;

/// Section type of `.ARM.attributes`.
pub const SHT_ARM_ATTRIBUTES: u32 = 0x7000_0003;

/// `p_type` of the segment that covers `.ARM.exidx`.
pub const PT_ARM_EXIDX: u32 = 0x7000_0001;

/// `e_flags`: EABI version 5.
pub const EF_ARM_EABI_VER5: u32 = 0x0500_0000;

/// `e_flags`: the EABI version field.
pub const EF_ARM_EABIMASK: u32 = 0xff00_0000;

/// `e_flags`: the base procedure call standard (floating-point arguments
/// in core registers).
pub const EF_ARM_ABI_FLOAT_SOFT: u32 = 0x200;

/// `e_flags`: floating-point arguments in VFP registers.
pub const EF_ARM_ABI_FLOAT_HARD: u32 = 0x400;

/// Size of the PLT header.
pub const PLT_HEADER_SIZE: u64 = 20;

/// Size of one PLT entry (and IFUNC stub).
pub const PLT_ENTRY_SIZE: u64 = 12;

/// The name of relocation type `r_type`, as `readelf` prints it.
#[verifier::allow_in_spec]
pub fn reloc_name(r_type: u32) -> Option<&'static str>
    returns
        (match r_type {
            R_ARM_NONE => Some("R_ARM_NONE"),
            R_ARM_PC24 => Some("R_ARM_PC24"),
            R_ARM_ABS32 => Some("R_ARM_ABS32"),
            R_ARM_REL32 => Some("R_ARM_REL32"),
            R_ARM_LDR_PC_G0 => Some("R_ARM_LDR_PC_G0"),
            R_ARM_ABS16 => Some("R_ARM_ABS16"),
            6 => Some("R_ARM_ABS12"),
            7 => Some("R_ARM_THM_ABS5"),
            R_ARM_ABS8 => Some("R_ARM_ABS8"),
            9 => Some("R_ARM_SBREL32"),
            R_ARM_THM_CALL => Some("R_ARM_THM_CALL"),
            11 => Some("R_ARM_THM_PC8"),
            12 => Some("R_ARM_BREL_ADJ"),
            R_ARM_TLS_DESC => Some("R_ARM_TLS_DESC"),
            R_ARM_TLS_DTPMOD32 => Some("R_ARM_TLS_DTPMOD32"),
            R_ARM_TLS_DTPOFF32 => Some("R_ARM_TLS_DTPOFF32"),
            R_ARM_TLS_TPOFF32 => Some("R_ARM_TLS_TPOFF32"),
            R_ARM_COPY => Some("R_ARM_COPY"),
            R_ARM_GLOB_DAT => Some("R_ARM_GLOB_DAT"),
            R_ARM_JUMP_SLOT => Some("R_ARM_JUMP_SLOT"),
            R_ARM_RELATIVE => Some("R_ARM_RELATIVE"),
            R_ARM_GOTOFF32 => Some("R_ARM_GOTOFF32"),
            R_ARM_BASE_PREL => Some("R_ARM_BASE_PREL"),
            R_ARM_GOT_BREL => Some("R_ARM_GOT_BREL"),
            R_ARM_PLT32 => Some("R_ARM_PLT32"),
            R_ARM_CALL => Some("R_ARM_CALL"),
            R_ARM_JUMP24 => Some("R_ARM_JUMP24"),
            R_ARM_THM_JUMP24 => Some("R_ARM_THM_JUMP24"),
            R_ARM_BASE_ABS => Some("R_ARM_BASE_ABS"),
            R_ARM_TARGET1 => Some("R_ARM_TARGET1"),
            39 => Some("R_ARM_SBREL31"),
            R_ARM_V4BX => Some("R_ARM_V4BX"),
            R_ARM_TARGET2 => Some("R_ARM_TARGET2"),
            R_ARM_PREL31 => Some("R_ARM_PREL31"),
            R_ARM_MOVW_ABS_NC => Some("R_ARM_MOVW_ABS_NC"),
            R_ARM_MOVT_ABS => Some("R_ARM_MOVT_ABS"),
            R_ARM_MOVW_PREL_NC => Some("R_ARM_MOVW_PREL_NC"),
            R_ARM_MOVT_PREL => Some("R_ARM_MOVT_PREL"),
            R_ARM_THM_MOVW_ABS_NC => Some("R_ARM_THM_MOVW_ABS_NC"),
            R_ARM_THM_MOVT_ABS => Some("R_ARM_THM_MOVT_ABS"),
            R_ARM_THM_MOVW_PREL_NC => Some("R_ARM_THM_MOVW_PREL_NC"),
            R_ARM_THM_MOVT_PREL => Some("R_ARM_THM_MOVT_PREL"),
            R_ARM_THM_JUMP19 => Some("R_ARM_THM_JUMP19"),
            52 => Some("R_ARM_THM_JUMP6"),
            R_ARM_THM_ALU_PREL_11_0 => Some("R_ARM_THM_ALU_PREL_11_0"),
            R_ARM_THM_PC12 => Some("R_ARM_THM_PC12"),
            R_ARM_ABS32_NOI => Some("R_ARM_ABS32_NOI"),
            R_ARM_REL32_NOI => Some("R_ARM_REL32_NOI"),
            R_ARM_ALU_PC_G0_NC => Some("R_ARM_ALU_PC_G0_NC"),
            R_ARM_ALU_PC_G0 => Some("R_ARM_ALU_PC_G0"),
            59 => Some("R_ARM_ALU_PC_G1_NC"),
            60 => Some("R_ARM_ALU_PC_G1"),
            61 => Some("R_ARM_ALU_PC_G2"),
            62 => Some("R_ARM_LDR_PC_G1"),
            63 => Some("R_ARM_LDR_PC_G2"),
            64 => Some("R_ARM_LDRS_PC_G0"),
            65 => Some("R_ARM_LDRS_PC_G1"),
            66 => Some("R_ARM_LDRS_PC_G2"),
            67 => Some("R_ARM_LDC_PC_G0"),
            68 => Some("R_ARM_LDC_PC_G1"),
            69 => Some("R_ARM_LDC_PC_G2"),
            R_ARM_TLS_GOTDESC => Some("R_ARM_TLS_GOTDESC"),
            R_ARM_TLS_CALL => Some("R_ARM_TLS_CALL"),
            R_ARM_TLS_DESCSEQ => Some("R_ARM_TLS_DESCSEQ"),
            R_ARM_THM_TLS_CALL => Some("R_ARM_THM_TLS_CALL"),
            94 => Some("R_ARM_PLT32_ABS"),
            R_ARM_GOT_ABS => Some("R_ARM_GOT_ABS"),
            R_ARM_GOT_PREL => Some("R_ARM_GOT_PREL"),
            97 => Some("R_ARM_GOT_BREL12"),
            98 => Some("R_ARM_GOTOFF12"),
            99 => Some("R_ARM_GOTRELAX"),
            R_ARM_GNU_VTENTRY => Some("R_ARM_GNU_VTENTRY"),
            R_ARM_GNU_VTINHERIT => Some("R_ARM_GNU_VTINHERIT"),
            R_ARM_THM_JUMP11 => Some("R_ARM_THM_JUMP11"),
            R_ARM_THM_JUMP8 => Some("R_ARM_THM_JUMP8"),
            R_ARM_TLS_GD32 => Some("R_ARM_TLS_GD32"),
            R_ARM_TLS_LDM32 => Some("R_ARM_TLS_LDM32"),
            R_ARM_TLS_LDO32 => Some("R_ARM_TLS_LDO32"),
            R_ARM_TLS_IE32 => Some("R_ARM_TLS_IE32"),
            R_ARM_TLS_LE32 => Some("R_ARM_TLS_LE32"),
            109 => Some("R_ARM_TLS_LDO12"),
            110 => Some("R_ARM_TLS_LE12"),
            111 => Some("R_ARM_TLS_IE12GP"),
            R_ARM_THM_TLS_DESCSEQ16 => Some("R_ARM_THM_TLS_DESCSEQ16"),
            R_ARM_THM_TLS_DESCSEQ32 => Some("R_ARM_THM_TLS_DESCSEQ32"),
            R_ARM_IRELATIVE => Some("R_ARM_IRELATIVE"),
            _ => None,
        }),
{
    match r_type {
        R_ARM_NONE => Some("R_ARM_NONE"),
        R_ARM_PC24 => Some("R_ARM_PC24"),
        R_ARM_ABS32 => Some("R_ARM_ABS32"),
        R_ARM_REL32 => Some("R_ARM_REL32"),
        R_ARM_LDR_PC_G0 => Some("R_ARM_LDR_PC_G0"),
        R_ARM_ABS16 => Some("R_ARM_ABS16"),
        6 => Some("R_ARM_ABS12"),
        7 => Some("R_ARM_THM_ABS5"),
        R_ARM_ABS8 => Some("R_ARM_ABS8"),
        9 => Some("R_ARM_SBREL32"),
        R_ARM_THM_CALL => Some("R_ARM_THM_CALL"),
        11 => Some("R_ARM_THM_PC8"),
        12 => Some("R_ARM_BREL_ADJ"),
        R_ARM_TLS_DESC => Some("R_ARM_TLS_DESC"),
        R_ARM_TLS_DTPMOD32 => Some("R_ARM_TLS_DTPMOD32"),
        R_ARM_TLS_DTPOFF32 => Some("R_ARM_TLS_DTPOFF32"),
        R_ARM_TLS_TPOFF32 => Some("R_ARM_TLS_TPOFF32"),
        R_ARM_COPY => Some("R_ARM_COPY"),
        R_ARM_GLOB_DAT => Some("R_ARM_GLOB_DAT"),
        R_ARM_JUMP_SLOT => Some("R_ARM_JUMP_SLOT"),
        R_ARM_RELATIVE => Some("R_ARM_RELATIVE"),
        R_ARM_GOTOFF32 => Some("R_ARM_GOTOFF32"),
        R_ARM_BASE_PREL => Some("R_ARM_BASE_PREL"),
        R_ARM_GOT_BREL => Some("R_ARM_GOT_BREL"),
        R_ARM_PLT32 => Some("R_ARM_PLT32"),
        R_ARM_CALL => Some("R_ARM_CALL"),
        R_ARM_JUMP24 => Some("R_ARM_JUMP24"),
        R_ARM_THM_JUMP24 => Some("R_ARM_THM_JUMP24"),
        R_ARM_BASE_ABS => Some("R_ARM_BASE_ABS"),
        R_ARM_TARGET1 => Some("R_ARM_TARGET1"),
        39 => Some("R_ARM_SBREL31"),
        R_ARM_V4BX => Some("R_ARM_V4BX"),
        R_ARM_TARGET2 => Some("R_ARM_TARGET2"),
        R_ARM_PREL31 => Some("R_ARM_PREL31"),
        R_ARM_MOVW_ABS_NC => Some("R_ARM_MOVW_ABS_NC"),
        R_ARM_MOVT_ABS => Some("R_ARM_MOVT_ABS"),
        R_ARM_MOVW_PREL_NC => Some("R_ARM_MOVW_PREL_NC"),
        R_ARM_MOVT_PREL => Some("R_ARM_MOVT_PREL"),
        R_ARM_THM_MOVW_ABS_NC => Some("R_ARM_THM_MOVW_ABS_NC"),
        R_ARM_THM_MOVT_ABS => Some("R_ARM_THM_MOVT_ABS"),
        R_ARM_THM_MOVW_PREL_NC => Some("R_ARM_THM_MOVW_PREL_NC"),
        R_ARM_THM_MOVT_PREL => Some("R_ARM_THM_MOVT_PREL"),
        R_ARM_THM_JUMP19 => Some("R_ARM_THM_JUMP19"),
        52 => Some("R_ARM_THM_JUMP6"),
        R_ARM_THM_ALU_PREL_11_0 => Some("R_ARM_THM_ALU_PREL_11_0"),
        R_ARM_THM_PC12 => Some("R_ARM_THM_PC12"),
        R_ARM_ABS32_NOI => Some("R_ARM_ABS32_NOI"),
        R_ARM_REL32_NOI => Some("R_ARM_REL32_NOI"),
        R_ARM_ALU_PC_G0_NC => Some("R_ARM_ALU_PC_G0_NC"),
        R_ARM_ALU_PC_G0 => Some("R_ARM_ALU_PC_G0"),
        59 => Some("R_ARM_ALU_PC_G1_NC"),
        60 => Some("R_ARM_ALU_PC_G1"),
        61 => Some("R_ARM_ALU_PC_G2"),
        62 => Some("R_ARM_LDR_PC_G1"),
        63 => Some("R_ARM_LDR_PC_G2"),
        64 => Some("R_ARM_LDRS_PC_G0"),
        65 => Some("R_ARM_LDRS_PC_G1"),
        66 => Some("R_ARM_LDRS_PC_G2"),
        67 => Some("R_ARM_LDC_PC_G0"),
        68 => Some("R_ARM_LDC_PC_G1"),
        69 => Some("R_ARM_LDC_PC_G2"),
        R_ARM_TLS_GOTDESC => Some("R_ARM_TLS_GOTDESC"),
        R_ARM_TLS_CALL => Some("R_ARM_TLS_CALL"),
        R_ARM_TLS_DESCSEQ => Some("R_ARM_TLS_DESCSEQ"),
        R_ARM_THM_TLS_CALL => Some("R_ARM_THM_TLS_CALL"),
        94 => Some("R_ARM_PLT32_ABS"),
        R_ARM_GOT_ABS => Some("R_ARM_GOT_ABS"),
        R_ARM_GOT_PREL => Some("R_ARM_GOT_PREL"),
        97 => Some("R_ARM_GOT_BREL12"),
        98 => Some("R_ARM_GOTOFF12"),
        99 => Some("R_ARM_GOTRELAX"),
        R_ARM_GNU_VTENTRY => Some("R_ARM_GNU_VTENTRY"),
        R_ARM_GNU_VTINHERIT => Some("R_ARM_GNU_VTINHERIT"),
        R_ARM_THM_JUMP11 => Some("R_ARM_THM_JUMP11"),
        R_ARM_THM_JUMP8 => Some("R_ARM_THM_JUMP8"),
        R_ARM_TLS_GD32 => Some("R_ARM_TLS_GD32"),
        R_ARM_TLS_LDM32 => Some("R_ARM_TLS_LDM32"),
        R_ARM_TLS_LDO32 => Some("R_ARM_TLS_LDO32"),
        R_ARM_TLS_IE32 => Some("R_ARM_TLS_IE32"),
        R_ARM_TLS_LE32 => Some("R_ARM_TLS_LE32"),
        109 => Some("R_ARM_TLS_LDO12"),
        110 => Some("R_ARM_TLS_LE12"),
        111 => Some("R_ARM_TLS_IE12GP"),
        R_ARM_THM_TLS_DESCSEQ16 => Some("R_ARM_THM_TLS_DESCSEQ16"),
        R_ARM_THM_TLS_DESCSEQ32 => Some("R_ARM_THM_TLS_DESCSEQ32"),
        R_ARM_IRELATIVE => Some("R_ARM_IRELATIVE"),
        _ => None,
    }
}

/// What a relocation patches.
#[derive(Clone, Copy, Debug, PartialEq, Eq, Structural)]
pub enum Patch {
    /// Nothing.
    Nothing,
    /// A little-endian data field of this many bytes.
    Data(u8),
    /// An instruction field.
    Insn(Field),
}

/// The field relocation `r_type` patches.
#[verifier::allow_in_spec]
pub fn patch_of(r_type: u32) -> Patch
    returns
        (match r_type {
            R_ARM_ABS32 | R_ARM_REL32 | R_ARM_TARGET1 | R_ARM_TARGET2 | R_ARM_ABS32_NOI
            | R_ARM_REL32_NOI | R_ARM_GOTOFF32 | R_ARM_BASE_PREL | R_ARM_GOT_BREL | R_ARM_BASE_ABS
            | R_ARM_GOT_ABS | R_ARM_GOT_PREL | R_ARM_TLS_GD32 | R_ARM_TLS_LDM32 | R_ARM_TLS_LDO32
            | R_ARM_TLS_IE32 | R_ARM_TLS_LE32 | R_ARM_TLS_GOTDESC => Patch::Data(4),
            R_ARM_ABS16 => Patch::Data(2),
            R_ARM_ABS8 => Patch::Data(1),
            R_ARM_PREL31 => Patch::Insn(Field::Prel31),
            R_ARM_PC24 | R_ARM_PLT32 | R_ARM_CALL | R_ARM_JUMP24 => Patch::Insn(Field::Branch24),
            R_ARM_THM_CALL | R_ARM_THM_JUMP24 => Patch::Insn(Field::ThumbBranch24),
            R_ARM_THM_JUMP19 => Patch::Insn(Field::ThumbBranch19),
            R_ARM_THM_JUMP11 => Patch::Insn(Field::ThumbBranch11),
            R_ARM_THM_JUMP8 => Patch::Insn(Field::ThumbBranch8),
            R_ARM_MOVW_ABS_NC | R_ARM_MOVW_PREL_NC => Patch::Insn(Field::Movw),
            R_ARM_MOVT_ABS | R_ARM_MOVT_PREL => Patch::Insn(Field::Movt),
            R_ARM_THM_MOVW_ABS_NC | R_ARM_THM_MOVW_PREL_NC => Patch::Insn(Field::ThumbMovw),
            R_ARM_THM_MOVT_ABS | R_ARM_THM_MOVT_PREL => Patch::Insn(Field::ThumbMovt),
            R_ARM_THM_ALU_PREL_11_0 => Patch::Insn(Field::ThumbAdr),
            R_ARM_THM_PC12 => Patch::Insn(Field::ThumbLdrLiteral),
            R_ARM_LDR_PC_G0 => Patch::Insn(Field::LdrLiteral),
            R_ARM_ALU_PC_G0 => Patch::Insn(Field::AluPc { checked: true }),
            R_ARM_ALU_PC_G0_NC => Patch::Insn(Field::AluPc { checked: false }),
            _ => Patch::Nothing,
        }),
{
    match r_type {
        R_ARM_ABS32 | R_ARM_REL32 | R_ARM_TARGET1 | R_ARM_TARGET2 | R_ARM_ABS32_NOI
        | R_ARM_REL32_NOI | R_ARM_GOTOFF32 | R_ARM_BASE_PREL | R_ARM_GOT_BREL | R_ARM_BASE_ABS
        | R_ARM_GOT_ABS | R_ARM_GOT_PREL | R_ARM_TLS_GD32 | R_ARM_TLS_LDM32 | R_ARM_TLS_LDO32
        | R_ARM_TLS_IE32 | R_ARM_TLS_LE32 | R_ARM_TLS_GOTDESC => Patch::Data(4),
        R_ARM_ABS16 => Patch::Data(2),
        R_ARM_ABS8 => Patch::Data(1),
        R_ARM_PREL31 => Patch::Insn(Field::Prel31),
        R_ARM_PC24 | R_ARM_PLT32 | R_ARM_CALL | R_ARM_JUMP24 => Patch::Insn(Field::Branch24),
        R_ARM_THM_CALL | R_ARM_THM_JUMP24 => Patch::Insn(Field::ThumbBranch24),
        R_ARM_THM_JUMP19 => Patch::Insn(Field::ThumbBranch19),
        R_ARM_THM_JUMP11 => Patch::Insn(Field::ThumbBranch11),
        R_ARM_THM_JUMP8 => Patch::Insn(Field::ThumbBranch8),
        R_ARM_MOVW_ABS_NC | R_ARM_MOVW_PREL_NC => Patch::Insn(Field::Movw),
        R_ARM_MOVT_ABS | R_ARM_MOVT_PREL => Patch::Insn(Field::Movt),
        R_ARM_THM_MOVW_ABS_NC | R_ARM_THM_MOVW_PREL_NC => Patch::Insn(Field::ThumbMovw),
        R_ARM_THM_MOVT_ABS | R_ARM_THM_MOVT_PREL => Patch::Insn(Field::ThumbMovt),
        R_ARM_THM_ALU_PREL_11_0 => Patch::Insn(Field::ThumbAdr),
        R_ARM_THM_PC12 => Patch::Insn(Field::ThumbLdrLiteral),
        R_ARM_LDR_PC_G0 => Patch::Insn(Field::LdrLiteral),
        R_ARM_ALU_PC_G0 => Patch::Insn(Field::AluPc { checked: true }),
        R_ARM_ALU_PC_G0_NC => Patch::Insn(Field::AluPc { checked: false }),
        _ => Patch::Nothing,
    }
}

/// What [`implicit_addend`] reads.
pub open spec fn spec_implicit_addend(r_type: u32, data: Seq<u8>, offset: u64) -> i64 {
    let at = offset as int;
    match patch_of(r_type) {
        Patch::Nothing => 0,
        Patch::Data(4) => match bytes::u32_at(data, at) {
            Some(w) => (w as i32) as i64,
            None => 0,
        },
        Patch::Data(2) => match bytes::u16_at(data, at) {
            Some(h) => (h as i16) as i64,
            None => 0,
        },
        Patch::Data(_) => match bytes::byte_at(data, at) {
            Some(b) => (b as i8) as i64,
            None => 0,
        },
        Patch::Insn(field) => match field.insn_at(data, at) {
            Some(i) => field.decoded(i),
            None => 0,
        },
    }
}

/// The addend of `SHT_REL` relocation `r_type` at `offset` in section
/// `data`: the contents of the field it patches, decoded.
pub fn implicit_addend(r_type: u32, data: &[u8], offset: u64) -> (r: i64)
    ensures
        r == spec_implicit_addend(r_type, data@, offset),
{
    match patch_of(r_type) {
        Patch::Nothing => 0,
        Patch::Data(4) => match get_u32(data, offset) {
            Some(w) => (w as i32) as i64,
            None => 0,
        },
        Patch::Data(2) => match get_u16(data, offset) {
            Some(h) => (h as i16) as i64,
            None => 0,
        },
        Patch::Data(_) => match get_byte(data, offset) {
            Some(b) => (b as i8) as i64,
            None => 0,
        },
        Patch::Insn(field) => match field.read(data, offset) {
            Some(i) => field.decode(i),
            None => 0,
        },
    }
}

/// A classification with no GOT entry.
#[verifier::allow_in_spec]
pub fn class(kind: Kind, width: Width) -> Class
    returns
        (Class::new(kind, width)),
{
    Class::new(kind, width)
}

/// A classification of an instruction field.
#[verifier::allow_in_spec]
pub fn field(kind: Kind, field: Field) -> Class
    returns
        (Class::new(kind, Width::Arm(field))),
{
    Class::new(kind, Width::Arm(field))
}

/// A word relative to GOT entry `slot`.
#[verifier::allow_in_spec]
pub fn got(kind: Kind, slot: GotKind) -> Class
    returns
        (Class::new(kind, Width::Any32).through(slot)),
{
    Class::new(kind, Width::Any32).through(slot)
}

/// What [`classify`] answers.
pub open spec fn spec_classify(
    r_type: u32,
    _context: ClassifyContext,
) -> Result<Class, ClassifyError> {
    match r_type {
        R_ARM_NONE | R_ARM_V4BX | R_ARM_GNU_VTENTRY | R_ARM_GNU_VTINHERIT => Ok(
            class(Kind::Nothing, Width::Nothing),
        ),
        R_ARM_ABS32 | R_ARM_TARGET1 | R_ARM_ABS32_NOI => Ok(class(Kind::Abs, Width::Any32)),
        R_ARM_ABS16 => Ok(class(Kind::Abs, Width::Any16)),
        R_ARM_ABS8 => Ok(class(Kind::Abs, Width::Any8)),
        R_ARM_REL32 | R_ARM_REL32_NOI => Ok(class(Kind::Pc, Width::Any32)),
        R_ARM_PREL31 => Ok(field(Kind::Pc, Field::Prel31)),
        R_ARM_PC24 | R_ARM_PLT32 | R_ARM_CALL | R_ARM_JUMP24 => Ok(
            field(Kind::Pc, Field::Branch24),
        ),
        R_ARM_THM_CALL | R_ARM_THM_JUMP24 => Ok(field(Kind::Pc, Field::ThumbBranch24)),
        R_ARM_THM_JUMP19 => Ok(field(Kind::Pc, Field::ThumbBranch19)),
        R_ARM_THM_JUMP11 => Ok(field(Kind::Pc, Field::ThumbBranch11)),
        R_ARM_THM_JUMP8 => Ok(field(Kind::Pc, Field::ThumbBranch8)),
        R_ARM_MOVW_ABS_NC => Ok(field(Kind::Abs, Field::Movw)),
        R_ARM_MOVT_ABS => Ok(field(Kind::Abs, Field::Movt)),
        R_ARM_MOVW_PREL_NC => Ok(field(Kind::Pc, Field::Movw)),
        R_ARM_MOVT_PREL => Ok(field(Kind::Pc, Field::Movt)),
        R_ARM_THM_MOVW_ABS_NC => Ok(field(Kind::Abs, Field::ThumbMovw)),
        R_ARM_THM_MOVT_ABS => Ok(field(Kind::Abs, Field::ThumbMovt)),
        R_ARM_THM_MOVW_PREL_NC => Ok(field(Kind::Pc, Field::ThumbMovw)),
        R_ARM_THM_MOVT_PREL => Ok(field(Kind::Pc, Field::ThumbMovt)),
        R_ARM_THM_ALU_PREL_11_0 => Ok(field(Kind::Pc, Field::ThumbAdr)),
        R_ARM_THM_PC12 => Ok(field(Kind::Pc, Field::ThumbLdrLiteral)),
        R_ARM_LDR_PC_G0 => Ok(field(Kind::Pc, Field::LdrLiteral)),
        R_ARM_ALU_PC_G0 => Ok(field(Kind::Pc, Field::AluPc { checked: true })),
        R_ARM_ALU_PC_G0_NC => Ok(field(Kind::Pc, Field::AluPc { checked: false })),
        R_ARM_BASE_PREL => Ok(class(Kind::GotBasePc, Width::Any32)),
        R_ARM_GOTOFF32 => Ok(class(Kind::GotRel, Width::Any32)),
        R_ARM_GOT_BREL => Ok(got(Kind::GotSlotRel, GotKind::Address)),
        R_ARM_GOT_PREL | R_ARM_TARGET2 => Ok(got(Kind::Got, GotKind::Address)),
        R_ARM_GOT_ABS => Ok(got(Kind::GotAbs, GotKind::Address)),
        R_ARM_TLS_GD32 => Ok(got(Kind::Got, GotKind::TlsGd)),
        R_ARM_TLS_LDM32 => Ok(got(Kind::Got, GotKind::TlsLd)),
        R_ARM_TLS_IE32 => Ok(got(Kind::Got, GotKind::TpOff)),
        R_ARM_TLS_LDO32 => Ok(class(Kind::DtpOff, Width::Any32)),
        R_ARM_TLS_LE32 => Ok(class(Kind::TpOff, Width::Any32)),
        _ => Err(ClassifyError::Unsupported),
    }
}

/// Classifies relocation `r_type`. The context changes nothing: no access is
/// relaxed.
///
/// # Errors
///
/// [`ClassifyError::Unsupported`] for types that are not linked (dynamic
/// ones, the Sun-style TLS, GNU TLS descriptors, group relocations past
/// `G0`, and the obsolete ones).
pub fn classify(r_type: u32, _context: ClassifyContext) -> (r: Result<Class, ClassifyError>)
    ensures
        r == spec_classify(r_type, _context),
{
    match r_type {
        R_ARM_NONE | R_ARM_V4BX | R_ARM_GNU_VTENTRY | R_ARM_GNU_VTINHERIT => Ok(
            class(Kind::Nothing, Width::Nothing),
        ),
        R_ARM_ABS32 | R_ARM_TARGET1 | R_ARM_ABS32_NOI => Ok(class(Kind::Abs, Width::Any32)),
        R_ARM_ABS16 => Ok(class(Kind::Abs, Width::Any16)),
        R_ARM_ABS8 => Ok(class(Kind::Abs, Width::Any8)),
        R_ARM_REL32 | R_ARM_REL32_NOI => Ok(class(Kind::Pc, Width::Any32)),
        R_ARM_PREL31 => Ok(field(Kind::Pc, Field::Prel31)),
        R_ARM_PC24 | R_ARM_PLT32 | R_ARM_CALL | R_ARM_JUMP24 => Ok(
            field(Kind::Pc, Field::Branch24),
        ),
        R_ARM_THM_CALL | R_ARM_THM_JUMP24 => Ok(field(Kind::Pc, Field::ThumbBranch24)),
        R_ARM_THM_JUMP19 => Ok(field(Kind::Pc, Field::ThumbBranch19)),
        R_ARM_THM_JUMP11 => Ok(field(Kind::Pc, Field::ThumbBranch11)),
        R_ARM_THM_JUMP8 => Ok(field(Kind::Pc, Field::ThumbBranch8)),
        R_ARM_MOVW_ABS_NC => Ok(field(Kind::Abs, Field::Movw)),
        R_ARM_MOVT_ABS => Ok(field(Kind::Abs, Field::Movt)),
        R_ARM_MOVW_PREL_NC => Ok(field(Kind::Pc, Field::Movw)),
        R_ARM_MOVT_PREL => Ok(field(Kind::Pc, Field::Movt)),
        R_ARM_THM_MOVW_ABS_NC => Ok(field(Kind::Abs, Field::ThumbMovw)),
        R_ARM_THM_MOVT_ABS => Ok(field(Kind::Abs, Field::ThumbMovt)),
        R_ARM_THM_MOVW_PREL_NC => Ok(field(Kind::Pc, Field::ThumbMovw)),
        R_ARM_THM_MOVT_PREL => Ok(field(Kind::Pc, Field::ThumbMovt)),
        R_ARM_THM_ALU_PREL_11_0 => Ok(field(Kind::Pc, Field::ThumbAdr)),
        R_ARM_THM_PC12 => Ok(field(Kind::Pc, Field::ThumbLdrLiteral)),
        R_ARM_LDR_PC_G0 => Ok(field(Kind::Pc, Field::LdrLiteral)),
        R_ARM_ALU_PC_G0 => Ok(field(Kind::Pc, Field::AluPc { checked: true })),
        R_ARM_ALU_PC_G0_NC => Ok(field(Kind::Pc, Field::AluPc { checked: false })),
        R_ARM_BASE_PREL => Ok(class(Kind::GotBasePc, Width::Any32)),
        R_ARM_GOTOFF32 => Ok(class(Kind::GotRel, Width::Any32)),
        R_ARM_GOT_BREL => Ok(got(Kind::GotSlotRel, GotKind::Address)),
        R_ARM_GOT_PREL | R_ARM_TARGET2 => Ok(got(Kind::Got, GotKind::Address)),
        R_ARM_GOT_ABS => Ok(got(Kind::GotAbs, GotKind::Address)),
        R_ARM_TLS_GD32 => Ok(got(Kind::Got, GotKind::TlsGd)),
        R_ARM_TLS_LDM32 => Ok(got(Kind::Got, GotKind::TlsLd)),
        R_ARM_TLS_IE32 => Ok(got(Kind::Got, GotKind::TpOff)),
        R_ARM_TLS_LDO32 => Ok(class(Kind::DtpOff, Width::Any32)),
        R_ARM_TLS_LE32 => Ok(class(Kind::TpOff, Width::Any32)),
        _ => Err(ClassifyError::Unsupported),
    }
}

/// Whether relocation `r_type` is a call or jump that goes through the PLT
/// when its symbol is preemptible (lld's `R_PLT_PC` types; a `PREL31`
/// personality routine reference in `.ARM.extab` is one too).
#[verifier::allow_in_spec]
pub fn is_branch(r_type: u32) -> bool
    returns
        (match r_type {
            R_ARM_PC24
            | R_ARM_PLT32
            | R_ARM_CALL
            | R_ARM_JUMP24
            | R_ARM_THM_CALL
            | R_ARM_THM_JUMP24
            | R_ARM_THM_JUMP19
            | R_ARM_PREL31 => true,
            _ => false,
        }),
{
    match r_type {
        R_ARM_PC24
        | R_ARM_PLT32
        | R_ARM_CALL
        | R_ARM_JUMP24
        | R_ARM_THM_CALL
        | R_ARM_THM_JUMP24
        | R_ARM_THM_JUMP19
        | R_ARM_PREL31 => true,
        _ => false,
    }
}

/// Whether relocation `r_type` is a branch that thunks serve (range
/// extension and interworking).
#[verifier::allow_in_spec]
pub fn is_thunk_branch(r_type: u32) -> bool
    returns
        (match r_type {
            R_ARM_PC24
            | R_ARM_PLT32
            | R_ARM_CALL
            | R_ARM_JUMP24
            | R_ARM_THM_CALL
            | R_ARM_THM_JUMP24
            | R_ARM_THM_JUMP19 => true,
            _ => false,
        }),
{
    match r_type {
        R_ARM_PC24
        | R_ARM_PLT32
        | R_ARM_CALL
        | R_ARM_JUMP24
        | R_ARM_THM_CALL
        | R_ARM_THM_JUMP24
        | R_ARM_THM_JUMP19 => true,
        _ => false,
    }
}

/// Whether branch relocation `r_type` is in Thumb code.
#[verifier::allow_in_spec]
pub fn is_thumb_branch(r_type: u32) -> bool
    returns
        (match r_type {
            R_ARM_THM_CALL
            | R_ARM_THM_JUMP24
            | R_ARM_THM_JUMP19
            | R_ARM_THM_JUMP11
            | R_ARM_THM_JUMP8 => true,
            _ => false,
        }),
{
    match r_type {
        R_ARM_THM_CALL
        | R_ARM_THM_JUMP24
        | R_ARM_THM_JUMP19
        | R_ARM_THM_JUMP11
        | R_ARM_THM_JUMP8 => true,
        _ => false,
    }
}

/// How far the PC reads ahead of the instruction relocation `r_type`
/// patches: 4 in Thumb code, 8 in A32.
#[verifier::allow_in_spec]
pub fn pc_bias(r_type: u32) -> u64
    returns
        (if is_thumb_branch(r_type) {
            insn::THUMB_PC_BIAS
        } else {
            insn::ARM_PC_BIAS
        }),
{
    if is_thumb_branch(r_type) {
        insn::THUMB_PC_BIAS
    } else {
        insn::ARM_PC_BIAS
    }
}

/// A direct branch, as thunk planning and the writer both see it.
#[derive(Clone, Copy, Debug, PartialEq, Eq, Structural)]
pub struct Branch {
    /// The relocation type ([`is_thunk_branch`]).
    pub r_type: u32,
    /// The instruction as the input has it (to tell `bl` from `blx`).
    pub insn: u32,
    /// The address of the instruction.
    pub place: u64,
    /// Where the branch goes: `S + A` plus the PC bias, bit 0 set for a
    /// Thumb function.
    pub destination: u64,
    /// The destination is a function (`STT_FUNC` or `STT_GNU_IFUNC`), so
    /// bit 0 of its address gives its state; otherwise the branch keeps
    /// the state its instruction has.
    pub function: bool,
    /// The branch goes to a PLT entry or IFUNC stub, which is A32.
    pub via_stub: bool,
}

/// How a branch is written.
#[derive(Clone, Copy, Debug, PartialEq, Eq, Structural)]
pub struct BranchPlan {
    /// The destination is Thumb code.
    pub thumb_target: bool,
    /// The branch cannot reach its destination directly (range, or a
    /// change of state its instruction cannot make): it goes through the
    /// thunk of [`thunk_key`].
    pub thunk: bool,
}

impl Branch {
    /// Whether the branch is in Thumb code.
    #[verifier::allow_in_spec]
    pub fn thumb_caller(&self) -> bool
        returns
            is_thumb_branch(self.r_type),
    {
        is_thumb_branch(self.r_type)
    }

    /// Whether the destination is Thumb code: a PLT entry never is, a
    /// function says so by bit 0 of its address, and anything else has the
    /// state the instruction selects.
    #[verifier::allow_in_spec]
    pub fn thumb_target(&self) -> bool
        returns
            (if self.via_stub {
                false
            } else if self.function {
                self.destination & 1 != 0
            } else {
                match self.r_type {
                    R_ARM_CALL => insn::is_arm_blx(self.insn),
                    R_ARM_THM_CALL => !insn::is_thumb_blx(self.insn),
                    _ => self.thumb_caller(),
                }
            }),
    {
        if self.via_stub {
            false
        } else if self.function {
            self.destination & 1 != 0
        } else {
            match self.r_type {
                R_ARM_CALL => insn::is_arm_blx(self.insn),
                R_ARM_THM_CALL => !insn::is_thumb_blx(self.insn),
                _ => self.thumb_caller(),
            }
        }
    }

    /// Whether the instruction can change state: `bl` and `blx` become each
    /// other.
    #[verifier::allow_in_spec]
    pub fn can_switch(&self) -> bool
        returns
            (self.r_type == R_ARM_CALL || self.r_type == R_ARM_THM_CALL),
    {
        self.r_type == R_ARM_CALL || self.r_type == R_ARM_THM_CALL
    }

    /// What [`plan`](Self::plan) answers.
    pub open spec fn spec_plan(self) -> BranchPlan {
        BranchPlan {
            thumb_target: self.thumb_target(),
            thunk: (self.thumb_target() != self.thumb_caller() && !self.can_switch())
                || !self.spec_in_range(self.destination, self.thumb_target()),
        }
    }

    /// Where the destination is and whether it can be reached directly.
    pub fn plan(&self) -> (r: BranchPlan)
        ensures
            r == self.spec_plan(),
    {
        let thumb_target: bool = self.thumb_target();
        let thunk: bool = (thumb_target != self.thumb_caller() && !self.can_switch())
            || !self.in_range(self.destination, thumb_target);
        BranchPlan { thumb_target, thunk }
    }

    /// The distance to `destination`, as 32-bit code computes it. `blx` from
    /// Thumb branches relative to the aligned PC.
    #[verifier::allow_in_spec]
    pub fn distance(&self, destination: u64, thumb_target: bool) -> i64
        returns
            (if thumb_target {
                ((destination & !1u64).wrapping_sub(
                    self.place.wrapping_add(pc_bias(self.r_type)),
                ) as u32) as i32
            } else {
                (destination.wrapping_sub(
                    self.place.wrapping_add(pc_bias(self.r_type)) & !3u64,
                ) as u32) as i32
            }) as i64,
    {
        (if thumb_target {
            ((destination & !1u64).wrapping_sub(
                self.place.wrapping_add(pc_bias(self.r_type)),
            ) as u32) as i32
        } else {
            (destination.wrapping_sub(
                self.place.wrapping_add(pc_bias(self.r_type)) & !3u64,
            ) as u32) as i32
        }) as i64
    }

    /// The bits of the branch's displacement.
    #[verifier::allow_in_spec]
    pub fn reach(&self) -> u32
        returns
            (match self.r_type {
                R_ARM_THM_JUMP19 => 21u32,
                R_ARM_THM_CALL | R_ARM_THM_JUMP24 => 25,
                _ => 26,
            }),
    {
        match self.r_type {
            R_ARM_THM_JUMP19 => 21,
            R_ARM_THM_CALL | R_ARM_THM_JUMP24 => 25,
            _ => 26,
        }
    }

    /// What [`in_range`](Self::in_range) answers.
    pub open spec fn spec_in_range(self, destination: u64, thumb_target: bool) -> bool {
        bits::spec_fits_signed(self.distance(destination, thumb_target) as int, self.reach())
    }

    /// Whether the branch reaches `destination` (a Thumb one when
    /// `thumb_target`) directly.
    pub fn in_range(&self, destination: u64, thumb_target: bool) -> (r: bool)
        ensures
            r == self.spec_in_range(destination, thumb_target),
    {
        fits_signed(self.distance(destination, thumb_target), self.reach())
    }
}

/// Set in the key of a thunk whose callers are Thumb code.
pub const KEY_THUMB: u64 = 0x1_0000_0000;

/// Set in the key of a position-independent thunk.
pub const KEY_PIC: u64 = 0x2_0000_0000;

/// The thunk key of a branch to `destination` (bit 0 set for Thumb) from
/// code in the Thumb state when `thumb_caller`: thunks are shared by
/// destination and caller state; `pic` selects the position-independent
/// form. The key is what [`write_thunk`] decodes.
#[verifier::allow_in_spec]
pub fn thunk_key(destination: u64, thumb_caller: bool, pic: bool) -> u64
    returns
        (destination & 0xffff_ffff | (if thumb_caller {
            KEY_THUMB
        } else {
            0
        }) | (if pic {
            KEY_PIC
        } else {
            0
        })),
{
    destination & 0xffff_ffff | (if thumb_caller {
        KEY_THUMB
    } else {
        0
    }) | (if pic {
        KEY_PIC
    } else {
        0
    })
}

/// The form of the thunk of `key`.
#[verifier::allow_in_spec]
pub fn key_kind(key: u64) -> insn::ThunkKind
    returns
        (insn::ThunkKind { thumb: key & KEY_THUMB != 0, pic: key & KEY_PIC != 0 }),
{
    insn::ThunkKind { thumb: key & KEY_THUMB != 0, pic: key & KEY_PIC != 0 }
}

/// A key carries the destination and the state it was made of.
pub proof fn keys_carry_the_state(destination: u64, thumb_caller: bool, pic: bool)
    ensures
        key_kind(thunk_key(destination, thumb_caller, pic)) == (insn::ThunkKind {
            thumb: thumb_caller,
            pic,
        }),
        thunk_key(destination, thumb_caller, pic) & 0xffff_ffff == destination & 0xffff_ffff,
{
    let t: u64 = if thumb_caller {
        0x1_0000_0000
    } else {
        0
    };
    let p: u64 = if pic {
        0x2_0000_0000
    } else {
        0
    };
    let d = destination;
    assert((t == 0x1_0000_0000u64 || t == 0) && (p == 0x2_0000_0000u64 || p == 0) ==> (d
        & 0xffff_ffff | t | p) & 0xffff_ffff == d & 0xffff_ffff && ((d & 0xffff_ffff | t | p)
        & 0x1_0000_0000 != 0) == (t != 0) && ((d & 0xffff_ffff | t | p) & 0x2_0000_0000 != 0) == (p
        != 0)) by (bit_vector);
}

/// What [`write_thunk`] does.
pub open spec fn spec_write_thunk(s: Seq<u8>, at: u64, address: u64, key: u64) -> Patched {
    Patched::new(s).require(at <= s.len(), ApplyError::OutOfBounds).write(
        at as int,
        insn::thunk_code(address, key & 0xffff_ffff, key_kind(key)),
        ApplyError::Overflow,
    )
}

/// Writes the thunk of key `key` ([`thunk_key`]) at address `address` into
/// `out` at `at`.
///
/// # Errors
///
/// [`ApplyError`] when out of bounds.
pub fn write_thunk(out: &mut [u8], at: u64, address: u64, key: u64) -> (r: Result<(), ApplyError>)
    ensures
        r == spec_write_thunk(old(out)@, at, address, key).result,
        final(out)@ == spec_write_thunk(old(out)@, at, address, key).bytes,
{
    if at > out.len() as u64 {
        return Err(ApplyError::OutOfBounds);
    }
    if insn::write_thunk(out, at, address, key & 0xffff_ffff, key_kind(key)) {
        Ok(())
    } else {
        Err(ApplyError::Overflow)
    }
}

/// What [`write_plt_header`] does.
pub open spec fn spec_write_plt_header(s: Seq<u8>, plt: u64, got_plt: u64) -> Patched {
    let words = insn::plt_header(plt, got_plt)@;
    Patched::new(s).word(0, words[0]).word(4, words[1]).word(8, words[2]).word(12, words[3]).word(
        16,
        words[4],
    )
}

/// Writes the PLT header at `plt`, which jumps to the resolver through
/// `.got.plt` at `got_plt`.
///
/// # Errors
///
/// [`ApplyError::OutOfBounds`] when `out` is too small.
pub fn write_plt_header(out: &mut [u8], plt: u64, got_plt: u64) -> (r: Result<(), ApplyError>)
    ensures
        r == spec_write_plt_header(old(out)@, plt, got_plt).result,
        final(out)@ == spec_write_plt_header(old(out)@, plt, got_plt).bytes,
{
    let words: [u32; 5] = insn::plt_header(plt, got_plt);
    put_word(out, 0, words[0])?;
    put_word(out, 4, words[1])?;
    put_word(out, 8, words[2])?;
    put_word(out, 12, words[3])?;
    put_word(out, 16, words[4])
}

/// What [`write_plt_entry`] does.
pub open spec fn spec_write_plt_entry(s: Seq<u8>, entry: u64, slot: u64) -> Patched {
    let words = insn::plt_entry_words(insn::plt_distance(entry, slot))@;
    Patched::new(s).require(
        insn::plt_distance(entry, slot) < 0x1000_0000,
        ApplyError::Overflow,
    ).word(0, words[0]).word(4, words[1]).word(8, words[2])
}

/// Writes a PLT entry (or IFUNC stub) at `entry` that jumps through the
/// GOT word at `slot`.
///
/// # Errors
///
/// [`ApplyError::Overflow`] when the slot is out of the entry's reach.
pub fn write_plt_entry(out: &mut [u8], entry: u64, slot: u64) -> (r: Result<(), ApplyError>)
    ensures
        r == spec_write_plt_entry(old(out)@, entry, slot).result,
        final(out)@ == spec_write_plt_entry(old(out)@, entry, slot).bytes,
{
    match insn::plt_entry(entry, slot) {
        Ok(words) => {
            put_word(out, 0, words[0])?;
            put_word(out, 4, words[1])?;
            put_word(out, 8, words[2])
        },
        Err(_) => Err(ApplyError::Overflow),
    }
}

/// The `e_flags` of the output: EABI version 5, with the float ABI of the
/// merged attributes (hard when arguments go in VFP registers).
#[verifier::allow_in_spec]
pub fn output_flags(hard_float: bool) -> u32
    returns
        (EF_ARM_EABI_VER5 | (if hard_float {
            EF_ARM_ABI_FLOAT_HARD
        } else {
            EF_ARM_ABI_FLOAT_SOFT
        })),
{
    EF_ARM_EABI_VER5 | (if hard_float {
        EF_ARM_ABI_FLOAT_HARD
    } else {
        EF_ARM_ABI_FLOAT_SOFT
    })
}

/// The program interpreter: glibc's hard-float dynamic linker.
pub const INTERPRETER: &'static str = "/lib/ld-linux-armhf.so.3";

/// What the Arm backend builds before layout, because it changes the size
/// of input sections: the merged `.ARM.attributes` and the exception
/// index, each of which takes the place of the first input section of its
/// kind ([`apply::member_size`]).
#[derive(Debug)]
pub struct Prepared {
    /// The merged `.ARM.attributes`.
    pub attributes: Option<attributes::Output>,
    /// The exception index.
    pub exidx: Option<exidx::Table>,
}

impl Default for Prepared {
    fn default() -> (r: Prepared)
        ensures
            r.attributes is None,
            r.exidx is None,
    {
        Prepared { attributes: None, exidx: None }
    }
}

/// Builds them. `merge_exidx` drops exception index entries that repeat
/// the one before, which is only safe when layout will place the code in
/// the order [`exidx::plan`] assumes.
pub fn prepare(refs: &Refs, placement: &Placement, merge_exidx: bool) -> (r: Prepared)
    ensures
        attributes::is_collected(*refs, r.attributes),
        exidx::is_plan(*refs, *placement, merge_exidx, r.exidx),
{
    Prepared {
        attributes: attributes::collect(refs),
        exidx: exidx::plan(refs, placement, merge_exidx),
    }
}

/// The field that each relocation type of the Arm ELF ABI fills, by the
/// number of the type and by what is computed, and the GOT entry it goes
/// through.
pub open spec fn abi_field(kind: Kind, r_type: u32) -> Option<(Width, GotKind)> {
    match kind {
        Kind::Abs => match r_type {
            2 | 38 | 55 => Some((Width::Any32, GotKind::Address)),
            5 => Some((Width::Any16, GotKind::Address)),
            8 => Some((Width::Any8, GotKind::Address)),
            43 => Some((Width::Arm(Field::Movw), GotKind::Address)),
            44 => Some((Width::Arm(Field::Movt), GotKind::Address)),
            47 => Some((Width::Arm(Field::ThumbMovw), GotKind::Address)),
            48 => Some((Width::Arm(Field::ThumbMovt), GotKind::Address)),
            _ => None,
        },
        Kind::Pc => match r_type {
            1 | 27 | 28 | 29 => Some((Width::Arm(Field::Branch24), GotKind::Address)),
            3 | 56 => Some((Width::Any32, GotKind::Address)),
            4 => Some((Width::Arm(Field::LdrLiteral), GotKind::Address)),
            10 | 30 => Some((Width::Arm(Field::ThumbBranch24), GotKind::Address)),
            42 => Some((Width::Arm(Field::Prel31), GotKind::Address)),
            45 => Some((Width::Arm(Field::Movw), GotKind::Address)),
            46 => Some((Width::Arm(Field::Movt), GotKind::Address)),
            49 => Some((Width::Arm(Field::ThumbMovw), GotKind::Address)),
            50 => Some((Width::Arm(Field::ThumbMovt), GotKind::Address)),
            51 => Some((Width::Arm(Field::ThumbBranch19), GotKind::Address)),
            53 => Some((Width::Arm(Field::ThumbAdr), GotKind::Address)),
            54 => Some((Width::Arm(Field::ThumbLdrLiteral), GotKind::Address)),
            57 => Some((Width::Arm(Field::AluPc { checked: false }), GotKind::Address)),
            58 => Some((Width::Arm(Field::AluPc { checked: true }), GotKind::Address)),
            102 => Some((Width::Arm(Field::ThumbBranch11), GotKind::Address)),
            103 => Some((Width::Arm(Field::ThumbBranch8), GotKind::Address)),
            _ => None,
        },
        Kind::Got => match r_type {
            41 | 96 => Some((Width::Any32, GotKind::Address)),
            104 => Some((Width::Any32, GotKind::TlsGd)),
            105 => Some((Width::Any32, GotKind::TlsLd)),
            107 => Some((Width::Any32, GotKind::TpOff)),
            _ => None,
        },
        Kind::GotAbs => match r_type {
            95 => Some((Width::Any32, GotKind::Address)),
            _ => None,
        },
        Kind::GotSlotRel => match r_type {
            26 => Some((Width::Any32, GotKind::Address)),
            _ => None,
        },
        Kind::GotRel => match r_type {
            24 => Some((Width::Any32, GotKind::Address)),
            _ => None,
        },
        Kind::GotBasePc => match r_type {
            25 => Some((Width::Any32, GotKind::Address)),
            _ => None,
        },
        Kind::TpOff => match r_type {
            108 => Some((Width::Any32, GotKind::Address)),
            _ => None,
        },
        Kind::DtpOff => match r_type {
            106 => Some((Width::Any32, GotKind::Address)),
            _ => None,
        },
        Kind::Nothing => match r_type {
            0 | 40 | 100 | 101 => Some((Width::Nothing, GotKind::Address)),
            _ => None,
        },
        _ => None,
    }
}

/// Every relocation type computes what the ABI defines for it and fills the
/// field the ABI gives it, whatever the code around it; and
/// no other type is taken for one that computes `S + A`, `S + A - P` or the
/// like.
#[verifier::spinoff_prover]
#[verifier::rlimit(80)]
pub proof fn types_compute_what_the_abi_says(r_type: u32, context: ClassifyContext, kind: Kind)
    ensures
        abi_field(kind, r_type) matches Some((width, slot)) ==> spec_classify(r_type, context) == Ok::<Class, ClassifyError>(Class { kind, width, slot, skip_next: false }),
        spec_classify(r_type, context) matches Ok(c) ==> ((c.kind == Kind::Abs || c.kind == Kind::Pc || c.kind == Kind::Got || c.kind == Kind::GotAbs || c.kind == Kind::GotSlotRel || c.kind == Kind::GotRel || c.kind == Kind::GotBasePc || c.kind == Kind::TpOff || c.kind == Kind::DtpOff) ==> abi_field(c.kind, r_type) == Some((c.width, c.slot))),
{
}

/// Where a branch is read from and how far it goes: an Arm instruction reads
/// the PC 8 bytes on, a Thumb one 4, and the branch to what is not a thunk
/// stays within 32 MiB, 16 MiB or 1 MiB and in a state it can switch to.
pub proof fn branches_stay_in_reach(branch: Branch)
    ensures
        ({
            let thumb = branch.r_type == 10 || branch.r_type == 30 || branch.r_type == 51
                || branch.r_type == 102 || branch.r_type == 103;
            let plan = branch.spec_plan();
            let d = branch.distance(branch.destination, plan.thumb_target);
            let limit: int = if branch.r_type == 51 {
                0x10_0000
            } else if branch.r_type == 10 || branch.r_type == 30 {
                0x100_0000
            } else {
                0x200_0000
            };
            &&& thumb ==> branch.thumb_caller() && pc_bias(branch.r_type) == 4
            &&& branch.r_type == 1 || branch.r_type == 27 || branch.r_type == 28 || branch.r_type
                == 29 ==> !branch.thumb_caller() && pc_bias(branch.r_type) == 8
            &&& branch.via_stub ==> !plan.thumb_target
            &&& !branch.via_stub && branch.function ==> (plan.thumb_target <==> branch.destination & 1
                != 0)
            &&& !plan.thunk <==> -limit <= d < limit && (plan.thumb_target == branch.thumb_caller()
                || branch.r_type == 28 || branch.r_type == 10)
        }),
{
    vstd::arithmetic::power2::lemma2_to64();
}

/// How the words of a PLT entry hold a distance.
proof fn plt_words(d: u32)
    by (bit_vector)
    ensures
        d < 0x1000_0000 ==> (((0xe28f_c600u32 | (d >> 20) & 0xff) & 0xff) << 20) + (((0xe28c_ca00 | (d
            >> 12) & 0xff) & 0xff) << 12) + ((0xe5bc_f000 | d & 0xfff) & 0xfff) == d,
        (0xe28f_c600u32 | (d >> 20) & 0xff) >> 8 == 0xe28f_c6,
        (0xe28c_ca00u32 | (d >> 12) & 0xff) >> 8 == 0xe28c_ca,
        (0xe5bc_f000u32 | d & 0xfff) >> 12 == 0xe5b_cf,
{
}

/// A PLT entry loads from its slot: what its three instructions add to the
/// PC makes up the distance, which is below 256 MiB. The header's last word
/// is the distance of `.got.plt`.
#[verifier::rlimit(40)]
pub proof fn plt_entries_lead_to_their_slot(s: Seq<u8>, entry: u64, slot: u64, got_plt: u64)
    requires
        s.len() >= 20,
    ensures
        ({
            let d = (slot - entry - 8) % 0x1_0000_0000;
            let p = spec_write_plt_entry(s, entry, slot);
            &&& p.result is Ok <==> d < 0x1000_0000
            &&& p.result is Ok ==> {
                &&& bytes::u32_at(p.bytes, 0) matches Some(a)
                &&& bytes::u32_at(p.bytes, 4) matches Some(b)
                &&& bytes::u32_at(p.bytes, 8) matches Some(c)
                &&& a >> 8 == 0xe28f_c6
                &&& b >> 8 == 0xe28c_ca
                &&& c >> 12 == 0xe5b_cf
                &&& ((a & 0xff) << 20) + ((b & 0xff) << 12) + (c & 0xfff) == d
            }
        }),
        ({
            let p = spec_write_plt_header(s, entry, got_plt);
            &&& p.result is Ok
            &&& bytes::u32_at(p.bytes, 16) matches Some(w)
            &&& w == (got_plt - entry - 16) % 0x1_0000_0000
        }),
{
    let d = insn::plt_distance(entry, slot);
    bits::low_bits(slot.wrapping_sub(entry.wrapping_add(8)), 0);
    bits::low_bits(got_plt.wrapping_sub(entry.wrapping_add(16)), 0);
    plt_words(d);
    let p = spec_write_plt_entry(s, entry, slot);
    if p.result is Ok {
        let words = insn::plt_entry_words(d)@;
        assert(p.bytes.subrange(0, 4) =~= bytes::spec_le32(words[0]));
        assert(p.bytes.subrange(4, 8) =~= bytes::spec_le32(words[1]));
        assert(p.bytes.subrange(8, 12) =~= bytes::spec_le32(words[2]));
        bytes::words_are_read(p.bytes, 0, words[0]);
        bytes::words_are_read(p.bytes, 4, words[1]);
        bytes::words_are_read(p.bytes, 8, words[2]);
    }
    let h = spec_write_plt_header(s, entry, got_plt);
    let last = insn::plt_header(entry, got_plt)@[4];
    assert(h.bytes.subrange(16, 20) =~= bytes::spec_le32(last));
    bytes::words_are_read(h.bytes, 16, last);
}

} // verus!
