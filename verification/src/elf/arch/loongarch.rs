//! LoongArch64 (LP64, little-endian) relocations: classification, TLS and
//! GOT relaxation, linker relaxation without shrinking, and the PLT.
//!
//! [`classify`] turns a relocation type into a [`Class`], as for the other
//! architectures. Most of the psABI maps onto the shared kinds: a
//! `pcalau12i` relocation is a [`Kind::Page`] (whose page delta the
//! architecture computes, [`page_delta`]), the `addi`/`ld`/`st` that
//! completes it a [`Kind::PageOff`], the DWARF and `.eh_frame` label
//! differences [`Kind::Add`]/[`Kind::Sub`], and the instruction fields
//! [`Field`]s of [`crate::arch::loongarch`].
//!
//! **What is rewritten**, following lld (the reference for these rules):
//!
//! - *GOT to PC-relative:* `pcalau12i rd, %got_pc_hi20(s); ld.d rd, rd,
//!   %got_pc_lo12(s)` against a symbol that is defined here, not
//!   preemptible and not an IFUNC becomes `pcalau12i; addi.d` computing its
//!   address. The pair is checked by its instructions, since relocations
//!   are classified one at a time: both halves must be adjacent and use one
//!   register, and a pair that is not is left alone (lld also relaxes pairs
//!   the compiler scheduled apart). Unlike lld, the unused GOT entry is then
//!   dropped.
//! - *TLS:* initial-exec accesses to a variable of the executable become
//!   local-exec (`lu12i.w`/`ori`, or `nop`/`ori` when the offset fits 12
//!   bits), again for adjacent pairs only, and descriptors become
//!   local-exec or initial-exec; the `pcalau12i`/`addi.d` that computed the
//!   descriptor's address become `nop`s. General- and local-dynamic accesses
//!   are kept, as lld keeps them (LoongArch has no transition for them);
//!   local-dynamic uses the variable's own module/offset pair, as in lld and
//!   mold.
//! - *Linker relaxation* (`R_LARCH_RELAX` follows the relocation): the
//!   rewrites that do not change the code size. `pcalau12i` + `addi.d` (or
//!   a relaxable GOT load) within +/-2 MiB becomes `nop` + `pcaddi`,
//!   `pcaddu18i` + `jirl` within +/-128 MiB becomes `bl` (or `b`) + `nop`,
//!   and a local-exec `lu12i.w`/`add.d`/`addi.d` whose offset fits 12 bits
//!   becomes `nop`/`nop`/`addi.d rd, $tp, off`. Deleting the `nop`s, and the
//!   excess padding an `R_LARCH_ALIGN` marks, needs section shrinking,
//!   which is not done: the padding stays in place as `nop`s, so the code
//!   is correct but the aligned label is not moved onto its boundary.
//!
//! Whether `R_LARCH_RELAX` follows is not part of the relocation, so the
//! relocation loops mark it in the type ([`RELAX_HINT`]) before classifying.
//!
//! The PLT is lld's and GNU ld's: a 32-byte header that computes the
//! `.got.plt` index from `$t1`/`$t3` and jumps to the resolver, then one
//! 16-byte `pcaddu12i`/`ld.d`/`jirl`/`nop` entry per symbol. `.got.plt`
//! reserves two words, for the resolver and the link map.

use vstd::prelude::*;

use super::{
    ApplyError, Class, ClassifyContext, ClassifyError, GotKind, Kind, RelaxValues, TlsMode, Width,
};
use super::patch::{put, put_word, Patched};
use crate::arch::loongarch::{
    Field, ADDI_D, ADDI_W, LD_D, LD_W, LU12I_W, NOP, ORI, PCADDI, PCADDU12I, PCALAU12I, R_A0, R_RA,
    R_T0, R_T1, R_T2, R_T3, R_TP, R_ZERO, SRLI_D, SUB_D,
};
use crate::arch::loongarch as insn;
use crate::arch::ppc64::write_words;
use crate::bits;
use crate::bits::{fits_signed, fits_unsigned};
use crate::bytes;
use crate::bytes::{fill_words, get_byte, get_u32};
use crate::leb::{last_byte, rewrite, value_of};

verus! {

/// Relocation type `R_LARCH_NONE`.
pub const R_LARCH_NONE: u32 = 0;

/// Relocation type `R_LARCH_32`.
pub const R_LARCH_32: u32 = 1;

/// Relocation type `R_LARCH_64`.
pub const R_LARCH_64: u32 = 2;

/// Relocation type `R_LARCH_RELATIVE`.
pub const R_LARCH_RELATIVE: u32 = 3;

/// Relocation type `R_LARCH_COPY`.
pub const R_LARCH_COPY: u32 = 4;

/// Relocation type `R_LARCH_JUMP_SLOT`.
pub const R_LARCH_JUMP_SLOT: u32 = 5;

/// Relocation type `R_LARCH_TLS_DTPMOD32`.
pub const R_LARCH_TLS_DTPMOD32: u32 = 6;

/// Relocation type `R_LARCH_TLS_DTPMOD64`.
pub const R_LARCH_TLS_DTPMOD64: u32 = 7;

/// Relocation type `R_LARCH_TLS_DTPREL32`.
pub const R_LARCH_TLS_DTPREL32: u32 = 8;

/// Relocation type `R_LARCH_TLS_DTPREL64`.
pub const R_LARCH_TLS_DTPREL64: u32 = 9;

/// Relocation type `R_LARCH_TLS_TPREL32`.
pub const R_LARCH_TLS_TPREL32: u32 = 10;

/// Relocation type `R_LARCH_TLS_TPREL64`.
pub const R_LARCH_TLS_TPREL64: u32 = 11;

/// Relocation type `R_LARCH_IRELATIVE`.
pub const R_LARCH_IRELATIVE: u32 = 12;

/// Relocation type `R_LARCH_TLS_DESC32`.
pub const R_LARCH_TLS_DESC32: u32 = 13;

/// Relocation type `R_LARCH_TLS_DESC64`.
pub const R_LARCH_TLS_DESC64: u32 = 14;

/// Relocation type `R_LARCH_MARK_LA`.
pub const R_LARCH_MARK_LA: u32 = 20;

/// Relocation type `R_LARCH_MARK_PCREL`.
pub const R_LARCH_MARK_PCREL: u32 = 21;

/// Relocation type `R_LARCH_SOP_PUSH_PCREL`.
pub const R_LARCH_SOP_PUSH_PCREL: u32 = 22;

/// Relocation type `R_LARCH_SOP_PUSH_ABSOLUTE`.
pub const R_LARCH_SOP_PUSH_ABSOLUTE: u32 = 23;

/// Relocation type `R_LARCH_SOP_PUSH_DUP`.
pub const R_LARCH_SOP_PUSH_DUP: u32 = 24;

/// Relocation type `R_LARCH_SOP_PUSH_GPREL`.
pub const R_LARCH_SOP_PUSH_GPREL: u32 = 25;

/// Relocation type `R_LARCH_SOP_PUSH_TLS_TPREL`.
pub const R_LARCH_SOP_PUSH_TLS_TPREL: u32 = 26;

/// Relocation type `R_LARCH_SOP_PUSH_TLS_GOT`.
pub const R_LARCH_SOP_PUSH_TLS_GOT: u32 = 27;

/// Relocation type `R_LARCH_SOP_PUSH_TLS_GD`.
pub const R_LARCH_SOP_PUSH_TLS_GD: u32 = 28;

/// Relocation type `R_LARCH_SOP_PUSH_PLT_PCREL`.
pub const R_LARCH_SOP_PUSH_PLT_PCREL: u32 = 29;

/// Relocation type `R_LARCH_SOP_ASSERT`.
pub const R_LARCH_SOP_ASSERT: u32 = 30;

/// Relocation type `R_LARCH_SOP_NOT`.
pub const R_LARCH_SOP_NOT: u32 = 31;

/// Relocation type `R_LARCH_SOP_SUB`.
pub const R_LARCH_SOP_SUB: u32 = 32;

/// Relocation type `R_LARCH_SOP_SL`.
pub const R_LARCH_SOP_SL: u32 = 33;

/// Relocation type `R_LARCH_SOP_SR`.
pub const R_LARCH_SOP_SR: u32 = 34;

/// Relocation type `R_LARCH_SOP_ADD`.
pub const R_LARCH_SOP_ADD: u32 = 35;

/// Relocation type `R_LARCH_SOP_AND`.
pub const R_LARCH_SOP_AND: u32 = 36;

/// Relocation type `R_LARCH_SOP_IF_ELSE`.
pub const R_LARCH_SOP_IF_ELSE: u32 = 37;

/// Relocation type `R_LARCH_SOP_POP_32_S_10_5`.
pub const R_LARCH_SOP_POP_32_S_10_5: u32 = 38;

/// Relocation type `R_LARCH_SOP_POP_32_U_10_12`.
pub const R_LARCH_SOP_POP_32_U_10_12: u32 = 39;

/// Relocation type `R_LARCH_SOP_POP_32_S_10_12`.
pub const R_LARCH_SOP_POP_32_S_10_12: u32 = 40;

/// Relocation type `R_LARCH_SOP_POP_32_S_10_16`.
pub const R_LARCH_SOP_POP_32_S_10_16: u32 = 41;

/// Relocation type `R_LARCH_SOP_POP_32_S_10_16_S2`.
pub const R_LARCH_SOP_POP_32_S_10_16_S2: u32 = 42;

/// Relocation type `R_LARCH_SOP_POP_32_S_5_20`.
pub const R_LARCH_SOP_POP_32_S_5_20: u32 = 43;

/// Relocation type `R_LARCH_SOP_POP_32_S_0_5_10_16_S2`.
pub const R_LARCH_SOP_POP_32_S_0_5_10_16_S2: u32 = 44;

/// Relocation type `R_LARCH_SOP_POP_32_S_0_10_10_16_S2`.
pub const R_LARCH_SOP_POP_32_S_0_10_10_16_S2: u32 = 45;

/// Relocation type `R_LARCH_SOP_POP_32_U`.
pub const R_LARCH_SOP_POP_32_U: u32 = 46;

/// Relocation type `R_LARCH_ADD8`.
pub const R_LARCH_ADD8: u32 = 47;

/// Relocation type `R_LARCH_ADD16`.
pub const R_LARCH_ADD16: u32 = 48;

/// Relocation type `R_LARCH_ADD24`.
pub const R_LARCH_ADD24: u32 = 49;

/// Relocation type `R_LARCH_ADD32`.
pub const R_LARCH_ADD32: u32 = 50;

/// Relocation type `R_LARCH_ADD64`.
pub const R_LARCH_ADD64: u32 = 51;

/// Relocation type `R_LARCH_SUB8`.
pub const R_LARCH_SUB8: u32 = 52;

/// Relocation type `R_LARCH_SUB16`.
pub const R_LARCH_SUB16: u32 = 53;

/// Relocation type `R_LARCH_SUB24`.
pub const R_LARCH_SUB24: u32 = 54;

/// Relocation type `R_LARCH_SUB32`.
pub const R_LARCH_SUB32: u32 = 55;

/// Relocation type `R_LARCH_SUB64`.
pub const R_LARCH_SUB64: u32 = 56;

/// Relocation type `R_LARCH_GNU_VTINHERIT`.
pub const R_LARCH_GNU_VTINHERIT: u32 = 57;

/// Relocation type `R_LARCH_GNU_VTENTRY`.
pub const R_LARCH_GNU_VTENTRY: u32 = 58;

/// Relocation type `R_LARCH_B16`.
pub const R_LARCH_B16: u32 = 64;

/// Relocation type `R_LARCH_B21`.
pub const R_LARCH_B21: u32 = 65;

/// Relocation type `R_LARCH_B26`.
pub const R_LARCH_B26: u32 = 66;

/// Relocation type `R_LARCH_ABS_HI20`.
pub const R_LARCH_ABS_HI20: u32 = 67;

/// Relocation type `R_LARCH_ABS_LO12`.
pub const R_LARCH_ABS_LO12: u32 = 68;

/// Relocation type `R_LARCH_ABS64_LO20`.
pub const R_LARCH_ABS64_LO20: u32 = 69;

/// Relocation type `R_LARCH_ABS64_HI12`.
pub const R_LARCH_ABS64_HI12: u32 = 70;

/// Relocation type `R_LARCH_PCALA_HI20`.
pub const R_LARCH_PCALA_HI20: u32 = 71;

/// Relocation type `R_LARCH_PCALA_LO12`.
pub const R_LARCH_PCALA_LO12: u32 = 72;

/// Relocation type `R_LARCH_PCALA64_LO20`.
pub const R_LARCH_PCALA64_LO20: u32 = 73;

/// Relocation type `R_LARCH_PCALA64_HI12`.
pub const R_LARCH_PCALA64_HI12: u32 = 74;

/// Relocation type `R_LARCH_GOT_PC_HI20`.
pub const R_LARCH_GOT_PC_HI20: u32 = 75;

/// Relocation type `R_LARCH_GOT_PC_LO12`.
pub const R_LARCH_GOT_PC_LO12: u32 = 76;

/// Relocation type `R_LARCH_GOT64_PC_LO20`.
pub const R_LARCH_GOT64_PC_LO20: u32 = 77;

/// Relocation type `R_LARCH_GOT64_PC_HI12`.
pub const R_LARCH_GOT64_PC_HI12: u32 = 78;

/// Relocation type `R_LARCH_GOT_HI20`.
pub const R_LARCH_GOT_HI20: u32 = 79;

/// Relocation type `R_LARCH_GOT_LO12`.
pub const R_LARCH_GOT_LO12: u32 = 80;

/// Relocation type `R_LARCH_GOT64_LO20`.
pub const R_LARCH_GOT64_LO20: u32 = 81;

/// Relocation type `R_LARCH_GOT64_HI12`.
pub const R_LARCH_GOT64_HI12: u32 = 82;

/// Relocation type `R_LARCH_TLS_LE_HI20`.
pub const R_LARCH_TLS_LE_HI20: u32 = 83;

/// Relocation type `R_LARCH_TLS_LE_LO12`.
pub const R_LARCH_TLS_LE_LO12: u32 = 84;

/// Relocation type `R_LARCH_TLS_LE64_LO20`.
pub const R_LARCH_TLS_LE64_LO20: u32 = 85;

/// Relocation type `R_LARCH_TLS_LE64_HI12`.
pub const R_LARCH_TLS_LE64_HI12: u32 = 86;

/// Relocation type `R_LARCH_TLS_IE_PC_HI20`.
pub const R_LARCH_TLS_IE_PC_HI20: u32 = 87;

/// Relocation type `R_LARCH_TLS_IE_PC_LO12`.
pub const R_LARCH_TLS_IE_PC_LO12: u32 = 88;

/// Relocation type `R_LARCH_TLS_IE64_PC_LO20`.
pub const R_LARCH_TLS_IE64_PC_LO20: u32 = 89;

/// Relocation type `R_LARCH_TLS_IE64_PC_HI12`.
pub const R_LARCH_TLS_IE64_PC_HI12: u32 = 90;

/// Relocation type `R_LARCH_TLS_IE_HI20`.
pub const R_LARCH_TLS_IE_HI20: u32 = 91;

/// Relocation type `R_LARCH_TLS_IE_LO12`.
pub const R_LARCH_TLS_IE_LO12: u32 = 92;

/// Relocation type `R_LARCH_TLS_IE64_LO20`.
pub const R_LARCH_TLS_IE64_LO20: u32 = 93;

/// Relocation type `R_LARCH_TLS_IE64_HI12`.
pub const R_LARCH_TLS_IE64_HI12: u32 = 94;

/// Relocation type `R_LARCH_TLS_LD_PC_HI20`.
pub const R_LARCH_TLS_LD_PC_HI20: u32 = 95;

/// Relocation type `R_LARCH_TLS_LD_HI20`.
pub const R_LARCH_TLS_LD_HI20: u32 = 96;

/// Relocation type `R_LARCH_TLS_GD_PC_HI20`.
pub const R_LARCH_TLS_GD_PC_HI20: u32 = 97;

/// Relocation type `R_LARCH_TLS_GD_HI20`.
pub const R_LARCH_TLS_GD_HI20: u32 = 98;

/// Relocation type `R_LARCH_32_PCREL`.
pub const R_LARCH_32_PCREL: u32 = 99;

/// Relocation type `R_LARCH_RELAX`.
pub const R_LARCH_RELAX: u32 = 100;

/// Relocation type `R_LARCH_ALIGN`.
pub const R_LARCH_ALIGN: u32 = 102;

/// Relocation type `R_LARCH_PCREL20_S2`.
pub const R_LARCH_PCREL20_S2: u32 = 103;

/// Relocation type `R_LARCH_ADD6`.
pub const R_LARCH_ADD6: u32 = 105;

/// Relocation type `R_LARCH_SUB6`.
pub const R_LARCH_SUB6: u32 = 106;

/// Relocation type `R_LARCH_ADD_ULEB128`.
pub const R_LARCH_ADD_ULEB128: u32 = 107;

/// Relocation type `R_LARCH_SUB_ULEB128`.
pub const R_LARCH_SUB_ULEB128: u32 = 108;

/// Relocation type `R_LARCH_64_PCREL`.
pub const R_LARCH_64_PCREL: u32 = 109;

/// Relocation type `R_LARCH_CALL36`.
pub const R_LARCH_CALL36: u32 = 110;

/// Relocation type `R_LARCH_TLS_DESC_PC_HI20`.
pub const R_LARCH_TLS_DESC_PC_HI20: u32 = 111;

/// Relocation type `R_LARCH_TLS_DESC_PC_LO12`.
pub const R_LARCH_TLS_DESC_PC_LO12: u32 = 112;

/// Relocation type `R_LARCH_TLS_DESC64_PC_LO20`.
pub const R_LARCH_TLS_DESC64_PC_LO20: u32 = 113;

/// Relocation type `R_LARCH_TLS_DESC64_PC_HI12`.
pub const R_LARCH_TLS_DESC64_PC_HI12: u32 = 114;

/// Relocation type `R_LARCH_TLS_DESC_HI20`.
pub const R_LARCH_TLS_DESC_HI20: u32 = 115;

/// Relocation type `R_LARCH_TLS_DESC_LO12`.
pub const R_LARCH_TLS_DESC_LO12: u32 = 116;

/// Relocation type `R_LARCH_TLS_DESC64_LO20`.
pub const R_LARCH_TLS_DESC64_LO20: u32 = 117;

/// Relocation type `R_LARCH_TLS_DESC64_HI12`.
pub const R_LARCH_TLS_DESC64_HI12: u32 = 118;

/// Relocation type `R_LARCH_TLS_DESC_LD`.
pub const R_LARCH_TLS_DESC_LD: u32 = 119;

/// Relocation type `R_LARCH_TLS_DESC_CALL`.
pub const R_LARCH_TLS_DESC_CALL: u32 = 120;

/// Relocation type `R_LARCH_TLS_LE_HI20_R`.
pub const R_LARCH_TLS_LE_HI20_R: u32 = 121;

/// Relocation type `R_LARCH_TLS_LE_ADD_R`.
pub const R_LARCH_TLS_LE_ADD_R: u32 = 122;

/// Relocation type `R_LARCH_TLS_LE_LO12_R`.
pub const R_LARCH_TLS_LE_LO12_R: u32 = 123;

/// Relocation type `R_LARCH_TLS_LD_PCREL20_S2`.
pub const R_LARCH_TLS_LD_PCREL20_S2: u32 = 124;

/// Relocation type `R_LARCH_TLS_GD_PCREL20_S2`.
pub const R_LARCH_TLS_GD_PCREL20_S2: u32 = 125;

/// Relocation type `R_LARCH_TLS_DESC_PCREL20_S2`.
pub const R_LARCH_TLS_DESC_PCREL20_S2: u32 = 126;

/// Relocation type `R_LARCH_CALL30`.
pub const R_LARCH_CALL30: u32 = 127;

/// Relocation type `R_LARCH_PCADD_HI20`.
pub const R_LARCH_PCADD_HI20: u32 = 128;

/// Relocation type `R_LARCH_PCADD_LO12`.
pub const R_LARCH_PCADD_LO12: u32 = 129;

/// Relocation type `R_LARCH_GOT_PCADD_HI20`.
pub const R_LARCH_GOT_PCADD_HI20: u32 = 130;

/// Relocation type `R_LARCH_GOT_PCADD_LO12`.
pub const R_LARCH_GOT_PCADD_LO12: u32 = 131;

/// Relocation type `R_LARCH_TLS_IE_PCADD_HI20`.
pub const R_LARCH_TLS_IE_PCADD_HI20: u32 = 132;

/// Relocation type `R_LARCH_TLS_IE_PCADD_LO12`.
pub const R_LARCH_TLS_IE_PCADD_LO12: u32 = 133;

/// Relocation type `R_LARCH_TLS_LD_PCADD_HI20`.
pub const R_LARCH_TLS_LD_PCADD_HI20: u32 = 134;

/// Relocation type `R_LARCH_TLS_LD_PCADD_LO12`.
pub const R_LARCH_TLS_LD_PCADD_LO12: u32 = 135;

/// Relocation type `R_LARCH_TLS_GD_PCADD_HI20`.
pub const R_LARCH_TLS_GD_PCADD_HI20: u32 = 136;

/// Relocation type `R_LARCH_TLS_GD_PCADD_LO12`.
pub const R_LARCH_TLS_GD_PCADD_LO12: u32 = 137;

/// Relocation type `R_LARCH_TLS_DESC_PCADD_HI20`.
pub const R_LARCH_TLS_DESC_PCADD_HI20: u32 = 138;

/// Relocation type `R_LARCH_TLS_DESC_PCADD_LO12`.
pub const R_LARCH_TLS_DESC_PCADD_LO12: u32 = 139;

/// Set in a relocation type when the next relocation is an `R_LARCH_RELAX`
/// at the same offset, which allows the linker to rewrite the instructions.
/// No LoongArch type uses this bit.
pub const RELAX_HINT: u32 = 0x8000_0000;

/// The ABI modifier bits of `e_flags` (soft, single or double float).
pub const EF_LOONGARCH_ABI_MODIFIER_MASK: u32 = 0x07;

/// The LP64D ABI modifier: 64-bit pointers, double-precision float
/// registers.
pub const EF_LOONGARCH_ABI_DOUBLE_FLOAT: u32 = 0x03;

/// The object ABI version bits of `e_flags`.
pub const EF_LOONGARCH_OBJABI_MASK: u32 = 0xc0;

/// Object ABI v1: the psABI 2.x relocations, without the stack machine.
pub const EF_LOONGARCH_OBJABI_V1: u32 = 0x40;

/// The type without [`RELAX_HINT`].
#[verifier::allow_in_spec]
pub fn base_type(r_type: u32) -> u32
    returns
        (r_type & !RELAX_HINT),
{
    r_type & !RELAX_HINT
}

/// The name of LoongArch relocation type `r_type`, as `readelf` prints it.
#[verifier::allow_in_spec]
#[verifier::rlimit(40)]
pub fn reloc_name(r_type: u32) -> Option<&'static str>
    returns
        (match base_type(r_type) {
            R_LARCH_NONE => Some("R_LARCH_NONE"),
            R_LARCH_32 => Some("R_LARCH_32"),
            R_LARCH_64 => Some("R_LARCH_64"),
            R_LARCH_RELATIVE => Some("R_LARCH_RELATIVE"),
            R_LARCH_COPY => Some("R_LARCH_COPY"),
            R_LARCH_JUMP_SLOT => Some("R_LARCH_JUMP_SLOT"),
            R_LARCH_TLS_DTPMOD32 => Some("R_LARCH_TLS_DTPMOD32"),
            R_LARCH_TLS_DTPMOD64 => Some("R_LARCH_TLS_DTPMOD64"),
            R_LARCH_TLS_DTPREL32 => Some("R_LARCH_TLS_DTPREL32"),
            R_LARCH_TLS_DTPREL64 => Some("R_LARCH_TLS_DTPREL64"),
            R_LARCH_TLS_TPREL32 => Some("R_LARCH_TLS_TPREL32"),
            R_LARCH_TLS_TPREL64 => Some("R_LARCH_TLS_TPREL64"),
            R_LARCH_IRELATIVE => Some("R_LARCH_IRELATIVE"),
            R_LARCH_TLS_DESC32 => Some("R_LARCH_TLS_DESC32"),
            R_LARCH_TLS_DESC64 => Some("R_LARCH_TLS_DESC64"),
            R_LARCH_MARK_LA => Some("R_LARCH_MARK_LA"),
            R_LARCH_MARK_PCREL => Some("R_LARCH_MARK_PCREL"),
            R_LARCH_SOP_PUSH_PCREL => Some("R_LARCH_SOP_PUSH_PCREL"),
            R_LARCH_SOP_PUSH_ABSOLUTE => Some("R_LARCH_SOP_PUSH_ABSOLUTE"),
            R_LARCH_SOP_PUSH_DUP => Some("R_LARCH_SOP_PUSH_DUP"),
            R_LARCH_SOP_PUSH_GPREL => Some("R_LARCH_SOP_PUSH_GPREL"),
            R_LARCH_SOP_PUSH_TLS_TPREL => Some("R_LARCH_SOP_PUSH_TLS_TPREL"),
            R_LARCH_SOP_PUSH_TLS_GOT => Some("R_LARCH_SOP_PUSH_TLS_GOT"),
            R_LARCH_SOP_PUSH_TLS_GD => Some("R_LARCH_SOP_PUSH_TLS_GD"),
            R_LARCH_SOP_PUSH_PLT_PCREL => Some("R_LARCH_SOP_PUSH_PLT_PCREL"),
            R_LARCH_SOP_ASSERT => Some("R_LARCH_SOP_ASSERT"),
            R_LARCH_SOP_NOT => Some("R_LARCH_SOP_NOT"),
            R_LARCH_SOP_SUB => Some("R_LARCH_SOP_SUB"),
            R_LARCH_SOP_SL => Some("R_LARCH_SOP_SL"),
            R_LARCH_SOP_SR => Some("R_LARCH_SOP_SR"),
            R_LARCH_SOP_ADD => Some("R_LARCH_SOP_ADD"),
            R_LARCH_SOP_AND => Some("R_LARCH_SOP_AND"),
            R_LARCH_SOP_IF_ELSE => Some("R_LARCH_SOP_IF_ELSE"),
            R_LARCH_SOP_POP_32_S_10_5 => Some("R_LARCH_SOP_POP_32_S_10_5"),
            R_LARCH_SOP_POP_32_U_10_12 => Some("R_LARCH_SOP_POP_32_U_10_12"),
            R_LARCH_SOP_POP_32_S_10_12 => Some("R_LARCH_SOP_POP_32_S_10_12"),
            R_LARCH_SOP_POP_32_S_10_16 => Some("R_LARCH_SOP_POP_32_S_10_16"),
            R_LARCH_SOP_POP_32_S_10_16_S2 => Some("R_LARCH_SOP_POP_32_S_10_16_S2"),
            R_LARCH_SOP_POP_32_S_5_20 => Some("R_LARCH_SOP_POP_32_S_5_20"),
            R_LARCH_SOP_POP_32_S_0_5_10_16_S2 => Some("R_LARCH_SOP_POP_32_S_0_5_10_16_S2"),
            R_LARCH_SOP_POP_32_S_0_10_10_16_S2 => Some("R_LARCH_SOP_POP_32_S_0_10_10_16_S2"),
            R_LARCH_SOP_POP_32_U => Some("R_LARCH_SOP_POP_32_U"),
            R_LARCH_ADD8 => Some("R_LARCH_ADD8"),
            R_LARCH_ADD16 => Some("R_LARCH_ADD16"),
            R_LARCH_ADD24 => Some("R_LARCH_ADD24"),
            R_LARCH_ADD32 => Some("R_LARCH_ADD32"),
            R_LARCH_ADD64 => Some("R_LARCH_ADD64"),
            R_LARCH_SUB8 => Some("R_LARCH_SUB8"),
            R_LARCH_SUB16 => Some("R_LARCH_SUB16"),
            R_LARCH_SUB24 => Some("R_LARCH_SUB24"),
            R_LARCH_SUB32 => Some("R_LARCH_SUB32"),
            R_LARCH_SUB64 => Some("R_LARCH_SUB64"),
            R_LARCH_GNU_VTINHERIT => Some("R_LARCH_GNU_VTINHERIT"),
            R_LARCH_GNU_VTENTRY => Some("R_LARCH_GNU_VTENTRY"),
            R_LARCH_B16 => Some("R_LARCH_B16"),
            R_LARCH_B21 => Some("R_LARCH_B21"),
            R_LARCH_B26 => Some("R_LARCH_B26"),
            R_LARCH_ABS_HI20 => Some("R_LARCH_ABS_HI20"),
            R_LARCH_ABS_LO12 => Some("R_LARCH_ABS_LO12"),
            R_LARCH_ABS64_LO20 => Some("R_LARCH_ABS64_LO20"),
            R_LARCH_ABS64_HI12 => Some("R_LARCH_ABS64_HI12"),
            R_LARCH_PCALA_HI20 => Some("R_LARCH_PCALA_HI20"),
            R_LARCH_PCALA_LO12 => Some("R_LARCH_PCALA_LO12"),
            R_LARCH_PCALA64_LO20 => Some("R_LARCH_PCALA64_LO20"),
            R_LARCH_PCALA64_HI12 => Some("R_LARCH_PCALA64_HI12"),
            R_LARCH_GOT_PC_HI20 => Some("R_LARCH_GOT_PC_HI20"),
            R_LARCH_GOT_PC_LO12 => Some("R_LARCH_GOT_PC_LO12"),
            R_LARCH_GOT64_PC_LO20 => Some("R_LARCH_GOT64_PC_LO20"),
            R_LARCH_GOT64_PC_HI12 => Some("R_LARCH_GOT64_PC_HI12"),
            R_LARCH_GOT_HI20 => Some("R_LARCH_GOT_HI20"),
            R_LARCH_GOT_LO12 => Some("R_LARCH_GOT_LO12"),
            R_LARCH_GOT64_LO20 => Some("R_LARCH_GOT64_LO20"),
            R_LARCH_GOT64_HI12 => Some("R_LARCH_GOT64_HI12"),
            R_LARCH_TLS_LE_HI20 => Some("R_LARCH_TLS_LE_HI20"),
            R_LARCH_TLS_LE_LO12 => Some("R_LARCH_TLS_LE_LO12"),
            R_LARCH_TLS_LE64_LO20 => Some("R_LARCH_TLS_LE64_LO20"),
            R_LARCH_TLS_LE64_HI12 => Some("R_LARCH_TLS_LE64_HI12"),
            R_LARCH_TLS_IE_PC_HI20 => Some("R_LARCH_TLS_IE_PC_HI20"),
            R_LARCH_TLS_IE_PC_LO12 => Some("R_LARCH_TLS_IE_PC_LO12"),
            R_LARCH_TLS_IE64_PC_LO20 => Some("R_LARCH_TLS_IE64_PC_LO20"),
            R_LARCH_TLS_IE64_PC_HI12 => Some("R_LARCH_TLS_IE64_PC_HI12"),
            R_LARCH_TLS_IE_HI20 => Some("R_LARCH_TLS_IE_HI20"),
            R_LARCH_TLS_IE_LO12 => Some("R_LARCH_TLS_IE_LO12"),
            R_LARCH_TLS_IE64_LO20 => Some("R_LARCH_TLS_IE64_LO20"),
            R_LARCH_TLS_IE64_HI12 => Some("R_LARCH_TLS_IE64_HI12"),
            R_LARCH_TLS_LD_PC_HI20 => Some("R_LARCH_TLS_LD_PC_HI20"),
            R_LARCH_TLS_LD_HI20 => Some("R_LARCH_TLS_LD_HI20"),
            R_LARCH_TLS_GD_PC_HI20 => Some("R_LARCH_TLS_GD_PC_HI20"),
            R_LARCH_TLS_GD_HI20 => Some("R_LARCH_TLS_GD_HI20"),
            R_LARCH_32_PCREL => Some("R_LARCH_32_PCREL"),
            R_LARCH_RELAX => Some("R_LARCH_RELAX"),
            R_LARCH_ALIGN => Some("R_LARCH_ALIGN"),
            R_LARCH_PCREL20_S2 => Some("R_LARCH_PCREL20_S2"),
            R_LARCH_ADD6 => Some("R_LARCH_ADD6"),
            R_LARCH_SUB6 => Some("R_LARCH_SUB6"),
            R_LARCH_ADD_ULEB128 => Some("R_LARCH_ADD_ULEB128"),
            R_LARCH_SUB_ULEB128 => Some("R_LARCH_SUB_ULEB128"),
            R_LARCH_64_PCREL => Some("R_LARCH_64_PCREL"),
            R_LARCH_CALL36 => Some("R_LARCH_CALL36"),
            R_LARCH_TLS_DESC_PC_HI20 => Some("R_LARCH_TLS_DESC_PC_HI20"),
            R_LARCH_TLS_DESC_PC_LO12 => Some("R_LARCH_TLS_DESC_PC_LO12"),
            R_LARCH_TLS_DESC64_PC_LO20 => Some("R_LARCH_TLS_DESC64_PC_LO20"),
            R_LARCH_TLS_DESC64_PC_HI12 => Some("R_LARCH_TLS_DESC64_PC_HI12"),
            R_LARCH_TLS_DESC_HI20 => Some("R_LARCH_TLS_DESC_HI20"),
            R_LARCH_TLS_DESC_LO12 => Some("R_LARCH_TLS_DESC_LO12"),
            R_LARCH_TLS_DESC64_LO20 => Some("R_LARCH_TLS_DESC64_LO20"),
            R_LARCH_TLS_DESC64_HI12 => Some("R_LARCH_TLS_DESC64_HI12"),
            R_LARCH_TLS_DESC_LD => Some("R_LARCH_TLS_DESC_LD"),
            R_LARCH_TLS_DESC_CALL => Some("R_LARCH_TLS_DESC_CALL"),
            R_LARCH_TLS_LE_HI20_R => Some("R_LARCH_TLS_LE_HI20_R"),
            R_LARCH_TLS_LE_ADD_R => Some("R_LARCH_TLS_LE_ADD_R"),
            R_LARCH_TLS_LE_LO12_R => Some("R_LARCH_TLS_LE_LO12_R"),
            R_LARCH_TLS_LD_PCREL20_S2 => Some("R_LARCH_TLS_LD_PCREL20_S2"),
            R_LARCH_TLS_GD_PCREL20_S2 => Some("R_LARCH_TLS_GD_PCREL20_S2"),
            R_LARCH_TLS_DESC_PCREL20_S2 => Some("R_LARCH_TLS_DESC_PCREL20_S2"),
            R_LARCH_CALL30 => Some("R_LARCH_CALL30"),
            R_LARCH_PCADD_HI20 => Some("R_LARCH_PCADD_HI20"),
            R_LARCH_PCADD_LO12 => Some("R_LARCH_PCADD_LO12"),
            R_LARCH_GOT_PCADD_HI20 => Some("R_LARCH_GOT_PCADD_HI20"),
            R_LARCH_GOT_PCADD_LO12 => Some("R_LARCH_GOT_PCADD_LO12"),
            R_LARCH_TLS_IE_PCADD_HI20 => Some("R_LARCH_TLS_IE_PCADD_HI20"),
            R_LARCH_TLS_IE_PCADD_LO12 => Some("R_LARCH_TLS_IE_PCADD_LO12"),
            R_LARCH_TLS_LD_PCADD_HI20 => Some("R_LARCH_TLS_LD_PCADD_HI20"),
            R_LARCH_TLS_LD_PCADD_LO12 => Some("R_LARCH_TLS_LD_PCADD_LO12"),
            R_LARCH_TLS_GD_PCADD_HI20 => Some("R_LARCH_TLS_GD_PCADD_HI20"),
            R_LARCH_TLS_GD_PCADD_LO12 => Some("R_LARCH_TLS_GD_PCADD_LO12"),
            R_LARCH_TLS_DESC_PCADD_HI20 => Some("R_LARCH_TLS_DESC_PCADD_HI20"),
            R_LARCH_TLS_DESC_PCADD_LO12 => Some("R_LARCH_TLS_DESC_PCADD_LO12"),
            _ => None,
        }),
{
    match base_type(r_type) {
        R_LARCH_NONE => Some("R_LARCH_NONE"),
        R_LARCH_32 => Some("R_LARCH_32"),
        R_LARCH_64 => Some("R_LARCH_64"),
        R_LARCH_RELATIVE => Some("R_LARCH_RELATIVE"),
        R_LARCH_COPY => Some("R_LARCH_COPY"),
        R_LARCH_JUMP_SLOT => Some("R_LARCH_JUMP_SLOT"),
        R_LARCH_TLS_DTPMOD32 => Some("R_LARCH_TLS_DTPMOD32"),
        R_LARCH_TLS_DTPMOD64 => Some("R_LARCH_TLS_DTPMOD64"),
        R_LARCH_TLS_DTPREL32 => Some("R_LARCH_TLS_DTPREL32"),
        R_LARCH_TLS_DTPREL64 => Some("R_LARCH_TLS_DTPREL64"),
        R_LARCH_TLS_TPREL32 => Some("R_LARCH_TLS_TPREL32"),
        R_LARCH_TLS_TPREL64 => Some("R_LARCH_TLS_TPREL64"),
        R_LARCH_IRELATIVE => Some("R_LARCH_IRELATIVE"),
        R_LARCH_TLS_DESC32 => Some("R_LARCH_TLS_DESC32"),
        R_LARCH_TLS_DESC64 => Some("R_LARCH_TLS_DESC64"),
        R_LARCH_MARK_LA => Some("R_LARCH_MARK_LA"),
        R_LARCH_MARK_PCREL => Some("R_LARCH_MARK_PCREL"),
        R_LARCH_SOP_PUSH_PCREL => Some("R_LARCH_SOP_PUSH_PCREL"),
        R_LARCH_SOP_PUSH_ABSOLUTE => Some("R_LARCH_SOP_PUSH_ABSOLUTE"),
        R_LARCH_SOP_PUSH_DUP => Some("R_LARCH_SOP_PUSH_DUP"),
        R_LARCH_SOP_PUSH_GPREL => Some("R_LARCH_SOP_PUSH_GPREL"),
        R_LARCH_SOP_PUSH_TLS_TPREL => Some("R_LARCH_SOP_PUSH_TLS_TPREL"),
        R_LARCH_SOP_PUSH_TLS_GOT => Some("R_LARCH_SOP_PUSH_TLS_GOT"),
        R_LARCH_SOP_PUSH_TLS_GD => Some("R_LARCH_SOP_PUSH_TLS_GD"),
        R_LARCH_SOP_PUSH_PLT_PCREL => Some("R_LARCH_SOP_PUSH_PLT_PCREL"),
        R_LARCH_SOP_ASSERT => Some("R_LARCH_SOP_ASSERT"),
        R_LARCH_SOP_NOT => Some("R_LARCH_SOP_NOT"),
        R_LARCH_SOP_SUB => Some("R_LARCH_SOP_SUB"),
        R_LARCH_SOP_SL => Some("R_LARCH_SOP_SL"),
        R_LARCH_SOP_SR => Some("R_LARCH_SOP_SR"),
        R_LARCH_SOP_ADD => Some("R_LARCH_SOP_ADD"),
        R_LARCH_SOP_AND => Some("R_LARCH_SOP_AND"),
        R_LARCH_SOP_IF_ELSE => Some("R_LARCH_SOP_IF_ELSE"),
        R_LARCH_SOP_POP_32_S_10_5 => Some("R_LARCH_SOP_POP_32_S_10_5"),
        R_LARCH_SOP_POP_32_U_10_12 => Some("R_LARCH_SOP_POP_32_U_10_12"),
        R_LARCH_SOP_POP_32_S_10_12 => Some("R_LARCH_SOP_POP_32_S_10_12"),
        R_LARCH_SOP_POP_32_S_10_16 => Some("R_LARCH_SOP_POP_32_S_10_16"),
        R_LARCH_SOP_POP_32_S_10_16_S2 => Some("R_LARCH_SOP_POP_32_S_10_16_S2"),
        R_LARCH_SOP_POP_32_S_5_20 => Some("R_LARCH_SOP_POP_32_S_5_20"),
        R_LARCH_SOP_POP_32_S_0_5_10_16_S2 => Some("R_LARCH_SOP_POP_32_S_0_5_10_16_S2"),
        R_LARCH_SOP_POP_32_S_0_10_10_16_S2 => Some("R_LARCH_SOP_POP_32_S_0_10_10_16_S2"),
        R_LARCH_SOP_POP_32_U => Some("R_LARCH_SOP_POP_32_U"),
        R_LARCH_ADD8 => Some("R_LARCH_ADD8"),
        R_LARCH_ADD16 => Some("R_LARCH_ADD16"),
        R_LARCH_ADD24 => Some("R_LARCH_ADD24"),
        R_LARCH_ADD32 => Some("R_LARCH_ADD32"),
        R_LARCH_ADD64 => Some("R_LARCH_ADD64"),
        R_LARCH_SUB8 => Some("R_LARCH_SUB8"),
        R_LARCH_SUB16 => Some("R_LARCH_SUB16"),
        R_LARCH_SUB24 => Some("R_LARCH_SUB24"),
        R_LARCH_SUB32 => Some("R_LARCH_SUB32"),
        R_LARCH_SUB64 => Some("R_LARCH_SUB64"),
        R_LARCH_GNU_VTINHERIT => Some("R_LARCH_GNU_VTINHERIT"),
        R_LARCH_GNU_VTENTRY => Some("R_LARCH_GNU_VTENTRY"),
        R_LARCH_B16 => Some("R_LARCH_B16"),
        R_LARCH_B21 => Some("R_LARCH_B21"),
        R_LARCH_B26 => Some("R_LARCH_B26"),
        R_LARCH_ABS_HI20 => Some("R_LARCH_ABS_HI20"),
        R_LARCH_ABS_LO12 => Some("R_LARCH_ABS_LO12"),
        R_LARCH_ABS64_LO20 => Some("R_LARCH_ABS64_LO20"),
        R_LARCH_ABS64_HI12 => Some("R_LARCH_ABS64_HI12"),
        R_LARCH_PCALA_HI20 => Some("R_LARCH_PCALA_HI20"),
        R_LARCH_PCALA_LO12 => Some("R_LARCH_PCALA_LO12"),
        R_LARCH_PCALA64_LO20 => Some("R_LARCH_PCALA64_LO20"),
        R_LARCH_PCALA64_HI12 => Some("R_LARCH_PCALA64_HI12"),
        R_LARCH_GOT_PC_HI20 => Some("R_LARCH_GOT_PC_HI20"),
        R_LARCH_GOT_PC_LO12 => Some("R_LARCH_GOT_PC_LO12"),
        R_LARCH_GOT64_PC_LO20 => Some("R_LARCH_GOT64_PC_LO20"),
        R_LARCH_GOT64_PC_HI12 => Some("R_LARCH_GOT64_PC_HI12"),
        R_LARCH_GOT_HI20 => Some("R_LARCH_GOT_HI20"),
        R_LARCH_GOT_LO12 => Some("R_LARCH_GOT_LO12"),
        R_LARCH_GOT64_LO20 => Some("R_LARCH_GOT64_LO20"),
        R_LARCH_GOT64_HI12 => Some("R_LARCH_GOT64_HI12"),
        R_LARCH_TLS_LE_HI20 => Some("R_LARCH_TLS_LE_HI20"),
        R_LARCH_TLS_LE_LO12 => Some("R_LARCH_TLS_LE_LO12"),
        R_LARCH_TLS_LE64_LO20 => Some("R_LARCH_TLS_LE64_LO20"),
        R_LARCH_TLS_LE64_HI12 => Some("R_LARCH_TLS_LE64_HI12"),
        R_LARCH_TLS_IE_PC_HI20 => Some("R_LARCH_TLS_IE_PC_HI20"),
        R_LARCH_TLS_IE_PC_LO12 => Some("R_LARCH_TLS_IE_PC_LO12"),
        R_LARCH_TLS_IE64_PC_LO20 => Some("R_LARCH_TLS_IE64_PC_LO20"),
        R_LARCH_TLS_IE64_PC_HI12 => Some("R_LARCH_TLS_IE64_PC_HI12"),
        R_LARCH_TLS_IE_HI20 => Some("R_LARCH_TLS_IE_HI20"),
        R_LARCH_TLS_IE_LO12 => Some("R_LARCH_TLS_IE_LO12"),
        R_LARCH_TLS_IE64_LO20 => Some("R_LARCH_TLS_IE64_LO20"),
        R_LARCH_TLS_IE64_HI12 => Some("R_LARCH_TLS_IE64_HI12"),
        R_LARCH_TLS_LD_PC_HI20 => Some("R_LARCH_TLS_LD_PC_HI20"),
        R_LARCH_TLS_LD_HI20 => Some("R_LARCH_TLS_LD_HI20"),
        R_LARCH_TLS_GD_PC_HI20 => Some("R_LARCH_TLS_GD_PC_HI20"),
        R_LARCH_TLS_GD_HI20 => Some("R_LARCH_TLS_GD_HI20"),
        R_LARCH_32_PCREL => Some("R_LARCH_32_PCREL"),
        R_LARCH_RELAX => Some("R_LARCH_RELAX"),
        R_LARCH_ALIGN => Some("R_LARCH_ALIGN"),
        R_LARCH_PCREL20_S2 => Some("R_LARCH_PCREL20_S2"),
        R_LARCH_ADD6 => Some("R_LARCH_ADD6"),
        R_LARCH_SUB6 => Some("R_LARCH_SUB6"),
        R_LARCH_ADD_ULEB128 => Some("R_LARCH_ADD_ULEB128"),
        R_LARCH_SUB_ULEB128 => Some("R_LARCH_SUB_ULEB128"),
        R_LARCH_64_PCREL => Some("R_LARCH_64_PCREL"),
        R_LARCH_CALL36 => Some("R_LARCH_CALL36"),
        R_LARCH_TLS_DESC_PC_HI20 => Some("R_LARCH_TLS_DESC_PC_HI20"),
        R_LARCH_TLS_DESC_PC_LO12 => Some("R_LARCH_TLS_DESC_PC_LO12"),
        R_LARCH_TLS_DESC64_PC_LO20 => Some("R_LARCH_TLS_DESC64_PC_LO20"),
        R_LARCH_TLS_DESC64_PC_HI12 => Some("R_LARCH_TLS_DESC64_PC_HI12"),
        R_LARCH_TLS_DESC_HI20 => Some("R_LARCH_TLS_DESC_HI20"),
        R_LARCH_TLS_DESC_LO12 => Some("R_LARCH_TLS_DESC_LO12"),
        R_LARCH_TLS_DESC64_LO20 => Some("R_LARCH_TLS_DESC64_LO20"),
        R_LARCH_TLS_DESC64_HI12 => Some("R_LARCH_TLS_DESC64_HI12"),
        R_LARCH_TLS_DESC_LD => Some("R_LARCH_TLS_DESC_LD"),
        R_LARCH_TLS_DESC_CALL => Some("R_LARCH_TLS_DESC_CALL"),
        R_LARCH_TLS_LE_HI20_R => Some("R_LARCH_TLS_LE_HI20_R"),
        R_LARCH_TLS_LE_ADD_R => Some("R_LARCH_TLS_LE_ADD_R"),
        R_LARCH_TLS_LE_LO12_R => Some("R_LARCH_TLS_LE_LO12_R"),
        R_LARCH_TLS_LD_PCREL20_S2 => Some("R_LARCH_TLS_LD_PCREL20_S2"),
        R_LARCH_TLS_GD_PCREL20_S2 => Some("R_LARCH_TLS_GD_PCREL20_S2"),
        R_LARCH_TLS_DESC_PCREL20_S2 => Some("R_LARCH_TLS_DESC_PCREL20_S2"),
        R_LARCH_CALL30 => Some("R_LARCH_CALL30"),
        R_LARCH_PCADD_HI20 => Some("R_LARCH_PCADD_HI20"),
        R_LARCH_PCADD_LO12 => Some("R_LARCH_PCADD_LO12"),
        R_LARCH_GOT_PCADD_HI20 => Some("R_LARCH_GOT_PCADD_HI20"),
        R_LARCH_GOT_PCADD_LO12 => Some("R_LARCH_GOT_PCADD_LO12"),
        R_LARCH_TLS_IE_PCADD_HI20 => Some("R_LARCH_TLS_IE_PCADD_HI20"),
        R_LARCH_TLS_IE_PCADD_LO12 => Some("R_LARCH_TLS_IE_PCADD_LO12"),
        R_LARCH_TLS_LD_PCADD_HI20 => Some("R_LARCH_TLS_LD_PCADD_HI20"),
        R_LARCH_TLS_LD_PCADD_LO12 => Some("R_LARCH_TLS_LD_PCADD_LO12"),
        R_LARCH_TLS_GD_PCADD_HI20 => Some("R_LARCH_TLS_GD_PCADD_HI20"),
        R_LARCH_TLS_GD_PCADD_LO12 => Some("R_LARCH_TLS_GD_PCADD_LO12"),
        R_LARCH_TLS_DESC_PCADD_HI20 => Some("R_LARCH_TLS_DESC_PCADD_HI20"),
        R_LARCH_TLS_DESC_PCADD_LO12 => Some("R_LARCH_TLS_DESC_PCADD_LO12"),
        _ => None,
    }
}

/// A classification with no GOT entry.
#[verifier::allow_in_spec]
pub fn class(kind: Kind, width: Width) -> Class
    returns
        (Class::new(kind, width)),
{
    Class::new(kind, width)
}

/// A classification through GOT entry `slot`.
#[verifier::allow_in_spec]
pub fn got(kind: Kind, width: Width, slot: GotKind) -> Class
    returns
        (Class::new(kind, width).through(slot)),
{
    Class::new(kind, width).through(slot)
}

/// An instruction field.
#[verifier::allow_in_spec]
pub fn field(f: Field) -> Width
    returns
        (Width::LoongArch(f)),
{
    Width::LoongArch(f)
}

/// A TLS descriptor relocation: `dynamic` in a shared object, rewritten
/// otherwise.
#[verifier::allow_in_spec]
pub fn desc(tls: TlsMode, dynamic: Class) -> Class
    returns
        (match tls {
            TlsMode::Dynamic => dynamic,
            TlsMode::LocalExec => class(Kind::DescToLe, Width::Nothing),
            TlsMode::InitialExec => class(Kind::DescToIe, Width::Nothing),
        }),
{
    match tls {
        TlsMode::Dynamic => dynamic,
        TlsMode::LocalExec => class(Kind::DescToLe, Width::Nothing),
        TlsMode::InitialExec => class(Kind::DescToIe, Width::Nothing),
    }
}

/// A descriptor relocation whose instruction is dead once the sequence is
/// relaxed.
#[verifier::allow_in_spec]
pub fn desc_dead(tls: TlsMode, dynamic: Class) -> Class
    returns
        (match tls {
            TlsMode::Dynamic => dynamic,
            _ => class(Kind::Nothing, Width::Nothing),
        }),
{
    match tls {
        TlsMode::Dynamic => dynamic,
        _ => class(Kind::Nothing, Width::Nothing),
    }
}

/// The second instruction of a `pcalau12i` pair.
#[derive(Clone, Copy, Debug, PartialEq, Eq, Structural)]
pub enum Second {
    /// `addi.w` or `addi.d`.
    Addi,
    /// `ld.w` or `ld.d`.
    LoadWord,
}

impl Second {
    /// Whether `i` is one.
    #[verifier::allow_in_spec]
    pub fn is(self, i: u32) -> bool
        returns
            (match self {
                Second::Addi => insn::is_addi(i),
                Second::LoadWord => insn::is_ld_word(i),
            }),
    {
        match self {
            Second::Addi => insn::is_addi(i),
            Second::LoadWord => insn::is_ld_word(i),
        }
    }
}

/// The word `n` bytes after `offset`, if it lies inside `data`.
fn word_after(data: &[u8], offset: u64, n: u64) -> (r: Option<u32>)
    ensures
        r == bytes::u32_at(data@, offset + n),
{
    let _len: usize = data.len();
    match offset.checked_add(n) {
        Some(at) => get_u32(data, at),
        None => None,
    }
}

/// What [`pair_at`] answers.
pub open spec fn spec_pair_at(data: Seq<u8>, offset: u64, second: Second) -> bool {
    match (bytes::u32_at(data, offset + 0), bytes::u32_at(data, offset + 4)) {
        (Some(hi), Some(lo)) => insn::is_pcalau12i(hi) && second.is(lo) && insn::rd(hi)
            == insn::rj(lo) && insn::rj(lo) == insn::rd(lo),
        _ => false,
    }
}

/// Whether the adjacent `pcalau12i rd` + `op rd, rd, ..` pair starts at
/// `offset`, with a second instruction of the kind `second`.
pub fn pair_at(data: &[u8], offset: u64, second: Second) -> (r: bool)
    ensures
        r == spec_pair_at(data@, offset, second),
{
    match (word_after(data, offset, 0), word_after(data, offset, 4)) {
        (Some(hi), Some(lo)) => insn::is_pcalau12i(hi) && second.is(lo) && insn::rd(hi)
            == insn::rj(lo) && insn::rj(lo) == insn::rd(lo),
        _ => false,
    }
}

/// What [`pair_before`] answers.
pub open spec fn spec_pair_before(data: Seq<u8>, offset: u64, second: Second) -> bool {
    offset >= 4 && spec_pair_at(data, (offset - 4) as u64, second)
}

/// The same pair, seen from its second instruction at `offset`.
pub fn pair_before(data: &[u8], offset: u64, second: Second) -> (r: bool)
    ensures
        r == spec_pair_before(data@, offset, second),
{
    offset >= 4 && pair_at(data, offset - 4, second)
}

/// What [`classify`] answers.
pub open spec fn spec_classify(
    r_type: u32,
    addend: i64,
    data: Seq<u8>,
    offset: u64,
    context: ClassifyContext,
) -> Result<Class, ClassifyError> {
    let hint: bool = r_type & RELAX_HINT != 0 && context.relax_got;
    let tls: TlsMode = context.tls;
    // A GOT load of a symbol resolved here, as an adjacent pair the GOT
    // indirection can be taken out of.
    let got_relaxable: bool = context.relax_got && addend == 0;
    let here: Option<u32> = bytes::u32_at(data, offset + 0);
    match base_type(r_type) {
        R_LARCH_NONE
        | R_LARCH_MARK_LA
        | R_LARCH_MARK_PCREL
        | R_LARCH_GNU_VTINHERIT
        | R_LARCH_GNU_VTENTRY
        | R_LARCH_RELAX
        | R_LARCH_ALIGN => Ok(class(Kind::Nothing, Width::Nothing)),

        // Data.
        R_LARCH_64 => Ok(class(Kind::Abs, Width::W64)),
        R_LARCH_32 => Ok(class(Kind::Abs, Width::Any32)),
        R_LARCH_64_PCREL => Ok(class(Kind::Pc, Width::W64)),
        R_LARCH_32_PCREL => Ok(class(Kind::Pc, Width::I32)),
        R_LARCH_TLS_DTPREL64 => Ok(class(Kind::DtpOff, Width::W64)),
        R_LARCH_TLS_DTPREL32 => Ok(class(Kind::DtpOff, Width::Any32)),
        R_LARCH_TLS_TPREL64 => Ok(class(Kind::TpOff, Width::W64)),
        R_LARCH_TLS_TPREL32 => Ok(class(Kind::TpOff, Width::Any32)),

        // Label differences (DWARF, `.eh_frame`, jump tables).
        R_LARCH_ADD6 => Ok(class(Kind::Add, field(Field::Data6))),
        R_LARCH_ADD8 => Ok(class(Kind::Add, Width::Any8)),
        R_LARCH_ADD16 => Ok(class(Kind::Add, Width::Any16)),
        R_LARCH_ADD32 => Ok(class(Kind::Add, Width::Any32)),
        R_LARCH_ADD64 => Ok(class(Kind::Add, Width::W64)),
        R_LARCH_ADD_ULEB128 => Ok(class(Kind::Add, field(Field::Uleb128))),
        R_LARCH_SUB6 => Ok(class(Kind::Sub, field(Field::Data6))),
        R_LARCH_SUB8 => Ok(class(Kind::Sub, Width::Any8)),
        R_LARCH_SUB16 => Ok(class(Kind::Sub, Width::Any16)),
        R_LARCH_SUB32 => Ok(class(Kind::Sub, Width::Any32)),
        R_LARCH_SUB64 => Ok(class(Kind::Sub, Width::W64)),
        R_LARCH_SUB_ULEB128 => Ok(class(Kind::Sub, field(Field::Uleb128))),

        // Branches.
        R_LARCH_B16 => Ok(class(Kind::Pc, field(Field::B16))),
        R_LARCH_B21 => Ok(class(Kind::Pc, field(Field::B21))),
        R_LARCH_B26 => Ok(class(Kind::Pc, field(Field::B26))),
        R_LARCH_CALL36 if r_type & RELAX_HINT != 0 && context.relax_got => Ok(
            class(Kind::Pc, field(Field::Call36Relax)),
        ),
        R_LARCH_CALL36 => Ok(class(Kind::Pc, field(Field::Call36))),
        R_LARCH_PCREL20_S2 => Ok(class(Kind::Pc, field(Field::Pcrel20S2))),

        // Absolute addresses.
        R_LARCH_ABS_HI20 => Ok(class(Kind::Abs, field(Field::Hi20))),
        R_LARCH_ABS_LO12 => Ok(class(Kind::Abs, field(Field::Lo12))),
        R_LARCH_ABS64_LO20 => Ok(class(Kind::Abs, field(Field::Lo20))),
        R_LARCH_ABS64_HI12 => Ok(class(Kind::Abs, field(Field::Hi12))),

        // PC-relative addresses.
        R_LARCH_PCALA_HI20 if hint && spec_pair_at(data, offset, Second::Addi) => Ok(
            class(Kind::Relax, Width::Nothing),
        ),
        R_LARCH_PCALA_HI20 => Ok(class(Kind::Page, field(Field::Hi20))),
        R_LARCH_PCALA_LO12 => match here {
            // `pcalau12i` + `jirl`: a call through the low part.
            Some(word) if insn::is_jirl(word) => Ok(class(Kind::PageOff, field(Field::JirlLo12))),
            _ if hint && spec_pair_before(data, offset, Second::Addi) => Ok(
                class(Kind::Relax, Width::Nothing),
            ),
            _ => Ok(class(Kind::PageOff, field(Field::Lo12))),
        },
        R_LARCH_PCALA64_LO20 => Ok(class(Kind::Page, field(Field::Lo20))),
        R_LARCH_PCALA64_HI12 => Ok(class(Kind::Page, field(Field::Hi12))),

        // GOT.
        R_LARCH_GOT_PC_HI20 if got_relaxable && spec_pair_at(data, offset, Second::LoadWord) => Ok(
            class(Kind::Relax, Width::Nothing),
        ),
        R_LARCH_GOT_PC_HI20 => Ok(got(Kind::GotPage, field(Field::Hi20), GotKind::Address)),
        R_LARCH_GOT_PC_LO12 => match here {
            Some(word) if insn::is_ld_word(word) => {
                if got_relaxable && spec_pair_before(data, offset, Second::LoadWord) {
                    Ok(class(Kind::Relax, Width::Nothing))
                } else {
                    Ok(got(Kind::GotAbs, field(Field::Lo12), GotKind::Address))
                }
            },
            // An `addi.d` computes the address of the entry rather than
            // loading it: the second half of a general- or local-dynamic
            // sequence, which reuses this type. (The extreme code model's
            // `addi.d rd, $zero` is ambiguous and taken as a GOT load.)
            Some(word) if insn::is_addi(word) && insn::rj(word) != R_ZERO => Ok(
                got(Kind::GotAbs, field(Field::Lo12), GotKind::TlsGd),
            ),
            _ => Ok(got(Kind::GotAbs, field(Field::Lo12), GotKind::Address)),
        },
        R_LARCH_GOT64_PC_LO20 => Ok(got(Kind::GotPage, field(Field::Lo20), GotKind::Address)),
        R_LARCH_GOT64_PC_HI12 => Ok(got(Kind::GotPage, field(Field::Hi12), GotKind::Address)),
        R_LARCH_GOT_HI20 => Ok(got(Kind::GotAbs, field(Field::Hi20), GotKind::Address)),
        R_LARCH_GOT_LO12 => Ok(got(Kind::GotAbs, field(Field::Lo12), GotKind::Address)),
        R_LARCH_GOT64_LO20 => Ok(got(Kind::GotAbs, field(Field::Lo20), GotKind::Address)),
        R_LARCH_GOT64_HI12 => Ok(got(Kind::GotAbs, field(Field::Hi12), GotKind::Address)),

        // Local-exec.
        R_LARCH_TLS_LE_HI20 => Ok(class(Kind::TpOff, field(Field::Hi20))),
        R_LARCH_TLS_LE_LO12 => Ok(class(Kind::TpOff, field(Field::Lo12))),
        R_LARCH_TLS_LE64_LO20 => Ok(class(Kind::TpOff, field(Field::Lo20))),
        R_LARCH_TLS_LE64_HI12 => Ok(class(Kind::TpOff, field(Field::Hi12))),
        R_LARCH_TLS_LE_HI20_R if hint => Ok(class(Kind::TpOff, field(Field::TpHi20Relax))),
        R_LARCH_TLS_LE_HI20_R => Ok(class(Kind::TpOff, field(Field::Hi20Round))),
        R_LARCH_TLS_LE_ADD_R if hint => Ok(class(Kind::TpOff, field(Field::TpAddRelax))),
        R_LARCH_TLS_LE_ADD_R => Ok(class(Kind::Nothing, Width::Nothing)),
        R_LARCH_TLS_LE_LO12_R if hint => Ok(class(Kind::TpOff, field(Field::TpLo12Relax))),
        R_LARCH_TLS_LE_LO12_R => Ok(class(Kind::TpOff, field(Field::Lo12))),

        // Initial-exec, relaxed to local-exec for adjacent pairs.
        R_LARCH_TLS_IE_PC_HI20 if tls == TlsMode::LocalExec && spec_pair_at(
            data,
            offset,
            Second::LoadWord,
        ) => Ok(class(Kind::IeToLe, Width::Nothing)),
        R_LARCH_TLS_IE_PC_HI20 => Ok(got(Kind::GotPage, field(Field::Hi20), GotKind::TpOff)),
        R_LARCH_TLS_IE_PC_LO12 if tls == TlsMode::LocalExec
                && (match here {
                Some(w) => insn::is_ld_word(w),
                None => false,
            })
                && spec_pair_before(data, offset, Second::LoadWord) => Ok(
                    class(Kind::IeToLe, Width::Nothing),
                ),
        R_LARCH_TLS_IE_PC_LO12 => Ok(got(Kind::GotAbs, field(Field::Lo12), GotKind::TpOff)),
        R_LARCH_TLS_IE64_PC_LO20 => Ok(got(Kind::GotPage, field(Field::Lo20), GotKind::TpOff)),
        R_LARCH_TLS_IE64_PC_HI12 => Ok(got(Kind::GotPage, field(Field::Hi12), GotKind::TpOff)),
        R_LARCH_TLS_IE_HI20 => Ok(got(Kind::GotAbs, field(Field::Hi20), GotKind::TpOff)),
        R_LARCH_TLS_IE_LO12 => Ok(got(Kind::GotAbs, field(Field::Lo12), GotKind::TpOff)),
        R_LARCH_TLS_IE64_LO20 => Ok(got(Kind::GotAbs, field(Field::Lo20), GotKind::TpOff)),
        R_LARCH_TLS_IE64_HI12 => Ok(got(Kind::GotAbs, field(Field::Hi12), GotKind::TpOff)),

        // General- and local-dynamic: never relaxed.
        R_LARCH_TLS_GD_PC_HI20 | R_LARCH_TLS_LD_PC_HI20 => Ok(
            got(Kind::GotPage, field(Field::Hi20), GotKind::TlsGd),
        ),
        R_LARCH_TLS_GD_HI20 => Ok(got(Kind::GotAbs, field(Field::Hi20), GotKind::TlsGd)),
        R_LARCH_TLS_LD_HI20 => Ok(got(Kind::GotAbs, field(Field::Hi20), GotKind::TlsGd)),
        R_LARCH_TLS_GD_PCREL20_S2 => Ok(got(Kind::Got, field(Field::Pcrel20S2), GotKind::TlsGd)),
        R_LARCH_TLS_LD_PCREL20_S2 => Ok(got(Kind::Got, field(Field::Pcrel20S2), GotKind::TlsGd)),

        // TLS descriptors.
        R_LARCH_TLS_DESC_PC_HI20 => Ok(
            desc(tls, got(Kind::GotPage, field(Field::Hi20), GotKind::TlsDesc)),
        ),
        R_LARCH_TLS_DESC_PC_LO12 => Ok(
            desc(tls, got(Kind::GotAbs, field(Field::Lo12), GotKind::TlsDesc)),
        ),
        R_LARCH_TLS_DESC_PCREL20_S2 => Ok(
            desc(tls, got(Kind::Got, field(Field::Pcrel20S2), GotKind::TlsDesc)),
        ),
        R_LARCH_TLS_DESC_LD | R_LARCH_TLS_DESC_CALL => Ok(
            desc(tls, class(Kind::Nothing, Width::Nothing)),
        ),
        // The extreme code model's upper halves and the absolute forms
        // compute the descriptor's address, which a relaxed `DESC_LD`
        // overwrites: left alone.
        R_LARCH_TLS_DESC64_PC_LO20 => Ok(
            desc_dead(tls, got(Kind::GotPage, field(Field::Lo20), GotKind::TlsDesc)),
        ),
        R_LARCH_TLS_DESC64_PC_HI12 => Ok(
            desc_dead(tls, got(Kind::GotPage, field(Field::Hi12), GotKind::TlsDesc)),
        ),
        R_LARCH_TLS_DESC_HI20 => Ok(
            desc_dead(tls, got(Kind::GotAbs, field(Field::Hi20), GotKind::TlsDesc)),
        ),
        R_LARCH_TLS_DESC_LO12 => Ok(
            desc_dead(tls, got(Kind::GotAbs, field(Field::Lo12), GotKind::TlsDesc)),
        ),
        R_LARCH_TLS_DESC64_LO20 => Ok(
            desc_dead(tls, got(Kind::GotAbs, field(Field::Lo20), GotKind::TlsDesc)),
        ),
        R_LARCH_TLS_DESC64_HI12 => Ok(
            desc_dead(tls, got(Kind::GotAbs, field(Field::Hi12), GotKind::TlsDesc)),
        ),

        _ => Err(ClassifyError::Unsupported),
    }
}

/// Classifies LoongArch relocation `r_type` (which may carry
/// [`RELAX_HINT`]) at `offset` in section `data`.
///
/// # Errors
///
/// [`ClassifyError::Unsupported`] for types that are not linked: the
/// dynamic-only types, the stack-machine relocations of object ABI v0, the
/// 24-bit label arithmetic lld also rejects, and the LA32 `pcaddu12i`
/// forms.
#[verifier::rlimit(60)]
pub fn classify(
    r_type: u32,
    addend: i64,
    data: &[u8],
    offset: u64,
    context: ClassifyContext,
) -> (r: Result<Class, ClassifyError>)
    ensures
        r == spec_classify(r_type, addend, data@, offset, context),
{
    let hint: bool = r_type & RELAX_HINT != 0 && context.relax_got;
    let tls: TlsMode = context.tls;
    // A GOT load of a symbol resolved here, as an adjacent pair the GOT
    // indirection can be taken out of.
    let got_relaxable: bool = context.relax_got && addend == 0;
    let here: Option<u32> = word_after(data, offset, 0);
    match base_type(r_type) {
        R_LARCH_NONE
        | R_LARCH_MARK_LA
        | R_LARCH_MARK_PCREL
        | R_LARCH_GNU_VTINHERIT
        | R_LARCH_GNU_VTENTRY
        | R_LARCH_RELAX
        | R_LARCH_ALIGN => Ok(class(Kind::Nothing, Width::Nothing)),

        // Data.
        R_LARCH_64 => Ok(class(Kind::Abs, Width::W64)),
        R_LARCH_32 => Ok(class(Kind::Abs, Width::Any32)),
        R_LARCH_64_PCREL => Ok(class(Kind::Pc, Width::W64)),
        R_LARCH_32_PCREL => Ok(class(Kind::Pc, Width::I32)),
        R_LARCH_TLS_DTPREL64 => Ok(class(Kind::DtpOff, Width::W64)),
        R_LARCH_TLS_DTPREL32 => Ok(class(Kind::DtpOff, Width::Any32)),
        R_LARCH_TLS_TPREL64 => Ok(class(Kind::TpOff, Width::W64)),
        R_LARCH_TLS_TPREL32 => Ok(class(Kind::TpOff, Width::Any32)),

        // Label differences (DWARF, `.eh_frame`, jump tables).
        R_LARCH_ADD6 => Ok(class(Kind::Add, field(Field::Data6))),
        R_LARCH_ADD8 => Ok(class(Kind::Add, Width::Any8)),
        R_LARCH_ADD16 => Ok(class(Kind::Add, Width::Any16)),
        R_LARCH_ADD32 => Ok(class(Kind::Add, Width::Any32)),
        R_LARCH_ADD64 => Ok(class(Kind::Add, Width::W64)),
        R_LARCH_ADD_ULEB128 => Ok(class(Kind::Add, field(Field::Uleb128))),
        R_LARCH_SUB6 => Ok(class(Kind::Sub, field(Field::Data6))),
        R_LARCH_SUB8 => Ok(class(Kind::Sub, Width::Any8)),
        R_LARCH_SUB16 => Ok(class(Kind::Sub, Width::Any16)),
        R_LARCH_SUB32 => Ok(class(Kind::Sub, Width::Any32)),
        R_LARCH_SUB64 => Ok(class(Kind::Sub, Width::W64)),
        R_LARCH_SUB_ULEB128 => Ok(class(Kind::Sub, field(Field::Uleb128))),

        // Branches.
        R_LARCH_B16 => Ok(class(Kind::Pc, field(Field::B16))),
        R_LARCH_B21 => Ok(class(Kind::Pc, field(Field::B21))),
        R_LARCH_B26 => Ok(class(Kind::Pc, field(Field::B26))),
        R_LARCH_CALL36 if r_type & RELAX_HINT != 0 && context.relax_got => Ok(
            class(Kind::Pc, field(Field::Call36Relax)),
        ),
        R_LARCH_CALL36 => Ok(class(Kind::Pc, field(Field::Call36))),
        R_LARCH_PCREL20_S2 => Ok(class(Kind::Pc, field(Field::Pcrel20S2))),

        // Absolute addresses.
        R_LARCH_ABS_HI20 => Ok(class(Kind::Abs, field(Field::Hi20))),
        R_LARCH_ABS_LO12 => Ok(class(Kind::Abs, field(Field::Lo12))),
        R_LARCH_ABS64_LO20 => Ok(class(Kind::Abs, field(Field::Lo20))),
        R_LARCH_ABS64_HI12 => Ok(class(Kind::Abs, field(Field::Hi12))),

        // PC-relative addresses.
        R_LARCH_PCALA_HI20 if hint && pair_at(data, offset, Second::Addi) => Ok(
            class(Kind::Relax, Width::Nothing),
        ),
        R_LARCH_PCALA_HI20 => Ok(class(Kind::Page, field(Field::Hi20))),
        R_LARCH_PCALA_LO12 => match here {
            // `pcalau12i` + `jirl`: a call through the low part.
            Some(word) if insn::is_jirl(word) => Ok(class(Kind::PageOff, field(Field::JirlLo12))),
            _ if hint && pair_before(data, offset, Second::Addi) => Ok(
                class(Kind::Relax, Width::Nothing),
            ),
            _ => Ok(class(Kind::PageOff, field(Field::Lo12))),
        },
        R_LARCH_PCALA64_LO20 => Ok(class(Kind::Page, field(Field::Lo20))),
        R_LARCH_PCALA64_HI12 => Ok(class(Kind::Page, field(Field::Hi12))),

        // GOT.
        R_LARCH_GOT_PC_HI20 if got_relaxable && pair_at(data, offset, Second::LoadWord) => Ok(
            class(Kind::Relax, Width::Nothing),
        ),
        R_LARCH_GOT_PC_HI20 => Ok(got(Kind::GotPage, field(Field::Hi20), GotKind::Address)),
        R_LARCH_GOT_PC_LO12 => match here {
            Some(word) if insn::is_ld_word(word) => {
                if got_relaxable && pair_before(data, offset, Second::LoadWord) {
                    Ok(class(Kind::Relax, Width::Nothing))
                } else {
                    Ok(got(Kind::GotAbs, field(Field::Lo12), GotKind::Address))
                }
            },
            // An `addi.d` computes the address of the entry rather than
            // loading it: the second half of a general- or local-dynamic
            // sequence, which reuses this type. (The extreme code model's
            // `addi.d rd, $zero` is ambiguous and taken as a GOT load.)
            Some(word) if insn::is_addi(word) && insn::rj(word) != R_ZERO => Ok(
                got(Kind::GotAbs, field(Field::Lo12), GotKind::TlsGd),
            ),
            _ => Ok(got(Kind::GotAbs, field(Field::Lo12), GotKind::Address)),
        },
        R_LARCH_GOT64_PC_LO20 => Ok(got(Kind::GotPage, field(Field::Lo20), GotKind::Address)),
        R_LARCH_GOT64_PC_HI12 => Ok(got(Kind::GotPage, field(Field::Hi12), GotKind::Address)),
        R_LARCH_GOT_HI20 => Ok(got(Kind::GotAbs, field(Field::Hi20), GotKind::Address)),
        R_LARCH_GOT_LO12 => Ok(got(Kind::GotAbs, field(Field::Lo12), GotKind::Address)),
        R_LARCH_GOT64_LO20 => Ok(got(Kind::GotAbs, field(Field::Lo20), GotKind::Address)),
        R_LARCH_GOT64_HI12 => Ok(got(Kind::GotAbs, field(Field::Hi12), GotKind::Address)),

        // Local-exec.
        R_LARCH_TLS_LE_HI20 => Ok(class(Kind::TpOff, field(Field::Hi20))),
        R_LARCH_TLS_LE_LO12 => Ok(class(Kind::TpOff, field(Field::Lo12))),
        R_LARCH_TLS_LE64_LO20 => Ok(class(Kind::TpOff, field(Field::Lo20))),
        R_LARCH_TLS_LE64_HI12 => Ok(class(Kind::TpOff, field(Field::Hi12))),
        R_LARCH_TLS_LE_HI20_R if hint => Ok(class(Kind::TpOff, field(Field::TpHi20Relax))),
        R_LARCH_TLS_LE_HI20_R => Ok(class(Kind::TpOff, field(Field::Hi20Round))),
        R_LARCH_TLS_LE_ADD_R if hint => Ok(class(Kind::TpOff, field(Field::TpAddRelax))),
        R_LARCH_TLS_LE_ADD_R => Ok(class(Kind::Nothing, Width::Nothing)),
        R_LARCH_TLS_LE_LO12_R if hint => Ok(class(Kind::TpOff, field(Field::TpLo12Relax))),
        R_LARCH_TLS_LE_LO12_R => Ok(class(Kind::TpOff, field(Field::Lo12))),

        // Initial-exec, relaxed to local-exec for adjacent pairs.
        R_LARCH_TLS_IE_PC_HI20 if tls == TlsMode::LocalExec && pair_at(data, offset, Second::LoadWord) => Ok(
            class(Kind::IeToLe, Width::Nothing),
        ),
        R_LARCH_TLS_IE_PC_HI20 => Ok(got(Kind::GotPage, field(Field::Hi20), GotKind::TpOff)),
        R_LARCH_TLS_IE_PC_LO12 if tls == TlsMode::LocalExec
                && (match here {
                Some(w) => insn::is_ld_word(w),
                None => false,
            })
                && pair_before(data, offset, Second::LoadWord) => Ok(
                    class(Kind::IeToLe, Width::Nothing),
                ),
        R_LARCH_TLS_IE_PC_LO12 => Ok(got(Kind::GotAbs, field(Field::Lo12), GotKind::TpOff)),
        R_LARCH_TLS_IE64_PC_LO20 => Ok(got(Kind::GotPage, field(Field::Lo20), GotKind::TpOff)),
        R_LARCH_TLS_IE64_PC_HI12 => Ok(got(Kind::GotPage, field(Field::Hi12), GotKind::TpOff)),
        R_LARCH_TLS_IE_HI20 => Ok(got(Kind::GotAbs, field(Field::Hi20), GotKind::TpOff)),
        R_LARCH_TLS_IE_LO12 => Ok(got(Kind::GotAbs, field(Field::Lo12), GotKind::TpOff)),
        R_LARCH_TLS_IE64_LO20 => Ok(got(Kind::GotAbs, field(Field::Lo20), GotKind::TpOff)),
        R_LARCH_TLS_IE64_HI12 => Ok(got(Kind::GotAbs, field(Field::Hi12), GotKind::TpOff)),

        // General- and local-dynamic: never relaxed.
        R_LARCH_TLS_GD_PC_HI20 | R_LARCH_TLS_LD_PC_HI20 => Ok(
            got(Kind::GotPage, field(Field::Hi20), GotKind::TlsGd),
        ),
        R_LARCH_TLS_GD_HI20 => Ok(got(Kind::GotAbs, field(Field::Hi20), GotKind::TlsGd)),
        R_LARCH_TLS_LD_HI20 => Ok(got(Kind::GotAbs, field(Field::Hi20), GotKind::TlsGd)),
        R_LARCH_TLS_GD_PCREL20_S2 => Ok(got(Kind::Got, field(Field::Pcrel20S2), GotKind::TlsGd)),
        R_LARCH_TLS_LD_PCREL20_S2 => Ok(got(Kind::Got, field(Field::Pcrel20S2), GotKind::TlsGd)),

        // TLS descriptors.
        R_LARCH_TLS_DESC_PC_HI20 => Ok(
            desc(tls, got(Kind::GotPage, field(Field::Hi20), GotKind::TlsDesc)),
        ),
        R_LARCH_TLS_DESC_PC_LO12 => Ok(
            desc(tls, got(Kind::GotAbs, field(Field::Lo12), GotKind::TlsDesc)),
        ),
        R_LARCH_TLS_DESC_PCREL20_S2 => Ok(
            desc(tls, got(Kind::Got, field(Field::Pcrel20S2), GotKind::TlsDesc)),
        ),
        R_LARCH_TLS_DESC_LD | R_LARCH_TLS_DESC_CALL => Ok(
            desc(tls, class(Kind::Nothing, Width::Nothing)),
        ),
        // The extreme code model's upper halves and the absolute forms
        // compute the descriptor's address, which a relaxed `DESC_LD`
        // overwrites: left alone.
        R_LARCH_TLS_DESC64_PC_LO20 => Ok(
            desc_dead(tls, got(Kind::GotPage, field(Field::Lo20), GotKind::TlsDesc)),
        ),
        R_LARCH_TLS_DESC64_PC_HI12 => Ok(
            desc_dead(tls, got(Kind::GotPage, field(Field::Hi12), GotKind::TlsDesc)),
        ),
        R_LARCH_TLS_DESC_HI20 => Ok(
            desc_dead(tls, got(Kind::GotAbs, field(Field::Hi20), GotKind::TlsDesc)),
        ),
        R_LARCH_TLS_DESC_LO12 => Ok(
            desc_dead(tls, got(Kind::GotAbs, field(Field::Lo12), GotKind::TlsDesc)),
        ),
        R_LARCH_TLS_DESC64_LO20 => Ok(
            desc_dead(tls, got(Kind::GotAbs, field(Field::Lo20), GotKind::TlsDesc)),
        ),
        R_LARCH_TLS_DESC64_HI12 => Ok(
            desc_dead(tls, got(Kind::GotAbs, field(Field::Hi12), GotKind::TlsDesc)),
        ),

        _ => Err(ClassifyError::Unsupported),
    }
}

/// Whether relocation `r_type` is a branch that goes through the PLT when
/// its symbol is preemptible.
#[verifier::allow_in_spec]
pub fn is_branch(r_type: u32) -> bool
    returns
        (match base_type(r_type) {
            R_LARCH_B16 | R_LARCH_B21 | R_LARCH_B26 | R_LARCH_CALL36 => true,
            _ => false,
        }),
{
    match base_type(r_type) {
        R_LARCH_B16 | R_LARCH_B21 | R_LARCH_B26 | R_LARCH_CALL36 => true,
        _ => false,
    }
}

/// The page delta a `pcalau12i` relocation (or, in the extreme code
/// model, the `lu32i.d`/`lu52i.d` after it) computes from `place` to
/// `target`. The later instructions of `pcalau12i; addi.d; lu32i.d; lu52i.d`
/// compute relative to the `pcalau12i`.
#[verifier::allow_in_spec]
pub fn page_delta(target: u64, place: u64, r_type: u32) -> u64
    returns
        (insn::page_delta(
            target,
            match base_type(r_type) {
                R_LARCH_PCALA64_LO20
                | R_LARCH_GOT64_PC_LO20
                | R_LARCH_TLS_IE64_PC_LO20
                | R_LARCH_TLS_DESC64_PC_LO20 => place.wrapping_sub(8),
                R_LARCH_PCALA64_HI12
                | R_LARCH_GOT64_PC_HI12
                | R_LARCH_TLS_IE64_PC_HI12
                | R_LARCH_TLS_DESC64_PC_HI12 => place.wrapping_sub(12),
                _ => place,
            },
        )),
{
    insn::page_delta(
        target,
        match base_type(r_type) {
            R_LARCH_PCALA64_LO20
            | R_LARCH_GOT64_PC_LO20
            | R_LARCH_TLS_IE64_PC_LO20
            | R_LARCH_TLS_DESC64_PC_LO20 => place.wrapping_sub(8),
            R_LARCH_PCALA64_HI12
            | R_LARCH_GOT64_PC_HI12
            | R_LARCH_TLS_IE64_PC_HI12
            | R_LARCH_TLS_DESC64_PC_HI12 => place.wrapping_sub(12),
            _ => place,
        },
    )
}

/// `p` with instruction `i` at `at`, its `field` holding `value`.
pub open spec fn with_word(p: Patched, at: int, i: u32, field: Field, value: i64) -> Patched {
    p.require(field.accepts(value), ApplyError::Overflow).word(at, field.packed(i, value))
}

/// `p` with `field` of the instruction at `at` holding `value`.
pub open spec fn with_insn_field(p: Patched, at: int, field: Field, value: i64) -> Patched {
    match bytes::u32_at(p.bytes, at) {
        Some(i) => with_word(p, at, i, field, value),
        None => p.fail(ApplyError::OutOfBounds),
    }
}

/// The instruction word at `at`.
///
/// # Errors
///
/// [`ApplyError::OutOfBounds`] when there is none.
fn word(out: &[u8], at: u64) -> (r: Result<u32, ApplyError>)
    ensures
        r == (match bytes::u32_at(out@, at as int) {
            Some(w) => Ok(w),
            None => Err(ApplyError::OutOfBounds),
        }),
{
    match get_u32(out, at) {
        Some(w) => Ok(w),
        None => Err(ApplyError::OutOfBounds),
    }
}

/// Writes `i` with `field` holding `value` at `at`.
fn patch_word(out: &mut [u8], at: u64, i: u32, field: Field, value: i64) -> (r: Result<
    (),
    ApplyError,
>)
    ensures
        r == with_word(Patched::new(old(out)@), at as int, i, field, value).result,
        final(out)@ == with_word(Patched::new(old(out)@), at as int, i, field, value).bytes,
{
    match field.encode(i, value) {
        Ok(encoded) => put_word(out, at, encoded),
        Err(_) => Err(ApplyError::Overflow),
    }
}

/// Makes `field` of the instruction at `at` hold `value`.
fn patch(out: &mut [u8], at: u64, field: Field, value: i64) -> (r: Result<(), ApplyError>)
    ensures
        r == with_insn_field(Patched::new(old(out)@), at as int, field, value).result,
        final(out)@ == with_insn_field(Patched::new(old(out)@), at as int, field, value).bytes,
{
    let i: u32 = word(out, at)?;
    patch_word(out, at, i, field, value)
}

/// Whether a relaxable call of `value` bytes becomes `bl` or `b`: its target
/// is in reach, and it links `$ra` or nothing.
pub open spec fn call_becomes_branch(field: Field, second: u32, value: i64) -> bool {
    field == Field::Call36Relax && (insn::rd(second) == R_RA || insn::rd(second) == R_ZERO)
        && Field::B26.accepts(value)
}

/// The branch a relaxable call becomes.
#[verifier::allow_in_spec]
pub fn branch_opcode(second: u32) -> u32
    returns
        (if insn::rd(second) == R_RA {
            insn::BL
        } else {
            insn::B
        }),
{
    if insn::rd(second) == R_RA {
        insn::BL
    } else {
        insn::B
    }
}

/// `p` with the ULEB128 number at `at` replaced by `value`, in as many
/// bytes.
pub open spec fn with_uleb(p: Patched, at: int, value: u64) -> Patched {
    match crate::leb::uleb_end(p.bytes, at) {
        Some(end) => Patched { bytes: crate::leb::uleb_written(p.bytes, at, end, value), ..p },
        None => p.fail(ApplyError::OutOfBounds),
    }
}

/// What [`write_field`] does.
pub open spec fn spec_write_field(s: Seq<u8>, offset: u64, field: Field, value: u64) -> Patched {
    let p = Patched::new(s);
    let at = offset as int;
    let signed = value as i64;
    let small = bits::spec_fits_signed(signed as int, 12);
    if offset + 4 > u64::MAX {
        p.fail(ApplyError::OutOfBounds)
    } else {
    match field {
        Field::Call36 | Field::Call36Relax => match (bytes::u32_at(s, at), bytes::u32_at(s, at + 4)) {
            (Some(first), Some(second)) => if call_becomes_branch(field, second, signed) {
                with_word(p, at, branch_opcode(second), Field::B26, signed).word(at + 4, NOP)
            } else {
                let pair = insn::call36_packed(first, second, signed);
                p.require(insn::call36_accepts(signed), ApplyError::Overflow).word(
                    at,
                    pair.0,
                ).word(at + 4, pair.1)
            },
            _ => p.fail(ApplyError::OutOfBounds),
        },
        Field::TpHi20Relax => if small {
            p.word(at, NOP)
        } else {
            with_insn_field(p, at, Field::Hi20Round, signed)
        },
        Field::TpAddRelax => if small {
            p.word(at, NOP)
        } else {
            p
        },
        Field::TpLo12Relax => match bytes::u32_at(s, at) {
            Some(i) => with_word(
                p,
                at,
                if small {
                    insn::with_rj(i, R_TP)
                } else {
                    i
                },
                Field::Lo12,
                signed,
            ),
            None => p.fail(ApplyError::OutOfBounds),
        },
        Field::Data6 => match bytes::byte_at(s, at) {
            Some(b) => p.byte(at, b & 0xc0 | (value as u8) & 0x3f),
            None => p.fail(ApplyError::OutOfBounds),
        },
        Field::Uleb128 => with_uleb(p, at, value),
        _ => with_insn_field(p, at, field, signed),
    }
    }
}

/// Writes `value` into `field` at `offset`: the fields that are not one
/// instruction word, and the relaxable forms, which pick their encoding
/// from the value.
///
/// # Errors
///
/// [`ApplyError::Overflow`] or [`ApplyError::OutOfBounds`].
#[verifier::rlimit(40)]
pub fn write_field(out: &mut [u8], offset: u64, field: Field, value: u64) -> (r: Result<
    (),
    ApplyError,
>)
    ensures
        r == spec_write_field(old(out)@, offset, field, value).result,
        final(out)@ == spec_write_field(old(out)@, offset, field, value).bytes,
{
    let _len: usize = out.len();
    let signed: i64 = value as i64;
    let Some(next) = offset.checked_add(4) else {
        return Err(ApplyError::OutOfBounds);
    };
    let small: bool = fits_signed(signed, 12);
    match field {
        Field::Call36 | Field::Call36Relax => {
            let first: u32 = word(out, offset)?;
            let second: u32 = word(out, next)?;
            if field == Field::Call36Relax && (insn::rd(second) == R_RA || insn::rd(second)
                == R_ZERO) {
                match Field::B26.encode(branch_opcode(second), signed) {
                    Ok(branch) => {
                        put_word(out, offset, branch)?;
                        return put_word(out, next, NOP);
                    },
                    Err(_) => {},
                }
            }
            match insn::call36(first, second, signed) {
                Ok((a, b)) => {
                    put_word(out, offset, a)?;
                    put_word(out, next, b)
                },
                Err(_) => Err(ApplyError::Overflow),
            }
        },
        Field::TpHi20Relax => if small {
            put_word(out, offset, NOP)
        } else {
            patch(out, offset, Field::Hi20Round, signed)
        },
        Field::TpAddRelax => if small {
            put_word(out, offset, NOP)
        } else {
            Ok(())
        },
        Field::TpLo12Relax => {
            let i: u32 = word(out, offset)?;
            let i: u32 = if small {
                insn::with_rj(i, R_TP)
            } else {
                i
            };
            patch_word(out, offset, i, Field::Lo12, signed)
        },
        Field::Data6 => match get_byte(out, offset) {
            Some(b) => put(out, offset, 0, b & 0xc0 | (value as u8) & 0x3f),
            None => Err(ApplyError::OutOfBounds),
        },
        Field::Uleb128 => match last_byte(out, offset) {
            Some(last) => {
                rewrite(out, offset as usize, last, value);
                Ok(())
            },
            None => Err(ApplyError::OutOfBounds),
        },
        _ => patch(out, offset, field, signed),
    }
}

/// What [`add_field`] does.
pub open spec fn spec_add_field(s: Seq<u8>, offset: u64, field: Field, delta: u64) -> Patched {
    let p = Patched::new(s);
    let at = offset as int;
    match field {
        Field::Data6 => match bytes::byte_at(s, at) {
            Some(b) => p.byte(at, b & 0xc0 | b.wrapping_add(delta as u8) & 0x3f),
            None => p.fail(ApplyError::OutOfBounds),
        },
        Field::Uleb128 => match crate::leb::uleb_end(s, at) {
            Some(end) => with_uleb(p, at, crate::leb::uleb_value(s, at, end).wrapping_add(delta)),
            None => p.fail(ApplyError::OutOfBounds),
        },
        _ => p.fail(
            if offset <= usize::MAX {
                ApplyError::BadInstruction
            } else {
                ApplyError::OutOfBounds
            },
        ),
    }
}

/// Adds `delta` to the data field at `offset` (`R_LARCH_ADD6` and
/// `R_LARCH_ADD_ULEB128`, or their `SUB` counterparts with a negated
/// delta).
///
/// # Errors
///
/// [`ApplyError::OutOfBounds`], also for a malformed ULEB128 number.
pub fn add_field(out: &mut [u8], offset: u64, field: Field, delta: u64) -> (r: Result<
    (),
    ApplyError,
>)
    ensures
        r == spec_add_field(old(out)@, offset, field, delta).result,
        final(out)@ == spec_add_field(old(out)@, offset, field, delta).bytes,
{
    match field {
        Field::Data6 => match get_byte(out, offset) {
            Some(b) => put(out, offset, 0, b & 0xc0 | b.wrapping_add(delta as u8) & 0x3f),
            None => Err(ApplyError::OutOfBounds),
        },
        Field::Uleb128 => match last_byte(out, offset) {
            Some(last) => {
                let value: u64 = value_of(out, offset as usize, last);
                rewrite(out, offset as usize, last, value.wrapping_add(delta));
                Ok(())
            },
            None => Err(ApplyError::OutOfBounds),
        },
        _ => if offset <= usize::MAX as u64 {
            Err(ApplyError::BadInstruction)
        } else {
            Err(ApplyError::OutOfBounds)
        },
    }
}

/// Whether a `pcaddi` placed `delta` bytes before its target, and one
/// placed four bytes later, both reach it: the test both halves of a
/// relaxed pair apply, so that they agree.
pub open spec fn spec_pcaddi_reaches(delta: i64) -> bool {
    delta & 3 == 0 && bits::spec_fits_signed(delta as int, 22) && bits::spec_fits_signed(
        delta.wrapping_sub(4) as int,
        22,
    )
}

/// Whether a `pcaddi` reaches from both places of a pair.
fn pcaddi_reaches(delta: i64) -> (r: bool)
    ensures
        r == spec_pcaddi_reaches(delta),
{
    delta & 3 == 0 && fits_signed(delta, 22) && fits_signed(delta.wrapping_sub(4), 22)
}

/// The `addi` that computes what the second instruction of a pair loads.
#[verifier::allow_in_spec]
pub fn addi_of(lo: u32) -> u32
    returns
        insn::rri12(
            if lo & 0xffc0_0000 == LD_W || lo & 0xffc0_0000 == ADDI_W {
                ADDI_W
            } else {
                ADDI_D
            },
            insn::rd(lo),
            insn::rj(lo),
            0,
        ),
{
    insn::rri12(
        if lo & 0xffc0_0000 == LD_W || lo & 0xffc0_0000 == ADDI_W {
            ADDI_W
        } else {
            ADDI_D
        },
        insn::rd(lo),
        insn::rj(lo),
        0,
    )
}

/// What [`relax`] does.
pub open spec fn spec_relax(
    s: Seq<u8>,
    offset: u64,
    r_type: u32,
    target: u64,
    place: u64,
) -> Patched {
    let p = Patched::new(s);
    let at = offset as int;
    let pcaddi = r_type & RELAX_HINT != 0;
    match base_type(r_type) {
        R_LARCH_PCALA_HI20 | R_LARCH_GOT_PC_HI20 => if pcaddi && spec_pcaddi_reaches(
            target.wrapping_sub(place) as i64,
        ) {
            p.word(at, NOP)
        } else {
            match bytes::u32_at(s, at) {
                Some(i) => with_word(
                    p,
                    at,
                    insn::ri20(PCALAU12I, insn::rd(i), 0),
                    Field::Hi20,
                    page_delta(target, place, r_type) as i64,
                ),
                None => p.fail(ApplyError::OutOfBounds),
            }
        },
        R_LARCH_PCALA_LO12 | R_LARCH_GOT_PC_LO12 => match bytes::u32_at(s, at) {
            Some(lo) => if pcaddi && spec_pcaddi_reaches(
                target.wrapping_sub(place.wrapping_sub(4)) as i64,
            ) {
                with_word(
                    p,
                    at,
                    insn::ri20(PCADDI, insn::rd(lo), 0),
                    Field::Pcrel20S2,
                    target.wrapping_sub(place) as i64,
                )
            } else {
                with_word(p, at, addi_of(lo), Field::Lo12, target as i64)
            },
            None => p.fail(ApplyError::OutOfBounds),
        },
        _ => p.fail(ApplyError::BadInstruction),
    }
}

/// Rewrites one half of a `pcalau12i` pair classified [`Kind::Relax`]:
/// the address of `target` computed without the GOT, by a `pcaddi` when
/// relaxation is allowed and it reaches.
///
/// # Errors
///
/// [`ApplyError`] when the instructions are not the pair classified, or
/// the target is out of reach.
pub fn relax(out: &mut [u8], offset: u64, r_type: u32, target: u64, place: u64) -> (r: Result<
    (),
    ApplyError,
>)
    ensures
        r == spec_relax(old(out)@, offset, r_type, target, place).result,
        final(out)@ == spec_relax(old(out)@, offset, r_type, target, place).bytes,
{
    let pcaddi: bool = r_type & RELAX_HINT != 0;
    match base_type(r_type) {
        R_LARCH_PCALA_HI20 | R_LARCH_GOT_PC_HI20 => {
            if pcaddi && pcaddi_reaches(target.wrapping_sub(place) as i64) {
                return put_word(out, offset, NOP);
            }
            let i: u32 = word(out, offset)?;
            patch_word(
                out,
                offset,
                insn::ri20(PCALAU12I, insn::rd(i), 0),
                Field::Hi20,
                page_delta(target, place, r_type) as i64,
            )
        },
        R_LARCH_PCALA_LO12 | R_LARCH_GOT_PC_LO12 => {
            let lo: u32 = word(out, offset)?;
            if pcaddi && pcaddi_reaches(target.wrapping_sub(place.wrapping_sub(4)) as i64) {
                return patch_word(
                    out,
                    offset,
                    insn::ri20(PCADDI, insn::rd(lo), 0),
                    Field::Pcrel20S2,
                    target.wrapping_sub(place) as i64,
                );
            }
            patch_word(out, offset, addi_of(lo), Field::Lo12, target as i64)
        },
        _ => Err(ApplyError::BadInstruction),
    }
}

/// Both halves of a pair take the same form: a `nop` and a `pcaddi` where
/// relaxation is allowed and that reaches, a `pcalau12i` and an `addi`
/// elsewhere; and a `pcaddi` that is chosen holds its distance.
pub proof fn halves_agree(
    s: Seq<u8>,
    offset: u64,
    hi: u32,
    lo: u32,
    first: u32,
    second: u32,
    target: u64,
    place: u64,
)
    requires
        base_type(hi) == R_LARCH_PCALA_HI20 || base_type(hi) == R_LARCH_GOT_PC_HI20,
        base_type(lo) == R_LARCH_PCALA_LO12 || base_type(lo) == R_LARCH_GOT_PC_LO12,
        hi & RELAX_HINT == lo & RELAX_HINT,
        offset + 4 <= u64::MAX,
        bytes::u32_at(s, offset as int) == Some(first),
        bytes::u32_at(s, offset + 4) == Some(second),
    ensures
        ({
            let p = Patched::new(s);
            let after = place.wrapping_add(4);
            let one = spec_relax(s, offset, hi, target, place);
            let other = spec_relax(s, (offset + 4) as u64, lo, target, after);
            if hi & RELAX_HINT != 0 && spec_pcaddi_reaches(target.wrapping_sub(place) as i64) {
                &&& one == p.word(offset as int, NOP)
                &&& other == p.word(
                    offset + 4,
                    Field::Pcrel20S2.packed(
                        insn::ri20(PCADDI, insn::rd(second), 0),
                        target.wrapping_sub(after) as i64,
                    ),
                )
            } else {
                &&& one == with_word(
                    p,
                    offset as int,
                    insn::ri20(PCALAU12I, insn::rd(first), 0),
                    Field::Hi20,
                    page_delta(target, place, hi) as i64,
                )
                &&& other == with_word(
                    p,
                    offset + 4,
                    addi_of(second),
                    Field::Lo12,
                    target as i64,
                )
            }
        }),
{
    let after = place.wrapping_add(4);
    let near = target.wrapping_sub(place);
    let far = target.wrapping_sub(after);
    assert(after.wrapping_sub(4) == place);
    vstd::arithmetic::power2::lemma2_to64();
    if spec_pcaddi_reaches(near as i64) {
        let d = near as i64;
        assert(far as i64 == d - 4 && d % 4 == 0) by (bit_vector)
            requires
                d & 3 == 0,
                near - 4 == far || near + 0x1_0000_0000_0000_0000 - 4 == far,
                d == near as i64,
                -0x20_0000 <= d - 4,
                d - 4 < 0x20_0000,
        ;
    }
}

/// `lu12i.w rd` of the upper part of `tpoff`.
#[verifier::allow_in_spec]
pub fn tp_hi20(rd: u32, tpoff: i64) -> u32
    returns
        insn::ri20(LU12I_W, rd, ((tpoff as u64) >> 12) as u32),
{
    insn::ri20(LU12I_W, rd, ((tpoff as u64) >> 12) as u32)
}

/// `ori rd, rj` of the low part of `tpoff`.
#[verifier::allow_in_spec]
pub fn tp_lo12(rd: u32, rj: u32, tpoff: i64) -> u32
    returns
        insn::rri12(ORI, rd, rj, (tpoff as u64 & 0xfff) as u32),
{
    insn::rri12(ORI, rd, rj, (tpoff as u64 & 0xfff) as u32)
}

/// What [`relax_tls`] does.
pub open spec fn spec_relax_tls(
    s: Seq<u8>,
    offset: u64,
    kind: Kind,
    r_type: u32,
    values: RelaxValues,
) -> Patched {
    let p = Patched::new(s);
    let at = offset as int;
    let tpoff = values.tpoff;
    let small = bits::spec_fits_unsigned(tpoff as int, 12);
    let le = p.require(bits::spec_fits_signed(tpoff as int, 32), ApplyError::Overflow);
    match (kind, base_type(r_type)) {
        (Kind::IeToLe, R_LARCH_TLS_IE_PC_HI20) => match bytes::u32_at(s, at) {
            Some(i) => le.word(
                at,
                if small {
                    NOP
                } else {
                    tp_hi20(insn::rd(i), tpoff)
                },
            ),
            None => le.fail(ApplyError::OutOfBounds),
        },
        (Kind::IeToLe, R_LARCH_TLS_IE_PC_LO12) => match bytes::u32_at(s, at) {
            Some(i) => le.word(
                at,
                tp_lo12(
                    insn::rd(i),
                    if small {
                        R_ZERO
                    } else {
                        insn::rj(i)
                    },
                    tpoff,
                ),
            ),
            None => le.fail(ApplyError::OutOfBounds),
        },
        (
            Kind::DescToLe | Kind::DescToIe,
            R_LARCH_TLS_DESC_PC_HI20 | R_LARCH_TLS_DESC_PC_LO12 | R_LARCH_TLS_DESC_PCREL20_S2,
        ) => p.word(at, NOP),
        (Kind::DescToLe, R_LARCH_TLS_DESC_LD) => le.word(
            at,
            if small {
                NOP
            } else {
                tp_hi20(R_A0, tpoff)
            },
        ),
        (Kind::DescToLe, R_LARCH_TLS_DESC_CALL) => le.word(
            at,
            tp_lo12(
                R_A0,
                if small {
                    R_ZERO
                } else {
                    R_A0
                },
                tpoff,
            ),
        ),
        (Kind::DescToIe, R_LARCH_TLS_DESC_LD) => with_word(
            p,
            at,
            insn::ri20(PCALAU12I, R_A0, 0),
            Field::Hi20,
            insn::page_delta(values.got, values.place) as i64,
        ),
        (Kind::DescToIe, R_LARCH_TLS_DESC_CALL) => with_word(
            p,
            at,
            insn::rri12(LD_D, R_A0, R_A0, 0),
            Field::Lo12,
            values.got as i64,
        ),
        _ => p.fail(ApplyError::BadInstruction),
    }
}

/// Rewrites one instruction of a relaxed TLS sequence.
///
/// # Errors
///
/// [`ApplyError`] for relocations that are not part of a relaxable
/// sequence, and thread pointer offsets beyond 2 GiB.
#[verifier::rlimit(40)]
pub fn relax_tls(
    out: &mut [u8],
    offset: u64,
    kind: Kind,
    r_type: u32,
    values: RelaxValues,
) -> (r: Result<(), ApplyError>)
    ensures
        r == spec_relax_tls(old(out)@, offset, kind, r_type, values).result,
        final(out)@ == spec_relax_tls(old(out)@, offset, kind, r_type, values).bytes,
{
    let tpoff: i64 = values.tpoff;
    let small: bool = fits_unsigned(tpoff, 12);
    match (kind, base_type(r_type)) {
        (Kind::IeToLe, R_LARCH_TLS_IE_PC_HI20) => {
            if !fits_signed(tpoff, 32) {
                return Err(ApplyError::Overflow);
            }
            let i: u32 = word(out, offset)?;
            put_word(
                out,
                offset,
                if small {
                    NOP
                } else {
                    tp_hi20(insn::rd(i), tpoff)
                },
            )
        },
        (Kind::IeToLe, R_LARCH_TLS_IE_PC_LO12) => {
            if !fits_signed(tpoff, 32) {
                return Err(ApplyError::Overflow);
            }
            let i: u32 = word(out, offset)?;
            let source: u32 = if small {
                R_ZERO
            } else {
                insn::rj(i)
            };
            put_word(out, offset, tp_lo12(insn::rd(i), source, tpoff))
        },
        (
            Kind::DescToLe | Kind::DescToIe,
            R_LARCH_TLS_DESC_PC_HI20 | R_LARCH_TLS_DESC_PC_LO12 | R_LARCH_TLS_DESC_PCREL20_S2,
        ) => put_word(out, offset, NOP),
        (Kind::DescToLe, R_LARCH_TLS_DESC_LD) => {
            if !fits_signed(tpoff, 32) {
                return Err(ApplyError::Overflow);
            }
            put_word(
                out,
                offset,
                if small {
                    NOP
                } else {
                    tp_hi20(R_A0, tpoff)
                },
            )
        },
        (Kind::DescToLe, R_LARCH_TLS_DESC_CALL) => {
            if !fits_signed(tpoff, 32) {
                return Err(ApplyError::Overflow);
            }
            let source: u32 = if small {
                R_ZERO
            } else {
                R_A0
            };
            put_word(out, offset, tp_lo12(R_A0, source, tpoff))
        },
        (Kind::DescToIe, R_LARCH_TLS_DESC_LD) => patch_word(
            out,
            offset,
            insn::ri20(PCALAU12I, R_A0, 0),
            Field::Hi20,
            insn::page_delta(values.got, values.place) as i64,
        ),
        (Kind::DescToIe, R_LARCH_TLS_DESC_CALL) => patch_word(
            out,
            offset,
            insn::rri12(LD_D, R_A0, R_A0, 0),
            Field::Lo12,
            values.got as i64,
        ),
        _ => Err(ApplyError::BadInstruction),
    }
}

/// The field of a branch that cannot reach address 0.
#[verifier::allow_in_spec]
pub fn short_branch(r_type: u32) -> Option<Field>
    returns
        (match base_type(r_type) {
            R_LARCH_B16 => Some(Field::B16),
            R_LARCH_B21 => Some(Field::B21),
            R_LARCH_B26 => Some(Field::B26),
            _ => None,
        }),
{
    match base_type(r_type) {
        R_LARCH_B16 => Some(Field::B16),
        R_LARCH_B21 => Some(Field::B21),
        R_LARCH_B26 => Some(Field::B26),
        _ => None,
    }
}

/// Makes a `b`/`bl` or conditional branch to an undefined weak symbol, which
/// has no address, branch to itself, as lld does on RISC-V: address 0 is out
/// of reach of an executable at GNU ld's base, and the call is guarded
/// anyway (`if (f) f();`). A `pcaddu18i` + `jirl` pair reaches 0 and keeps
/// its target.
///
/// # Errors
///
/// [`ApplyError::OutOfBounds`] when the instruction is outside the section.
pub fn undefined_weak_branch(out: &mut [u8], offset: u64, r_type: u32) -> (r: Result<
    bool,
    ApplyError,
>)
    ensures
        match short_branch(r_type) {
            Some(field) => {
                let p = with_insn_field(Patched::new(old(out)@), offset as int, field, 0);
                &&& final(out)@ == p.bytes
                &&& match p.result {
                    Ok(_) => r == Ok::<bool, ApplyError>(true),
                    Err(e) => r == Err::<bool, ApplyError>(e),
                }
            },
            None => final(out)@ == old(out)@ && r == Ok::<bool, ApplyError>(false),
        },
{
    let Some(field) = short_branch(r_type) else {
        return Ok(false);
    };
    patch(out, offset, field, 0)?;
    Ok(true)
}

/// Fills `out` with `nop` instructions; a partial word is zeroed.
pub fn write_nops(out: &mut [u8])
    ensures
        final(out)@ == bytes::filled_with(old(out)@, NOP),
{
    fill_words(out, NOP)
}

/// Size of the PLT header.
pub const PLT_HEADER_SIZE: u64 = 32;

/// Size of a PLT entry (and of an IFUNC stub).
pub const PLT_ENTRY_SIZE: u64 = 16;

/// The words of the PLT header, `.got.plt` being `offset` bytes from it:
///
/// ```text
/// pcaddu12i $t2, %pcrel_hi20(.got.plt)
/// sub.d     $t1, $t1, $t3
/// ld.d      $t3, $t2, %pcrel_lo12(.got.plt)  # _dl_runtime_resolve
/// addi.d    $t1, $t1, -44                    # &.plt[i] - &.plt[0]
/// addi.d    $t0, $t2, %pcrel_lo12(.got.plt)
/// srli.d    $t1, $t1, 1                      # &.got.plt[i] - &.got.plt[2]
/// ld.d      $t0, $t0, 8                      # link map
/// jr        $t3
/// ```
#[verifier::allow_in_spec]
pub fn header_words(offset: u32) -> [u32; 8]
    returns
        [
            insn::ri20(PCADDU12I, R_T2, insn::pcrel_hi20(offset)),
            insn::rrr(SUB_D, R_T1, R_T1, R_T3),
            insn::rri12(LD_D, R_T3, R_T2, offset & 0xfff),
            insn::rri12(ADDI_D, R_T1, R_T1, 0xfd4),
            insn::rri12(ADDI_D, R_T0, R_T2, offset & 0xfff),
            insn::rri12(SRLI_D, R_T1, R_T1, 1),
            insn::rri12(LD_D, R_T0, R_T0, 8),
            insn::jirl(R_ZERO, R_T3),
        ],
{
    [
        insn::ri20(PCADDU12I, R_T2, insn::pcrel_hi20(offset)),
        insn::rrr(SUB_D, R_T1, R_T1, R_T3),
        insn::rri12(LD_D, R_T3, R_T2, offset & 0xfff),
        insn::rri12(ADDI_D, R_T1, R_T1, 0xfd4),
        insn::rri12(ADDI_D, R_T0, R_T2, offset & 0xfff),
        insn::rri12(SRLI_D, R_T1, R_T1, 1),
        insn::rri12(LD_D, R_T0, R_T0, 8),
        insn::jirl(R_ZERO, R_T3),
    ]
}

/// The words of a PLT entry whose GOT word is `offset` bytes from it:
///
/// ```text
/// pcaddu12i $t3, %pcrel_hi20(slot)
/// ld.d      $t3, $t3, %pcrel_lo12(slot)
/// jirl      $t1, $t3, 0
/// nop
/// ```
#[verifier::allow_in_spec]
pub fn entry_words(offset: u32) -> [u32; 4]
    returns
        [
            insn::ri20(PCADDU12I, R_T3, insn::pcrel_hi20(offset)),
            insn::rri12(LD_D, R_T3, R_T3, offset & 0xfff),
            insn::jirl(R_T1, R_T3),
            NOP,
        ],
{
    [
        insn::ri20(PCADDU12I, R_T3, insn::pcrel_hi20(offset)),
        insn::rri12(LD_D, R_T3, R_T3, offset & 0xfff),
        insn::jirl(R_T1, R_T3),
        NOP,
    ]
}

/// Writes the PLT header at address `plt`, which reaches `.got.plt` at
/// `got_plt`.
///
/// # Errors
///
/// [`ApplyError::OutOfBounds`] when `out` is shorter than the header.
pub fn write_plt_header(out: &mut [u8], plt: u64, got_plt: u64) -> (r: Result<(), ApplyError>)
    ensures
        ({
            let p = Patched::new(old(out)@).write(
                0,
                crate::arch::ppc64::spec_words(header_words(got_plt.wrapping_sub(plt) as u32)@),
                ApplyError::OutOfBounds,
            );
            r == p.result && final(out)@ == p.bytes
        }),
{
    let words: [u32; 8] = header_words(got_plt.wrapping_sub(plt) as u32);
    proof {
        crate::arch::ppc64::words_length(words@);
    }
    if write_words(out, &words) {
        Ok(())
    } else {
        Err(ApplyError::OutOfBounds)
    }
}

/// Writes a PLT entry (or an IFUNC stub) at address `entry` that jumps
/// through the GOT word at `slot`.
///
/// # Errors
///
/// [`ApplyError::OutOfBounds`] when `out` is shorter than an entry.
pub fn write_plt_entry(out: &mut [u8], entry: u64, slot: u64) -> (r: Result<(), ApplyError>)
    ensures
        ({
            let p = Patched::new(old(out)@).write(
                0,
                crate::arch::ppc64::spec_words(entry_words(slot.wrapping_sub(entry) as u32)@),
                ApplyError::OutOfBounds,
            );
            r == p.result && final(out)@ == p.bytes
        }),
{
    let words: [u32; 4] = entry_words(slot.wrapping_sub(entry) as u32);
    proof {
        crate::arch::ppc64::words_length(words@);
    }
    if write_words(out, &words) {
        Ok(())
    } else {
        Err(ApplyError::OutOfBounds)
    }
}

/// The first flags of an object with code and non-zero flags.
pub open spec fn first_flags(objects: Seq<(u32, bool)>) -> Option<u32>
    decreases objects.len(),
{
    if objects.len() == 0 {
        None
    } else if objects[0].1 && objects[0].0 != 0 {
        Some(objects[0].0)
    } else {
        first_flags(objects.skip(1))
    }
}

/// The `e_flags` of the output from each input object's flags and whether
/// it has code: those of the first object with code and non-zero flags, as
/// lld chooses them (objects without code, such as `objcopy`'d data, often
/// have none). Without one, LP64D with object ABI v1.
pub fn output_flags(objects: &[(u32, bool)]) -> (r: u32)
    ensures
        r == (match first_flags(objects@) {
            Some(flags) => flags,
            None => EF_LOONGARCH_OBJABI_V1 | EF_LOONGARCH_ABI_DOUBLE_FLOAT,
        }),
{
    let mut i: usize = 0;
    assert(objects@.skip(0) =~= objects@);
    while i < objects.len()
        invariant
            i <= objects@.len(),
            first_flags(objects@) == first_flags(objects@.skip(i as int)),
        decreases objects@.len() - i,
    {
        let (flags, code) = objects[i];
        if code && flags != 0 {
            return flags;
        }
        assert(objects@.skip(i as int).skip(1) =~= objects@.skip(i + 1));
        i += 1;
    }
    EF_LOONGARCH_OBJABI_V1 | EF_LOONGARCH_ABI_DOUBLE_FLOAT
}

/// Shared objects keep the TLS models their code was compiled for.
pub proof fn shared_objects_keep_tls_models(
    r_type: u32,
    addend: i64,
    data: Seq<u8>,
    offset: u64,
    context: ClassifyContext,
)
    requires
        context.tls == TlsMode::Dynamic,
        context.tls_ld == TlsMode::Dynamic,
    ensures
        match spec_classify(r_type, addend, data, offset, context) {
            Ok(class) => !super::changes_tls_model(class.kind),
            Err(_) => true,
        },
{
}

/// The field that each relocation type of the LoongArch ELF psABI fills, by the
/// number of the type and by what is computed, and the GOT entry it goes
/// through.
pub open spec fn abi_field(kind: Kind, r_type: u32) -> Option<(Width, GotKind)> {
    match kind {
        Kind::Abs => match r_type {
            1 => Some((Width::Any32, GotKind::Address)),
            2 => Some((Width::W64, GotKind::Address)),
            67 => Some((Width::LoongArch(Field::Hi20), GotKind::Address)),
            68 => Some((Width::LoongArch(Field::Lo12), GotKind::Address)),
            69 => Some((Width::LoongArch(Field::Lo20), GotKind::Address)),
            70 => Some((Width::LoongArch(Field::Hi12), GotKind::Address)),
            _ => None,
        },
        Kind::Pc => match r_type {
            64 => Some((Width::LoongArch(Field::B16), GotKind::Address)),
            65 => Some((Width::LoongArch(Field::B21), GotKind::Address)),
            66 => Some((Width::LoongArch(Field::B26), GotKind::Address)),
            99 => Some((Width::I32, GotKind::Address)),
            103 => Some((Width::LoongArch(Field::Pcrel20S2), GotKind::Address)),
            109 => Some((Width::W64, GotKind::Address)),
            110 => Some((Width::LoongArch(Field::Call36), GotKind::Address)),
            _ => None,
        },
        Kind::Page => match r_type {
            71 => Some((Width::LoongArch(Field::Hi20), GotKind::Address)),
            73 => Some((Width::LoongArch(Field::Lo20), GotKind::Address)),
            74 => Some((Width::LoongArch(Field::Hi12), GotKind::Address)),
            _ => None,
        },
        Kind::Got => match r_type {
            124 | 125 => Some((Width::LoongArch(Field::Pcrel20S2), GotKind::TlsGd)),
            _ => None,
        },
        Kind::GotPage => match r_type {
            75 => Some((Width::LoongArch(Field::Hi20), GotKind::Address)),
            77 => Some((Width::LoongArch(Field::Lo20), GotKind::Address)),
            78 => Some((Width::LoongArch(Field::Hi12), GotKind::Address)),
            87 => Some((Width::LoongArch(Field::Hi20), GotKind::TpOff)),
            89 => Some((Width::LoongArch(Field::Lo20), GotKind::TpOff)),
            90 => Some((Width::LoongArch(Field::Hi12), GotKind::TpOff)),
            95 | 97 => Some((Width::LoongArch(Field::Hi20), GotKind::TlsGd)),
            _ => None,
        },
        Kind::GotAbs => match r_type {
            79 => Some((Width::LoongArch(Field::Hi20), GotKind::Address)),
            80 => Some((Width::LoongArch(Field::Lo12), GotKind::Address)),
            81 => Some((Width::LoongArch(Field::Lo20), GotKind::Address)),
            82 => Some((Width::LoongArch(Field::Hi12), GotKind::Address)),
            88 | 92 => Some((Width::LoongArch(Field::Lo12), GotKind::TpOff)),
            91 => Some((Width::LoongArch(Field::Hi20), GotKind::TpOff)),
            93 => Some((Width::LoongArch(Field::Lo20), GotKind::TpOff)),
            94 => Some((Width::LoongArch(Field::Hi12), GotKind::TpOff)),
            96 | 98 => Some((Width::LoongArch(Field::Hi20), GotKind::TlsGd)),
            _ => None,
        },
        Kind::Add => match r_type {
            47 => Some((Width::Any8, GotKind::Address)),
            48 => Some((Width::Any16, GotKind::Address)),
            50 => Some((Width::Any32, GotKind::Address)),
            51 => Some((Width::W64, GotKind::Address)),
            105 => Some((Width::LoongArch(Field::Data6), GotKind::Address)),
            107 => Some((Width::LoongArch(Field::Uleb128), GotKind::Address)),
            _ => None,
        },
        Kind::Sub => match r_type {
            52 => Some((Width::Any8, GotKind::Address)),
            53 => Some((Width::Any16, GotKind::Address)),
            55 => Some((Width::Any32, GotKind::Address)),
            56 => Some((Width::W64, GotKind::Address)),
            106 => Some((Width::LoongArch(Field::Data6), GotKind::Address)),
            108 => Some((Width::LoongArch(Field::Uleb128), GotKind::Address)),
            _ => None,
        },
        Kind::TpOff => match r_type {
            10 => Some((Width::Any32, GotKind::Address)),
            11 => Some((Width::W64, GotKind::Address)),
            83 => Some((Width::LoongArch(Field::Hi20), GotKind::Address)),
            84 | 123 => Some((Width::LoongArch(Field::Lo12), GotKind::Address)),
            85 => Some((Width::LoongArch(Field::Lo20), GotKind::Address)),
            86 => Some((Width::LoongArch(Field::Hi12), GotKind::Address)),
            121 => Some((Width::LoongArch(Field::Hi20Round), GotKind::Address)),
            _ => None,
        },
        Kind::DtpOff => match r_type {
            8 => Some((Width::Any32, GotKind::Address)),
            9 => Some((Width::W64, GotKind::Address)),
            _ => None,
        },
        Kind::Nothing => match r_type {
            0 | 20 | 21 | 57 | 58 | 100 | 102 | 122 => Some((Width::Nothing, GotKind::Address)),
            _ => None,
        },
        _ => None,
    }
}

/// Every relocation type computes what the ABI defines for it and fills the
/// field the ABI gives it, whatever the code around it (but for those that
/// relaxation may rewrite); and
/// no other type is taken for one that computes `S + A`, `S + A - P` or the
/// like.
#[verifier::spinoff_prover]
#[verifier::rlimit(80)]
pub proof fn types_compute_what_the_abi_says(r_type: u32, addend: i64, data: Seq<u8>, offset: u64, context: ClassifyContext, kind: Kind)
    requires
        r_type < 0x1000,
    ensures
        abi_field(kind, r_type) matches Some((width, slot)) ==> ((r_type == 71 || r_type == 75 || r_type == 87 || r_type == 88 || r_type == 110 || r_type == 121 || r_type == 122 || r_type == 123) && (context.relax_got || context.tls == TlsMode::LocalExec) || spec_classify(r_type, addend, data, offset, context) == Ok::<Class, ClassifyError>(Class { kind, width, slot, skip_next: false })),
        spec_classify(r_type, addend, data, offset, context) matches Ok(c) ==> ((c.kind == Kind::Abs || c.kind == Kind::Page || c.kind == Kind::Add || c.kind == Kind::Sub || c.kind == Kind::DtpOff) ==> abi_field(c.kind, r_type) == Some((c.width, c.slot))),
{
    crate::bits::small_numbers(r_type);
}

} // verus!
