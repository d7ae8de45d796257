//! PowerPC64 instructions.
//!
//! A prefixed instruction is handled as one 64-bit number with its prefix
//! on top.

use vstd::prelude::*;

use crate::arch::EncodeError;
use crate::bits;
use crate::bits::fits_signed;
use crate::bytes;
use crate::bytes::{get_u32, le32, place, write_over};

verus! {

/// `nop`.
pub const NOP: u32 = 0x6000_0000;

/// `ld r2, 24(r1)`.
pub const LD_R2_24_R1: u32 = 0xe841_0018;

/// `std r2, 24(r1)`.
pub const STD_R2_24_R1: u32 = 0xf841_0018;

/// `addis r3, r13, 0`.
pub const ADDIS_R3_R13: u32 = 0x3c6d_0000;

/// `addis r0, r13, 0`, for another destination.
pub const ADDIS_R13: u32 = 0x3c0d_0000;

/// `addi r3, r3, 0`.
pub const ADDI_R3_R3: u32 = 0x3863_0000;

/// `addi r3, r3, 4096`.
pub const ADDI_R3_R3_4096: u32 = 0x3863_1000;

/// `add r3, r3, r13`.
pub const ADD_R3_R3_R13: u32 = 0x7c63_6a14;

/// `mflr r11`.
pub const MFLR_R11: u32 = 0x7d68_02a6;

/// `mtlr r11`.
pub const MTLR_R11: u32 = 0x7d68_03a6;

/// `bcl 20, 31, .+4`.
pub const BCL_NEXT: u32 = 0x429f_0005;

/// `mflr r12`.
pub const MFLR_R12: u32 = 0x7d88_02a6;

/// `addis r12, r12, 0`.
pub const ADDIS_R12_R12: u32 = 0x3d8c_0000;

/// `addi r12, r12, 0`.
pub const ADDI_R12_R12: u32 = 0x398c_0000;

/// `ld r12, 0(r12)`.
pub const LD_R12_R12: u32 = 0xe98c_0000;

/// `addis r12, r2, 0`.
pub const ADDIS_R12_R2: u32 = 0x3d82_0000;

/// `mtctr r12`.
pub const MTCTR_R12: u32 = 0x7d89_03a6;

/// `bctr`.
pub const BCTR: u32 = 0x4e80_0420;

/// `paddi r3, r13, 0`.
pub const PADDI_R3_R13: u64 = 0x0600_0000_386d_0000;

/// `paddi r3, r13, 4096`.
pub const PADDI_R3_R13_4096: u64 = 0x0600_0000_386d_1000;

/// `paddi r0, r13, 0`, for another destination.
pub const PADDI_R13: u64 = 0x0600_0000_380d_0000;

/// Where the thread pointer is from the start of the TLS block.
pub const TP_OFFSET: u64 = 0x7000;

/// How far past the start of a module's TLS block the dynamic thread vector points.
pub const DTV_OFFSET: u64 = 0x8000;

/// Where the TOC pointer is from the start of `.got`.
pub const TOC_BIAS: u64 = 0x8000;

/// Bytes of the lazy-binding resolver.
pub const GLINK_HEADER_SIZE: u64 = 60;

/// Bytes of a PLT call stub.
pub const PLT_CALL_STUB_SIZE: u64 = 20;

/// Bytes of a range-extension thunk.
pub const THUNK_SIZE: u64 = 36;

/// Thunk key: the address is of the word that holds the destination.
pub const THUNK_VIA_SLOT: u64 = 1;

/// Thunk key: the TOC pointer is saved first.
pub const THUNK_SAVE_TOC: u64 = 2;

/// The low half of `v`.
#[verifier::allow_in_spec]
pub fn lo(v: i64) -> u16
    returns
        (v as u16),
{
    v as u16
}

/// The high half of `v`, adjusted for a sign-extended low half.
#[verifier::allow_in_spec]
pub fn ha(v: i64) -> u16
    returns
        ((v.wrapping_add(0x8000) >> 16) as u16),
{
    (v.wrapping_add(0x8000) >> 16) as u16
}

/// The primary opcode of `insn`.
#[verifier::allow_in_spec]
pub fn primary_opcode(insn: u32) -> u32
    returns
        (insn >> 26),
{
    insn >> 26
}

/// How far past its global entry point a function with this `st_other` has
/// its local entry point.
#[verifier::allow_in_spec]
pub fn local_entry_offset(st_other: u8) -> u64
    returns
        (match (st_other >> 5) & 7 {
            2 => 4u64,
            3 => 8,
            4 => 16,
            5 => 32,
            6 => 64,
            _ => 0,
        }),
{
    match (st_other >> 5) & 7 {
        2 => 4u64,
        3 => 8,
        4 => 16,
        5 => 32,
        6 => 64,
        _ => 0,
    }
}

/// Whether a function with this `st_other` clobbers the TOC pointer.
#[verifier::allow_in_spec]
pub fn clobbers_toc(st_other: u8) -> bool
    returns
        ((st_other >> 5) & 7 == 1),
{
    (st_other >> 5) & 7 == 1
}

/// Whether a `b`/`bl` at `place` reaches `target`.
pub open spec fn spec_branch24_in_range(place: u64, target: u64) -> bool {
    bits::spec_fits_signed(target.wrapping_sub(place) as i64 as int, 26)
}

/// Whether a `b`/`bl` at `place` reaches `target`: ±32 MiB.
pub fn branch24_in_range(place: u64, target: u64) -> (r: bool)
    ensures
        r == spec_branch24_in_range(place, target),
{
    fits_signed(target.wrapping_sub(place) as i64, 26)
}

/// Whether the instruction writes its base register, which then cannot be
/// replaced.
#[verifier::allow_in_spec]
pub fn is_update_form(insn: u32) -> bool
    returns
        (match insn >> 26 {
            33 | 35 | 37 | 39 | 41 | 43 | 45 | 49 | 51 | 53 | 55 => true,
            58 | 62 => insn & 3 == 1,
            _ => false,
        }),
{
    match insn >> 26 {
        33 | 35 | 37 | 39 | 41 | 43 | 45 | 49 | 51 | 53 | 55 => true,
        58 | 62 => insn & 3 == 1,
        _ => false,
    }
}

/// A field of an instruction, or of data.
#[derive(Clone, Copy, Debug, PartialEq, Eq, Structural)]
pub enum Field {
    /// 16 bits, signed or unsigned.
    Half16,
    /// 16 bits, signed.
    Half16Signed,
    /// Bits 0 to 15.
    Lo,
    /// Bits 16 to 31 of a 32-bit value.
    Hi,
    /// The same, adjusted for a sign-extended low half.
    Ha,
    /// Bits 16 to 31.
    High,
    /// The same, adjusted.
    Higha,
    /// Bits 32 to 47.
    Higher,
    /// The same, adjusted.
    Highera,
    /// Bits 48 to 63.
    Highest,
    /// The same, adjusted.
    Highesta,
    /// 16 bits, a multiple of 4.
    Ds,
    /// Bits 0 to 15, a multiple of 4.
    LoDs,
    /// An absolute branch: 24 bits of words.
    Addr24,
    /// An absolute conditional branch: 14 bits of words.
    Addr14,
    /// `b`, `bl`: 24 bits of words.
    Rel24,
    /// Conditional branches: 14 bits of words.
    Rel14,
    /// The 34 bits of a prefixed instruction.
    Prefixed34,
    /// The `addis` of a TOC access: a `nop` when its half is zero.
    HaToc,
    /// The low half of a TOC access, which then uses `r2`.
    LoToc,
    /// The low half of a TOC load or store, likewise.
    LoDsToc,
    /// The load of a TOC entry turned into the `addi` of its contents.
    LoDsToAddi,
    /// An `addi` turned into `ld r3`.
    LdR3LoDs,
    /// A prefixed `addi` turned into `pld r3`.
    PldR3,
    /// A `pld` turned into a prefixed `addi`.
    PldToPaddi,
    /// A hint on the pair a relaxed prefixed access makes.
    PcrelOpt,
}

impl Field {
    /// Bytes the field is read and written in.
    #[verifier::allow_in_spec]
    pub fn bytes(self) -> usize
        returns
            (match self {
                Field::Addr24 | Field::Addr14 | Field::Rel24 | Field::Rel14 | Field::HaToc
                | Field::LoToc | Field::LoDsToc | Field::LoDsToAddi | Field::LdR3LoDs => 4usize,
                Field::Prefixed34 | Field::PldR3 | Field::PldToPaddi | Field::PcrelOpt => 8,
                _ => 2,
            }),
    {
        match self {
            Field::Addr24 | Field::Addr14 | Field::Rel24 | Field::Rel14 | Field::HaToc
            | Field::LoToc | Field::LoDsToc | Field::LoDsToAddi | Field::LdR3LoDs => 4,
            Field::Prefixed34 | Field::PldR3 | Field::PldToPaddi | Field::PcrelOpt => 8,
            _ => 2,
        }
    }

    /// Whether the field can hold `value`.
    pub open spec fn accepts(self, value: i64) -> bool {
        match self {
            Field::Half16 => -0x8000 <= value < 0x1_0000,
            Field::Half16Signed => -0x8000 <= value < 0x8000,
            Field::Hi => -0x8000_0000 <= value < 0x8000_0000,
            Field::Ha | Field::HaToc => bits::spec_fits_signed(value.wrapping_add(0x8000) as int, 32),
            Field::Ds => -0x8000 <= value < 0x8000 && value % 4 == 0,
            Field::LoDs | Field::LoDsToc | Field::LdR3LoDs => value % 4 == 0,
            Field::Addr24 | Field::Rel24 => value % 4 == 0 && bits::spec_fits_signed(value as int, 26),
            Field::Addr14 | Field::Rel14 => value % 4 == 0 && bits::spec_fits_signed(value as int, 16),
            Field::Prefixed34 | Field::PldR3 | Field::PldToPaddi => bits::spec_fits_signed(
                value as int,
                34,
            ),
            _ => true,
        }
    }

    /// Checks that the field can hold `value`.
    pub fn check(self, value: i64) -> (r: bool)
        ensures
            r == self.accepts(value),
    {
        match self {
            Field::Half16 => -0x8000 <= value && value < 0x1_0000,
            Field::Half16Signed => -0x8000 <= value && value < 0x8000,
            Field::Hi => -0x8000_0000 <= value && value < 0x8000_0000,
            Field::Ha | Field::HaToc => fits_signed(value.wrapping_add(0x8000), 32),
            Field::Ds => -0x8000 <= value && value < 0x8000 && value % 4 == 0,
            Field::LoDs | Field::LoDsToc | Field::LdR3LoDs => value % 4 == 0,
            Field::Addr24 | Field::Rel24 => value % 4 == 0 && fits_signed(value, 26),
            Field::Addr14 | Field::Rel14 => value % 4 == 0 && fits_signed(value, 16),
            Field::Prefixed34 | Field::PldR3 | Field::PldToPaddi => fits_signed(value, 34),
            _ => true,
        }
    }

    /// `half` with a 2-byte field holding `value`.
    #[verifier::allow_in_spec]
    pub fn packed16(self, half: u16, value: i64) -> u16
        returns
            (match self {
                Field::Hi | Field::High => (value >> 16) as u16,
                Field::Ha | Field::Higha => ha(value),
                Field::Higher => (value >> 32) as u16,
                Field::Highera => (value.wrapping_add(0x8000) >> 32) as u16,
                Field::Highest => (value >> 48) as u16,
                Field::Highesta => (value.wrapping_add(0x8000) >> 48) as u16,
                Field::Ds | Field::LoDs => half & 3 | lo(value) & 0xfffc,
                _ => lo(value),
            }),
    {
        match self {
            Field::Hi | Field::High => (value >> 16) as u16,
            Field::Ha | Field::Higha => ha(value),
            Field::Higher => (value >> 32) as u16,
            Field::Highera => (value.wrapping_add(0x8000) >> 32) as u16,
            Field::Highest => (value >> 48) as u16,
            Field::Highesta => (value.wrapping_add(0x8000) >> 48) as u16,
            Field::Ds | Field::LoDs => half & 3 | lo(value) & 0xfffc,
            _ => lo(value),
        }
    }

    /// What [`encode16`](Self::encode16) returns.
    pub open spec fn encoded16(self, half: u16, value: i64) -> Result<u16, EncodeError> {
        if self.accepts(value) {
            Ok(self.packed16(half, value))
        } else {
            Err(EncodeError::Overflow)
        }
    }

    /// `half` with the field holding `value`.
    ///
    /// # Errors
    ///
    /// [`EncodeError::Overflow`] when the field cannot hold it.
    pub fn encode16(self, half: u16, value: i64) -> (r: Result<u16, EncodeError>)
        ensures
            r == self.encoded16(half, value),
    {
        if self.check(value) {
            Ok(self.packed16(half, value))
        } else {
            Err(EncodeError::Overflow)
        }
    }

    /// Whether the field can be rewritten in instruction `insn`.
    #[verifier::allow_in_spec]
    pub fn applies(self, insn: u32) -> bool
        returns
            (match self {
                Field::LoToc | Field::LoDsToc => !is_update_form(insn),
                Field::LoDsToAddi => insn >> 26 == 58 && insn & 3 == 0,
                _ => true,
            }),
    {
        match self {
            Field::LoToc | Field::LoDsToc => !is_update_form(insn),
            Field::LoDsToAddi => insn >> 26 == 58 && insn & 3 == 0,
            _ => true,
        }
    }

    /// `insn` with a 4-byte field holding `value`.
    #[verifier::allow_in_spec]
    pub fn packed32(self, insn: u32, value: i64) -> u32
        returns
            (match self {
                Field::Addr24 | Field::Rel24 => insn & !0x03ff_fffcu32 | (value as u32)
                    & 0x03ff_fffc,
                Field::Addr14 | Field::Rel14 => insn & !0xfffcu32 | (value as u32) & 0xfffc,
                Field::HaToc => if ha(value) == 0 {
                    NOP
                } else {
                    insn & 0xffff_0000 | ha(value) as u32
                },
                Field::LoToc => if ha(value) == 0 {
                    insn & 0xffe0_0000 | 0x0002_0000 | lo(value) as u32
                } else {
                    insn & 0xffff_0000 | lo(value) as u32
                },
                Field::LoDsToc => if ha(value) == 0 {
                    insn & 0xffe0_0003 | 0x0002_0000 | (lo(value) & 0xfffc) as u32
                } else {
                    insn & 0xffff_0003 | (lo(value) & 0xfffc) as u32
                },
                Field::LoDsToAddi => 0x3800_0000 | insn & 0x03e0_0000 | (if ha(value) == 0 {
                    0x0002_0000u32
                } else {
                    insn & 0x001f_0000
                }) | lo(value) as u32,
                Field::LdR3LoDs => 0xe860_0000 | insn & 0x001f_0000 | (lo(value) & 0xfffc) as u32,
                _ => insn & 0xffff_0000 | self.packed16(insn as u16, value) as u32,
            }),
    {
        match self {
            Field::Addr24 | Field::Rel24 => insn & !0x03ff_fffcu32 | (value as u32) & 0x03ff_fffc,
            Field::Addr14 | Field::Rel14 => insn & !0xfffcu32 | (value as u32) & 0xfffc,
            Field::HaToc => if ha(value) == 0 {
                NOP
            } else {
                insn & 0xffff_0000 | ha(value) as u32
            },
            Field::LoToc => if ha(value) == 0 {
                insn & 0xffe0_0000 | 0x0002_0000 | lo(value) as u32
            } else {
                insn & 0xffff_0000 | lo(value) as u32
            },
            Field::LoDsToc => if ha(value) == 0 {
                insn & 0xffe0_0003 | 0x0002_0000 | (lo(value) & 0xfffc) as u32
            } else {
                insn & 0xffff_0003 | (lo(value) & 0xfffc) as u32
            },
            Field::LoDsToAddi => 0x3800_0000 | insn & 0x03e0_0000 | (if ha(value) == 0 {
                0x0002_0000u32
            } else {
                insn & 0x001f_0000
            }) | lo(value) as u32,
            Field::LdR3LoDs => 0xe860_0000 | insn & 0x001f_0000 | (lo(value) & 0xfffc) as u32,
            _ => insn & 0xffff_0000 | self.packed16(insn as u16, value) as u32,
        }
    }

    /// What [`encode32`](Self::encode32) returns.
    pub open spec fn encoded32(self, insn: u32, value: i64) -> Result<u32, EncodeError> {
        if !self.applies(insn) {
            Err(EncodeError::BadInstruction)
        } else if self.accepts(value) {
            Ok(self.packed32(insn, value))
        } else {
            Err(EncodeError::Overflow)
        }
    }

    /// `insn` with the field holding `value`.
    ///
    /// # Errors
    ///
    /// [`EncodeError::BadInstruction`] when the instruction cannot be
    /// rewritten, [`EncodeError::Overflow`] when the field cannot hold the
    /// value.
    pub fn encode32(self, insn: u32, value: i64) -> (r: Result<u32, EncodeError>)
        ensures
            r == self.encoded32(insn, value),
    {
        if !self.applies(insn) {
            Err(EncodeError::BadInstruction)
        } else if self.check(value) {
            Ok(self.packed32(insn, value))
        } else {
            Err(EncodeError::Overflow)
        }
    }

    /// The prefixed instruction the field's own rewrite starts from.
    #[verifier::allow_in_spec]
    pub fn rewritten64(self, insn: u64) -> u64
        returns
            (match self {
                Field::PldR3 => 0x0410_0000_e460_0000u64,
                Field::PldToPaddi => 0x0610_0000_3800_0000u64 | insn & 0x03e0_0000,
                _ => insn,
            }),
    {
        match self {
            Field::PldR3 => 0x0410_0000_e460_0000u64,
            Field::PldToPaddi => 0x0610_0000_3800_0000u64 | insn & 0x03e0_0000,
            _ => insn,
        }
    }

    /// What [`encode64`](Self::encode64) returns.
    pub open spec fn encoded64(self, insn: u64, value: i64) -> Result<u64, EncodeError> {
        spec_prefixed34(self.rewritten64(insn), value)
    }

    /// The prefixed `insn` with the field holding `value`.
    ///
    /// # Errors
    ///
    /// [`EncodeError::Overflow`] when the field cannot hold it.
    pub fn encode64(self, insn: u64, value: i64) -> (r: Result<u64, EncodeError>)
        ensures
            r == self.encoded64(insn, value),
    {
        prefixed34(self.rewritten64(insn), value)
    }
}

/// The prefixed `insn` with the 34-bit displacement `value`.
#[verifier::allow_in_spec]
pub fn with_displacement34(insn: u64, value: i64) -> u64
    returns
        (insn & !0x0003_ffff_0000_ffffu64 | (((value as u64) >> 16) & 0x3_ffff) << 32 | (
        value as u64) & 0xffff),
{
    insn & !0x0003_ffff_0000_ffffu64 | (((value as u64) >> 16) & 0x3_ffff) << 32 | (value as u64)
        & 0xffff
}

/// What [`prefixed34`] returns.
pub open spec fn spec_prefixed34(insn: u64, value: i64) -> Result<u64, EncodeError> {
    if bits::spec_fits_signed(value as int, 34) {
        Ok(with_displacement34(insn, value))
    } else {
        Err(EncodeError::Overflow)
    }
}

/// The prefixed `insn` with the 34-bit displacement `value`.
///
/// # Errors
///
/// [`EncodeError::Overflow`] when it does not fit.
pub fn prefixed34(insn: u64, value: i64) -> (r: Result<u64, EncodeError>)
    ensures
        r == spec_prefixed34(insn, value),
{
    if fits_signed(value, 34) {
        Ok(with_displacement34(insn, value))
    } else {
        Err(EncodeError::Overflow)
    }
}

/// The D-form of an X-form access that adds `r13`, and whether its
/// displacement counts words.
#[verifier::allow_in_spec]
pub fn x_to_d_form(insn: u32) -> Option<(u32, bool)>
    returns
        ({
            let operands = insn & 0x03ff_0000;
            if insn >> 26 != 31 {
                None
            } else {
                match (insn >> 1) & 0x3ff {
                    21 => Some((0xe800_0000 | operands, true)),
                    23 => Some((0x8000_0000 | operands, false)),
                    87 => Some((0x8800_0000 | operands, false)),
                    149 => Some((0xf800_0000 | operands, true)),
                    151 => Some((0x9000_0000 | operands, false)),
                    215 => Some((0x9800_0000 | operands, false)),
                    266 => Some((0x3800_0000 | operands, false)),
                    279 => Some((0xa000_0000 | operands, false)),
                    341 => Some((0xe800_0002 | operands, true)),
                    343 => Some((0xa800_0000 | operands, false)),
                    407 => Some((0xb000_0000 | operands, false)),
                    535 => Some((0xc000_0000 | operands, false)),
                    599 => Some((0xc800_0000 | operands, false)),
                    663 => Some((0xd000_0000 | operands, false)),
                    727 => Some((0xd800_0000 | operands, false)),
                    _ => None,
                }
            }
        }),
{
    let operands: u32 = insn & 0x03ff_0000;
    if insn >> 26 != 31 {
        None
    } else {
        match (insn >> 1) & 0x3ff {
            21 => Some((0xe800_0000 | operands, true)),
            23 => Some((0x8000_0000 | operands, false)),
            87 => Some((0x8800_0000 | operands, false)),
            149 => Some((0xf800_0000 | operands, true)),
            151 => Some((0x9000_0000 | operands, false)),
            215 => Some((0x9800_0000 | operands, false)),
            266 => Some((0x3800_0000 | operands, false)),
            279 => Some((0xa000_0000 | operands, false)),
            341 => Some((0xe800_0002 | operands, true)),
            343 => Some((0xa800_0000 | operands, false)),
            407 => Some((0xb000_0000 | operands, false)),
            535 => Some((0xc000_0000 | operands, false)),
            599 => Some((0xc800_0000 | operands, false)),
            663 => Some((0xd000_0000 | operands, false)),
            727 => Some((0xd800_0000 | operands, false)),
            _ => None,
        }
    }
}

/// The prefixed PC-relative form of a D-form, DS-form or DQ-form access,
/// without its displacement.
#[verifier::allow_in_spec]
pub fn pcrel_form(insn: u32) -> Option<u64>
    returns
        ({
            let rt = (insn & 0x03e0_0000) as u64;
            let vector = (insn & 0x03e0_0000 | (insn & 8) << 23) as u64;
            match insn >> 26 {
                32 => Some(0x0610_0000_8000_0000u64 | rt),
                34 => Some(0x0610_0000_8800_0000u64 | rt),
                36 => Some(0x0610_0000_9000_0000u64 | rt),
                38 => Some(0x0610_0000_9800_0000u64 | rt),
                40 => Some(0x0610_0000_a000_0000u64 | rt),
                42 => Some(0x0610_0000_a800_0000u64 | rt),
                44 => Some(0x0610_0000_b000_0000u64 | rt),
                48 => Some(0x0610_0000_c000_0000u64 | rt),
                50 => Some(0x0610_0000_c800_0000u64 | rt),
                52 => Some(0x0610_0000_d000_0000u64 | rt),
                54 => Some(0x0610_0000_d800_0000u64 | rt),
                57 => match insn & 3 {
                    2 => Some(0x0410_0000_a800_0000u64 | rt),
                    3 => Some(0x0410_0000_ac00_0000u64 | rt),
                    _ => None,
                },
                58 => match insn & 3 {
                    0 => Some(0x0410_0000_e400_0000u64 | rt),
                    2 => Some(0x0410_0000_a400_0000u64 | rt),
                    _ => None,
                },
                61 => match insn & 7 {
                    1 => Some(0x0410_0000_c800_0000u64 | vector),
                    5 => Some(0x0410_0000_d800_0000u64 | vector),
                    2 | 6 => Some(0x0410_0000_b800_0000u64 | rt),
                    3 | 7 => Some(0x0410_0000_bc00_0000u64 | rt),
                    _ => None,
                },
                62 => match insn & 3 {
                    0 => Some(0x0410_0000_f400_0000u64 | rt),
                    _ => None,
                },
                _ => None,
            }
        }),
{
    let rt: u64 = (insn & 0x03e0_0000) as u64;
    let vector: u64 = (insn & 0x03e0_0000 | (insn & 8) << 23) as u64;
    match insn >> 26 {
        32 => Some(0x0610_0000_8000_0000u64 | rt),
        34 => Some(0x0610_0000_8800_0000u64 | rt),
        36 => Some(0x0610_0000_9000_0000u64 | rt),
        38 => Some(0x0610_0000_9800_0000u64 | rt),
        40 => Some(0x0610_0000_a000_0000u64 | rt),
        42 => Some(0x0610_0000_a800_0000u64 | rt),
        44 => Some(0x0610_0000_b000_0000u64 | rt),
        48 => Some(0x0610_0000_c000_0000u64 | rt),
        50 => Some(0x0610_0000_c800_0000u64 | rt),
        52 => Some(0x0610_0000_d000_0000u64 | rt),
        54 => Some(0x0610_0000_d800_0000u64 | rt),
        57 => match insn & 3 {
            2 => Some(0x0410_0000_a800_0000u64 | rt),
            3 => Some(0x0410_0000_ac00_0000u64 | rt),
            _ => None,
        },
        58 => match insn & 3 {
            0 => Some(0x0410_0000_e400_0000u64 | rt),
            2 => Some(0x0410_0000_a400_0000u64 | rt),
            _ => None,
        },
        61 => match insn & 7 {
            1 => Some(0x0410_0000_c800_0000u64 | vector),
            5 => Some(0x0410_0000_d800_0000u64 | vector),
            2 | 6 => Some(0x0410_0000_b800_0000u64 | rt),
            3 | 7 => Some(0x0410_0000_bc00_0000u64 | rt),
            _ => None,
        },
        62 => match insn & 3 {
            0 => Some(0x0410_0000_f400_0000u64 | rt),
            _ => None,
        },
        _ => None,
    }
}

/// The sum of the displacements of the prefixed `paddi` and the `access`
/// that uses its result.
#[verifier::allow_in_spec]
pub fn total_displacement(paddi: u64, access: u32) -> i64
    returns
        ({
            let high = (((paddi >> 32) & 0x3_ffff) << 16 | paddi & 0xffff) << 30;
            let own = match access >> 26 {
                57 | 58 | 62 => (access & 0xfffc) as u16,
                61 => if access & 7 == 1 || access & 7 == 5 {
                    (access & 0xfff0) as u16
                } else {
                    (access & 0xfffc) as u16
                },
                _ => access as u16,
            };
            ((high as i64) >> 30).wrapping_add((own as i16) as i64)
        }),
{
    let high: u64 = (((paddi >> 32) & 0x3_ffff) << 16 | paddi & 0xffff) << 30;
    let own: u16 = match access >> 26 {
        57 | 58 | 62 => (access & 0xfffc) as u16,
        61 => if access & 7 == 1 || access & 7 == 5 {
            (access & 0xfff0) as u16
        } else {
            (access & 0xfffc) as u16
        },
        _ => access as u16,
    };
    ((high as i64) >> 30).wrapping_add((own as i16) as i64)
}

/// The prefixed instruction at `at`, if it lies inside `s`.
pub open spec fn prefixed_at(s: Seq<u8>, at: int) -> Option<u64> {
    match (bytes::u32_at(s, at), bytes::u32_at(s, at + 4)) {
        (Some(prefix), Some(suffix)) => Some((prefix as u64) << 32 | suffix as u64),
        _ => None,
    }
}

/// The bytes of a prefixed instruction.
pub open spec fn spec_prefixed(insn: u64) -> Seq<u8> {
    bytes::spec_le32((insn >> 32) as u32) + bytes::spec_le32(insn as u32)
}

/// Reads the prefixed instruction at `at`.
pub fn read_prefixed(data: &[u8], at: u64) -> (r: Option<u64>)
    ensures
        r == prefixed_at(data@, at as int),
{
    match place(data.len(), at, 8) {
        Some(_) => match (get_u32(data, at), get_u32(data, at + 4)) {
            (Some(prefix), Some(suffix)) => Some((prefix as u64) << 32 | suffix as u64),
            _ => None,
        },
        None => None,
    }
}

/// Writes the prefixed instruction at `at`, and says whether it lies inside
/// `out`.
pub fn write_prefixed(out: &mut [u8], at: u64, insn: u64) -> (r: bool)
    ensures
        final(out)@ == bytes::stored(old(out)@, at as int, spec_prefixed(insn)),
        r == bytes::inside(old(out)@, at as int, 8),
{
    match place(out.len(), at, 8) {
        Some(start) => {
            let a: [u8; 4] = le32((insn >> 32) as u32);
            let b: [u8; 4] = le32(insn as u32);
            write_over(out, start, &a);
            write_over(out, start + 4, &b);
            assert(out@ =~= bytes::stored(old(out)@, at as int, spec_prefixed(insn)));
            true
        },
        None => false,
    }
}

/// The bytes of instruction words.
pub open spec fn spec_words(words: Seq<u32>) -> Seq<u8>
    decreases words.len(),
{
    if words.len() == 0 {
        Seq::empty()
    } else {
        spec_words(words.drop_last()) + bytes::spec_le32(words.last())
    }
}

/// Four bytes a word.
pub proof fn words_length(words: Seq<u32>)
    ensures
        spec_words(words).len() == 4 * words.len(),
    decreases words.len(),
{
    if words.len() > 0 {
        words_length(words.drop_last());
    }
}

/// Writes instruction words at the start of `out`, and says whether they lie
/// inside it; nothing is written otherwise.
pub fn write_words(out: &mut [u8], words: &[u32]) -> (r: bool)
    ensures
        final(out)@ == bytes::stored(old(out)@, 0, spec_words(words@)),
        r == bytes::inside(old(out)@, 0, 4 * words@.len() as int),
{
    proof {
        words_length(words@);
    }
    if out.len() / 4 < words.len() {
        return false;
    }
    let len: usize = out.len();
    let mut i: usize = 0;
    assert(out@ =~= bytes::stored(old(out)@, 0, spec_words(words@.subrange(0, 0))));
    while i < words.len()
        invariant
            i <= words@.len(),
            4 * words@.len() <= len,
            out@.len() == len,
            old(out)@.len() == len,
            out@ == bytes::stored(old(out)@, 0, spec_words(words@.subrange(0, i as int))),
        decreases words@.len() - i,
    {
        let b: [u8; 4] = le32(words[i]);
        write_over(out, i * 4, &b);
        proof {
            let before = words@.subrange(0, i as int);
            let after = words@.subrange(0, i + 1);
            assert(after.drop_last() =~= before);
            words_length(before);
            words_length(after);
            assert(out@ =~= bytes::stored(old(out)@, 0, spec_words(after)));
        }
        i += 1;
    }
    assert(words@.subrange(0, words@.len() as int) =~= words@);
    true
}

/// The distance of a thunk's destination from the PC its `mflr` reads.
#[verifier::allow_in_spec]
pub fn thunk_distance(address: u64, key: u64) -> i64
    returns
        (key & !3u64).wrapping_sub(address.wrapping_add(12)) as i64,
{
    (key & !3u64).wrapping_sub(address.wrapping_add(12)) as i64
}

/// Whether a thunk at `address` reaches the destination of `key`.
pub open spec fn thunk_reaches(address: u64, key: u64) -> bool {
    &&& Field::Ha.accepts(thunk_distance(address, key))
    &&& key & THUNK_VIA_SLOT != 0 ==> Field::LoDs.accepts(thunk_distance(address, key))
}

/// The words of the thunk of `key` at `address`.
#[verifier::allow_in_spec]
pub fn thunk_words(address: u64, key: u64) -> [u32; 9]
    returns
        [
            if key & THUNK_SAVE_TOC != 0 {
                STD_R2_24_R1
            } else {
                NOP
            },
            MFLR_R11,
            BCL_NEXT,
            MFLR_R12,
            ADDIS_R12_R12 | ha(thunk_distance(address, key)) as u32,
            (if key & THUNK_VIA_SLOT != 0 {
                LD_R12_R12
            } else {
                ADDI_R12_R12
            }) | lo(thunk_distance(address, key)) as u32,
            MTLR_R11,
            MTCTR_R12,
            BCTR,
        ],
{
    [
        if key & THUNK_SAVE_TOC != 0 {
            STD_R2_24_R1
        } else {
            NOP
        },
        MFLR_R11,
        BCL_NEXT,
        MFLR_R12,
        ADDIS_R12_R12 | ha(thunk_distance(address, key)) as u32,
        (if key & THUNK_VIA_SLOT != 0 {
            LD_R12_R12
        } else {
            ADDI_R12_R12
        }) | lo(thunk_distance(address, key)) as u32,
        MTLR_R11,
        MTCTR_R12,
        BCTR,
    ]
}

/// The thunk of `key` at `address`: its destination, or the word at its
/// slot, is loaded into `r12` from the PC; the TOC pointer may be saved
/// first.
///
/// # Errors
///
/// [`EncodeError::Overflow`] when the destination is out of reach.
pub fn thunk(address: u64, key: u64) -> (r: Result<[u32; 9], EncodeError>)
    ensures
        r == (if thunk_reaches(address, key) {
            Ok(thunk_words(address, key))
        } else {
            Err(EncodeError::Overflow)
        }),
{
    let distance: i64 = thunk_distance(address, key);
    if !Field::Ha.check(distance) {
        return Err(EncodeError::Overflow);
    }
    if key & THUNK_VIA_SLOT != 0 && !Field::LoDs.check(distance) {
        return Err(EncodeError::Overflow);
    }
    Ok(thunk_words(address, key))
}

/// Writes the thunk of `key` at `at` of `out`, at address `address`.
///
/// # Errors
///
/// [`EncodeError::Overflow`] when the destination is out of reach or the
/// thunk does not lie inside `out`.
pub fn write_thunk(out: &mut [u8], at: u64, address: u64, key: u64) -> (r: Result<(), EncodeError>)
    ensures
        r == (if thunk_reaches(address, key) && bytes::inside(old(out)@, at as int, 36) {
            Ok::<(), EncodeError>(())
        } else {
            Err(EncodeError::Overflow)
        }),
        final(out)@ == (if thunk_reaches(address, key) {
            bytes::stored(old(out)@, at as int, spec_words(thunk_words(address, key)@))
        } else {
            old(out)@
        }),
{
    let words: [u32; 9] = thunk(address, key)?;
    proof {
        words_length(words@);
    }
    match place(out.len(), at, 36) {
        Some(start) => {
            let len: usize = out.len();
            let mut i: usize = 0;
            assert(out@ =~= bytes::stored(old(out)@, at as int, spec_words(words@.subrange(0, 0))));
            while i < 9
                invariant
                    i <= 9,
                    start == at,
                    start + 36 <= len,
                    words@.len() == 9,
                    out@.len() == len,
                    old(out)@.len() == len,
                    out@ == bytes::stored(
                        old(out)@,
                        at as int,
                        spec_words(words@.subrange(0, i as int)),
                    ),
                decreases 9 - i,
            {
                let b: [u8; 4] = le32(words[i]);
                write_over(out, start + i * 4, &b);
                proof {
                    let before = words@.subrange(0, i as int);
                    let after = words@.subrange(0, i + 1);
                    assert(after.drop_last() =~= before);
                    words_length(before);
                    words_length(after);
                    assert(out@ =~= bytes::stored(old(out)@, at as int, spec_words(after)));
                }
                i += 1;
            }
            assert(words@.subrange(0, 9) =~= words@);
            Ok(())
        },
        None => Err(EncodeError::Overflow),
    }
}

/// The words of the lazy-binding resolver, before the 8-byte distance of
/// `.got.plt` it reads.
#[verifier::allow_in_spec]
pub fn glink_header() -> [u32; 13]
    returns
        [
            0x7c08_02a6u32,
            BCL_NEXT,
            MFLR_R11,
            0x7c08_03a6,
            0x7d8b_6050,
            0x380c_ffcc,
            0x7800_f082,
            0xe98b_002c,
            0x7d6c_5a14,
            0xe98b_0000,
            0xe96b_0008,
            MTCTR_R12,
            BCTR,
        ],
{
    [
        0x7c08_02a6u32,
        BCL_NEXT,
        MFLR_R11,
        0x7c08_03a6,
        0x7d8b_6050,
        0x380c_ffcc,
        0x7800_f082,
        0xe98b_002c,
        0x7d6c_5a14,
        0xe98b_0000,
        0xe96b_0008,
        MTCTR_R12,
        BCTR,
    ]
}

/// The branch back over `distance` bytes.
pub open spec fn spec_glink_entry(distance: u64) -> Result<u32, EncodeError> {
    Field::Rel24.encoded32(0x4800_0000, (0u64).wrapping_sub(distance) as i64)
}

/// A lazy PLT entry `distance` bytes past the resolver: a branch back to
/// it.
///
/// # Errors
///
/// [`EncodeError::Overflow`] when the resolver is out of reach.
pub fn glink_entry(distance: u64) -> (r: Result<u32, EncodeError>)
    ensures
        r == spec_glink_entry(distance),
{
    Field::Rel24.encode32(0x4800_0000, (0u64).wrapping_sub(distance) as i64)
}

/// The words of a call stub whose slot is `offset` bytes from the TOC
/// pointer.
#[verifier::allow_in_spec]
pub fn call_stub_words(offset: i64) -> [u32; 5]
    returns
        [
            STD_R2_24_R1,
            ADDIS_R12_R2 | ha(offset) as u32,
            LD_R12_R12 | lo(offset) as u32,
            MTCTR_R12,
            BCTR,
        ],
{
    [
        STD_R2_24_R1,
        ADDIS_R12_R2 | ha(offset) as u32,
        LD_R12_R12 | lo(offset) as u32,
        MTCTR_R12,
        BCTR,
    ]
}

/// Whether a call stub reaches a slot `offset` bytes from the TOC pointer.
pub open spec fn call_stub_reaches(offset: i64) -> bool {
    Field::Ha.accepts(offset) && Field::LoDs.accepts(offset)
}

/// A PLT call stub whose slot is `offset` bytes from the TOC pointer.
///
/// # Errors
///
/// [`EncodeError::Overflow`] when the slot is out of reach.
pub fn plt_call_stub(offset: i64) -> (r: Result<[u32; 5], EncodeError>)
    ensures
        r == (if call_stub_reaches(offset) {
            Ok(call_stub_words(offset))
        } else {
            Err(EncodeError::Overflow)
        }),
{
    if Field::Ha.check(offset) && Field::LoDs.check(offset) {
        Ok(call_stub_words(offset))
    } else {
        Err(EncodeError::Overflow)
    }
}

/// What an `addis` of `high` and an access with displacement `low` add up
/// to.
pub open spec fn summed(high: u16, low: u16) -> int {
    (high as i16) * 0x1_0000 + (low as i16)
}

/// The halves of a number in reach make up the number.
pub proof fn halves_make_the_number(v: i64)
    requires
        Field::Ha.accepts(v),
    ensures
        summed(ha(v), lo(v)) == v,
{
    vstd::arithmetic::power2::lemma2_to64();
    let x = v.wrapping_add(0x8000);
    assert(((((x >> 16) as u16) as i16) as i64) * 0x1_0000 + (((v as u16) as i16) as i64) == v)
        by (bit_vector)
        requires
            v + 0x8000 == x,
            -0x8000_0000 <= x,
            x < 0x8000_0000,
    ;
}

/// A thunk that reaches its destination leads to it: what its `bcl` reads
/// and the halves in its `addis` and the instruction after make up the
/// address of the destination, or of the slot that holds it.
pub proof fn thunks_lead_to_their_destination(address: u64, key: u64)
    requires
        thunk_reaches(address, key),
    ensures
        ({
            let words = thunk_words(address, key)@;
            let sum = summed(words[4] as u16, words[5] as u16);
            address.wrapping_add(12).wrapping_add((sum as i64) as u64) == key & !3u64
        }),
{
    let d = thunk_distance(address, key);
    let high = ha(d);
    let low = lo(d);
    halves_make_the_number(d);
    let distance = (key & !3u64).wrapping_sub(address.wrapping_add(12));
    assert((0x3d8c_0000u32 | high as u32) as u16 == high && (0x398c_0000u32 | low as u32) as u16
        == low && (0xe98c_0000u32 | low as u32) as u16 == low && (distance as i64) as u64
        == distance) by (bit_vector);
}

/// The distance a `b` or `bl` branches.
pub open spec fn branch24_distance(insn: u32) -> i64 {
    ((((insn & 0x03ff_fffc) << 6) as i32) >> 6) as i64
}

/// The distance a conditional branch branches.
pub open spec fn branch14_distance(insn: u32) -> i64 {
    (((insn & 0xfffc) as u16) as i16) as i64
}

/// The displacement of a prefixed instruction.
pub open spec fn displacement34(insn: u64) -> i64 {
    ((((insn >> 32) & 0x3_ffff) << 46 | (insn & 0xffff) << 30) as i64) >> 30
}

/// The bits of instructions that hold a value.
proof fn held_bits(
    insn: u32,
    half: u16,
    long: u64,
    value: i64,
    v: u64,
    x: i64,
    low: u16,
    r24: u32,
    r14: u32,
    p34: u64,
    ds: u16,
    toc: u32,
    toc_ds: u32,
)
    by (bit_vector)
    requires
        v == value as u64,
        low == value as u16,
        x == value + 0x8000 || x + 0x1_0000_0000_0000_0000 == value + 0x8000,
        r24 == insn & !0x03ff_fffcu32 | (value as u32) & 0x03ff_fffc,
        r14 == insn & !0xfffcu32 | (value as u32) & 0xfffc,
        p34 == long & !0x0003_ffff_0000_ffffu64 | ((v >> 16) & 0x3_ffff) << 32 | v & 0xffff,
        ds == half & 3 | low & 0xfffc,
        toc == insn & 0xffe0_0000 | 0x0002_0000 | low as u32,
        toc_ds == insn & 0xffe0_0003 | 0x0002_0000 | (low & 0xfffc) as u32,
    ensures
        -0x200_0000 <= value && value < 0x200_0000 && value % 4 == 0 ==> ((((r24 & 0x03ff_fffc)
            << 6) as i32) >> 6) as i64 == value,
        r24 & 0xfc00_0003 == insn & 0xfc00_0003,
        -0x8000 <= value && value < 0x8000 && value % 4 == 0 ==> (((r14
            & 0xfffc) as u16) as i16) as i64 == value,
        r14 & 0xffff_0003 == insn & 0xffff_0003,
        -0x2_0000_0000 <= value && value < 0x2_0000_0000 ==> ((((p34 >> 32) & 0x3_ffff) << 46 | (p34
            & 0xffff) << 30) as i64) >> 30 == value,
        p34 & 0xfffc_0000_ffff_0000 == long & 0xfffc_0000_ffff_0000,
        (((value >> 48) as u16) as u64) << 48 | (((value >> 32) as u16) as u64) << 32 | (((value
            >> 16) as u16) as u64) << 16 | (low as u64) == v,
        ((((x >> 48) as u16) as u64) << 48 | (((x >> 32) as u16) as u64) << 32 | (((x
            >> 16) as u16) as u64) << 16) + (((low as i16) as i64) as u64) == v || ((((x
            >> 48) as u16) as u64) << 48 | (((x >> 32) as u16) as u64) << 32 | (((x
            >> 16) as u16) as u64) << 16) + (((low as i16) as i64) as u64) == v
            + 0x1_0000_0000_0000_0000,
        value % 4 == 0 ==> ds & 0xfffc == low,
        ds & 3 == half & 3,
        -0x8000 <= value && value < 0x8000 ==> ((low as i16) as i64) == value,
        (toc >> 16) & 0x1f == 2 && toc as u16 == low && toc & 0xffe0_0000 == insn & 0xffe0_0000,
        value % 4 == 0 ==> (toc_ds >> 16) & 0x1f == 2 && (toc_ds as u16) & 0xfffc == low && toc_ds
            & 0xffe0_0003 == insn & 0xffe0_0003,
{
}

/// What an instruction was given is what it holds: where it branches, what a
/// prefixed one adds; the four halves of a number make it up, and the
/// adjusted halves do with the low one sign-extended.
#[verifier::rlimit(60)]
pub proof fn held_values_read_back(insn: u32, half: u16, long: u64, value: i64)
    ensures
        Field::Rel24.accepts(value) ==> branch24_distance(Field::Rel24.packed32(insn, value))
            == value && Field::Rel24.packed32(insn, value) & 0xfc00_0003 == insn & 0xfc00_0003,
        Field::Rel14.accepts(value) ==> branch14_distance(Field::Rel14.packed32(insn, value))
            == value && Field::Rel14.packed32(insn, value) & 0xffff_0003 == insn & 0xffff_0003,
        Field::Prefixed34.accepts(value) ==> displacement34(with_displacement34(long, value))
            == value && with_displacement34(long, value) & 0xfffc_0000_ffff_0000 == long
            & 0xfffc_0000_ffff_0000,
        (Field::Highest.packed16(half, value) as u64) << 48 | (Field::Higher.packed16(
            half,
            value,
        ) as u64) << 32 | (Field::High.packed16(half, value) as u64) << 16 | (Field::Lo.packed16(
            half,
            value,
        ) as u64) == value as u64,
        ((Field::Highesta.packed16(half, value) as u64) << 48 | (Field::Highera.packed16(
            half,
            value,
        ) as u64) << 32 | (Field::Higha.packed16(half, value) as u64) << 16).wrapping_add(
            ((Field::Lo.packed16(half, value) as i16) as i64) as u64,
        ) == value as u64,
        Field::Half16Signed.accepts(value) ==> (Field::Half16Signed.packed16(
            half,
            value,
        ) as i16) as i64 == value,
        value % 4 == 0 ==> Field::LoDs.packed16(half, value) & 0xfffc == Field::Lo.packed16(
            half,
            value,
        ) && Field::LoDs.packed16(half, value) & 3 == half & 3,
        Field::Ha.packed16(half, value) == Field::Higha.packed16(half, value),
        Field::Hi.packed16(half, value) == Field::High.packed16(half, value),
{
    vstd::arithmetic::power2::lemma2_to64();
    vstd::arithmetic::power2::lemma2_to64_rest();
    held_bits(
        insn,
        half,
        long,
        value,
        value as u64,
        value.wrapping_add(0x8000),
        value as u16,
        Field::Rel24.packed32(insn, value),
        Field::Rel14.packed32(insn, value),
        with_displacement34(long, value),
        Field::LoDs.packed16(half, value),
        insn & 0xffe0_0000 | 0x0002_0000 | (value as u16) as u32,
        insn & 0xffe0_0003 | 0x0002_0000 | ((value as u16) & 0xfffc) as u32,
    );
}

/// An access relative to the TOC pointer whose upper part is nothing loses
/// the `addis` and addresses the TOC pointer itself; any other keeps both
/// parts, which make up the distance.
#[verifier::rlimit(40)]
pub proof fn toc_accesses_keep_their_distance(upper: u32, lower: u32, value: i64)
    requires
        Field::HaToc.accepts(value),
    ensures
        ({
            let high = Field::HaToc.packed32(upper, value);
            let low = Field::LoToc.packed32(lower, value);
            if -0x8000 <= value < 0x8000 {
                high == 0x6000_0000 && (low >> 16) & 0x1f == 2 && ((low as u16) as i16) as i64
                    == value
            } else {
                summed(high as u16, low as u16) == value && high & 0xffff_0000 == upper
                    & 0xffff_0000 && low & 0xffff_0000 == lower & 0xffff_0000
            }
        }),
{
    halves_make_the_number(value);
    vstd::arithmetic::power2::lemma2_to64();
    held_bits(
        lower,
        0,
        0,
        value,
        value as u64,
        value.wrapping_add(0x8000),
        value as u16,
        Field::Rel24.packed32(lower, value),
        Field::Rel14.packed32(lower, value),
        with_displacement34(0, value),
        Field::LoDs.packed16(0, value),
        lower & 0xffe0_0000 | 0x0002_0000 | (value as u16) as u32,
        lower & 0xffe0_0003 | 0x0002_0000 | ((value as u16) & 0xfffc) as u32,
    );
    adjusted_halves(value.wrapping_add(0x8000), upper, ha(value), value as u16);
    adjusted_halves(value.wrapping_add(0x8000), lower, lo(value), value as u16);
}

/// The half above a low half is nothing exactly where the low half is the
/// whole number.
proof fn adjusted_halves(x: i64, insn: u32, half: u16, low: u16)
    by (bit_vector)
    ensures
        -0x8000_0000 <= x && x < 0x8000_0000 ==> ((x >> 16) as u16 == 0 <==> 0 <= x && x
            < 0x1_0000),
        (insn & 0xffff_0000 | half as u32) as u16 == half,
        (insn & 0xffff_0000 | half as u32) & 0xffff_0000 == insn & 0xffff_0000,
{
}

/// A call to a function of this output enters it behind the instructions that
/// set up the TOC pointer: 0 bytes in where `st_other` says it has none,
/// otherwise 4, 8, 16, 32 or 64.
pub proof fn local_entries_are_behind_the_global_one(st_other: u8)
    ensures
        ({
            let three = (st_other >> 5) & 7;
            local_entry_offset(st_other) == (if three == 2 {
                4u64
            } else if three == 3 {
                8
            } else if three == 4 {
                16
            } else if three == 5 {
                32
            } else if three == 6 {
                64
            } else {
                0
            })
        }),
        clobbers_toc(st_other) == ((st_other >> 5) & 7 == 1),
{
}

} // verus!
