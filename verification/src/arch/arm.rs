//! 32-bit Arm and Thumb instructions.
//!
//! A 32-bit Thumb instruction is handled as one number with its first
//! halfword on top.

use vstd::prelude::*;

use crate::arch::EncodeError;
use crate::bits;
use crate::bits::fits_signed;
use crate::bytes;
use crate::bytes::{get_u16, get_u32, le16, le32, place, put_u16, put_u32, write_over};

verus! {

/// How far the PC reads ahead in A32 code.
pub const ARM_PC_BIAS: u64 = 8;

/// How far the PC reads ahead in Thumb code.
pub const THUMB_PC_BIAS: u64 = 4;

/// `bx ip`.
pub const BX_IP: u32 = 0xe12f_ff1c;

/// Thumb `bx ip`.
pub const THUMB_BX_IP: u16 = 0x4760;

/// `add ip, ip, pc`.
pub const ADD_IP_PC: u32 = 0xe08c_c00f;

/// Thumb `add ip, pc`.
pub const THUMB_ADD_IP_PC: u16 = 0x44fc;

/// `movw ip, #0`.
pub const MOVW_IP: u32 = 0xe300_c000;

/// `movt ip, #0`.
pub const MOVT_IP: u32 = 0xe340_c000;

/// Thumb `movw ip, #0`.
pub const THUMB_MOVW_IP: u32 = 0xf240_0c00;

/// Thumb `movt ip, #0`.
pub const THUMB_MOVT_IP: u32 = 0xf2c0_0c00;

/// `nop`, without its condition.
pub const NOP: u32 = 0x0320_f000;

/// `nop`.
pub const NOP_ALWAYS: u32 = 0xe320_f000;

/// Thumb-2 `nop.w`.
pub const THUMB_NOP_W: u32 = 0xf3af_8000;

/// Bytes a thunk of any form fits in.
pub const THUNK_SIZE: u64 = 16;

/// A field of an instruction.
#[derive(Clone, Copy, Debug, PartialEq, Eq, Structural)]
pub enum Field {
    /// The low 31 bits of a data word, signed.
    Prel31,
    /// A32 `b`, `bl`, `blx`: 24 bits of words.
    Branch24,
    /// Thumb `bl`, `blx`, `b.w`: 24 bits of halfwords.
    ThumbBranch24,
    /// Thumb `b<cond>.w`: 20 bits of halfwords.
    ThumbBranch19,
    /// Thumb `b`: 11 bits of halfwords.
    ThumbBranch11,
    /// Thumb `b<cond>`: 8 bits of halfwords.
    ThumbBranch8,
    /// A32 `movw`: the low half.
    Movw,
    /// A32 `movt`: the high half.
    Movt,
    /// Thumb `movw`.
    ThumbMovw,
    /// Thumb `movt`.
    ThumbMovt,
    /// Thumb `adr.w`: a 12-bit magnitude.
    ThumbAdr,
    /// Thumb `ldr.w` from a literal: a 12-bit magnitude.
    ThumbLdrLiteral,
    /// A32 `ldr` from a literal: a 12-bit magnitude.
    LdrLiteral,
    /// A32 `add`/`sub` from the PC: 8 bits, rotated.
    AluPc {
        /// The value must have no bits outside the 8.
        checked: bool,
    },
}

/// Whether A32 instruction `insn` is a `blx` with an immediate.
#[verifier::allow_in_spec]
pub fn is_arm_blx(insn: u32) -> bool
    returns
        insn & 0xfe00_0000 == 0xfa00_0000,
{
    insn & 0xfe00_0000 == 0xfa00_0000
}

/// Whether Thumb instruction `insn` is a `blx` with an immediate.
#[verifier::allow_in_spec]
pub fn is_thumb_blx(insn: u32) -> bool
    returns
        insn & 0xf800_d000 == 0xf000_c000,
{
    insn & 0xf800_d000 == 0xf000_c000
}

/// `bl`, without its displacement.
pub const BL: u32 = 0xeb00_0000;

/// `blx` with an immediate, without its displacement.
pub const BLX: u32 = 0xfa00_0000;

/// The `bl` that takes the place of A32 `blx` instruction `insn`; `insn`
/// itself when it is none.
#[verifier::allow_in_spec]
pub fn arm_bl(insn: u32) -> u32
    returns
        (if is_arm_blx(insn) {
            BL
        } else {
            insn
        }),
{
    if is_arm_blx(insn) {
        BL
    } else {
        insn
    }
}

/// The A32 `blx` to code `offset` bytes away: 24 bits of words, and bit 1 in
/// the H bit. Nothing when it is too far.
pub open spec fn spec_arm_blx(offset: i64) -> Option<u32> {
    if bits::spec_fits_signed(offset as int, 26) {
        let v = offset as u32;
        Some(BLX | ((v >> 1) & 1) << 24 | (v >> 2) & 0x00ff_ffff)
    } else {
        None
    }
}

/// The A32 `blx` to Thumb code `offset` bytes away, if it reaches that far.
pub fn arm_blx(offset: i64) -> (r: Option<u32>)
    ensures
        r == spec_arm_blx(offset),
{
    if fits_signed(offset, 26) {
        let v: u32 = offset as u32;
        Some(BLX | ((v >> 1) & 1) << 24 | (v >> 2) & 0x00ff_ffff)
    } else {
        None
    }
}

/// Thumb `bl`/`blx` instruction `insn` as a `blx`, or as a `bl`.
#[verifier::allow_in_spec]
pub fn thumb_set_blx(insn: u32, blx: bool) -> u32
    returns
        (if blx {
            insn & !0x1000u32
        } else {
            insn | 0x1000
        }),
{
    if blx {
        insn & !0x1000u32
    } else {
        insn | 0x1000
    }
}

/// The 16-bit immediate of an A32 `movw`/`movt`.
#[verifier::allow_in_spec]
pub fn mov_imm(insn: u32) -> u32
    returns
        (insn >> 4) & 0xf000 | insn & 0xfff,
{
    (insn >> 4) & 0xf000 | insn & 0xfff
}

/// The 16-bit immediate of a Thumb `movw`/`movt`.
#[verifier::allow_in_spec]
pub fn thumb_mov_imm(insn: u32) -> u32
    returns
        (insn >> 4) & 0xf000 | (insn >> 15) & 0x800 | (insn >> 4) & 0x700 | insn & 0xff,
{
    (insn >> 4) & 0xf000 | (insn >> 15) & 0x800 | (insn >> 4) & 0x700 | insn & 0xff
}

/// A32 `insn` with the 16-bit immediate `imm`.
#[verifier::allow_in_spec]
pub fn with_mov_imm(insn: u32, imm: u32) -> u32
    returns
        insn & 0xfff0_f000 | (imm & 0xf000) << 4 | imm & 0xfff,
{
    insn & 0xfff0_f000 | (imm & 0xf000) << 4 | imm & 0xfff
}

/// Thumb `insn` with the 16-bit immediate `imm`.
#[verifier::allow_in_spec]
pub fn with_thumb_mov_imm(insn: u32, imm: u32) -> u32
    returns
        insn & 0xfbf0_8f00 | (imm & 0xf000) << 4 | (imm & 0x800) << 15 | (imm & 0x700) << 4 | imm
            & 0xff,
{
    insn & 0xfbf0_8f00 | (imm & 0xf000) << 4 | (imm & 0x800) << 15 | (imm & 0x700) << 4 | imm & 0xff
}

/// The 12-bit magnitude of a Thumb `adr.w`.
#[verifier::allow_in_spec]
pub fn thumb_imm12(insn: u32) -> u32
    returns
        (insn >> 15) & 0x800 | (insn >> 4) & 0x700 | insn & 0xff,
{
    (insn >> 15) & 0x800 | (insn >> 4) & 0x700 | insn & 0xff
}

/// The even shift that leaves the top byte of `x`, looking from `from` up.
pub open spec fn top_byte_shift(x: u32, from: u32) -> u32
    decreases 32 - from,
{
    if from >= 24 || (x >> from) < 0x100 {
        from
    } else {
        top_byte_shift(x, (from + 2) as u32)
    }
}

/// The even shift that leaves the top byte of `x`.
fn find_top_byte(x: u32) -> (r: u32)
    ensures
        r == top_byte_shift(x, 0),
        r <= 25,
{
    let mut from: u32 = 0;
    while from < 24 && (x >> from) >= 0x100
        invariant
            from <= 25,
            top_byte_shift(x, 0) == top_byte_shift(x, from),
        decreases 32 - from,
    {
        from += 2;
    }
    from
}

/// The magnitude of `value`, when it fits 32 bits.
pub open spec fn magnitude(value: i64) -> int {
    if value < 0 {
        -value
    } else {
        value as int
    }
}

impl Field {
    /// Whether the instruction computes from the PC rounded down to a word.
    #[verifier::allow_in_spec]
    pub fn from_aligned_place(self) -> bool
        returns
            (self == Field::ThumbAdr || self == Field::ThumbLdrLiteral),
    {
        self == Field::ThumbAdr || self == Field::ThumbLdrLiteral
    }

    /// Whether the field is in a Thumb instruction of two halfwords.
    #[verifier::allow_in_spec]
    pub fn is_thumb32(self) -> bool
        returns
            (match self {
                Field::ThumbBranch24 | Field::ThumbBranch19 | Field::ThumbMovw | Field::ThumbMovt
                | Field::ThumbAdr | Field::ThumbLdrLiteral => true,
                _ => false,
            }),
    {
        match self {
            Field::ThumbBranch24 | Field::ThumbBranch19 | Field::ThumbMovw | Field::ThumbMovt
            | Field::ThumbAdr | Field::ThumbLdrLiteral => true,
            _ => false,
        }
    }

    /// Bytes of the instruction the field is in.
    #[verifier::allow_in_spec]
    pub fn bytes(self) -> usize
        returns
            (match self {
                Field::ThumbBranch11 | Field::ThumbBranch8 => 2usize,
                _ => 4,
            }),
    {
        match self {
            Field::ThumbBranch11 | Field::ThumbBranch8 => 2,
            _ => 4,
        }
    }

    /// The instruction at `at`, if it lies inside `s`.
    pub open spec fn insn_at(self, s: Seq<u8>, at: int) -> Option<u32> {
        if self.is_thumb32() {
            thumb32_at(s, at)
        } else if self.bytes() == 2 {
            match bytes::u16_at(s, at) {
                Some(half) => Some(half as u32),
                None => None,
            }
        } else {
            bytes::u32_at(s, at)
        }
    }

    /// The bytes of instruction `insn`.
    pub open spec fn insn_bytes(self, insn: u32) -> Seq<u8> {
        if self.is_thumb32() {
            spec_thumb32(insn)
        } else if self.bytes() == 2 {
            bytes::spec_le16(insn as u16)
        } else {
            bytes::spec_le32(insn)
        }
    }

    /// Reads the instruction at `at`.
    pub fn read(self, data: &[u8], at: u64) -> (r: Option<u32>)
        ensures
            r == self.insn_at(data@, at as int),
    {
        if self.is_thumb32() {
            read_thumb32(data, at)
        } else if self.bytes() == 2 {
            match get_u16(data, at) {
                Some(half) => Some(half as u32),
                None => None,
            }
        } else {
            get_u32(data, at)
        }
    }

    /// Writes the instruction at `at`, and says whether it lies inside
    /// `out`.
    pub fn write(self, out: &mut [u8], at: u64, insn: u32) -> (r: bool)
        ensures
            final(out)@ == bytes::stored(old(out)@, at as int, self.insn_bytes(insn)),
            r == bytes::inside(old(out)@, at as int, self.insn_bytes(insn).len() as int),
    {
        if self.is_thumb32() {
            write_thumb32(out, at, insn)
        } else if self.bytes() == 2 {
            put_u16(out, at, insn as u16)
        } else {
            put_u32(out, at, insn)
        }
    }

    /// The value instruction `insn` holds in the field, sign-extended: the
    /// addend of a relocation without one.
    pub open spec fn decoded(self, insn: u32) -> i64 {
        match self {
            Field::Prel31 => ((insn << 1) as i32 >> 1) as i64,
            Field::Branch24 => {
                let words = ((insn << 8) as i32 >> 6) as i64;
                if is_arm_blx(insn) && insn & 0x0100_0000 != 0 {
                    words | 2
                } else {
                    words
                }
            },
            Field::ThumbBranch24 => {
                let s = (insn >> 26) & 1;
                let i1 = !((insn >> 13) ^ s) & 1;
                let i2 = !((insn >> 11) ^ s) & 1;
                let all = s << 24 | i1 << 23 | i2 << 22 | ((insn >> 16) & 0x3ff) << 12 | (insn
                    & 0x7ff) << 1;
                ((all << 7) as i32 >> 7) as i64
            },
            Field::ThumbBranch19 => {
                let all = ((insn >> 26) & 1) << 20 | ((insn >> 11) & 1) << 19 | ((insn >> 13) & 1)
                    << 18 | ((insn >> 16) & 0x3f) << 12 | (insn & 0x7ff) << 1;
                ((all << 11) as i32 >> 11) as i64
            },
            Field::ThumbBranch11 => ((insn << 21) as i32 >> 20) as i64,
            Field::ThumbBranch8 => ((insn << 24) as i32 >> 23) as i64,
            Field::Movw | Field::Movt => ((mov_imm(insn) << 16) as i32 >> 16) as i64,
            Field::ThumbMovw | Field::ThumbMovt => ((thumb_mov_imm(insn) << 16) as i32
                >> 16) as i64,
            Field::ThumbAdr => if insn & 0x00f0_0000 != 0 {
                (0i64).wrapping_sub(thumb_imm12(insn) as i64)
            } else {
                thumb_imm12(insn) as i64
            },
            Field::ThumbLdrLiteral | Field::LdrLiteral => if insn & 0x0080_0000 != 0 {
                (insn & 0xfff) as i64
            } else {
                (0i64).wrapping_sub((insn & 0xfff) as i64)
            },
            Field::AluPc { .. } => {
                let rotated = rotated_imm(insn);
                if insn & 0x00c0_0000 == 0x0040_0000 {
                    (0i64).wrapping_sub(rotated as i64)
                } else {
                    rotated as i64
                }
            },
        }
    }

    /// The value instruction `insn` holds in the field.
    pub fn decode(self, insn: u32) -> (r: i64)
        ensures
            r == self.decoded(insn),
    {
        match self {
            Field::Prel31 => ((insn << 1) as i32 >> 1) as i64,
            Field::Branch24 => {
                let words: i64 = ((insn << 8) as i32 >> 6) as i64;
                if is_arm_blx(insn) && insn & 0x0100_0000 != 0 {
                    words | 2
                } else {
                    words
                }
            },
            Field::ThumbBranch24 => {
                let s: u32 = (insn >> 26) & 1;
                let i1: u32 = !((insn >> 13) ^ s) & 1;
                let i2: u32 = !((insn >> 11) ^ s) & 1;
                let all: u32 = s << 24 | i1 << 23 | i2 << 22 | ((insn >> 16) & 0x3ff) << 12 | (insn
                    & 0x7ff) << 1;
                ((all << 7) as i32 >> 7) as i64
            },
            Field::ThumbBranch19 => {
                let all: u32 = ((insn >> 26) & 1) << 20 | ((insn >> 11) & 1) << 19 | ((insn >> 13)
                    & 1) << 18 | ((insn >> 16) & 0x3f) << 12 | (insn & 0x7ff) << 1;
                ((all << 11) as i32 >> 11) as i64
            },
            Field::ThumbBranch11 => ((insn << 21) as i32 >> 20) as i64,
            Field::ThumbBranch8 => ((insn << 24) as i32 >> 23) as i64,
            Field::Movw | Field::Movt => ((mov_imm(insn) << 16) as i32 >> 16) as i64,
            Field::ThumbMovw | Field::ThumbMovt => ((thumb_mov_imm(insn) << 16) as i32
                >> 16) as i64,
            Field::ThumbAdr => if insn & 0x00f0_0000 != 0 {
                (0i64).wrapping_sub(thumb_imm12(insn) as i64)
            } else {
                thumb_imm12(insn) as i64
            },
            Field::ThumbLdrLiteral | Field::LdrLiteral => if insn & 0x0080_0000 != 0 {
                (insn & 0xfff) as i64
            } else {
                (0i64).wrapping_sub((insn & 0xfff) as i64)
            },
            Field::AluPc { .. } => {
                let rotated: u32 = rotated_imm(insn);
                if insn & 0x00c0_0000 == 0x0040_0000 {
                    (0i64).wrapping_sub(rotated as i64)
                } else {
                    rotated as i64
                }
            },
        }
    }

    /// Whether the field can hold `value` in instruction `insn`.
    pub open spec fn accepts(self, insn: u32, value: i64) -> bool {
        match self {
            Field::Prel31 => bits::spec_fits_signed(value as int, 31),
            Field::Branch24 => bits::spec_fits_signed(value as int, 26) && value % (if is_arm_blx(insn) {
                2i64
            } else {
                4
            }) == 0,
            Field::ThumbBranch24 => bits::spec_fits_signed(value as int, 25) && value % 2 == 0,
            Field::ThumbBranch19 => bits::spec_fits_signed(value as int, 21) && value % 2 == 0,
            Field::ThumbBranch11 => bits::spec_fits_signed(value as int, 12) && value % 2 == 0,
            Field::ThumbBranch8 => bits::spec_fits_signed(value as int, 9) && value % 2 == 0,
            Field::Movw | Field::Movt | Field::ThumbMovw | Field::ThumbMovt => true,
            Field::ThumbAdr | Field::ThumbLdrLiteral | Field::LdrLiteral => -0x1000 < value
                < 0x1000,
            Field::AluPc { checked } => -0x1_0000_0000 < value < 0x1_0000_0000 && (checked ==> {
                let x = magnitude(value) as u32;
                let n = top_byte_shift(x, 0);
                (x >> n) << n == x
            }),
        }
    }

    /// `insn` with the field holding `value`.
    pub open spec fn packed(self, insn: u32, value: i64) -> u32 {
        let v = value as u32;
        match self {
            Field::Prel31 => insn & 0x8000_0000 | v & 0x7fff_ffff,
            Field::Branch24 => if is_arm_blx(insn) {
                insn & 0xfe00_0000 | ((v >> 1) & 1) << 24 | (v >> 2) & 0x00ff_ffff
            } else {
                insn & 0xff00_0000 | (v >> 2) & 0x00ff_ffff
            },
            Field::ThumbBranch24 => {
                let s = (v >> 24) & 1;
                let j1 = !((v >> 23) ^ s) & 1;
                let j2 = !((v >> 22) ^ s) & 1;
                insn & 0xf800_d000 | s << 26 | ((v >> 12) & 0x3ff) << 16 | j1 << 13 | j2 << 11 | (v
                    >> 1) & 0x7ff
            },
            Field::ThumbBranch19 => insn & 0xfbc0_d000 | ((v >> 20) & 1) << 26 | ((v >> 12) & 0x3f)
                << 16 | ((v >> 18) & 1) << 13 | ((v >> 19) & 1) << 11 | (v >> 1) & 0x7ff,
            Field::ThumbBranch11 => insn & 0xf800 | (v >> 1) & 0x7ff,
            Field::ThumbBranch8 => insn & 0xff00 | (v >> 1) & 0xff,
            Field::Movw => with_mov_imm(insn, v & 0xffff),
            Field::Movt => with_mov_imm(insn, v >> 16),
            Field::ThumbMovw => with_thumb_mov_imm(insn, v & 0xffff),
            Field::ThumbMovt => with_thumb_mov_imm(insn, v >> 16),
            Field::ThumbAdr => {
                let m = magnitude(value) as u32;
                insn & 0xfb0f_8f00 | (if value < 0 {
                    0x00a0_0000u32
                } else {
                    0
                }) | (m & 0x800) << 15 | (m & 0x700) << 4 | m & 0xff
            },
            Field::ThumbLdrLiteral | Field::LdrLiteral => insn & 0xff7f_f000 | (if value < 0 {
                0
            } else {
                0x0080_0000u32
            }) | magnitude(value) as u32,
            Field::AluPc { .. } => {
                let x = magnitude(value) as u32;
                let n = top_byte_shift(x, 0);
                insn & 0xff3f_f000 | (if value < 0 {
                    0x0040_0000u32
                } else {
                    0x0080_0000u32
                }) | (if n == 0 {
                    0u32
                } else {
                    ((32 - n) as u32) << 7
                }) | (x >> n) & 0xff
            },
        }
    }

    /// What [`encode`](Self::encode) returns.
    pub open spec fn encoded(self, insn: u32, value: i64) -> Result<u32, EncodeError> {
        if self.accepts(insn, value) {
            Ok(self.packed(insn, value))
        } else {
            Err(EncodeError::Overflow)
        }
    }

    /// `insn` with the field holding `value`.
    ///
    /// # Errors
    ///
    /// [`EncodeError::Overflow`] when the field cannot hold it.
    pub fn encode(self, insn: u32, value: i64) -> (r: Result<u32, EncodeError>)
        ensures
            r == self.encoded(insn, value),
    {
        let v: u32 = value as u32;
        match self {
            Field::Prel31 => if fits_signed(value, 31) {
                Ok(insn & 0x8000_0000 | v & 0x7fff_ffff)
            } else {
                Err(EncodeError::Overflow)
            },
            Field::Branch24 => if !fits_signed(value, 26) {
                Err(EncodeError::Overflow)
            } else if is_arm_blx(insn) {
                if value % 2 == 0 {
                    Ok(insn & 0xfe00_0000 | ((v >> 1) & 1) << 24 | (v >> 2) & 0x00ff_ffff)
                } else {
                    Err(EncodeError::Overflow)
                }
            } else if value % 4 == 0 {
                Ok(insn & 0xff00_0000 | (v >> 2) & 0x00ff_ffff)
            } else {
                Err(EncodeError::Overflow)
            },
            Field::ThumbBranch24 => if fits_signed(value, 25) && value % 2 == 0 {
                let s: u32 = (v >> 24) & 1;
                let j1: u32 = !((v >> 23) ^ s) & 1;
                let j2: u32 = !((v >> 22) ^ s) & 1;
                Ok(
                    insn & 0xf800_d000 | s << 26 | ((v >> 12) & 0x3ff) << 16 | j1 << 13 | j2 << 11
                        | (v >> 1) & 0x7ff,
                )
            } else {
                Err(EncodeError::Overflow)
            },
            Field::ThumbBranch19 => if fits_signed(value, 21) && value % 2 == 0 {
                Ok(
                    insn & 0xfbc0_d000 | ((v >> 20) & 1) << 26 | ((v >> 12) & 0x3f) << 16 | ((v
                        >> 18) & 1) << 13 | ((v >> 19) & 1) << 11 | (v >> 1) & 0x7ff,
                )
            } else {
                Err(EncodeError::Overflow)
            },
            Field::ThumbBranch11 => if fits_signed(value, 12) && value % 2 == 0 {
                Ok(insn & 0xf800 | (v >> 1) & 0x7ff)
            } else {
                Err(EncodeError::Overflow)
            },
            Field::ThumbBranch8 => if fits_signed(value, 9) && value % 2 == 0 {
                Ok(insn & 0xff00 | (v >> 1) & 0xff)
            } else {
                Err(EncodeError::Overflow)
            },
            Field::Movw => Ok(with_mov_imm(insn, v & 0xffff)),
            Field::Movt => Ok(with_mov_imm(insn, v >> 16)),
            Field::ThumbMovw => Ok(with_thumb_mov_imm(insn, v & 0xffff)),
            Field::ThumbMovt => Ok(with_thumb_mov_imm(insn, v >> 16)),
            Field::ThumbAdr => if -0x1000 < value && value < 0x1000 {
                let m: u32 = if value < 0 {
                    (-value) as u32
                } else {
                    value as u32
                };
                Ok(
                    insn & 0xfb0f_8f00 | (if value < 0 {
                        0x00a0_0000u32
                    } else {
                        0
                    }) | (m & 0x800) << 15 | (m & 0x700) << 4 | m & 0xff,
                )
            } else {
                Err(EncodeError::Overflow)
            },
            Field::ThumbLdrLiteral | Field::LdrLiteral => if -0x1000 < value && value < 0x1000 {
                let m: u32 = if value < 0 {
                    (-value) as u32
                } else {
                    value as u32
                };
                Ok(
                    insn & 0xff7f_f000 | (if value < 0 {
                        0
                    } else {
                        0x0080_0000u32
                    }) | m,
                )
            } else {
                Err(EncodeError::Overflow)
            },
            Field::AluPc { checked } => if -0x1_0000_0000 < value && value < 0x1_0000_0000 {
                let x: u32 = if value < 0 {
                    (-value) as u32
                } else {
                    value as u32
                };
                let n: u32 = find_top_byte(x);
                if checked && (x >> n) << n != x {
                    Err(EncodeError::Overflow)
                } else {
                    Ok(
                        insn & 0xff3f_f000 | (if value < 0 {
                            0x0040_0000u32
                        } else {
                            0x0080_0000u32
                        }) | (if n == 0 {
                            0u32
                        } else {
                            (32 - n) << 7
                        }) | (x >> n) & 0xff,
                    )
                }
            } else {
                Err(EncodeError::Overflow)
            },
        }
    }
}

/// The rotated 8-bit immediate of an A32 data-processing instruction.
#[verifier::allow_in_spec]
pub fn rotated_imm(insn: u32) -> u32
    returns
        ({
            let byte = insn & 0xff;
            let turn = (insn >> 7) & 0x1e;
            if turn == 0 || turn >= 32 {
                byte
            } else {
                byte >> turn | byte << ((32 - turn) as u32)
            }
        }),
{
    let byte: u32 = insn & 0xff;
    let turn: u32 = (insn >> 7) & 0x1e;
    if turn == 0 || turn >= 32 {
        byte
    } else {
        byte >> turn | byte << (32 - turn)
    }
}

/// The two halfwords of a Thumb instruction, first one on top.
pub open spec fn thumb32_at(s: Seq<u8>, at: int) -> Option<u32> {
    match (bytes::u16_at(s, at), bytes::u16_at(s, at + 2)) {
        (Some(first), Some(second)) => Some((first as u32) << 16 | second as u32),
        _ => None,
    }
}

/// The bytes of a Thumb instruction of two halfwords.
pub open spec fn spec_thumb32(insn: u32) -> Seq<u8> {
    bytes::spec_le16((insn >> 16) as u16) + bytes::spec_le16(insn as u16)
}

/// Reads a Thumb instruction of two halfwords.
pub fn read_thumb32(data: &[u8], at: u64) -> (r: Option<u32>)
    ensures
        r == thumb32_at(data@, at as int),
{
    match place(data.len(), at, 4) {
        Some(_) => match (get_u16(data, at), get_u16(data, at + 2)) {
            (Some(first), Some(second)) => Some((first as u32) << 16 | second as u32),
            _ => None,
        },
        None => None,
    }
}

/// Writes a Thumb instruction of two halfwords, and says whether it lies
/// inside `out`.
pub fn write_thumb32(out: &mut [u8], at: u64, insn: u32) -> (r: bool)
    ensures
        final(out)@ == bytes::stored(old(out)@, at as int, spec_thumb32(insn)),
        r == bytes::inside(old(out)@, at as int, 4),
{
    match place(out.len(), at, 4) {
        Some(start) => {
            let a: [u8; 2] = le16((insn >> 16) as u16);
            let b: [u8; 2] = le16(insn as u16);
            write_over(out, start, &a);
            write_over(out, start + 2, &b);
            assert(out@ =~= bytes::stored(old(out)@, at as int, spec_thumb32(insn)));
            true
        },
        None => false,
    }
}

/// The form of a thunk.
#[derive(Clone, Copy, Debug, PartialEq, Eq, Structural)]
pub struct ThunkKind {
    /// The thunk is Thumb code.
    pub thumb: bool,
    /// The thunk is position-independent.
    pub pic: bool,
}

/// The code of a thunk at `address` that branches to `destination`: the
/// destination, or its distance from the PC that `add` reads, is loaded
/// into `ip` by halves.
pub open spec fn thunk_code(address: u64, destination: u64, kind: ThunkKind) -> Seq<u8> {
    match (kind.thumb, kind.pic) {
        (false, false) => {
            let v = destination as u32;
            bytes::spec_le32(with_mov_imm(MOVW_IP, v & 0xffff)) + bytes::spec_le32(
                with_mov_imm(MOVT_IP, v >> 16),
            ) + bytes::spec_le32(BX_IP)
        },
        (false, true) => {
            let v = destination.wrapping_sub(address.wrapping_add(16)) as u32;
            bytes::spec_le32(with_mov_imm(MOVW_IP, v & 0xffff)) + bytes::spec_le32(
                with_mov_imm(MOVT_IP, v >> 16),
            ) + bytes::spec_le32(ADD_IP_PC) + bytes::spec_le32(BX_IP)
        },
        (true, false) => {
            let v = destination as u32;
            spec_thumb32(with_thumb_mov_imm(THUMB_MOVW_IP, v & 0xffff)) + spec_thumb32(
                with_thumb_mov_imm(THUMB_MOVT_IP, v >> 16),
            ) + bytes::spec_le16(THUMB_BX_IP)
        },
        (true, true) => {
            let v = destination.wrapping_sub(address.wrapping_add(12)) as u32;
            spec_thumb32(with_thumb_mov_imm(THUMB_MOVW_IP, v & 0xffff)) + spec_thumb32(
                with_thumb_mov_imm(THUMB_MOVT_IP, v >> 16),
            ) + bytes::spec_le16(THUMB_ADD_IP_PC) + bytes::spec_le16(THUMB_BX_IP)
        },
    }
}

/// Writes a thunk at `at` of `out`, at address `address`, that branches to
/// `destination`, and says whether it lies inside `out`.
pub fn write_thunk(out: &mut [u8], at: u64, address: u64, destination: u64, kind: ThunkKind) -> (r:
    bool)
    ensures
        final(out)@ == bytes::stored(old(out)@, at as int, thunk_code(address, destination, kind)),
        r == bytes::inside(
            old(out)@,
            at as int,
            thunk_code(address, destination, kind).len() as int,
        ),
{
    let size: usize = match (kind.thumb, kind.pic) {
        (false, false) => 12,
        (false, true) => 16,
        (true, false) => 10,
        (true, true) => 12,
    };
    let from: u64 = if !kind.pic {
        0
    } else if kind.thumb {
        address.wrapping_add(12)
    } else {
        address.wrapping_add(16)
    };
    let v: u32 = destination.wrapping_sub(from) as u32;
    proof {
        assert(thunk_code(address, destination, kind).len() == size);
        assert(destination.wrapping_sub(0) == destination);
    }
    match place(out.len(), at, size) {
        Some(start) => {
            if kind.thumb {
                let _a: bool = write_thumb32(
                    out,
                    at,
                    with_thumb_mov_imm(THUMB_MOVW_IP, v & 0xffff),
                );
                let _b: bool = write_thumb32(
                    out,
                    at + 4,
                    with_thumb_mov_imm(THUMB_MOVT_IP, v >> 16),
                );
                if kind.pic {
                    let c: [u8; 2] = le16(THUMB_ADD_IP_PC);
                    let d: [u8; 2] = le16(THUMB_BX_IP);
                    write_over(out, start + 8, &c);
                    write_over(out, start + 10, &d);
                } else {
                    let c: [u8; 2] = le16(THUMB_BX_IP);
                    write_over(out, start + 8, &c);
                }
            } else {
                let a: [u8; 4] = le32(with_mov_imm(MOVW_IP, v & 0xffff));
                let b: [u8; 4] = le32(with_mov_imm(MOVT_IP, v >> 16));
                write_over(out, start, &a);
                write_over(out, start + 4, &b);
                if kind.pic {
                    let c: [u8; 4] = le32(ADD_IP_PC);
                    let d: [u8; 4] = le32(BX_IP);
                    write_over(out, start + 8, &c);
                    write_over(out, start + 12, &d);
                } else {
                    let c: [u8; 4] = le32(BX_IP);
                    write_over(out, start + 8, &c);
                }
            }
            assert(out@ =~= bytes::stored(old(out)@, at as int, thunk_code(address, destination, kind)));
            true
        },
        None => false,
    }
}

/// The PLT header at `plt`: save `lr`, and jump to the resolver through the
/// third word of `.got.plt`, whose distance is the last word.
#[verifier::allow_in_spec]
pub fn plt_header(plt: u64, got_plt: u64) -> [u32; 5]
    returns
        [
            0xe52d_e004u32,
            0xe59f_e004,
            0xe08f_e00e,
            0xe5be_f008,
            got_plt.wrapping_sub(plt.wrapping_add(16)) as u32,
        ],
{
    [
        0xe52d_e004u32,
        0xe59f_e004,
        0xe08f_e00e,
        0xe5be_f008,
        got_plt.wrapping_sub(plt.wrapping_add(16)) as u32,
    ]
}

/// The distance a PLT entry at `entry` adds to its PC to reach `slot`.
#[verifier::allow_in_spec]
pub fn plt_distance(entry: u64, slot: u64) -> u32
    returns
        slot.wrapping_sub(entry.wrapping_add(8)) as u32,
{
    slot.wrapping_sub(entry.wrapping_add(8)) as u32
}

/// The words of a PLT entry for distance `d`.
#[verifier::allow_in_spec]
pub fn plt_entry_words(d: u32) -> [u32; 3]
    returns
        [
            0xe28f_c600u32 | (d >> 20) & 0xff,
            0xe28c_ca00 | (d >> 12) & 0xff,
            0xe5bc_f000 | d & 0xfff,
        ],
{
    [
        0xe28f_c600u32 | (d >> 20) & 0xff,
        0xe28c_ca00 | (d >> 12) & 0xff,
        0xe5bc_f000 | d & 0xfff,
    ]
}

/// A PLT entry at `entry` that jumps through the GOT word at `slot`:
/// `add ip, pc, #..; add ip, ip, #..; ldr pc, [ip, #..]!`.
///
/// # Errors
///
/// [`EncodeError::Overflow`] when the slot is 256 MiB or more past the
/// entry.
pub fn plt_entry(entry: u64, slot: u64) -> (r: Result<[u32; 3], EncodeError>)
    ensures
        r == (if plt_distance(entry, slot) < 0x1000_0000 {
            Ok(plt_entry_words(plt_distance(entry, slot)))
        } else {
            Err(EncodeError::Overflow)
        }),
{
    let d: u32 = plt_distance(entry, slot);
    if d < 0x1000_0000 {
        Ok(plt_entry_words(d))
    } else {
        Err(EncodeError::Overflow)
    }
}

/// The shift that leaves the top byte is even, and leaves no more than it.
proof fn top_byte_shifts_are_even(x: u32, from: u32)
    requires
        from % 2 == 0,
        from <= 24,
    ensures
        top_byte_shift(x, from) % 2 == 0,
        top_byte_shift(x, from) <= 24,
        x >> top_byte_shift(x, from) < 0x100,
    decreases 32 - from,
{
    if from >= 24 {
        assert(x >> 24u32 < 0x100) by (bit_vector);
    } else if (x >> from) >= 0x100 {
        top_byte_shifts_are_even(x, (from + 2) as u32);
    }
}

/// A number that is a byte shifted left reads back from its rotated form.
proof fn rotated_forms_read_back(insn: u32, sign: u32, x: u32)
    requires
        sign == 0x0040_0000 || sign == 0x0080_0000,
        (x >> top_byte_shift(x, 0)) << top_byte_shift(x, 0) == x,
    ensures
        ({
            let n = top_byte_shift(x, 0);
            let r = insn & 0xff3f_f000 | sign | (if n == 0 {
                0u32
            } else {
                ((32 - n) as u32) << 7
            }) | (x >> n) & 0xff;
            rotated_imm(r) == x && r & 0x00c0_0000 == sign
        }),
{
    let n = top_byte_shift(x, 0);
    top_byte_shifts_are_even(x, 0);
    let turn: u32 = if n == 0 {
        0
    } else {
        (32 - n) as u32
    };
    let r = insn & 0xff3f_f000 | sign | turn << 7 | (x >> n) & 0xff;
    assert(0u32 << 7 == 0u32 && x >> 0u32 == x) by (bit_vector);
    assert(r & 0x00c0_0000 == sign && r & 0xff == (x >> n) && (r >> 7) & 0x1e == turn)
        by (bit_vector)
        requires
            sign == 0x0040_0000 || sign == 0x0080_0000,
            turn % 2 == 0,
            turn < 32,
            x >> n < 0x100,
            r == insn & 0xff3f_f000 | sign | turn << 7 | (x >> n) & 0xff,
    ;
    let byte = x >> n;
    if n != 0 {
        let left = byte << n;
        assert(byte >> turn == 0u32 && 0u32 | left == left) by (bit_vector)
            requires
                byte < 0x100,
                8 <= turn < 32,
        ;
    }
}

/// The value a field was given reads back from it: any that the field holds
/// whole, a 16-bit one of a `movw` (a `movt` holds only the high half), and
/// a rotated byte of an `add`/`sub`.
pub proof fn held_values_read_back(field: Field, insn: u32, value: i64)
    requires
        field.accepts(insn, value),
        match field {
            Field::Movw | Field::ThumbMovw => -0x8000 <= value < 0x8000,
            Field::Movt | Field::ThumbMovt => false,
            Field::AluPc { checked } => checked,
            _ => true,
        },
    ensures
        field.decoded(field.packed(insn, value)) == value,
{
    vstd::arithmetic::power2::lemma2_to64();
    let r = field.packed(insn, value);
    let m = magnitude(value) as u32;
    match field {
        Field::Prel31 => {
            assert(-0x4000_0000 <= value && value < 0x4000_0000 ==> (((insn & 0x8000_0000 | (
            value as u32) & 0x7fff_ffff) << 1) as i32 >> 1) as i64 == value) by (bit_vector);
        },
        Field::Branch24 => {
            if is_arm_blx(insn) {
                arm_blx_reads_back(insn, value);
            } else {
                arm_branches_read_back(insn, value);
            }
        },
        Field::ThumbBranch24 => {
            thumb_branches_read_back(insn, value);
        },
        Field::ThumbBranch19 => {
            thumb_conditional_branches_read_back(insn, value);
        },
        Field::ThumbBranch11 => {
            short_branches_read_back(insn, value);
        },
        Field::ThumbBranch8 => {
            short_conditional_branches_read_back(insn, value);
        },
        Field::Movw | Field::ThumbMovw => {
            moved_values_read_back(insn, value);
        },
        Field::ThumbAdr => {
            let sign: u32 = if value < 0 {
                0x00a0_0000
            } else {
                0
            };
            assert(thumb_imm12(r) == m && r & 0x00f0_0000 == sign) by (bit_vector)
                requires
                    m < 0x1000,
                    sign == 0 || sign == 0x00a0_0000,
                    r == insn & 0xfb0f_8f00 | sign | (m & 0x800) << 15 | (m & 0x700) << 4 | m
                        & 0xff,
            ;
        },
        Field::ThumbLdrLiteral | Field::LdrLiteral => {
            let sign: u32 = if value < 0 {
                0
            } else {
                0x0080_0000
            };
            assert(r & 0xfff == m && r & 0x0080_0000 == sign) by (bit_vector)
                requires
                    m < 0x1000,
                    sign == 0 || sign == 0x0080_0000,
                    r == insn & 0xff7f_f000 | sign | m,
            ;
        },
        Field::AluPc { .. } => {
            let sign: u32 = if value < 0 {
                0x0040_0000
            } else {
                0x0080_0000
            };
            rotated_forms_read_back(insn, sign, m);
        },
        _ => {},
    }
}

proof fn arm_branches_read_back(insn: u32, value: i64)
    requires
        -0x200_0000 <= value < 0x200_0000,
        value % 4 == 0,
        !is_arm_blx(insn),
    ensures
        Field::Branch24.decoded(Field::Branch24.packed(insn, value)) == value,
{
    let v = value as u32;
    let r = insn & 0xff00_0000 | (v >> 2) & 0x00ff_ffff;
    assert(((r << 8) as i32 >> 6) as i64 == value && (r & 0xfe00_0000) == (insn & 0xfe00_0000))
        by (bit_vector)
        requires
            -0x200_0000 <= value < 0x200_0000,
            value % 4 == 0,
            v == value as u32,
            r == insn & 0xff00_0000 | (v >> 2) & 0x00ff_ffff,
    ;
}

proof fn arm_blx_reads_back(insn: u32, value: i64)
    requires
        -0x200_0000 <= value < 0x200_0000,
        value % 2 == 0,
        is_arm_blx(insn),
    ensures
        Field::Branch24.decoded(Field::Branch24.packed(insn, value)) == value,
{
    let v = value as u32;
    let r = insn & 0xfe00_0000 | ((v >> 1) & 1) << 24 | (v >> 2) & 0x00ff_ffff;
    let words = ((r << 8) as i32 >> 6) as i64;
    assert((r & 0xfe00_0000) == (insn & 0xfe00_0000) && (if r & 0x0100_0000 != 0 {
        words | 2
    } else {
        words
    }) == value) by (bit_vector)
        requires
            -0x200_0000 <= value < 0x200_0000,
            value % 2 == 0,
            v == value as u32,
            r == insn & 0xfe00_0000 | ((v >> 1) & 1) << 24 | (v >> 2) & 0x00ff_ffff,
            words == ((r << 8) as i32 >> 6) as i64,
    ;
}

proof fn thumb_branches_read_back(insn: u32, value: i64)
    requires
        -0x100_0000 <= value < 0x100_0000,
        value % 2 == 0,
    ensures
        Field::ThumbBranch24.decoded(Field::ThumbBranch24.packed(insn, value)) == value,
{
    let v = value as u32;
    let r = Field::ThumbBranch24.packed(insn, value);
    let sign = (v >> 24) & 1;
    let j1 = !((v >> 23) ^ sign) & 1;
    let j2 = !((v >> 22) ^ sign) & 1;
    let s = (r >> 26) & 1;
    let i1 = !((r >> 13) ^ s) & 1;
    let i2 = !((r >> 11) ^ s) & 1;
    let all = s << 24 | i1 << 23 | i2 << 22 | ((r >> 16) & 0x3ff) << 12 | (r & 0x7ff) << 1;
    assert(((all << 7) as i32 >> 7) as i64 == value) by (bit_vector)
        requires
            -0x100_0000 <= value < 0x100_0000,
            value % 2 == 0,
            v == value as u32,
            sign == (v >> 24) & 1,
            j1 == !((v >> 23) ^ sign) & 1,
            j2 == !((v >> 22) ^ sign) & 1,
            r == insn & 0xf800_d000 | sign << 26 | ((v >> 12) & 0x3ff) << 16 | j1 << 13 | j2 << 11
                | (v >> 1) & 0x7ff,
            s == (r >> 26) & 1,
            i1 == !((r >> 13) ^ s) & 1,
            i2 == !((r >> 11) ^ s) & 1,
            all == s << 24 | i1 << 23 | i2 << 22 | ((r >> 16) & 0x3ff) << 12 | (r & 0x7ff) << 1,
    ;
}

proof fn thumb_conditional_branches_read_back(insn: u32, value: i64)
    requires
        -0x10_0000 <= value < 0x10_0000,
        value % 2 == 0,
    ensures
        Field::ThumbBranch19.decoded(Field::ThumbBranch19.packed(insn, value)) == value,
{
    let v = value as u32;
    let r = Field::ThumbBranch19.packed(insn, value);
    let all = ((r >> 26) & 1) << 20 | ((r >> 11) & 1) << 19 | ((r >> 13) & 1) << 18 | ((r >> 16)
        & 0x3f) << 12 | (r & 0x7ff) << 1;
    assert(((all << 11) as i32 >> 11) as i64 == value) by (bit_vector)
        requires
            -0x10_0000 <= value < 0x10_0000,
            value % 2 == 0,
            v == value as u32,
            r == insn & 0xfbc0_d000 | ((v >> 20) & 1) << 26 | ((v >> 12) & 0x3f) << 16 | ((v >> 18)
                & 1) << 13 | ((v >> 19) & 1) << 11 | (v >> 1) & 0x7ff,
            all == ((r >> 26) & 1) << 20 | ((r >> 11) & 1) << 19 | ((r >> 13) & 1) << 18 | ((r
                >> 16) & 0x3f) << 12 | (r & 0x7ff) << 1,
    ;
}

proof fn short_branches_read_back(insn: u32, value: i64)
    requires
        -0x800 <= value < 0x800,
        value % 2 == 0,
    ensures
        Field::ThumbBranch11.decoded(Field::ThumbBranch11.packed(insn, value)) == value,
{
    let v = value as u32;
    let r = insn & 0xf800 | (v >> 1) & 0x7ff;
    assert(((r << 21) as i32 >> 20) as i64 == value) by (bit_vector)
        requires
            -0x800 <= value < 0x800,
            value % 2 == 0,
            v == value as u32,
            r == insn & 0xf800 | (v >> 1) & 0x7ff,
    ;
}

proof fn short_conditional_branches_read_back(insn: u32, value: i64)
    requires
        -0x100 <= value < 0x100,
        value % 2 == 0,
    ensures
        Field::ThumbBranch8.decoded(Field::ThumbBranch8.packed(insn, value)) == value,
{
    let v = value as u32;
    let r = insn & 0xff00 | (v >> 1) & 0xff;
    assert(((r << 24) as i32 >> 23) as i64 == value) by (bit_vector)
        requires
            -0x100 <= value < 0x100,
            value % 2 == 0,
            v == value as u32,
            r == insn & 0xff00 | (v >> 1) & 0xff,
    ;
}

proof fn moved_values_read_back(insn: u32, value: i64)
    requires
        -0x8000 <= value < 0x8000,
    ensures
        Field::Movw.decoded(Field::Movw.packed(insn, value)) == value,
        Field::ThumbMovw.decoded(Field::ThumbMovw.packed(insn, value)) == value,
{
    let v = value as u32;
    assert(v & 0xffff <= 0xffff && (((v & 0xffff) << 16) as i32 >> 16) as i64 == value)
        by (bit_vector)
        requires
            -0x8000 <= value < 0x8000,
            v == value as u32,
    ;
    moved_halves_read_back(insn, v & 0xffff);
}

/// The 16 bits a `movw` or `movt` is given are those it holds.
pub proof fn moved_halves_read_back(insn: u32, half: u32)
    requires
        half <= 0xffff,
    ensures
        mov_imm(with_mov_imm(insn, half)) == half,
        thumb_mov_imm(with_thumb_mov_imm(insn, half)) == half,
{
    assert(half <= 0xffff ==> mov_imm(with_mov_imm(insn, half)) == half && thumb_mov_imm(
        with_thumb_mov_imm(insn, half),
    ) == half) by (bit_vector);
}

/// The halves a thunk moves into `ip` make up the whole word.
pub proof fn thunks_load_the_word(low: u32, high: u32, v: u32)
    ensures
        mov_imm(with_mov_imm(high, v >> 16)) << 16 | mov_imm(with_mov_imm(low, v & 0xffff)) == v,
        thumb_mov_imm(with_thumb_mov_imm(high, v >> 16)) << 16 | thumb_mov_imm(
            with_thumb_mov_imm(low, v & 0xffff),
        ) == v,
{
    assert(v >> 16 <= 0xffff && v & 0xffff <= 0xffff && (v >> 16) << 16 | (v & 0xffff) == v)
        by (bit_vector);
    moved_halves_read_back(high, v >> 16);
    moved_halves_read_back(low, v & 0xffff);
}

} // verus!
