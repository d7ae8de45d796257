//! LoongArch instructions.

use vstd::prelude::*;

use crate::arch::EncodeError;
use crate::bits;
use crate::bits::{fits_signed, page};

verus! {

/// `addi.w`.
pub const ADDI_W: u32 = 0x0280_0000;

/// `addi.d`.
pub const ADDI_D: u32 = 0x02c0_0000;

/// `ori`.
pub const ORI: u32 = 0x0380_0000;

/// `lu12i.w`.
pub const LU12I_W: u32 = 0x1400_0000;

/// `pcaddi`.
pub const PCADDI: u32 = 0x1800_0000;

/// `pcalau12i`.
pub const PCALAU12I: u32 = 0x1a00_0000;

/// `pcaddu12i`.
pub const PCADDU12I: u32 = 0x1c00_0000;

/// `ld.w`.
pub const LD_W: u32 = 0x2880_0000;

/// `ld.d`.
pub const LD_D: u32 = 0x28c0_0000;

/// `srli.d`.
pub const SRLI_D: u32 = 0x0045_0000;

/// `sub.d`.
pub const SUB_D: u32 = 0x0011_8000;

/// `jirl`.
pub const JIRL: u32 = 0x4c00_0000;

/// `b`.
pub const B: u32 = 0x5000_0000;

/// `bl`.
pub const BL: u32 = 0x5400_0000;

/// `nop`.
pub const NOP: u32 = 0x0340_0000;

/// Register `$zero`.
pub const R_ZERO: u32 = 0;

/// Register `$ra`.
pub const R_RA: u32 = 1;

/// Register `$tp`.
pub const R_TP: u32 = 2;

/// Register `$a0`.
pub const R_A0: u32 = 4;

/// Register `$t0`.
pub const R_T0: u32 = 12;

/// Register `$t1`.
pub const R_T1: u32 = 13;

/// Register `$t2`.
pub const R_T2: u32 = 14;

/// Register `$t3`.
pub const R_T3: u32 = 15;

/// The destination register of `insn`.
#[verifier::allow_in_spec]
pub fn rd(insn: u32) -> u32
    returns
        (insn & 0x1f),
{
    insn & 0x1f
}

/// The first source register of `insn`.
#[verifier::allow_in_spec]
pub fn rj(insn: u32) -> u32
    returns
        ((insn >> 5) & 0x1f),
{
    (insn >> 5) & 0x1f
}

/// `insn` with first source register `r`.
#[verifier::allow_in_spec]
pub fn with_rj(insn: u32, r: u32) -> u32
    returns
        (insn & !0x3e0u32 | r << 5),
{
    insn & !0x3e0u32 | r << 5
}

/// Whether `insn` is a `pcalau12i`.
#[verifier::allow_in_spec]
pub fn is_pcalau12i(insn: u32) -> bool
    returns
        (insn & 0xfe00_0000 == PCALAU12I),
{
    insn & 0xfe00_0000 == PCALAU12I
}

/// Whether `insn` is an `addi.w` or `addi.d`.
#[verifier::allow_in_spec]
pub fn is_addi(insn: u32) -> bool
    returns
        (insn & 0xffc0_0000 == ADDI_W || insn & 0xffc0_0000 == ADDI_D),
{
    insn & 0xffc0_0000 == ADDI_W || insn & 0xffc0_0000 == ADDI_D
}

/// Whether `insn` is an `ld.w` or `ld.d`.
#[verifier::allow_in_spec]
pub fn is_ld_word(insn: u32) -> bool
    returns
        (insn & 0xffc0_0000 == LD_W || insn & 0xffc0_0000 == LD_D),
{
    insn & 0xffc0_0000 == LD_W || insn & 0xffc0_0000 == LD_D
}

/// Whether `insn` is a `jirl`.
#[verifier::allow_in_spec]
pub fn is_jirl(insn: u32) -> bool
    returns
        (insn & 0xfc00_0000 == JIRL),
{
    insn & 0xfc00_0000 == JIRL
}

/// `op rd, imm` with a 20-bit immediate.
#[verifier::allow_in_spec]
pub fn ri20(op: u32, rd: u32, imm: u32) -> u32
    returns
        (op | (imm & 0xf_ffff) << 5 | rd),
{
    op | (imm & 0xf_ffff) << 5 | rd
}

/// `op rd, rj, imm` with a 12-bit immediate.
#[verifier::allow_in_spec]
pub fn rri12(op: u32, rd: u32, rj: u32, imm: u32) -> u32
    returns
        (op | (imm & 0xfff) << 10 | rj << 5 | rd),
{
    op | (imm & 0xfff) << 10 | rj << 5 | rd
}

/// `op rd, rj, rk`.
#[verifier::allow_in_spec]
pub fn rrr(op: u32, rd: u32, rj: u32, rk: u32) -> u32
    returns
        (op | rk << 10 | rj << 5 | rd),
{
    op | rk << 10 | rj << 5 | rd
}

/// `jirl rd, rj, 0`.
#[verifier::allow_in_spec]
pub fn jirl(rd: u32, rj: u32) -> u32
    returns
        (JIRL | rj << 5 | rd),
{
    JIRL | rj << 5 | rd
}

/// The high part of a PC-relative offset whose low part is sign-extended.
#[verifier::allow_in_spec]
pub fn pcrel_hi20(offset: u32) -> u32
    returns
        (offset.wrapping_add(0x800) >> 12),
{
    offset.wrapping_add(0x800) >> 12
}

/// The distance in pages a `pcalau12i` at `pc` adds so that a sign-extended
/// low part completes `target`, and so that `lu32i.d` and `lu52i.d` after it
/// complete the upper half.
#[verifier::allow_in_spec]
pub fn page_delta(target: u64, pc: u64) -> u64
    returns
        ({
            let pages = page(target).wrapping_sub(page(pc));
            let rounded = if target & 0x800 != 0 {
                pages.wrapping_add(0x1000).wrapping_sub(0x1_0000_0000)
            } else {
                pages
            };
            if rounded & 0x8000_0000 != 0 {
                rounded.wrapping_add(0x1_0000_0000)
            } else {
                rounded
            }
        }),
{
    {
        let pages: u64 = page(target).wrapping_sub(page(pc));
        let rounded: u64 = if target & 0x800 != 0 {
            pages.wrapping_add(0x1000).wrapping_sub(0x1_0000_0000)
        } else {
            pages
        };
        if rounded & 0x8000_0000 != 0 {
            rounded.wrapping_add(0x1_0000_0000)
        } else {
            rounded
        }
    }
}

/// A field of an instruction, or of data.
#[derive(Clone, Copy, Debug, PartialEq, Eq, Structural)]
pub enum Field {
    /// The low 6 bits of a byte of data.
    Data6,
    /// A ULEB128 number.
    Uleb128,
    /// Conditional branches: 16 bits of words.
    B16,
    /// `beqz`, `bnez`: 21 bits of words.
    B21,
    /// `b`, `bl`: 26 bits of words.
    B26,
    /// `pcaddu18i` and `jirl`.
    Call36,
    /// The same, which may become `bl` or `b`.
    Call36Relax,
    /// `pcaddi`: 20 bits of words.
    Pcrel20S2,
    /// Bits 12 to 31.
    Hi20,
    /// Bits 0 to 11.
    Lo12,
    /// Bits 32 to 51.
    Lo20,
    /// Bits 52 to 63.
    Hi12,
    /// Bits 0 to 11, in the words a `jirl` counts.
    JirlLo12,
    /// Bits 12 to 31, rounded for a sign-extended low part.
    Hi20Round,
    /// The `lu12i.w` of a local-exec access, deleted when its offset fits
    /// 12 bits.
    TpHi20Relax,
    /// The `add.d` of a local-exec access, likewise.
    TpAddRelax,
    /// The low part of a local-exec access, which then addresses `$tp`.
    TpLo12Relax,
}

impl Field {
    /// Bytes of the field in the section, when they are fixed.
    #[verifier::allow_in_spec]
    pub fn bytes(self) -> usize
        returns
            (match self {
                Field::Data6 | Field::Uleb128 => 1usize,
                Field::Call36 | Field::Call36Relax => 8,
                _ => 4,
            }),
    {
        match self {
            Field::Data6 | Field::Uleb128 => 1,
            Field::Call36 | Field::Call36Relax => 8,
            _ => 4,
        }
    }

    /// Whether the field is one instruction word that can hold `value`.
    pub open spec fn accepts(self, value: i64) -> bool {
        match self {
            Field::B16 => value % 4 == 0 && bits::spec_fits_signed(value as int, 18),
            Field::B21 => value % 4 == 0 && bits::spec_fits_signed(value as int, 23),
            Field::B26 => value % 4 == 0 && bits::spec_fits_signed(value as int, 28),
            Field::Pcrel20S2 => value % 4 == 0 && bits::spec_fits_signed(value as int, 22),
            Field::Hi20 | Field::Lo12 | Field::Lo20 | Field::Hi12 | Field::JirlLo12
            | Field::Hi20Round => true,
            _ => false,
        }
    }

    /// `insn` with the field holding `value`.
    pub open spec fn packed(self, insn: u32, value: i64) -> u32 {
        let v = value as u64;
        match self {
            Field::B16 => insn & !0x03ff_fc00u32 | (((v >> 2) & 0xffff) as u32) << 10,
            Field::B21 => insn & !0x03ff_fc1fu32 | (((v >> 2) & 0xffff) as u32) << 10 | ((v >> 18)
                & 0x1f) as u32,
            Field::B26 => insn & !0x03ff_ffffu32 | (((v >> 2) & 0xffff) as u32) << 10 | ((v >> 18)
                & 0x3ff) as u32,
            Field::Pcrel20S2 => insn & !0x01ff_ffe0u32 | (((v >> 2) & 0xf_ffff) as u32) << 5,
            Field::Hi20 => insn & !0x01ff_ffe0u32 | (((v >> 12) & 0xf_ffff) as u32) << 5,
            Field::Lo12 => insn & !0x003f_fc00u32 | ((v & 0xfff) as u32) << 10,
            Field::Lo20 => insn & !0x01ff_ffe0u32 | (((v >> 32) & 0xf_ffff) as u32) << 5,
            Field::Hi12 => insn & !0x003f_fc00u32 | (((v >> 52) & 0xfff) as u32) << 10,
            Field::JirlLo12 => insn & !0x03ff_fc00u32 | (((((v << 52) as i64) >> 54) as u64
                & 0xffff) as u32) << 10,
            Field::Hi20Round => insn & !0x01ff_ffe0u32 | (((v.wrapping_add(0x800) >> 12)
                & 0xf_ffff) as u32) << 5,
            _ => insn,
        }
    }

    /// What [`encode`](Self::encode) returns.
    pub open spec fn encoded(self, insn: u32, value: i64) -> Result<u32, EncodeError> {
        if self.accepts(value) {
            Ok(self.packed(insn, value))
        } else {
            Err(EncodeError::Overflow)
        }
    }

    /// `insn` with the field holding `value`.
    ///
    /// # Errors
    ///
    /// [`EncodeError::Overflow`] when the field cannot hold it, or is not
    /// one instruction word.
    pub fn encode(self, insn: u32, value: i64) -> (r: Result<u32, EncodeError>)
        ensures
            r == self.encoded(insn, value),
    {
        let v: u64 = value as u64;
        let ok: bool = match self {
            Field::B16 => value % 4 == 0 && fits_signed(value, 18),
            Field::B21 => value % 4 == 0 && fits_signed(value, 23),
            Field::B26 => value % 4 == 0 && fits_signed(value, 28),
            Field::Pcrel20S2 => value % 4 == 0 && fits_signed(value, 22),
            Field::Hi20 | Field::Lo12 | Field::Lo20 | Field::Hi12 | Field::JirlLo12
            | Field::Hi20Round => true,
            _ => false,
        };
        if !ok {
            return Err(EncodeError::Overflow);
        }
        Ok(
            match self {
                Field::B16 => insn & !0x03ff_fc00u32 | (((v >> 2) & 0xffff) as u32) << 10,
                Field::B21 => insn & !0x03ff_fc1fu32 | (((v >> 2) & 0xffff) as u32) << 10 | ((v
                    >> 18) & 0x1f) as u32,
                Field::B26 => insn & !0x03ff_ffffu32 | (((v >> 2) & 0xffff) as u32) << 10 | ((v
                    >> 18) & 0x3ff) as u32,
                Field::Pcrel20S2 => insn & !0x01ff_ffe0u32 | (((v >> 2) & 0xf_ffff) as u32) << 5,
                Field::Hi20 => insn & !0x01ff_ffe0u32 | (((v >> 12) & 0xf_ffff) as u32) << 5,
                Field::Lo12 => insn & !0x003f_fc00u32 | ((v & 0xfff) as u32) << 10,
                Field::Lo20 => insn & !0x01ff_ffe0u32 | (((v >> 32) & 0xf_ffff) as u32) << 5,
                Field::Hi12 => insn & !0x003f_fc00u32 | (((v >> 52) & 0xfff) as u32) << 10,
                Field::JirlLo12 => insn & !0x03ff_fc00u32 | (((((v << 52) as i64) >> 54) as u64
                    & 0xffff) as u32) << 10,
                Field::Hi20Round => insn & !0x01ff_ffe0u32 | (((v.wrapping_add(0x800) >> 12)
                    & 0xf_ffff) as u32) << 5,
                _ => insn,
            },
        )
    }
}

/// Whether a `pcaddu18i` and `jirl` pair can hold `value`.
pub open spec fn call36_accepts(value: i64) -> bool {
    value % 4 == 0 && bits::spec_fits_signed(value.wrapping_add(0x2_0000) as int, 38)
}

/// The pair holding `value`.
pub open spec fn call36_packed(first: u32, second: u32, value: i64) -> (u32, u32) {
    let v = value as u64;
    (
        first & !0x01ff_ffe0u32 | (((v.wrapping_add(0x2_0000) >> 18) & 0xf_ffff) as u32) << 5,
        second & !0x03ff_fc00u32 | (((v >> 2) & 0xffff) as u32) << 10,
    )
}

/// A `pcaddu18i` and `jirl` pair with the distance `value`.
///
/// # Errors
///
/// [`EncodeError::Overflow`] beyond ±128 GiB, or when the distance is not a
/// multiple of 4.
pub fn call36(first: u32, second: u32, value: i64) -> (r: Result<(u32, u32), EncodeError>)
    ensures
        r == (if call36_accepts(value) {
            Ok(call36_packed(first, second, value))
        } else {
            Err(EncodeError::Overflow)
        }),
{
    if value % 4 != 0 || !fits_signed(value.wrapping_add(0x2_0000), 38) {
        return Err(EncodeError::Overflow);
    }
    let v: u64 = value as u64;
    Ok(
        (
            first & !0x01ff_ffe0u32 | (((v.wrapping_add(0x2_0000) >> 18) & 0xf_ffff) as u32) << 5,
            second & !0x03ff_fc00u32 | (((v >> 2) & 0xffff) as u32) << 10,
        ),
    )
}

/// The distance a conditional branch branches.
pub open spec fn b16_distance(insn: u32) -> i64 {
    ((((insn << 6) as i32) >> 16) << 2) as i64
}

/// The distance a `beqz` or `bnez` branches.
pub open spec fn b21_distance(insn: u32) -> i64 {
    (((((insn << 27) as i32) >> 27) << 18) as i64) | (((insn >> 10) & 0xffff) << 2) as i64
}

/// The distance a `b` or `bl` branches.
pub open spec fn b26_distance(insn: u32) -> i64 {
    (((((insn << 22) as i32) >> 22) << 18) as i64) | (((insn >> 10) & 0xffff) << 2) as i64
}

/// The 20-bit immediate of an instruction.
pub open spec fn immediate20(insn: u32) -> u64 {
    ((insn >> 5) & 0xf_ffff) as u64
}

/// The 12-bit immediate of an instruction.
pub open spec fn immediate12(insn: u32) -> u64 {
    ((insn >> 10) & 0xfff) as u64
}

/// The bits of instructions that hold a value.
proof fn held_bits(
    insn: u32,
    value: i64,
    v: u64,
    b16: u32,
    b21: u32,
    b26: u32,
    near: u32,
    hi20: u32,
    lo12: u32,
    lo20: u32,
    hi12: u32,
    x: u64,
    first: u32,
    second: u32,
    other: u32,
)
    by (bit_vector)
    requires
        v == value as u64,
        b16 == insn & !0x03ff_fc00u32 | (((v >> 2) & 0xffff) as u32) << 10,
        b21 == insn & !0x03ff_fc1fu32 | (((v >> 2) & 0xffff) as u32) << 10 | ((v >> 18)
            & 0x1f) as u32,
        b26 == insn & !0x03ff_ffffu32 | (((v >> 2) & 0xffff) as u32) << 10 | ((v >> 18)
            & 0x3ff) as u32,
        near == insn & !0x01ff_ffe0u32 | (((v >> 2) & 0xf_ffff) as u32) << 5,
        hi20 == insn & !0x01ff_ffe0u32 | (((v >> 12) & 0xf_ffff) as u32) << 5,
        lo12 == insn & !0x003f_fc00u32 | ((v & 0xfff) as u32) << 10,
        lo20 == insn & !0x01ff_ffe0u32 | (((v >> 32) & 0xf_ffff) as u32) << 5,
        hi12 == insn & !0x003f_fc00u32 | (((v >> 52) & 0xfff) as u32) << 10,
        first == insn & !0x01ff_ffe0u32 | (((x >> 18) & 0xf_ffff) as u32) << 5,
        second == other & !0x03ff_fc00u32 | (((v >> 2) & 0xffff) as u32) << 10,
        x == v + 0x2_0000 || x + 0x1_0000_0000_0000_0000 == v + 0x2_0000,
    ensures
        -0x2_0000 <= value && value < 0x2_0000 && value % 4 == 0 ==> ((((b16 << 6) as i32) >> 16)
            << 2) as i64 == value,
        -0x40_0000 <= value && value < 0x40_0000 && value % 4 == 0 ==> (((((b21 << 27) as i32) >> 27)
            << 18) as i64) | (((b21 >> 10) & 0xffff) << 2) as i64 == value,
        -0x800_0000 <= value && value < 0x800_0000 && value % 4 == 0 ==> (((((b26 << 22) as i32)
            >> 22) << 18) as i64) | (((b26 >> 10) & 0xffff) << 2) as i64 == value,
        -0x20_0000 <= value && value < 0x20_0000 && value % 4 == 0 ==> ((((near << 7) as i32) >> 12)
            << 2) as i64 == value,
        b16 & 0xfc00_03ff == insn & 0xfc00_03ff,
        b21 & 0xfc00_03e0 == insn & 0xfc00_03e0,
        b26 & 0xfc00_0000 == insn & 0xfc00_0000,
        near & 0xfe00_001f == insn & 0xfe00_001f,
        hi20 & 0xfe00_001f == insn & 0xfe00_001f,
        lo12 & 0xffc0_03ff == insn & 0xffc0_03ff,
        lo20 & 0xfe00_001f == insn & 0xfe00_001f,
        hi12 & 0xffc0_03ff == insn & 0xffc0_03ff,
        (((hi12 >> 10) & 0xfff) as u64) << 52 | (((lo20 >> 5) & 0xf_ffff) as u64) << 32 | (((hi20
            >> 5) & 0xf_ffff) as u64) << 12 | (((lo12 >> 10) & 0xfff) as u64) == v,
        -0x20_0000_0000 <= (x as i64) && (x as i64) < 0x20_0000_0000 && value % 4 == 0 ==> (((((
        first << 7) as i32) >> 12) as i64) << 18) + (((((second << 6) as i32) >> 16) << 2) as i64)
            == value,
        x as i64 as u64 == x,
{
}

/// What an instruction was given is what it holds: where it branches, or the
/// part of a number that is its own; the four parts make up the number, and
/// the rest of the instruction stays.
#[verifier::rlimit(40)]
pub proof fn held_values_read_back(insn: u32, other: u32, value: i64)
    ensures
        Field::B16.accepts(value) ==> b16_distance(Field::B16.packed(insn, value)) == value
            && Field::B16.packed(insn, value) & 0xfc00_03ff == insn & 0xfc00_03ff,
        Field::B21.accepts(value) ==> b21_distance(Field::B21.packed(insn, value)) == value
            && Field::B21.packed(insn, value) & 0xfc00_03e0 == insn & 0xfc00_03e0,
        Field::B26.accepts(value) ==> b26_distance(Field::B26.packed(insn, value)) == value
            && Field::B26.packed(insn, value) & 0xfc00_0000 == insn & 0xfc00_0000,
        Field::Pcrel20S2.accepts(value) ==> ((((Field::Pcrel20S2.packed(insn, value) << 7) as i32)
            >> 12) << 2) as i64 == value,
        immediate12(Field::Hi12.packed(insn, value)) << 52 | immediate20(
            Field::Lo20.packed(insn, value),
        ) << 32 | immediate20(Field::Hi20.packed(insn, value)) << 12 | immediate12(
            Field::Lo12.packed(insn, value),
        ) == value as u64,
        Field::Hi20.packed(insn, value) & 0xfe00_001f == insn & 0xfe00_001f,
        Field::Lo12.packed(insn, value) & 0xffc0_03ff == insn & 0xffc0_03ff,
        Field::Lo20.packed(insn, value) & 0xfe00_001f == insn & 0xfe00_001f,
        Field::Hi12.packed(insn, value) & 0xffc0_03ff == insn & 0xffc0_03ff,
{
    vstd::arithmetic::power2::lemma2_to64();
    let v = value as u64;
    let (first, second) = call36_packed(insn, other, value);
    held_bits(
        insn,
        value,
        v,
        Field::B16.packed(insn, value),
        Field::B21.packed(insn, value),
        Field::B26.packed(insn, value),
        Field::Pcrel20S2.packed(insn, value),
        Field::Hi20.packed(insn, value),
        Field::Lo12.packed(insn, value),
        Field::Lo20.packed(insn, value),
        Field::Hi12.packed(insn, value),
        v.wrapping_add(0x2_0000),
        first,
        second,
        other,
    );
}

/// The `pcaddu18i` and `jirl` of a call go as far together as they were
/// given.
pub proof fn calls_go_their_distance(first: u32, second: u32, value: i64)
    requires
        value % 4 == 0,
        -0x20_0000_0000 <= value + 0x2_0000 < 0x20_0000_0000,
    ensures
        call36_accepts(value),
        ({
            let (a, b) = call36_packed(first, second, value);
            (((((a << 7) as i32) >> 12) as i64) << 18) + b16_distance(b) == value
        }),
{
    vstd::arithmetic::power2::lemma2_to64();
    vstd::arithmetic::power2::lemma2_to64_rest();
    let v = value as u64;
    let (a, b) = call36_packed(first, second, value);
    let x = v.wrapping_add(0x2_0000);
    held_bits(
        first,
        value,
        v,
        Field::B16.packed(first, value),
        Field::B21.packed(first, value),
        Field::B26.packed(first, value),
        Field::Pcrel20S2.packed(first, value),
        Field::Hi20.packed(first, value),
        Field::Lo12.packed(first, value),
        Field::Lo20.packed(first, value),
        Field::Hi12.packed(first, value),
        x,
        a,
        b,
        second,
    );
    crate::bits::signs(v, value);
    crate::bits::signs(x, x as i64);
}

/// Which values a field takes: a branch within 128 KiB, 4 MiB or 128 MiB to a
/// word, an address within 2 MiB.
pub proof fn fields_take_what_they_hold(value: i64)
    ensures
        Field::B16.accepts(value) == (-0x2_0000 <= value < 0x2_0000 && value % 4 == 0),
        Field::B21.accepts(value) == (-0x40_0000 <= value < 0x40_0000 && value % 4 == 0),
        Field::B26.accepts(value) == (-0x800_0000 <= value < 0x800_0000 && value % 4 == 0),
        Field::Pcrel20S2.accepts(value) == (-0x20_0000 <= value < 0x20_0000 && value % 4 == 0),
        Field::Hi20.accepts(value),
        Field::Lo12.accepts(value),
        Field::Lo20.accepts(value),
        Field::Hi12.accepts(value),
{
    vstd::arithmetic::power2::lemma2_to64();
}

} // verus!
