//! RISC-V instructions.

use vstd::prelude::*;

use crate::arch::EncodeError;
use crate::bits;
use crate::bits::fits_signed;
use crate::leb::{last_byte, rest_of, rewrite};

verus! {

/// `addi`.
pub const ADDI: u32 = 0x13;

/// `auipc`.
pub const AUIPC: u32 = 0x17;

/// `lui`.
pub const LUI: u32 = 0x37;

/// `jalr`.
pub const JALR: u32 = 0x67;

/// `jal`.
pub const JAL: u32 = 0x6f;

/// `ld`.
pub const LD: u32 = 0x3003;

/// `srli`.
pub const SRLI: u32 = 0x5013;

/// `sub`.
pub const SUB: u32 = 0x4000_0033;

/// `nop`.
pub const NOP: u32 = 0x13;

/// `c.j`.
pub const C_J: u16 = 0xa001;

/// `c.nop`.
pub const C_NOP: u16 = 0x0001;

/// Register `x0`.
pub const X0: u32 = 0;

/// Register `gp`.
pub const GP: u32 = 3;

/// Register `tp`.
pub const TP: u32 = 4;

/// Register `t0`.
pub const T0: u32 = 5;

/// Register `t1`.
pub const T1: u32 = 6;

/// Register `t2`.
pub const T2: u32 = 7;

/// Register `a0`.
pub const A0: u32 = 10;

/// Register `t3`.
pub const T3: u32 = 28;

/// How far past the start of a module's TLS block the dynamic thread
/// vector points.
pub const DTV_OFFSET: u64 = 0x800;

/// The destination register of `insn`.
#[verifier::allow_in_spec]
pub fn rd(insn: u32) -> u32
    returns
        ((insn >> 7) & 0x1f),
{
    (insn >> 7) & 0x1f
}

/// `insn` with first source register `r`.
#[verifier::allow_in_spec]
pub fn with_rs1(insn: u32, r: u32) -> u32
    returns
        (insn & !0xf_8000u32 | r << 15),
{
    insn & !0xf_8000u32 | r << 15
}

/// `op rd, imm` with an upper immediate.
#[verifier::allow_in_spec]
pub fn utype(op: u32, rd: u32, imm: u32) -> u32
    returns
        (op | rd << 7 | imm << 12),
{
    op | rd << 7 | imm << 12
}

/// `op rd, rs1, imm` with a 12-bit immediate.
#[verifier::allow_in_spec]
pub fn itype(op: u32, rd: u32, rs1: u32, imm: u32) -> u32
    returns
        (op | rd << 7 | rs1 << 15 | imm << 20),
{
    op | rd << 7 | rs1 << 15 | imm << 20
}

/// `op rd, rs1, rs2`.
#[verifier::allow_in_spec]
pub fn rtype(op: u32, rd: u32, rs1: u32, rs2: u32) -> u32
    returns
        (op | rd << 7 | rs1 << 15 | rs2 << 20),
{
    op | rd << 7 | rs1 << 15 | rs2 << 20
}

/// The upper 20 bits of `v`, rounded for a sign-extended low part.
#[verifier::allow_in_spec]
pub fn hi20(v: u64) -> u32
    returns
        ((v as u32).wrapping_add(0x800) >> 12),
{
    (v as u32).wrapping_add(0x800) >> 12
}

/// The low 12 bits of `v`.
#[verifier::allow_in_spec]
pub fn lo12(v: u64) -> u32
    returns
        ((v as u32) & 0xfff),
{
    (v as u32) & 0xfff
}

/// `insn` with the 12-bit immediate of a load or `addi`.
#[verifier::allow_in_spec]
pub fn set_lo12_i(insn: u32, v: u32) -> u32
    returns
        (insn & 0xf_ffff | v << 20),
{
    insn & 0xf_ffff | v << 20
}

/// `insn` with the 12-bit immediate of a store.
#[verifier::allow_in_spec]
pub fn set_lo12_s(insn: u32, v: u32) -> u32
    returns
        (insn & 0x01ff_f07f | (v & 0xfe0) << 20 | (v & 0x1f) << 7),
{
    insn & 0x01ff_f07f | (v & 0xfe0) << 20 | (v & 0x1f) << 7
}

/// Whether `v` is in reach of an `auipc` or `lui` and a low part.
pub open spec fn hi_accepts(v: u64) -> bool {
    bits::spec_fits_signed(v.wrapping_add(0x800) as i64 as int, 32)
}

/// Checks that `v` is in reach of an `auipc` or `lui` and a low part.
pub fn check_hi(v: u64) -> (r: bool)
    ensures
        r == hi_accepts(v),
{
    fits_signed(v.wrapping_add(0x800) as i64, 32)
}

/// A field of an instruction, or of data.
#[derive(Clone, Copy, Debug, PartialEq, Eq, Structural)]
pub enum Field {
    /// 4 bytes of data, signed or unsigned.
    Word32,
    /// 4 bytes of data, signed.
    Word32Signed,
    /// The upper 20 bits.
    Hi20,
    /// The low 12 bits of a load or `addi`.
    Lo12I,
    /// The low 12 bits of a store.
    Lo12S,
    /// Conditional branches: 12 bits of halfwords.
    Branch,
    /// `jal`: 20 bits of halfwords.
    Jal,
    /// `c.beqz`, `c.bnez`: 8 bits of halfwords.
    RvcBranch,
    /// `c.j`: 11 bits of halfwords.
    RvcJump,
    /// `auipc` and `jalr`.
    Call,
    /// 4 bytes of an offset in a TLS block, biased.
    Dtprel32,
    /// 8 bytes of an offset in a TLS block, biased.
    Dtprel64,
    /// Subtracts from the low 6 bits of a byte.
    Sub6,
    /// The low 6 bits of a byte.
    Set6,
    /// 1 byte.
    Set8,
    /// 2 bytes.
    Set16,
    /// 4 bytes.
    Set32,
    /// A ULEB128 number.
    SetUleb128,
    /// What is taken from a ULEB128 number.
    SubUleb128,
    /// The low 12 bits of a load or `addi`, relative to `gp`.
    GpRelI,
    /// The low 12 bits of a store, relative to `gp`.
    GpRelS,
    /// The low 12 bits of a load or `addi`, absolute.
    X0RelI,
    /// The low 12 bits of a store, absolute.
    X0RelS,
}

impl Field {
    /// Whether the field computes with labels in place, and so is final at
    /// link time.
    #[verifier::allow_in_spec]
    pub fn is_label_math(self) -> bool
        returns
            (match self {
                Field::Sub6 | Field::Set6 | Field::Set8 | Field::Set16 | Field::Set32
                | Field::SetUleb128 | Field::SubUleb128 => true,
                _ => false,
            }),
    {
        match self {
            Field::Sub6 | Field::Set6 | Field::Set8 | Field::Set16 | Field::Set32
            | Field::SetUleb128 | Field::SubUleb128 => true,
            _ => false,
        }
    }

    /// Bytes the field is read and written in.
    #[verifier::allow_in_spec]
    pub fn bytes(self) -> usize
        returns
            (match self {
                Field::RvcBranch | Field::RvcJump | Field::Set16 => 2usize,
                Field::Call | Field::Dtprel64 => 8,
                Field::Sub6 | Field::Set6 | Field::Set8 | Field::SetUleb128
                | Field::SubUleb128 => 1,
                _ => 4,
            }),
    {
        match self {
            Field::RvcBranch | Field::RvcJump | Field::Set16 => 2,
            Field::Call | Field::Dtprel64 => 8,
            Field::Sub6 | Field::Set6 | Field::Set8 | Field::SetUleb128
            | Field::SubUleb128 => 1,
            _ => 4,
        }
    }

    /// Whether the field can hold `value`.
    pub open spec fn accepts(self, value: u64) -> bool {
        let v = value as i64;
        match self {
            Field::Word32 => -0x8000_0000 <= v < 0x8000_0000 || value < 0x1_0000_0000,
            Field::Word32Signed => -0x8000_0000 <= v < 0x8000_0000,
            Field::Hi20 | Field::Call => hi_accepts(value),
            Field::Branch => v % 2 == 0 && bits::spec_fits_signed(v as int, 13),
            Field::Jal => v % 2 == 0 && bits::spec_fits_signed(v as int, 21),
            Field::RvcBranch => v % 2 == 0 && bits::spec_fits_signed(v as int, 9),
            Field::RvcJump => v % 2 == 0 && bits::spec_fits_signed(v as int, 12),
            Field::GpRelI | Field::GpRelS | Field::X0RelI | Field::X0RelS => bits::spec_fits_signed(
                v as int,
                12,
            ),
            _ => true,
        }
    }

    /// Checks that the field can hold `value`.
    pub fn check(self, value: u64) -> (r: bool)
        ensures
            r == self.accepts(value),
    {
        let v: i64 = value as i64;
        match self {
            Field::Word32 => (-0x8000_0000 <= v && v < 0x8000_0000) || value < 0x1_0000_0000,
            Field::Word32Signed => -0x8000_0000 <= v && v < 0x8000_0000,
            Field::Hi20 | Field::Call => check_hi(value),
            Field::Branch => v % 2 == 0 && fits_signed(v, 13),
            Field::Jal => v % 2 == 0 && fits_signed(v, 21),
            Field::RvcBranch => v % 2 == 0 && fits_signed(v, 9),
            Field::RvcJump => v % 2 == 0 && fits_signed(v, 12),
            Field::GpRelI | Field::GpRelS | Field::X0RelI | Field::X0RelS => fits_signed(v, 12),
            _ => true,
        }
    }

    /// `insn` with a 4-byte field holding `value`; 4 bytes of data replace
    /// it.
    #[verifier::allow_in_spec]
    pub fn packed32(self, insn: u32, value: u64) -> u32
        returns
            (match self {
                Field::Hi20 => insn & 0xfff | hi20(value) << 12,
                Field::Lo12I => set_lo12_i(insn, value as u32),
                Field::Lo12S => set_lo12_s(insn, value as u32),
                Field::Branch => insn & 0x01ff_f07f | ((value as u32) & 0x1000) << 19 | ((
                value as u32) & 0x7e0) << 20 | ((value as u32) & 0x1e) << 7 | ((value as u32)
                    & 0x800) >> 4,
                Field::Jal => insn & 0xfff | ((value as u32) & 0x10_0000) << 11 | ((value as u32)
                    & 0x7fe) << 20 | ((value as u32) & 0x800) << 9 | (value as u32) & 0xf_f000,
                Field::GpRelI => set_lo12_i(with_rs1(insn, GP), value as u32),
                Field::GpRelS => set_lo12_s(with_rs1(insn, GP), value as u32),
                Field::X0RelI => set_lo12_i(with_rs1(insn, X0), value as u32),
                Field::X0RelS => set_lo12_s(with_rs1(insn, X0), value as u32),
                Field::Dtprel32 => value.wrapping_sub(DTV_OFFSET) as u32,
                _ => value as u32,
            }),
    {
        match self {
            Field::Hi20 => insn & 0xfff | hi20(value) << 12,
            Field::Lo12I => set_lo12_i(insn, value as u32),
            Field::Lo12S => set_lo12_s(insn, value as u32),
            Field::Branch => insn & 0x01ff_f07f | ((value as u32) & 0x1000) << 19 | ((value as u32)
                & 0x7e0) << 20 | ((value as u32) & 0x1e) << 7 | ((value as u32) & 0x800) >> 4,
            Field::Jal => insn & 0xfff | ((value as u32) & 0x10_0000) << 11 | ((value as u32)
                & 0x7fe) << 20 | ((value as u32) & 0x800) << 9 | (value as u32) & 0xf_f000,
            Field::GpRelI => set_lo12_i(with_rs1(insn, GP), value as u32),
            Field::GpRelS => set_lo12_s(with_rs1(insn, GP), value as u32),
            Field::X0RelI => set_lo12_i(with_rs1(insn, X0), value as u32),
            Field::X0RelS => set_lo12_s(with_rs1(insn, X0), value as u32),
            Field::Dtprel32 => value.wrapping_sub(DTV_OFFSET) as u32,
            _ => value as u32,
        }
    }

    /// `insn` with a 2-byte field holding `value`; 2 bytes of data replace
    /// it.
    #[verifier::allow_in_spec]
    pub fn packed16(self, insn: u16, value: u64) -> u16
        returns
            (match self {
                Field::RvcBranch => insn & 0xe383 | ((value as u16) & 0x100) << 4 | ((value as u16)
                    & 0x18) << 7 | ((value as u16) & 0xc0) >> 1 | ((value as u16) & 0x6) << 2 | ((
                value as u16) & 0x20) >> 3,
                Field::RvcJump => insn & 0xe003 | ((value as u16) & 0x800) << 1 | ((value as u16)
                    & 0x10) << 7 | ((value as u16) & 0x300) << 1 | ((value as u16) & 0x400) >> 2 | ((
                value as u16) & 0x40) << 1 | ((value as u16) & 0x80) >> 1 | ((value as u16) & 0xe)
                    << 2 | ((value as u16) & 0x20) >> 3,
                _ => value as u16,
            }),
    {
        match self {
            Field::RvcBranch => insn & 0xe383 | ((value as u16) & 0x100) << 4 | ((value as u16)
                & 0x18) << 7 | ((value as u16) & 0xc0) >> 1 | ((value as u16) & 0x6) << 2 | ((
            value as u16) & 0x20) >> 3,
            Field::RvcJump => insn & 0xe003 | ((value as u16) & 0x800) << 1 | ((value as u16)
                & 0x10) << 7 | ((value as u16) & 0x300) << 1 | ((value as u16) & 0x400) >> 2 | ((
            value as u16) & 0x40) << 1 | ((value as u16) & 0x80) >> 1 | ((value as u16) & 0xe)
                << 2 | ((value as u16) & 0x20) >> 3,
            _ => value as u16,
        }
    }

    /// The byte `old` with a 1-byte field holding `value`.
    #[verifier::allow_in_spec]
    pub fn packed8(self, old: u8, value: u64) -> u8
        returns
            (match self {
                Field::Set6 => old & 0xc0 | (value as u8) & 0x3f,
                Field::Sub6 => old & 0xc0 | (old & 0x3f).wrapping_sub((value as u8) & 0x3f) & 0x3f,
                _ => value as u8,
            }),
    {
        match self {
            Field::Set6 => old & 0xc0 | (value as u8) & 0x3f,
            Field::Sub6 => old & 0xc0 | (old & 0x3f).wrapping_sub((value as u8) & 0x3f) & 0x3f,
            _ => value as u8,
        }
    }
}

/// What overwriting the ULEB128 number at `at` with `value` gives.
pub open spec fn uleb_result(s: Seq<u8>, at: int, value: u64) -> (Seq<u8>, Option<EncodeError>) {
    match crate::leb::uleb_end(s, at) {
        None => (s, Some(EncodeError::BadInstruction)),
        Some(end) => if crate::leb::uleb_rest(end - at, value) > 0x7f {
            (s, Some(EncodeError::Overflow))
        } else {
            (crate::leb::uleb_written(s, at, end, value), None)
        },
    }
}

/// Overwrites the ULEB128 number at `at` with `value`, keeping its length.
///
/// # Errors
///
/// [`EncodeError::BadInstruction`] when there is no whole number at `at`,
/// [`EncodeError::Overflow`] when `value` needs more bytes.
pub fn write_uleb128(out: &mut [u8], at: u64, value: u64) -> (r: Result<(), EncodeError>)
    ensures
        final(out)@ == uleb_result(old(out)@, at as int, value).0,
        r == (match uleb_result(old(out)@, at as int, value).1 {
            None => Ok::<(), EncodeError>(()),
            Some(e) => Err(e),
        }),
{
    let _len: usize = out.len();
    let Some(last) = last_byte(out, at) else {
        return Err(EncodeError::BadInstruction);
    };
    let start: usize = at as usize;
    if rest_of(last - start + 1, value) > 0x7f {
        return Err(EncodeError::Overflow);
    }
    rewrite(out, start, last, value);
    Ok(())
}

/// A sign-extended 12-bit number.
pub open spec fn extended12(low: u32) -> i64 {
    ((low << 20) as i32 >> 20) as i64
}

/// The upper part of a number in reach and its sign-extended low part make
/// up the number.
pub proof fn parts_make_the_number(v: u64)
    requires
        hi_accepts(v),
    ensures
        ((hi20(v) << 12) as i32) as i64 + extended12(lo12(v)) == v as i64,
{
    vstd::arithmetic::power2::lemma2_to64();
    let x = (v as u32).wrapping_add(0x800);
    let w = v.wrapping_add(0x800);
    assert((((x >> 12) << 12) as i32) as i64 + (((v as u32 & 0xfff) << 20) as i32 >> 20) as i64
        == v as i64) by (bit_vector)
        requires
            (v as u32) + 0x800 == x || (v as u32) + 0x800 == x + 0x1_0000_0000,
            v + 0x800 == w || v + 0x800 == w + 0x1_0000_0000_0000_0000,
            -0x8000_0000 <= (w as i64),
            (w as i64) < 0x8000_0000,
    ;
}

/// The distance a conditional branch branches.
pub open spec fn branch_distance(insn: u32) -> i64 {
    (((insn as i32) >> 31) << 12) as i64 | ((insn & 0x80) << 4) as i64 | ((insn >> 20)
        & 0x7e0) as i64 | ((insn >> 7) & 0x1e) as i64
}

/// The distance a `jal` jumps.
pub open spec fn jal_distance(insn: u32) -> i64 {
    (((insn as i32) >> 31) << 20) as i64 | (insn & 0xf_f000) as i64 | ((insn >> 9) & 0x800) as i64
        | ((insn >> 20) & 0x7fe) as i64
}

/// The distance a `c.beqz` or `c.bnez` branches.
pub open spec fn rvc_branch_distance(insn: u16) -> i64 {
    ((((insn << 3) as i16) >> 15) << 8) as i64 | ((insn >> 7) & 0x18) as i64 | ((insn << 1)
        & 0xc0) as i64 | ((insn >> 2) & 0x6) as i64 | ((insn << 3) & 0x20) as i64
}

/// The distance a `c.j` jumps.
pub open spec fn rvc_jump_distance(insn: u16) -> i64 {
    ((((insn << 3) as i16) >> 15) << 11) as i64 | ((insn >> 7) & 0x10) as i64 | ((insn >> 1)
        & 0x300) as i64 | ((insn << 2) & 0x400) as i64 | ((insn >> 1) & 0x40) as i64 | ((insn << 1)
        & 0x80) as i64 | ((insn >> 2) & 0xe) as i64 | ((insn << 3) & 0x20) as i64
}

/// What a load or an `addi` adds to its register.
pub open spec fn i_immediate(insn: u32) -> i64 {
    ((insn as i32) >> 20) as i64
}

/// What a store adds to its register.
pub open spec fn s_immediate(insn: u32) -> i64 {
    (((insn as i32) >> 25) << 5) as i64 | ((insn >> 7) & 0x1f) as i64
}

/// The bits of instructions that hold a value.
proof fn held_bits(
    insn: u32,
    half: u16,
    old: u8,
    value: u64,
    w: u32,
    h: u16,
    branch: u32,
    jal: u32,
    rvc_branch: u16,
    rvc_jump: u16,
    low_i: u32,
    low_s: u32,
    from_gp_i: u32,
    from_gp_s: u32,
    from_x0_i: u32,
    from_x0_s: u32,
    high: u32,
)
    by (bit_vector)
    requires
        w == value as u32,
        h == value as u16,
        branch == insn & 0x01ff_f07f | (w & 0x1000) << 19 | (w & 0x7e0) << 20 | (w & 0x1e) << 7 | (w
            & 0x800) >> 4,
        jal == insn & 0xfff | (w & 0x10_0000) << 11 | (w & 0x7fe) << 20 | (w & 0x800) << 9 | w
            & 0xf_f000,
        rvc_branch == half & 0xe383 | (h & 0x100) << 4 | (h & 0x18) << 7 | (h & 0xc0) >> 1 | (h
            & 0x6) << 2 | (h & 0x20) >> 3,
        rvc_jump == half & 0xe003 | (h & 0x800) << 1 | (h & 0x10) << 7 | (h & 0x300) << 1 | (h
            & 0x400) >> 2 | (h & 0x40) << 1 | (h & 0x80) >> 1 | (h & 0xe) << 2 | (h & 0x20) >> 3,
        low_i == insn & 0xf_ffff | w << 20,
        low_s == insn & 0x01ff_f07f | (w & 0xfe0) << 20 | (w & 0x1f) << 7,
        from_gp_i == (insn & !0xf_8000u32 | 3u32 << 15) & 0xf_ffff | w << 20,
        from_gp_s == (insn & !0xf_8000u32 | 3u32 << 15) & 0x01ff_f07f | (w & 0xfe0) << 20 | (w
            & 0x1f) << 7,
        from_x0_i == (insn & !0xf_8000u32 | 0u32 << 15) & 0xf_ffff | w << 20,
        from_x0_s == (insn & !0xf_8000u32 | 0u32 << 15) & 0x01ff_f07f | (w & 0xfe0) << 20 | (w
            & 0x1f) << 7,
    ensures
        -0x1000 <= (value as i64) && (value as i64) < 0x1000 && value % 2 == 0 ==> (((branch as i32)
            >> 31) << 12) as i64 | ((branch & 0x80) << 4) as i64 | ((branch >> 20) & 0x7e0) as i64
            | ((branch >> 7) & 0x1e) as i64 == value as i64,
        -0x10_0000 <= (value as i64) && (value as i64) < 0x10_0000 && value % 2 == 0 ==> (((
        jal as i32) >> 31) << 20) as i64 | (jal & 0xf_f000) as i64 | ((jal >> 9) & 0x800) as i64 | ((
        jal >> 20) & 0x7fe) as i64 == value as i64,
        -0x100 <= (value as i64) && (value as i64) < 0x100 && value % 2 == 0 ==> ((((rvc_branch
            << 3) as i16) >> 15) << 8) as i64 | ((rvc_branch >> 7) & 0x18) as i64 | ((rvc_branch
            << 1) & 0xc0) as i64 | ((rvc_branch >> 2) & 0x6) as i64 | ((rvc_branch << 3)
            & 0x20) as i64 == value as i64,
        -0x800 <= (value as i64) && (value as i64) < 0x800 && value % 2 == 0 ==> ((((rvc_jump
            << 3) as i16) >> 15) << 11) as i64 | ((rvc_jump >> 7) & 0x10) as i64 | ((rvc_jump >> 1)
            & 0x300) as i64 | ((rvc_jump << 2) & 0x400) as i64 | ((rvc_jump >> 1) & 0x40) as i64 | ((
        rvc_jump << 1) & 0x80) as i64 | ((rvc_jump >> 2) & 0xe) as i64 | ((rvc_jump << 3)
            & 0x20) as i64 == value as i64,
        branch & 0x01ff_f07f == insn & 0x01ff_f07f,
        jal & 0xfff == insn & 0xfff,
        rvc_branch & 0xe383 == half & 0xe383,
        rvc_jump & 0xe003 == half & 0xe003,
        ((low_i as i32) >> 20) as i64 == (((w << 20) as i32) >> 20) as i64,
        low_i & 0xf_ffff == insn & 0xf_ffff,
        (((low_s as i32) >> 25) << 5) as i64 | ((low_s >> 7) & 0x1f) as i64 == (((w << 20) as i32)
            >> 20) as i64,
        low_s & 0x01ff_f07f == insn & 0x01ff_f07f,
        -0x800 <= (value as i64) && (value as i64) < 0x800 ==> (((w << 20) as i32) >> 20) as i64
            == value as i64,
        (w << 20) == ((w & 0xfff) << 20),
        ((from_gp_i as i32) >> 20) as i64 == (((w << 20) as i32) >> 20) as i64 && (from_gp_i >> 15)
            & 0x1f == 3 && from_gp_i & 0x7fff == insn & 0x7fff,
        (((from_gp_s as i32) >> 25) << 5) as i64 | ((from_gp_s >> 7) & 0x1f) as i64 == (((w
            << 20) as i32) >> 20) as i64 && (from_gp_s >> 15) & 0x1f == 3 && from_gp_s & 0x01f0_707f
            == insn & 0x01f0_707f,
        ((from_x0_i as i32) >> 20) as i64 == (((w << 20) as i32) >> 20) as i64 && (from_x0_i >> 15)
            & 0x1f == 0 && from_x0_i & 0x7fff == insn & 0x7fff,
        (((from_x0_s as i32) >> 25) << 5) as i64 | ((from_x0_s >> 7) & 0x1f) as i64 == (((w
            << 20) as i32) >> 20) as i64 && (from_x0_s >> 15) & 0x1f == 0 && from_x0_s & 0x01f0_707f
            == insn & 0x01f0_707f,
        high < 0x10_0000 ==> (insn & 0xfff | high << 12) >> 12 == high && (insn & 0xfff | high
            << 12) & 0xfff == insn & 0xfff,
        value % 2 == 0 <==> (value as i64) % 2 == 0,
        (old & 0xc0 | (value as u8) & 0x3f) & 0x3f == (value as u8) & 0x3f,
        (old & 0xc0 | (value as u8) & 0x3f) & 0xc0 == old & 0xc0,
        w >> 12 < 0x10_0000,
{
}

/// What an instruction was given is what it holds: where it branches or
/// jumps, or what it adds to its register; the upper part and the low part of
/// a number go together, and the rest of the instruction stays.
#[verifier::rlimit(60)]
pub proof fn held_values_read_back(insn: u32, half: u16, old: u8, value: u64)
    ensures
        Field::Branch.accepts(value) ==> branch_distance(Field::Branch.packed32(insn, value))
            == value as i64 && Field::Branch.packed32(insn, value) & 0x01ff_f07f == insn
            & 0x01ff_f07f,
        Field::Jal.accepts(value) ==> jal_distance(Field::Jal.packed32(insn, value)) == value as i64
            && Field::Jal.packed32(insn, value) & 0xfff == insn & 0xfff,
        Field::RvcBranch.accepts(value) ==> rvc_branch_distance(
            Field::RvcBranch.packed16(half, value),
        ) == value as i64 && Field::RvcBranch.packed16(half, value) & 0xe383 == half & 0xe383,
        Field::RvcJump.accepts(value) ==> rvc_jump_distance(Field::RvcJump.packed16(half, value))
            == value as i64 && Field::RvcJump.packed16(half, value) & 0xe003 == half & 0xe003,
        i_immediate(Field::Lo12I.packed32(insn, value)) == extended12(lo12(value)),
        Field::Lo12I.packed32(insn, value) & 0xf_ffff == insn & 0xf_ffff,
        s_immediate(Field::Lo12S.packed32(insn, value)) == extended12(lo12(value)),
        Field::Lo12S.packed32(insn, value) & 0x01ff_f07f == insn & 0x01ff_f07f,
        Field::Hi20.packed32(insn, value) & 0xfff == insn & 0xfff,
        hi_accepts(value) ==> ((Field::Hi20.packed32(insn, value) >> 12 << 12) as i32) as i64
            + i_immediate(Field::Lo12I.packed32(insn, value)) == value as i64,
        Field::GpRelI.accepts(value) ==> i_immediate(Field::GpRelI.packed32(insn, value))
            == value as i64 && (Field::GpRelI.packed32(insn, value) >> 15) & 0x1f == 3,
        Field::GpRelS.accepts(value) ==> s_immediate(Field::GpRelS.packed32(insn, value))
            == value as i64 && (Field::GpRelS.packed32(insn, value) >> 15) & 0x1f == 3,
        Field::X0RelI.accepts(value) ==> i_immediate(Field::X0RelI.packed32(insn, value))
            == value as i64 && (Field::X0RelI.packed32(insn, value) >> 15) & 0x1f == 0,
        Field::X0RelS.accepts(value) ==> s_immediate(Field::X0RelS.packed32(insn, value))
            == value as i64 && (Field::X0RelS.packed32(insn, value) >> 15) & 0x1f == 0,
        Field::Set6.packed8(old, value) & 0x3f == (value as u8) & 0x3f,
        Field::Set6.packed8(old, value) & 0xc0 == old & 0xc0,
        Field::Set8.packed8(old, value) == value as u8,
        Field::Set16.packed16(half, value) == value as u16,
        Field::Set32.packed32(insn, value) == value as u32,
        Field::Word32.packed32(insn, value) == value as u32,
        Field::Word32Signed.packed32(insn, value) == value as u32,
        Field::Dtprel32.packed32(insn, value) == value.wrapping_sub(0x800) as u32,
{
    vstd::arithmetic::power2::lemma2_to64();
    let x = (value as u32).wrapping_add(0x800);
    held_bits(
        insn,
        half,
        old,
        value,
        value as u32,
        value as u16,
        Field::Branch.packed32(insn, value),
        Field::Jal.packed32(insn, value),
        Field::RvcBranch.packed16(half, value),
        Field::RvcJump.packed16(half, value),
        Field::Lo12I.packed32(insn, value),
        Field::Lo12S.packed32(insn, value),
        Field::GpRelI.packed32(insn, value),
        Field::GpRelS.packed32(insn, value),
        Field::X0RelI.packed32(insn, value),
        Field::X0RelS.packed32(insn, value),
        hi20(value),
    );
    bits::small_numbers(x);
    if hi_accepts(value) {
        parts_make_the_number(value);
    }
}

/// Which values a field takes: a branch within 4 KiB, a `jal` within 1 MiB, a
/// compressed branch within 256 bytes, a compressed jump within 2 KiB, each
/// to a halfword; an upper part and a low part within 2 GiB.
pub proof fn fields_take_what_they_hold(value: u64)
    ensures
        Field::Branch.accepts(value) == (-0x1000 <= (value as i64) && (value as i64) < 0x1000 && (
        value as i64) % 2 == 0),
        Field::Jal.accepts(value) == (-0x10_0000 <= (value as i64) && (value as i64) < 0x10_0000 && (
        value as i64) % 2 == 0),
        Field::RvcBranch.accepts(value) == (-0x100 <= (value as i64) && (value as i64) < 0x100 && (
        value as i64) % 2 == 0),
        Field::RvcJump.accepts(value) == (-0x800 <= (value as i64) && (value as i64) < 0x800 && (
        value as i64) % 2 == 0),
        Field::Hi20.accepts(value) == (-0x8000_0000 <= (value.wrapping_add(0x800) as i64) && (
        value.wrapping_add(0x800) as i64) < 0x8000_0000),
        Field::Call.accepts(value) == Field::Hi20.accepts(value),
        Field::Word32Signed.accepts(value) == (-0x8000_0000 <= (value as i64) && (value as i64)
            < 0x8000_0000),
        Field::GpRelI.accepts(value) == (-0x800 <= (value as i64) && (value as i64) < 0x800),
        Field::X0RelI.accepts(value) == (-0x800 <= (value as i64) && (value as i64) < 0x800),
        Field::Lo12I.accepts(value),
        Field::Lo12S.accepts(value),
{
    vstd::arithmetic::power2::lemma2_to64();
}

} // verus!
