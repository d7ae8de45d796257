//! AArch64 instructions.

use vstd::prelude::*;

use crate::arch::{shifted_right, EncodeError};
use crate::bits;
use crate::bits::{fits_signed, fits_unsigned, page};
use crate::bytes;
use crate::bytes::{le32, place, write_over};

verus! {

/// `nop`.
pub const NOP: u32 = 0xd503_201f;

/// `bti c`.
pub const BTI_C: u32 = 0xd503_245f;

/// `br x16`.
pub const BR_X16: u32 = 0xd61f_0200;

/// `br x17`.
pub const BR_X17: u32 = 0xd61f_0220;

/// `mrs x0, tpidr_el0`.
pub const MRS_TPIDR_X0: u32 = 0xd53b_d040;

/// Bytes of a range-extension thunk.
pub const THUNK_SIZE: u64 = 12;

/// How a `movz`/`movn`/`movk` checks its value.
#[derive(Clone, Copy, Debug, PartialEq, Eq, Structural)]
pub enum MovwCheck {
    /// Any value.
    Unchecked,
    /// The value fits the bits up to the group's end, unsigned.
    Unsigned,
    /// The value fits them as a signed number; a negative one takes `movn`.
    Signed,
}

/// A field of an instruction, or of data.
#[derive(Clone, Copy, Debug, PartialEq, Eq, Structural)]
pub enum Field {
    /// 2 bytes of data, signed or unsigned.
    Data16,
    /// 4 bytes of data, signed or unsigned.
    Data32,
    /// 4 bytes of data, signed.
    Data32Signed,
    /// The 16-bit immediate of a `mov` group.
    Movw {
        /// The group's position.
        shift: u8,
        /// How the value is checked.
        check: MovwCheck,
    },
    /// `tbz`/`tbnz`: 14 bits of words.
    Branch14,
    /// `b.cond`, `cbz`, `ldr` literal: 19 bits of words.
    Branch19,
    /// `b`/`bl`: 26 bits of words.
    Branch26,
    /// `adr`: 21 bits.
    Adr21,
    /// `adrp`: 21 bits of pages.
    Adrp21,
    /// `adrp`, unchecked.
    Adrp21Nc,
    /// `add` of the low 12 bits.
    Add12,
    /// `add` of a 12-bit value.
    Add12Checked,
    /// `add` of bits 12 to 23, shifted left by 12.
    AddHi12,
    /// The scaled offset of a load or store.
    LdSt {
        /// The access size, as a power of two.
        scale: u8,
        /// The value must fit 12 bits.
        checked: bool,
    },
    /// The scaled 15-bit offset of a 64-bit load.
    LdSt15,
}

/// The low bits that must be clear in the offset of an access of
/// `1 << scale` bytes.
#[verifier::allow_in_spec]
pub fn misalignment(scale: u8) -> u64
    returns
        (match scale {
            0 => 0u64,
            1 => 1,
            2 => 3,
            3 => 7,
            _ => 15,
        }),
{
    match scale {
        0 => 0,
        1 => 1,
        2 => 3,
        3 => 7,
        _ => 15,
    }
}

impl Field {
    /// Bytes the field is read and written in.
    #[verifier::allow_in_spec]
    pub fn bytes(self) -> usize
        returns
            (match self {
                Field::Data16 => 2usize,
                _ => 4,
            }),
    {
        match self {
            Field::Data16 => 2,
            _ => 4,
        }
    }

    /// Whether the field can hold `value`.
    pub open spec fn accepts(self, value: i64) -> bool {
        match self {
            Field::Data16 => -0x8000 <= value < 0x1_0000,
            Field::Data32 => -0x8000_0000 <= value < 0x1_0000_0000,
            Field::Data32Signed => -0x8000_0000 <= value < 0x8000_0000,
            Field::Movw { shift, check } => match check {
                MovwCheck::Unchecked => true,
                MovwCheck::Unsigned => 0 <= value && (shift >= 46 || bits::spec_fits_unsigned(
                    value as int,
                    (shift + 16) as u32,
                )),
                MovwCheck::Signed => shift >= 46 || bits::spec_fits_signed(
                    value as int,
                    (shift + 17) as u32,
                ),
            },
            Field::Branch14 => value % 4 == 0 && bits::spec_fits_signed(value as int, 16),
            Field::Branch19 => value % 4 == 0 && bits::spec_fits_signed(value as int, 21),
            Field::Branch26 => value % 4 == 0 && bits::spec_fits_signed(value as int, 28),
            Field::Adr21 => bits::spec_fits_signed(value as int, 21),
            Field::Adrp21 => bits::spec_fits_signed(value as int, 33),
            Field::Adrp21Nc => true,
            Field::Add12 => true,
            Field::Add12Checked => 0 <= value < 0x1000,
            Field::AddHi12 => 0 <= value < 0x100_0000,
            Field::LdSt { scale, checked } => (checked ==> 0 <= value < 0x1000) && (value as u64)
                & misalignment(scale) == 0,
            Field::LdSt15 => 0 <= value < 0x8000 && value % 8 == 0,
        }
    }

    /// `insn` with the field holding `value`.
    pub open spec fn packed(self, insn: u32, value: i64) -> u32 {
        let v = value as u64;
        match self {
            Field::Data16 => (insn & 0xffff_0000) | (v & 0xffff) as u32,
            Field::Data32 | Field::Data32Signed => v as u32,
            Field::Movw { shift, check } => {
                let base = insn & !0x001f_ffe0u32;
                if check == MovwCheck::Signed && value < 0 {
                    (base & !0x4000_0000u32) | ((shifted_right(!v, shift) & 0xffff) as u32) << 5
                } else if check == MovwCheck::Signed {
                    (base | 0x4000_0000) | ((shifted_right(v, shift) & 0xffff) as u32) << 5
                } else {
                    base | ((shifted_right(v, shift) & 0xffff) as u32) << 5
                }
            },
            Field::Branch14 => (insn & !0x0007_ffe0u32) | (((v >> 2) & 0x3fff) as u32) << 5,
            Field::Branch19 => (insn & !0x00ff_ffe0u32) | (((v >> 2) & 0x7_ffff) as u32) << 5,
            Field::Branch26 => (insn & !0x03ff_ffffu32) | ((v >> 2) & 0x3ff_ffff) as u32,
            Field::Adr21 => (insn & !0x60ff_ffe0u32) | ((v & 3) as u32) << 29 | (((v >> 2)
                & 0x7_ffff) as u32) << 5,
            Field::Adrp21 | Field::Adrp21Nc => (insn & !0x60ff_ffe0u32) | (((v >> 12) & 3) as u32)
                << 29 | (((v >> 14) & 0x7_ffff) as u32) << 5,
            Field::Add12 | Field::Add12Checked => (insn & !0x003f_fc00u32) | ((v & 0xfff) as u32)
                << 10,
            Field::AddHi12 => (insn & !0x003f_fc00u32) | 0x0040_0000 | (((v >> 12) & 0xfff) as u32)
                << 10,
            Field::LdSt { scale, .. } => (insn & !0x003f_fc00u32) | (shifted_right(
                v & 0xfff,
                scale,
            ) as u32) << 10,
            Field::LdSt15 => (insn & !0x003f_fc00u32) | (((v >> 3) & 0xfff) as u32) << 10,
        }
    }

    /// What [`encode`](Self::encode) returns.
    pub open spec fn encoded(self, insn: u32, value: i64) -> Result<u32, EncodeError> {
        if self.accepts(value) {
            Ok(self.packed(insn, value))
        } else {
            Err(EncodeError::Overflow)
        }
    }

    /// `insn` with the field holding `value`.
    ///
    /// # Errors
    ///
    /// [`EncodeError::Overflow`] when the field cannot hold it.
    pub fn encode(self, insn: u32, value: i64) -> (r: Result<u32, EncodeError>)
        ensures
            r == self.encoded(insn, value),
    {
        let v: u64 = value as u64;
        let ok: bool = match self {
            Field::Data16 => -0x8000 <= value && value < 0x1_0000,
            Field::Data32 => -0x8000_0000 <= value && value < 0x1_0000_0000,
            Field::Data32Signed => -0x8000_0000 <= value && value < 0x8000_0000,
            Field::Movw { shift, check } => match check {
                MovwCheck::Unchecked => true,
                MovwCheck::Unsigned => 0 <= value && (shift >= 46 || fits_unsigned(
                    value,
                    shift as u32 + 16,
                )),
                MovwCheck::Signed => shift >= 46 || fits_signed(value, shift as u32 + 17),
            },
            Field::Branch14 => value % 4 == 0 && fits_signed(value, 16),
            Field::Branch19 => value % 4 == 0 && fits_signed(value, 21),
            Field::Branch26 => value % 4 == 0 && fits_signed(value, 28),
            Field::Adr21 => fits_signed(value, 21),
            Field::Adrp21 => fits_signed(value, 33),
            Field::Adrp21Nc => true,
            Field::Add12 => true,
            Field::Add12Checked => 0 <= value && value < 0x1000,
            Field::AddHi12 => 0 <= value && value < 0x100_0000,
            Field::LdSt { scale, checked } => (!checked || (0 <= value && value < 0x1000)) && v
                & misalignment(scale) == 0,
            Field::LdSt15 => 0 <= value && value < 0x8000 && value % 8 == 0,
        };
        if !ok {
            return Err(EncodeError::Overflow);
        }
        Ok(
            match self {
                Field::Data16 => (insn & 0xffff_0000) | (v & 0xffff) as u32,
                Field::Data32 | Field::Data32Signed => v as u32,
                Field::Movw { shift, check } => {
                    let base: u32 = insn & !0x001f_ffe0u32;
                    if check == MovwCheck::Signed && value < 0 {
                        (base & !0x4000_0000u32) | ((shifted_right(!v, shift) & 0xffff) as u32) << 5
                    } else if check == MovwCheck::Signed {
                        (base | 0x4000_0000) | ((shifted_right(v, shift) & 0xffff) as u32) << 5
                    } else {
                        base | ((shifted_right(v, shift) & 0xffff) as u32) << 5
                    }
                },
                Field::Branch14 => (insn & !0x0007_ffe0u32) | (((v >> 2) & 0x3fff) as u32) << 5,
                Field::Branch19 => (insn & !0x00ff_ffe0u32) | (((v >> 2) & 0x7_ffff) as u32) << 5,
                Field::Branch26 => (insn & !0x03ff_ffffu32) | ((v >> 2) & 0x3ff_ffff) as u32,
                Field::Adr21 => (insn & !0x60ff_ffe0u32) | ((v & 3) as u32) << 29 | (((v >> 2)
                    & 0x7_ffff) as u32) << 5,
                Field::Adrp21 | Field::Adrp21Nc => (insn & !0x60ff_ffe0u32) | (((v >> 12)
                    & 3) as u32) << 29 | (((v >> 14) & 0x7_ffff) as u32) << 5,
                Field::Add12 | Field::Add12Checked => (insn & !0x003f_fc00u32) | ((v
                    & 0xfff) as u32) << 10,
                Field::AddHi12 => (insn & !0x003f_fc00u32) | 0x0040_0000 | (((v >> 12)
                    & 0xfff) as u32) << 10,
                Field::LdSt { scale, .. } => (insn & !0x003f_fc00u32) | (shifted_right(
                    v & 0xfff,
                    scale,
                ) as u32) << 10,
                Field::LdSt15 => (insn & !0x003f_fc00u32) | (((v >> 3) & 0xfff) as u32) << 10,
            },
        )
    }
}

/// `movz rd, #imm, lsl #shift`, for a shift of 0 or 16.
#[verifier::allow_in_spec]
pub fn movz(rd: u32, imm: u32, shift: u32) -> u32
    returns
        0xd280_0000u32 | (if shift == 16 {
            0x0020_0000u32
        } else {
            0
        }) | imm << 5 | rd,
{
    0xd280_0000u32 | (if shift == 16 {
        0x0020_0000u32
    } else {
        0
    }) | imm << 5 | rd
}

/// `movk rd, #imm, lsl #shift`, for a shift of 0 or 16.
#[verifier::allow_in_spec]
pub fn movk(rd: u32, imm: u32, shift: u32) -> u32
    returns
        0xf280_0000u32 | (if shift == 16 {
            0x0020_0000u32
        } else {
            0
        }) | imm << 5 | rd,
{
    0xf280_0000u32 | (if shift == 16 {
        0x0020_0000u32
    } else {
        0
    }) | imm << 5 | rd
}

/// `adrp rd, 0`.
#[verifier::allow_in_spec]
pub fn adrp(rd: u32) -> u32
    returns
        0x9000_0000u32 | rd,
{
    0x9000_0000u32 | rd
}

/// `ldr rt, [rn]`.
#[verifier::allow_in_spec]
pub fn ldr_offset(rt: u32, rn: u32) -> u32
    returns
        0xf940_0000u32 | rn << 5 | rt,
{
    0xf940_0000u32 | rn << 5 | rt
}

/// `add rd, rn, #0`.
#[verifier::allow_in_spec]
pub fn add_imm(rd: u32, rn: u32) -> u32
    returns
        0x9100_0000u32 | rn << 5 | rd,
{
    0x9100_0000u32 | rn << 5 | rd
}

/// The destination register of `insn`.
#[verifier::allow_in_spec]
pub fn destination_register(insn: u32) -> u32
    returns
        insn & 0x1f,
{
    insn & 0x1f
}

/// The distance in bytes between the pages of `target` and `place`.
#[verifier::allow_in_spec]
pub fn page_distance(target: u64, place: u64) -> i64
    returns
        (page(target) as i64).wrapping_sub(page(place) as i64),
{
    (page(target) as i64).wrapping_sub(page(place) as i64)
}

/// Whether a `b`/`bl` at `place` reaches `target`.
pub open spec fn spec_branch_in_range(place: u64, target: u64) -> bool {
    bits::spec_fits_signed(target.wrapping_sub(place) as i64 as int, 28)
}

/// Whether a `b`/`bl` at `place` reaches `target`: ±128 MiB.
pub fn branch_in_range(place: u64, target: u64) -> (r: bool)
    ensures
        r == spec_branch_in_range(place, target),
{
    fits_signed(target.wrapping_sub(place) as i64, 28)
}

/// Whether a thunk at `address` reaches `target`: ±4 GiB.
pub open spec fn thunk_reaches(address: u64, target: u64) -> bool {
    Field::Adrp21.accepts(page_distance(target, address))
}

/// The code of a thunk at `address` that branches to `target`:
/// `adrp x16, target; add x16, x16, :lo12:target; br x16`.
pub open spec fn thunk_code(address: u64, target: u64) -> Seq<u8> {
    bytes::spec_le32(Field::Adrp21.packed(adrp(16), page_distance(target, address))) + bytes::spec_le32(
        Field::Add12.packed(add_imm(16, 16), target as i64),
    ) + bytes::spec_le32(BR_X16)
}

/// Writes a range-extension thunk at `at` of `out`, at address `address`,
/// that branches to `target`.
///
/// # Errors
///
/// [`EncodeError::Overflow`] when the target is out of reach or the thunk
/// does not lie inside `out`.
pub fn write_thunk(out: &mut [u8], at: u64, address: u64, target: u64) -> (r: Result<
    (),
    EncodeError,
>)
    ensures
        r == (if thunk_reaches(address, target) && bytes::inside(old(out)@, at as int, 12) {
            Ok::<(), EncodeError>(())
        } else {
            Err(EncodeError::Overflow)
        }),
        final(out)@ == (if thunk_reaches(address, target) {
            bytes::stored(old(out)@, at as int, thunk_code(address, target))
        } else {
            old(out)@
        }),
{
    let first: u32 = Field::Adrp21.encode(adrp(16), page_distance(target, address))?;
    let second: u32 = Field::Add12.encode(add_imm(16, 16), target as i64)?;
    proof {
        assert(thunk_code(address, target).len() == 12);
    }
    match place(out.len(), at, 12) {
        Some(start) => {
            let a: [u8; 4] = le32(first);
            let b: [u8; 4] = le32(second);
            let c: [u8; 4] = le32(BR_X16);
            write_over(out, start, &a);
            write_over(out, start + 4, &b);
            write_over(out, start + 8, &c);
            assert(out@ =~= bytes::stored(old(out)@, at as int, thunk_code(address, target)));
            Ok(())
        },
        None => Err(EncodeError::Overflow),
    }
}

/// The distance in bytes that an `adrp` adds to its page.
pub open spec fn adrp_distance(insn: u32) -> i64 {
    let pages = (insn >> 29) & 3 | ((insn >> 5) & 0x7_ffff) << 2;
    ((((pages << 11) as i32) >> 11) as i64) << 12
}

/// The number that an `add` of an immediate adds.
pub open spec fn add_immediate(insn: u32) -> u64 {
    ((insn >> 10) & 0xfff) as u64
}

/// A thunk that reaches its target branches to it: the page of the thunk,
/// the distance its `adrp` adds and the number its `add` adds make up the
/// target.
pub proof fn thunks_lead_to_their_target(address: u64, target: u64)
    requires
        thunk_reaches(address, target),
    ensures
        ({
            let first = Field::Adrp21.packed(adrp(16), page_distance(target, address));
            let second = Field::Add12.packed(add_imm(16, 16), target as i64);
            page(address).wrapping_add(adrp_distance(first) as u64).wrapping_add(
                add_immediate(second),
            ) == target
        }),
{
    vstd::arithmetic::power2::lemma2_to64();
    let d = page_distance(target, address);
    let v = d as u64;
    let from = page(address);
    let to = page(target);
    bits::signs(from, d);
    bits::signs(to, d);
    assert((address & !0xfff) % 4096 == 0 && (target & !0xfff) % 4096 == 0 && (target & !0xfff) + (
    target & 0xfff) == target) by (bit_vector);
    assert(v % 4096 == 0);
    let first = Field::Adrp21.packed(adrp(16), d);
    let pages = (first >> 29) & 3 | ((first >> 5) & 0x7_ffff) << 2;
    assert(((((pages << 11) as i32) >> 11) as i64) << 12 == d) by (bit_vector)
        requires
            -0x1_0000_0000 <= d < 0x1_0000_0000,
            v == d as u64,
            v % 4096 == 0,
            first == ((0x9000_0000u32 | 16) & !0x60ff_ffe0u32) | (((v >> 12) & 3) as u32) << 29 | (((
            v >> 14) & 0x7_ffff) as u32) << 5,
            pages == (first >> 29) & 3 | ((first >> 5) & 0x7_ffff) << 2,
    ;
    let w = target as i64 as u64;
    bits::signs(target, target as i64);
    assert(w == target);
    let second = Field::Add12.packed(add_imm(16, 16), target as i64);
    assert(((second >> 10) & 0xfff) as u64 == w & 0xfff) by (bit_vector)
        requires
            second == ((0x9100_0000u32 | 16u32 << 5 | 16u32) & !0x003f_fc00u32) | ((w
                & 0xfff) as u32) << 10,
    ;
}

/// The distance a `b` or `bl` branches.
pub open spec fn branch26_distance(insn: u32) -> i64 {
    (((insn << 6) as i32) >> 4) as i64
}

/// The distance of a `b.cond`, a `cbz` or a literal load.
pub open spec fn branch19_distance(insn: u32) -> i64 {
    ((((insn << 8) as i32) >> 13) << 2) as i64
}

/// The distance a `tbz` branches.
pub open spec fn branch14_distance(insn: u32) -> i64 {
    ((((insn << 13) as i32) >> 18) << 2) as i64
}

/// The distance that an `adr` adds.
pub open spec fn adr_distance(insn: u32) -> i64 {
    (((((insn << 8) as i32) >> 13) << 2) | (((insn >> 29) & 3) as i32)) as i64
}

/// The bits of instructions that hold a value.
proof fn held_bits(
    insn: u32,
    value: i64,
    v: u64,
    b14: u32,
    b19: u32,
    b26: u32,
    adr: u32,
    adrp: u32,
    low: u32,
    high: u32,
    wide: u32,
    part: u64,
    imm: u32,
)
    by (bit_vector)
    requires
        v == value as u64,
        b14 == (insn & !0x0007_ffe0u32) | (((v >> 2) & 0x3fff) as u32) << 5,
        b19 == (insn & !0x00ff_ffe0u32) | (((v >> 2) & 0x7_ffff) as u32) << 5,
        b26 == (insn & !0x03ff_ffffu32) | ((v >> 2) & 0x3ff_ffff) as u32,
        adr == (insn & !0x60ff_ffe0u32) | ((v & 3) as u32) << 29 | (((v >> 2) & 0x7_ffff) as u32)
            << 5,
        adrp == (insn & !0x60ff_ffe0u32) | (((v >> 12) & 3) as u32) << 29 | (((v >> 14)
            & 0x7_ffff) as u32) << 5,
        low == (insn & !0x003f_fc00u32) | ((v & 0xfff) as u32) << 10,
        high == (insn & !0x003f_fc00u32) | 0x0040_0000 | (((v >> 12) & 0xfff) as u32) << 10,
        wide == (insn & !0x003f_fc00u32) | (((v >> 3) & 0xfff) as u32) << 10,
        imm == (insn & !0x003f_fc00u32) | (part as u32) << 10,
    ensures
        -0x8000 <= value && value < 0x8000 && value % 4 == 0 ==> ((((b14 << 13) as i32) >> 18)
            << 2) as i64 == value,
        -0x10_0000 <= value && value < 0x10_0000 && value % 4 == 0 ==> ((((b19 << 8) as i32) >> 13)
            << 2) as i64 == value,
        -0x800_0000 <= value && value < 0x800_0000 && value % 4 == 0 ==> (((b26 << 6) as i32)
            >> 4) as i64 == value,
        -0x10_0000 <= value && value < 0x10_0000 ==> (((((adr << 8) as i32) >> 13) << 2) | (((adr
            >> 29) & 3) as i32)) as i64 == value,
        -0x1_0000_0000 <= value && value < 0x1_0000_0000 && value % 0x1000 == 0 ==> ((((((adrp >> 29)
            & 3 | ((adrp >> 5) & 0x7_ffff) << 2) << 11) as i32) >> 11) as i64) << 12 == value,
        b14 & 0xfff8_001f == insn & 0xfff8_001f,
        b19 & 0xff00_001f == insn & 0xff00_001f,
        b26 & 0xfc00_0000 == insn & 0xfc00_0000,
        adr & 0x9f00_001f == insn & 0x9f00_001f,
        adrp & 0x9f00_001f == insn & 0x9f00_001f,
        ((low >> 10) & 0xfff) as u64 == v & 0xfff,
        low & 0xffc0_03ff == insn & 0xffc0_03ff,
        0 <= value && value < 0x1000 ==> v & 0xfff == value,
        0 <= value && value < 0x100_0000 ==> ((high >> 10) & 0xfff) as u64 == v / 0x1000,
        high & 0x0040_0000 != 0,
        high & 0xff80_03ff == insn & 0xff80_03ff,
        0 <= value && value < 0x8000 && value % 8 == 0 ==> (((wide >> 10) & 0xfff) as u64) * 8
            == value,
        part <= 0xfff ==> ((imm >> 10) & 0xfff) as u64 == part,
        part <= 0xfff ==> imm & 0xffc0_03ff == insn & 0xffc0_03ff,
        v & 0xfff <= 0xfff && (v & 0xfff) >> 1 <= 0xfff && (v & 0xfff) >> 2 <= 0xfff && (v & 0xfff)
            >> 3 <= 0xfff && (v & 0xfff) >> 4 <= 0xfff,
        (v & 0xfff) >> 0 == v & 0xfff,
        v & 1 == 0 ==> ((v & 0xfff) >> 1) * 2 == v & 0xfff,
        v & 3 == 0 ==> ((v & 0xfff) >> 2) * 4 == v & 0xfff,
        v & 7 == 0 ==> ((v & 0xfff) >> 3) * 8 == v & 0xfff,
        v & 15 == 0 ==> ((v & 0xfff) >> 4) * 16 == v & 0xfff,
{
}

/// What an instruction was given is what it holds: where it branches, what
/// it adds to its page or to a register, or how far from a register it loads
/// or stores; and the rest of the instruction stays.
#[verifier::rlimit(40)]
pub proof fn held_values_read_back(field: Field, insn: u32, value: i64)
    requires
        field.accepts(value),
        field matches Field::LdSt { scale, .. } ==> scale <= 4,
    ensures
        ({
            let r = field.packed(insn, value);
            match field {
                Field::Branch14 => branch14_distance(r) == value && r & 0xfff8_001f == insn
                    & 0xfff8_001f,
                Field::Branch19 => branch19_distance(r) == value && r & 0xff00_001f == insn
                    & 0xff00_001f,
                Field::Branch26 => branch26_distance(r) == value && r & 0xfc00_0000 == insn
                    & 0xfc00_0000,
                Field::Adr21 => adr_distance(r) == value && r & 0x9f00_001f == insn & 0x9f00_001f,
                Field::Adrp21 => (value % 0x1000 == 0 ==> adrp_distance(r) == value) && r
                    & 0x9f00_001f == insn & 0x9f00_001f,
                Field::Add12 => add_immediate(r) == (value as u64) & 0xfff && r & 0xffc0_03ff
                    == insn & 0xffc0_03ff,
                Field::Add12Checked => add_immediate(r) == value && r & 0xffc0_03ff == insn
                    & 0xffc0_03ff,
                Field::AddHi12 => add_immediate(r) == (value as u64) / 0x1000 && r & 0x0040_0000
                    != 0 && r & 0xff80_03ff == insn & 0xff80_03ff,
                Field::LdSt { scale, .. } => {
                    let size: u64 = match scale {
                        0 => 1,
                        1 => 2,
                        2 => 4,
                        3 => 8,
                        _ => 16,
                    };
                    add_immediate(r) * size == (value as u64) & 0xfff && r & 0xffc0_03ff == insn
                        & 0xffc0_03ff
                },
                Field::LdSt15 => add_immediate(r) * 8 == value,
                _ => true,
            }
        }),
{
    vstd::arithmetic::power2::lemma2_to64();
    vstd::arithmetic::power2::lemma2_to64_rest();
    let v = value as u64;
    let part = match field {
        Field::LdSt { scale, .. } => shifted_right(v & 0xfff, scale),
        _ => 0,
    };
    held_bits(
        insn,
        value,
        v,
        Field::Branch14.packed(insn, value),
        Field::Branch19.packed(insn, value),
        Field::Branch26.packed(insn, value),
        Field::Adr21.packed(insn, value),
        Field::Adrp21.packed(insn, value),
        Field::Add12.packed(insn, value),
        Field::AddHi12.packed(insn, value),
        Field::LdSt15.packed(insn, value),
        part,
        (insn & !0x003f_fc00u32) | (part as u32) << 10,
    );
    if let Field::LdSt { scale, .. } = field {
        assert(scale == 0 || scale == 1 || scale == 2 || scale == 3 || scale == 4);
        assert(part <= 0xfff);
    }
}

/// Which values a field takes: a branch within 128 MiB, 1 MiB or 32 KiB to a
/// word, an `adr` within 1 MiB, an `adrp` within 4 GiB, an offset that its
/// access size divides.
pub proof fn fields_take_what_they_hold(value: i64)
    ensures
        Field::Branch26.accepts(value) == (-0x800_0000 <= value < 0x800_0000 && value % 4 == 0),
        Field::Branch19.accepts(value) == (-0x10_0000 <= value < 0x10_0000 && value % 4 == 0),
        Field::Branch14.accepts(value) == (-0x8000 <= value < 0x8000 && value % 4 == 0),
        Field::Adr21.accepts(value) == (-0x10_0000 <= value < 0x10_0000),
        Field::Adrp21.accepts(value) == (-0x1_0000_0000 <= value < 0x1_0000_0000),
        Field::Data16.accepts(value) == (-0x8000 <= value < 0x1_0000),
        Field::Data32.accepts(value) == (-0x8000_0000 <= value < 0x1_0000_0000),
        Field::Data32Signed.accepts(value) == (-0x8000_0000 <= value < 0x8000_0000),
        Field::Add12Checked.accepts(value) == (0 <= value < 0x1000),
        Field::AddHi12.accepts(value) == (0 <= value < 0x100_0000),
        Field::LdSt15.accepts(value) == (0 <= value < 0x8000 && value % 8 == 0),
        (Field::Movw { shift: 0, check: MovwCheck::Unsigned }).accepts(value) == (0 <= value
            < 0x1_0000),
        (Field::Movw { shift: 16, check: MovwCheck::Unsigned }).accepts(value) == (0 <= value
            < 0x1_0000_0000),
        (Field::Movw { shift: 32, check: MovwCheck::Unsigned }).accepts(value) == (0 <= value
            < 0x1_0000_0000_0000),
        (Field::Movw { shift: 0, check: MovwCheck::Signed }).accepts(value) == (-0x1_0000 <= value
            < 0x1_0000),
        (Field::Movw { shift: 16, check: MovwCheck::Signed }).accepts(value) == (-0x1_0000_0000
            <= value < 0x1_0000_0000),
        (Field::Movw { shift: 32, check: MovwCheck::Signed }).accepts(value) == (-0x1_0000_0000_0000
            <= value < 0x1_0000_0000_0000),
{
    vstd::arithmetic::power2::lemma2_to64();
    vstd::arithmetic::power2::lemma2_to64_rest();
}

} // verus!
