//! Storing a computed value in a relocation's field.

use vstd::prelude::*;

use super::{ApplyError, Width};
use super::patch::{put_bytes, put_word, refused, Patched};
use super::ppc64::relax_pcrel_opt;
use crate::arch::{aarch64, arm, loongarch, ppc64, riscv, s390x, EncodeError};
use crate::bits;
use crate::bytes;
use crate::bytes::{get_byte, get_u16, get_u32, le16, le64, place};

verus! {

/// The little-endian bytes of an encoded instruction.
pub open spec fn bytes32(r: Result<u32, EncodeError>) -> Result<Seq<u8>, EncodeError> {
    match r {
        Ok(w) => Ok(bytes::spec_le32(w)),
        Err(e) => Err(e),
    }
}

/// The little-endian bytes of an encoded halfword.
pub open spec fn bytes16(r: Result<u16, EncodeError>) -> Result<Seq<u8>, EncodeError> {
    match r {
        Ok(h) => Ok(bytes::spec_le16(h)),
        Err(e) => Err(e),
    }
}

/// What writing AArch64 field `field` does.
pub open spec fn spec_write_aarch64(
    s: Seq<u8>,
    offset: u64,
    field: aarch64::Field,
    value: i64,
) -> Patched {
    let p = Patched::new(s);
    if field.bytes() == 2 {
        match bytes::u16_at(s, offset as int) {
            Some(half) => match field.encoded(half as u32, value) {
                Ok(e) => p.write(offset as int, bytes::spec_le16(e as u16), ApplyError::OutOfBounds),
                Err(_) => p.fail(ApplyError::Overflow),
            },
            None => p.fail(ApplyError::OutOfBounds),
        }
    } else {
        match bytes::u32_at(s, offset as int) {
            Some(word) => match field.encoded(word, value) {
                Ok(e) => p.word(offset as int, e),
                Err(_) => p.fail(ApplyError::Overflow),
            },
            None => p.fail(ApplyError::OutOfBounds),
        }
    }
}

/// Writes AArch64 field `field` at `offset`.
fn write_aarch64(out: &mut [u8], offset: u64, field: aarch64::Field, value: i64) -> (r: Result<
    (),
    ApplyError,
>)
    ensures
        r == spec_write_aarch64(old(out)@, offset, field, value).result,
        final(out)@ == spec_write_aarch64(old(out)@, offset, field, value).bytes,
{
    if field.bytes() == 2 {
        let Some(half) = get_u16(out, offset) else {
            return Err(ApplyError::OutOfBounds);
        };
        match field.encode(half as u32, value) {
            Ok(e) => {
                let b: [u8; 2] = le16(e as u16);
                put_bytes(out, offset, &b)
            },
            Err(_) => Err(ApplyError::Overflow),
        }
    } else {
        let Some(word) = get_u32(out, offset) else {
            return Err(ApplyError::OutOfBounds);
        };
        match field.encode(word, value) {
            Ok(e) => put_word(out, offset, e),
            Err(_) => Err(ApplyError::Overflow),
        }
    }
}

/// What writing PowerPC64 field `field` does.
pub open spec fn spec_write_ppc64(
    s: Seq<u8>,
    offset: u64,
    field: ppc64::Field,
    value: i64,
) -> Patched {
    let p = Patched::new(s);
    let at = offset as int;
    if field == ppc64::Field::PcrelOpt {
        crate::elf::arch::ppc64::spec_relax_pcrel_opt(s, offset, value)
    } else if field.bytes() == 2 {
        match bytes::u16_at(s, at) {
            Some(half) => p.encoded(at, bytes16(field.encoded16(half, value))),
            None => p.fail(ApplyError::OutOfBounds),
        }
    } else if field.bytes() == 8 {
        match ppc64::prefixed_at(s, at) {
            Some(insn) => match field.encoded64(insn, value) {
                Ok(e) => p.write(at, ppc64::spec_prefixed(e), ApplyError::OutOfBounds),
                Err(e) => p.fail(refused(e)),
            },
            None => p.fail(ApplyError::OutOfBounds),
        }
    } else {
        match bytes::u32_at(s, at) {
            Some(insn) => p.encoded(at, bytes32(field.encoded32(insn, value))),
            None => p.fail(ApplyError::OutOfBounds),
        }
    }
}

/// Writes PowerPC64 field `field` at `offset`.
fn write_ppc64(out: &mut [u8], offset: u64, field: ppc64::Field, value: i64) -> (r: Result<
    (),
    ApplyError,
>)
    ensures
        r == spec_write_ppc64(old(out)@, offset, field, value).result,
        final(out)@ == spec_write_ppc64(old(out)@, offset, field, value).bytes,
{
    if field == ppc64::Field::PcrelOpt {
        // Rewrites two instructions, `value` bytes apart.
        return relax_pcrel_opt(out, offset, value);
    }
    if field.bytes() == 2 {
        let Some(half) = get_u16(out, offset) else {
            return Err(ApplyError::OutOfBounds);
        };
        match field.encode16(half, value) {
            Ok(e) => {
                let b: [u8; 2] = le16(e);
                put_bytes(out, offset, &b)
            },
            Err(e) => Err(refused(e)),
        }
    } else if field.bytes() == 8 {
        let Some(insn) = ppc64::read_prefixed(out, offset) else {
            return Err(ApplyError::OutOfBounds);
        };
        match field.encode64(insn, value) {
            Ok(e) => {
                let _written: bool = ppc64::write_prefixed(out, offset, e);
                Ok(())
            },
            Err(e) => Err(refused(e)),
        }
    } else {
        let Some(insn) = get_u32(out, offset) else {
            return Err(ApplyError::OutOfBounds);
        };
        match field.encode32(insn, value) {
            Ok(e) => put_word(out, offset, e),
            Err(e) => Err(refused(e)),
        }
    }
}

/// What writing Arm field `field` does.
pub open spec fn spec_write_arm(s: Seq<u8>, offset: u64, field: arm::Field, value: i64) -> Patched {
    let p = Patched::new(s);
    match field.insn_at(s, offset as int) {
        Some(insn) => match field.encoded(insn, value) {
            Ok(e) => p.write(offset as int, field.insn_bytes(e), ApplyError::OutOfBounds),
            Err(e) => p.fail(refused(e)),
        },
        None => p.fail(ApplyError::OutOfBounds),
    }
}

/// Writes Arm field `field` at `offset`.
fn write_arm(out: &mut [u8], offset: u64, field: arm::Field, value: i64) -> (r: Result<
    (),
    ApplyError,
>)
    ensures
        r == spec_write_arm(old(out)@, offset, field, value).result,
        final(out)@ == spec_write_arm(old(out)@, offset, field, value).bytes,
{
    let Some(insn) = field.read(out, offset) else {
        return Err(ApplyError::OutOfBounds);
    };
    match field.encode(insn, value) {
        Ok(e) => if field.write(out, offset, e) {
            Ok(())
        } else {
            Err(ApplyError::OutOfBounds)
        },
        Err(e) => Err(refused(e)),
    }
}

/// What writing RISC-V field `field` does.
pub open spec fn spec_write_riscv(
    s: Seq<u8>,
    offset: u64,
    field: riscv::Field,
    value: u64,
) -> Patched {
    let at = offset as int;
    let p = Patched::new(s).require(
        bytes::inside(s, at, field.bytes() as int),
        ApplyError::OutOfBounds,
    ).require(field.accepts(value), ApplyError::Overflow);
    if p.result is Err {
        p
    } else {
        match field {
            riscv::Field::SetUleb128 | riscv::Field::SubUleb128 => {
                let (bytes, error) = riscv::uleb_result(s, at, value);
                Patched {
                    bytes,
                    result: match error {
                        None => Ok(()),
                        Some(EncodeError::Overflow) => Err(ApplyError::Overflow),
                        Some(EncodeError::BadInstruction) => Err(ApplyError::OutOfBounds),
                    },
                }
            },
            // auipc and jalr
            riscv::Field::Call => match (bytes::u32_at(s, at), bytes::u32_at(s, at + 4)) {
                (Some(auipc), Some(jalr)) => p.word(
                    at,
                    riscv::Field::Hi20.packed32(auipc, value),
                ).word(at + 4, riscv::Field::Lo12I.packed32(jalr, value)),
                _ => p.fail(ApplyError::OutOfBounds),
            },
            riscv::Field::Dtprel64 => p.write(
                at,
                bytes::spec_le64(value.wrapping_sub(riscv::DTV_OFFSET)),
                ApplyError::OutOfBounds,
            ),
            _ => if field.bytes() == 1 {
                match bytes::byte_at(s, at) {
                    Some(old) => p.byte(at, field.packed8(old, value)),
                    None => p.fail(ApplyError::OutOfBounds),
                }
            } else if field.bytes() == 2 {
                match bytes::u16_at(s, at) {
                    Some(old) => p.write(
                        at,
                        bytes::spec_le16(field.packed16(old, value)),
                        ApplyError::OutOfBounds,
                    ),
                    None => p.fail(ApplyError::OutOfBounds),
                }
            } else {
                match bytes::u32_at(s, at) {
                    Some(old) => p.word(at, field.packed32(old, value)),
                    None => p.fail(ApplyError::OutOfBounds),
                }
            },
        }
    }
}

/// Writes RISC-V field `field` at `offset`.
fn write_riscv(out: &mut [u8], offset: u64, field: riscv::Field, value: u64) -> (r: Result<
    (),
    ApplyError,
>)
    ensures
        r == spec_write_riscv(old(out)@, offset, field, value).result,
        final(out)@ == spec_write_riscv(old(out)@, offset, field, value).bytes,
{
    let Some(_) = place(out.len(), offset, field.bytes()) else {
        return Err(ApplyError::OutOfBounds);
    };
    if !field.check(value) {
        return Err(ApplyError::Overflow);
    }
    match field {
        riscv::Field::SetUleb128 | riscv::Field::SubUleb128 => match riscv::write_uleb128(
            out,
            offset,
            value,
        ) {
            Ok(()) => Ok(()),
            Err(EncodeError::Overflow) => Err(ApplyError::Overflow),
            Err(EncodeError::BadInstruction) => Err(ApplyError::OutOfBounds),
        },
        riscv::Field::Call => match (get_u32(out, offset), get_u32(out, offset + 4)) {
            (Some(auipc), Some(jalr)) => {
                put_word(out, offset, riscv::Field::Hi20.packed32(auipc, value))?;
                put_word(out, offset + 4, riscv::Field::Lo12I.packed32(jalr, value))
            },
            _ => Err(ApplyError::OutOfBounds),
        },
        riscv::Field::Dtprel64 => {
            let b: [u8; 8] = le64(value.wrapping_sub(riscv::DTV_OFFSET));
            put_bytes(out, offset, &b)
        },
        _ => if field.bytes() == 1 {
            let Some(old) = get_byte(out, offset) else {
                return Err(ApplyError::OutOfBounds);
            };
            super::patch::put(out, offset, 0, field.packed8(old, value))
        } else if field.bytes() == 2 {
            let Some(old) = get_u16(out, offset) else {
                return Err(ApplyError::OutOfBounds);
            };
            let b: [u8; 2] = le16(field.packed16(old, value));
            put_bytes(out, offset, &b)
        } else {
            let Some(old) = get_u32(out, offset) else {
                return Err(ApplyError::OutOfBounds);
            };
            put_word(out, offset, field.packed32(old, value))
        },
    }
}

/// What [`write_value`] does.
pub open spec fn spec_write_value(s: Seq<u8>, offset: u64, width: Width, value: u64) -> Patched {
    let p = Patched::new(s);
    let at = offset as int;
    let signed = value as i64;
    match width {
        Width::Nothing => p,
        Width::W64 => p.write(at, bytes::spec_le64(value), ApplyError::OutOfBounds),
        Width::U32 => p.require(value <= u32::MAX, ApplyError::Overflow).word(at, value as u32),
        Width::I32 => p.require(
            i32::MIN <= signed <= i32::MAX,
            ApplyError::Overflow,
        ).word(at, value as u32),
        Width::Any32 => p.require(
            i32::MIN <= signed <= i32::MAX || value <= u32::MAX,
            ApplyError::Overflow,
        ).word(at, value as u32),
        Width::Any16 => p.require(
            i16::MIN <= signed <= i16::MAX || value <= u16::MAX,
            ApplyError::Overflow,
        ).write(at, bytes::spec_le16(value as u16), ApplyError::OutOfBounds),
        Width::I16 => p.require(
            i16::MIN <= signed <= i16::MAX,
            ApplyError::Overflow,
        ).write(at, bytes::spec_le16(value as u16), ApplyError::OutOfBounds),
        Width::Any8 => p.require(
            i8::MIN <= signed <= i8::MAX || value <= u8::MAX,
            ApplyError::Overflow,
        ).byte(at, value as u8),
        Width::I8 => p.require(i8::MIN <= signed <= i8::MAX, ApplyError::Overflow).byte(
            at,
            value as u8,
        ),
        Width::Field(field) => spec_write_aarch64(s, offset, field, signed),
        Width::Ppc(field) => spec_write_ppc64(s, offset, field, signed),
        Width::Arm(field) => spec_write_arm(s, offset, field, signed),
        Width::LoongArch(field) => super::loongarch::spec_write_field(s, offset, field, value),
        Width::RiscV(field) => spec_write_riscv(s, offset, field, value),
        Width::S390(field) => super::s390x::with_field(p, at, field, value),
    }
}

/// Writes `value` into the field of width `width` at `offset`, checking that
/// it fits.
///
/// # Errors
///
/// [`ApplyError::Overflow`] or [`ApplyError::OutOfBounds`], and
/// [`ApplyError::BadInstruction`] where an instruction field's own
/// instruction must be rewritten and cannot be.
pub fn write_value(out: &mut [u8], offset: u64, width: Width, value: u64) -> (r: Result<
    (),
    ApplyError,
>)
    ensures
        r == spec_write_value(old(out)@, offset, width, value).result,
        final(out)@ == spec_write_value(old(out)@, offset, width, value).bytes,
{
    let signed: i64 = value as i64;
    match width {
        Width::Nothing => Ok(()),
        Width::W64 => {
            let b: [u8; 8] = le64(value);
            put_bytes(out, offset, &b)
        },
        Width::U32 => {
            if value > 0xffff_ffff {
                return Err(ApplyError::Overflow);
            }
            put_word(out, offset, value as u32)
        },
        Width::I32 => {
            if signed < -0x8000_0000 || signed > 0x7fff_ffff {
                return Err(ApplyError::Overflow);
            }
            put_word(out, offset, value as u32)
        },
        Width::Any32 => {
            if (signed < -0x8000_0000 || signed > 0x7fff_ffff) && value > 0xffff_ffff {
                return Err(ApplyError::Overflow);
            }
            put_word(out, offset, value as u32)
        },
        Width::Any16 => {
            if (signed < -0x8000 || signed > 0x7fff) && value > 0xffff {
                return Err(ApplyError::Overflow);
            }
            let b: [u8; 2] = le16(value as u16);
            put_bytes(out, offset, &b)
        },
        Width::I16 => {
            if signed < -0x8000 || signed > 0x7fff {
                return Err(ApplyError::Overflow);
            }
            let b: [u8; 2] = le16(value as u16);
            put_bytes(out, offset, &b)
        },
        Width::Any8 => {
            if (signed < -0x80 || signed > 0x7f) && value > 0xff {
                return Err(ApplyError::Overflow);
            }
            super::patch::put(out, offset, 0, value as u8)
        },
        Width::I8 => {
            if signed < -0x80 || signed > 0x7f {
                return Err(ApplyError::Overflow);
            }
            super::patch::put(out, offset, 0, value as u8)
        },
        Width::Field(field) => write_aarch64(out, offset, field, signed),
        Width::Ppc(field) => write_ppc64(out, offset, field, signed),
        Width::Arm(field) => write_arm(out, offset, field, signed),
        Width::LoongArch(field) => super::loongarch::write_field(out, offset, field, value),
        Width::RiscV(field) => write_riscv(out, offset, field, value),
        Width::S390(field) => super::s390x::write_field(out, offset, field, value),
    }
}

/// The byte width of a relocation field.
#[verifier::allow_in_spec]
pub fn width_bytes(width: Width) -> usize
    returns
        (match width {
            Width::Nothing => 0usize,
            Width::W64 => 8,
            Width::U32 | Width::I32 | Width::Any32 => 4,
            Width::Any16 | Width::I16 => 2,
            Width::Any8 | Width::I8 => 1,
            Width::Field(field) => field.bytes(),
            Width::Ppc(field) => field.bytes(),
            Width::Arm(field) => field.bytes(),
            Width::LoongArch(field) => field.bytes(),
            Width::RiscV(field) => field.bytes(),
            Width::S390(field) => field.bytes(),
        }),
{
    match width {
        Width::Nothing => 0,
        Width::W64 => 8,
        Width::U32 | Width::I32 | Width::Any32 => 4,
        Width::Any16 | Width::I16 => 2,
        Width::Any8 | Width::I8 => 1,
        Width::Field(field) => field.bytes(),
        Width::Ppc(field) => field.bytes(),
        Width::Arm(field) => field.bytes(),
        Width::LoongArch(field) => field.bytes(),
        Width::RiscV(field) => field.bytes(),
        Width::S390(field) => field.bytes(),
    }
}

/// What a plain data field of width `width` at `at` holds, if it lies inside
/// `s` and is one.
pub open spec fn field_at(s: Seq<u8>, at: int, width: Width) -> Option<u64> {
    match width {
        Width::W64 => match (bytes::u32_at(s, at), bytes::u32_at(s, at + 4)) {
            (Some(low), Some(high)) => Some((high as u64) << 32 | low as u64),
            _ => None,
        },
        Width::U32 | Width::I32 | Width::Any32 => match bytes::u32_at(s, at) {
            Some(w) => Some(w as u64),
            None => None,
        },
        Width::Any16 | Width::I16 => match bytes::u16_at(s, at) {
            Some(h) => Some(h as u64),
            None => None,
        },
        Width::Any8 | Width::I8 => match bytes::byte_at(s, at) {
            Some(b) => Some(b as u64),
            None => None,
        },
        _ => None,
    }
}

/// The bytes of `value` in a plain data field of width `width`.
pub open spec fn field_bytes(width: Width, value: u64) -> Seq<u8> {
    match width {
        Width::W64 => bytes::spec_le64(value),
        Width::U32 | Width::I32 | Width::Any32 => bytes::spec_le32(value as u32),
        Width::Any16 | Width::I16 => bytes::spec_le16(value as u16),
        _ => seq![value as u8],
    }
}

/// What [`add_value`] does.
pub open spec fn spec_add_value(s: Seq<u8>, offset: u64, width: Width, value: u64) -> Patched {
    match field_at(s, offset as int, width) {
        Some(old) => Patched::new(s).write(
            offset as int,
            field_bytes(width, old.wrapping_add(value)),
            ApplyError::OutOfBounds,
        ),
        None => Patched::new(s).fail(ApplyError::OutOfBounds),
    }
}

/// Adds `value` to the data field of width `width` at `offset`, dropping
/// what does not fit: the label arithmetic of `ADD*` and `SUB*`
/// relocations.
///
/// # Errors
///
/// [`ApplyError::OutOfBounds`] when the field does not lie inside `out`, or
/// is not plain data.
pub fn add_value(out: &mut [u8], offset: u64, width: Width, value: u64) -> (r: Result<
    (),
    ApplyError,
>)
    ensures
        r == spec_add_value(old(out)@, offset, width, value).result,
        final(out)@ == spec_add_value(old(out)@, offset, width, value).bytes,
{
    match width {
        Width::W64 => {
            let Some(_) = place(out.len(), offset, 8) else {
                return Err(ApplyError::OutOfBounds);
            };
            match (get_u32(out, offset), get_u32(out, offset + 4)) {
                (Some(low), Some(high)) => {
                    let old: u64 = (high as u64) << 32 | low as u64;
                    let b: [u8; 8] = le64(old.wrapping_add(value));
                    put_bytes(out, offset, &b)
                },
                _ => Err(ApplyError::OutOfBounds),
            }
        },
        Width::U32 | Width::I32 | Width::Any32 => match get_u32(out, offset) {
            Some(w) => put_word(out, offset, (w as u64).wrapping_add(value) as u32),
            None => Err(ApplyError::OutOfBounds),
        },
        Width::Any16 | Width::I16 => match get_u16(out, offset) {
            Some(h) => {
                let b: [u8; 2] = le16((h as u64).wrapping_add(value) as u16);
                put_bytes(out, offset, &b)
            },
            None => Err(ApplyError::OutOfBounds),
        },
        Width::Any8 | Width::I8 => match get_byte(out, offset) {
            Some(b) => super::patch::put(out, offset, 0, (b as u64).wrapping_add(value) as u8),
            None => Err(ApplyError::OutOfBounds),
        },
        _ => Err(ApplyError::OutOfBounds),
    }
}

/// Whether writing `value` with width `width` leaves the buffer as it is: no
/// field at all, or the addition of a thread pointer sequence that stays.
pub open spec fn is_left_alone(width: Width, value: u64) -> bool {
    match width {
        Width::Nothing => true,
        Width::LoongArch(field) => field == loongarch::Field::TpAddRelax
            && !bits::spec_fits_signed((value as i64) as int, 12),
        _ => false,
    }
}

/// Whether a field is plain data: its bytes are those of the value.
pub open spec fn is_plain(width: Width) -> bool {
    match width {
        Width::W64 | Width::U32 | Width::I32 | Width::Any32 | Width::Any16 | Width::I16
        | Width::Any8 | Width::I8 => true,
        _ => false,
    }
}

/// Whether a field is a ULEB128 number, which takes the bytes it had.
pub open spec fn is_uleb(width: Width) -> bool {
    match width {
        Width::LoongArch(field) => field == loongarch::Field::Uleb128,
        Width::RiscV(field) => field == riscv::Field::SetUleb128 || field
            == riscv::Field::SubUleb128,
        _ => false,
    }
}

/// Where the field of width `width` at `at` ends.
pub open spec fn field_end(s: Seq<u8>, at: int, width: Width) -> int {
    if is_uleb(width) {
        match crate::leb::uleb_end(s, at) {
            Some(end) => end,
            None => at,
        }
    } else {
        at + width_bytes(width)
    }
}

/// Whether `p` is `s` with at most the bytes from `at` up to `end` changed,
/// and `s` itself after a failure.
pub open spec fn is_confined(s: Seq<u8>, p: Patched, at: int, end: int) -> bool {
    &&& p.bytes.len() == s.len()
    &&& p.result is Err ==> p.bytes == s
    &&& forall|i: int|
        0 <= i < s.len() && !(at <= i < end) ==> #[trigger] p.bytes[i] == s[i]
}

/// A number that ends does so inside the bytes it is in.
proof fn numbers_end_inside(s: Seq<u8>, at: int)
    ensures
        crate::leb::uleb_end(s, at) matches Some(end) ==> 0 <= at < end <= s.len(),
    decreases s.len() - at,
{
    if 0 <= at < s.len() && s[at] & 0x80 != 0 {
        numbers_end_inside(s, at + 1);
    }
}

/// [`values_stay_in_their_field`] for the fields of LoongArch.
proof fn loongarch_values_stay(s: Seq<u8>, offset: u64, field: loongarch::Field, value: u64)
    ensures
        ({
            let width = Width::LoongArch(field);
            let p = super::loongarch::spec_write_field(s, offset, field, value);
            let end = field_end(s, offset as int, width);
            &&& is_confined(s, p, offset as int, end)
            &&& p.result is Ok && !is_left_alone(width, value) ==> end <= s.len()
        }),
{
    let at = offset as int;
    if field == loongarch::Field::Uleb128 {
        numbers_end_inside(s, at);
        if let Some(end) = crate::leb::uleb_end(s, at) {
            crate::leb::written_elsewhere(s, at, end, value);
        }
    }
}

/// [`values_stay_in_their_field`] for the fields of RISC-V.
proof fn riscv_values_stay(s: Seq<u8>, offset: u64, field: riscv::Field, value: u64)
    ensures
        ({
            let width = Width::RiscV(field);
            let p = spec_write_riscv(s, offset, field, value);
            let end = field_end(s, offset as int, width);
            &&& is_confined(s, p, offset as int, end)
            &&& p.result is Ok ==> end <= s.len()
        }),
{
    let at = offset as int;
    if is_uleb(Width::RiscV(field)) {
        numbers_end_inside(s, at);
        if let Some(end) = crate::leb::uleb_end(s, at) {
            crate::leb::written_elsewhere(s, at, end, value);
        }
    }
}

/// [`values_stay_in_their_field`] for the fields of AArch64.
proof fn aarch64_values_stay(s: Seq<u8>, offset: u64, field: aarch64::Field, value: i64)
    ensures
        ({
            let p = spec_write_aarch64(s, offset, field, value);
            let end = offset + field.bytes();
            &&& is_confined(s, p, offset as int, end)
            &&& p.result is Ok ==> end <= s.len()
        }),
{
}

/// [`values_stay_in_their_field`] for the fields of PowerPC64.
proof fn ppc64_values_stay(s: Seq<u8>, offset: u64, field: ppc64::Field, value: i64)
    requires
        field != ppc64::Field::PcrelOpt,
    ensures
        ({
            let p = spec_write_ppc64(s, offset, field, value);
            let end = offset + field.bytes();
            &&& is_confined(s, p, offset as int, end)
            &&& p.result is Ok ==> end <= s.len()
        }),
{
}

/// [`values_stay_in_their_field`] for the fields of Arm.
proof fn arm_values_stay(s: Seq<u8>, offset: u64, field: arm::Field, value: i64)
    ensures
        ({
            let p = spec_write_arm(s, offset, field, value);
            let end = offset + field.bytes();
            &&& is_confined(s, p, offset as int, end)
            &&& p.result is Ok ==> end <= s.len()
        }),
{
}

/// [`values_stay_in_their_field`] for the fields of s390x.
proof fn s390x_values_stay(s: Seq<u8>, offset: u64, field: s390x::Field, value: u64)
    ensures
        ({
            let p = super::s390x::with_field(Patched::new(s), offset as int, field, value);
            let end = offset + field.bytes();
            &&& is_confined(s, p, offset as int, end)
            &&& p.result is Ok ==> end <= s.len()
        }),
{
}

/// [`values_stay_in_their_field`] for plain data.
proof fn plain_values_stay(s: Seq<u8>, offset: u64, width: Width, value: u64)
    requires
        is_plain(width),
    ensures
        ({
            let p = spec_write_value(s, offset, width, value);
            let end = offset + width_bytes(width);
            &&& is_confined(s, p, offset as int, end)
            &&& p.result is Ok ==> end <= s.len() && p.bytes.subrange(offset as int, end)
                == field_bytes(width, value)
        }),
{
    let p = spec_write_value(s, offset, width, value);
    let b = field_bytes(width, value);
    let at = offset as int;
    assert(b.len() == width_bytes(width));
    if p.result is Ok {
        assert(p.bytes == bytes::overlay(s, at, b));
        assert(p.bytes.subrange(at, at + b.len()) =~= b);
    }
}

/// Writing a value changes its field alone, and nothing where it fails: the
/// field lies inside the buffer, and one of plain data then holds the low
/// bytes of the value, the lowest first. The one width left out pairs its
/// instruction with another further on, which it changes too.
pub proof fn values_stay_in_their_field(s: Seq<u8>, offset: u64, width: Width, value: u64)
    requires
        width != Width::Ppc(ppc64::Field::PcrelOpt),
    ensures
        ({
            let p = spec_write_value(s, offset, width, value);
            let end = field_end(s, offset as int, width);
            &&& is_confined(s, p, offset as int, end)
            &&& p.result is Ok && !is_left_alone(width, value) ==> end <= s.len()
            &&& p.result is Ok && is_plain(width) ==> p.bytes.subrange(offset as int, end)
                == field_bytes(width, value)
        }),
{
    let signed = value as i64;
    match width {
        Width::Nothing => {},
        Width::Field(field) => {
            aarch64_values_stay(s, offset, field, signed);
        },
        Width::Ppc(field) => {
            ppc64_values_stay(s, offset, field, signed);
        },
        Width::Arm(field) => {
            arm_values_stay(s, offset, field, signed);
        },
        Width::LoongArch(field) => {
            loongarch_values_stay(s, offset, field, value);
        },
        Width::RiscV(field) => {
            riscv_values_stay(s, offset, field, value);
        },
        Width::S390(field) => {
            s390x_values_stay(s, offset, field, value);
        },
        _ => {
            plain_values_stay(s, offset, width, value);
        },
    }
}

/// A value that a plain field of the buffer holds is what it reads as
/// afterwards. One that the field does not hold is an overflow, and a field
/// that is not all in the buffer is outside it.
#[verifier::rlimit(60)]
pub proof fn plain_values_are_stored(s: Seq<u8>, offset: u64, value: u64)
    ensures
        ({
            let p = spec_write_value(s, offset, Width::W64, value);
            if offset + 8 <= s.len() {
                &&& p.result is Ok
                &&& bytes::u32_at(p.bytes, offset as int) matches Some(low)
                &&& bytes::u32_at(p.bytes, offset + 4) matches Some(high)
                &&& high * 0x1_0000_0000 + low == value
            } else {
                p.result == Err::<(), ApplyError>(ApplyError::OutOfBounds)
            }
        }),
        ({
            let p = spec_write_value(s, offset, Width::U32, value);
            if value > 0xffff_ffff {
                p.result == Err::<(), ApplyError>(ApplyError::Overflow)
            } else if offset + 4 <= s.len() {
                &&& p.result is Ok
                &&& bytes::u32_at(p.bytes, offset as int) matches Some(w)
                &&& w == value
            } else {
                p.result == Err::<(), ApplyError>(ApplyError::OutOfBounds)
            }
        }),
        ({
            let p = spec_write_value(s, offset, Width::I32, value);
            if !(-0x8000_0000 <= (value as i64) <= 0x7fff_ffff) {
                p.result == Err::<(), ApplyError>(ApplyError::Overflow)
            } else if offset + 4 <= s.len() {
                &&& p.result is Ok
                &&& bytes::u32_at(p.bytes, offset as int) matches Some(w)
                &&& w as i32 == value as i64
            } else {
                p.result == Err::<(), ApplyError>(ApplyError::OutOfBounds)
            }
        }),
        ({
            let p = spec_write_value(s, offset, Width::Any32, value);
            if !(-0x8000_0000 <= (value as i64) <= 0xffff_ffff) {
                p.result == Err::<(), ApplyError>(ApplyError::Overflow)
            } else if offset + 4 <= s.len() {
                &&& p.result is Ok
                &&& bytes::u32_at(p.bytes, offset as int) matches Some(w)
                &&& w == value % 0x1_0000_0000
            } else {
                p.result == Err::<(), ApplyError>(ApplyError::OutOfBounds)
            }
        }),
        ({
            let p = spec_write_value(s, offset, Width::I16, value);
            if !(-0x8000 <= (value as i64) <= 0x7fff) {
                p.result == Err::<(), ApplyError>(ApplyError::Overflow)
            } else if offset + 2 <= s.len() {
                &&& p.result is Ok
                &&& bytes::u16_at(p.bytes, offset as int) matches Some(h)
                &&& h as i16 == value as i64
            } else {
                p.result == Err::<(), ApplyError>(ApplyError::OutOfBounds)
            }
        }),
        ({
            let p = spec_write_value(s, offset, Width::Any16, value);
            if !(-0x8000 <= (value as i64) <= 0xffff) {
                p.result == Err::<(), ApplyError>(ApplyError::Overflow)
            } else if offset + 2 <= s.len() {
                &&& p.result is Ok
                &&& bytes::u16_at(p.bytes, offset as int) matches Some(h)
                &&& h == value % 0x1_0000
            } else {
                p.result == Err::<(), ApplyError>(ApplyError::OutOfBounds)
            }
        }),
        ({
            let p = spec_write_value(s, offset, Width::I8, value);
            if !(-0x80 <= (value as i64) <= 0x7f) {
                p.result == Err::<(), ApplyError>(ApplyError::Overflow)
            } else if offset < s.len() {
                p.result is Ok && p.bytes[offset as int] as i8 == value as i64
            } else {
                p.result == Err::<(), ApplyError>(ApplyError::OutOfBounds)
            }
        }),
        ({
            let p = spec_write_value(s, offset, Width::Any8, value);
            if !(-0x80 <= (value as i64) <= 0xff) {
                p.result == Err::<(), ApplyError>(ApplyError::Overflow)
            } else if offset < s.len() {
                p.result is Ok && p.bytes[offset as int] == value % 0x100
            } else {
                p.result == Err::<(), ApplyError>(ApplyError::OutOfBounds)
            }
        }),
        spec_write_value(s, offset, Width::Nothing, value) == (Patched { bytes: s, result: Ok(()) }),
{
    bits::low_bits(value, 0);
    bits::signs(value, 0);
    let at = offset as int;
    if offset + 4 <= s.len() {
        bytes::u32_round_trip(s, at, value as u32);
    }
    if offset + 2 <= s.len() {
        bytes::u16_round_trip(s, at, value as u16);
    }
    if offset + 8 <= s.len() {
        let p = spec_write_value(s, offset, Width::W64, value);
        assert(p.bytes.subrange(at, at + 4) =~= bytes::spec_le32(value as u32));
        assert(p.bytes.subrange(at + 4, at + 8) =~= bytes::spec_le32((value >> 32) as u32));
        bytes::words_are_read(p.bytes, at, value as u32);
        bytes::words_are_read(p.bytes, at + 4, (value >> 32) as u32);
    }
}

/// Adding to a field adds to the number it holds, as far as its bits go.
#[verifier::rlimit(40)]
#[verifier::spinoff_prover]
pub proof fn added_values_add_up(s: Seq<u8>, offset: u64, value: u64)
    ensures
        bytes::u32_at(s, offset as int) matches Some(old) ==> ({
            let p = spec_add_value(s, offset, Width::Any32, value);
            &&& p.result is Ok
            &&& bytes::u32_at(p.bytes, offset as int) matches Some(new)
            &&& new == (old + value) % 0x1_0000_0000
        }),
        bytes::u16_at(s, offset as int) matches Some(old) ==> ({
            let p = spec_add_value(s, offset, Width::Any16, value);
            &&& p.result is Ok
            &&& bytes::u16_at(p.bytes, offset as int) matches Some(new)
            &&& new == (old + value) % 0x1_0000
        }),
        offset < s.len() ==> ({
            let p = spec_add_value(s, offset, Width::Any8, value);
            &&& p.result is Ok
            &&& p.bytes[offset as int] == (s[offset as int] + value) % 0x100
        }),
{
    let at = offset as int;
    if let Some(old) = bytes::u32_at(s, at) {
        bits::low_halves(old as u64, value);
        bytes::u32_round_trip(s, at, (old as u64).wrapping_add(value) as u32);
    }
    if let Some(old) = bytes::u16_at(s, at) {
        let sum = (old as u64).wrapping_add(value);
        assert(sum as u16 == (old + value) % 0x1_0000) by {
            bits::low_bits(sum, 0);
            vstd::arithmetic::div_mod::lemma_mod_multiples_vanish(
                0x1_0000_0000_0000,
                sum as int,
                0x1_0000,
            );
        }
        bytes::u16_round_trip(s, at, sum as u16);
    }
    if offset < s.len() {
        let sum = (s[at] as u64).wrapping_add(value);
        assert(sum as u8 == (s[at] + value) % 0x100) by {
            bits::low_bits(sum, 0);
            vstd::arithmetic::div_mod::lemma_mod_multiples_vanish(
                0x100_0000_0000_0000,
                sum as int,
                0x100,
            );
        }
    }
}

/// Adding to a field of 64 bits adds to the number it holds.
#[verifier::rlimit(40)]
#[verifier::spinoff_prover]
pub proof fn added_long_values_add_up(s: Seq<u8>, offset: u64, value: u64, low: u32, high: u32)
    requires
        bytes::u32_at(s, offset as int) == Some(low),
        bytes::u32_at(s, offset + 4) == Some(high),
    ensures
        ({
            let p = spec_add_value(s, offset, Width::W64, value);
            &&& p.result is Ok
            &&& bytes::u32_at(p.bytes, offset as int) matches Some(l)
            &&& bytes::u32_at(p.bytes, offset + 4) matches Some(h)
            &&& h * 0x1_0000_0000 + l == (high * 0x1_0000_0000 + low + value)
                % 0x1_0000_0000_0000_0000
        }),
{
    let at = offset as int;
    let old = (high as u64) << 32 | low as u64;
    assert(old == high * 0x1_0000_0000 + low) by {
        bits::low_bits(low as u64, high as u64);
    }
    let sum = old.wrapping_add(value);
    bits::low_bits(sum, 0);
    let p = spec_add_value(s, offset, Width::W64, value);
    assert(p.bytes.subrange(at, at + 4) =~= bytes::spec_le32(sum as u32));
    assert(p.bytes.subrange(at + 4, at + 8) =~= bytes::spec_le32((sum >> 32) as u32));
    bytes::words_are_read(p.bytes, at, sum as u32);
    bytes::words_are_read(p.bytes, at + 4, (sum >> 32) as u32);
}

} // verus!
