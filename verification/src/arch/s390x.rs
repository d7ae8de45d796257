//! s390x instructions.

use vstd::prelude::*;

use crate::arch::EncodeError;
use crate::bits;
use crate::bits::{fits_signed, fits_unsigned};
use crate::bytes;

verus! {

/// Size of the PLT header.
pub const PLT_HEADER_SIZE: u64 = 32;

/// Size of a PLT entry.
pub const PLT_ENTRY_SIZE: u64 = 32;

/// `lg %r2,0(%r2,%r12)`.
pub const LG_R2_GOT: [u8; 6] = [0xe3, 0x22, 0xc0, 0x00, 0x00, 0x04];

/// `brcl 0,.`: a 6-byte no-op.
pub const BRCL_NOP: [u8; 6] = [0xc0, 0x04, 0x00, 0x00, 0x00, 0x00];

/// A field of an instruction.
#[derive(Clone, Copy, Debug, PartialEq, Eq, Structural)]
pub enum Field {
    /// A 12-bit unsigned displacement.
    Imm12,
    /// A 20-bit signed displacement, its low 12 bits first.
    Disp20,
    /// 12 bits of halfwords.
    Pc12Dbl,
    /// 16 bits of halfwords.
    Pc16Dbl,
    /// 24 bits of halfwords.
    Pc24Dbl,
    /// 32 bits of halfwords.
    Pc32Dbl,
}

impl Field {
    /// Bytes of the field.
    #[verifier::allow_in_spec]
    pub fn bytes(self) -> usize
        returns
            (match self {
                Field::Imm12 | Field::Pc12Dbl | Field::Pc16Dbl => 2usize,
                Field::Disp20 | Field::Pc24Dbl => 3,
                Field::Pc32Dbl => 4,
            }),
    {
        match self {
            Field::Imm12 | Field::Pc12Dbl | Field::Pc16Dbl => 2,
            Field::Disp20 | Field::Pc24Dbl => 3,
            Field::Pc32Dbl => 4,
        }
    }

    /// Whether the field can hold `value`.
    pub open spec fn accepts(self, value: i64) -> bool {
        match self {
            Field::Imm12 => bits::spec_fits_unsigned(value as int, 12),
            Field::Disp20 => bits::spec_fits_signed(value as int, 20),
            Field::Pc12Dbl => value % 2 == 0 && bits::spec_fits_signed(value as int, 13),
            Field::Pc16Dbl => value % 2 == 0 && bits::spec_fits_signed(value as int, 17),
            Field::Pc24Dbl => value % 2 == 0 && bits::spec_fits_signed(value as int, 25),
            Field::Pc32Dbl => value % 2 == 0 && bits::spec_fits_signed(value as int, 33),
        }
    }

    /// The bytes of the field holding `value`, where `first` is the byte it
    /// may share with a register.
    pub open spec fn packed(self, first: u8, value: i64) -> Seq<u8> {
        let half = value >> 1;
        match self {
            Field::Imm12 => seq![first & 0xf0 | ((value >> 8) as u8) & 0x0f, value as u8],
            Field::Disp20 => seq![
                first & 0xf0 | ((value >> 8) as u8) & 0x0f,
                value as u8,
                (value >> 12) as u8,
            ],
            Field::Pc12Dbl => seq![first & 0xf0 | ((half >> 8) as u8) & 0x0f, half as u8],
            Field::Pc16Dbl => seq![(half >> 8) as u8, half as u8],
            Field::Pc24Dbl => seq![(half >> 16) as u8, (half >> 8) as u8, half as u8],
            Field::Pc32Dbl => seq![
                (half >> 24) as u8,
                (half >> 16) as u8,
                (half >> 8) as u8,
                half as u8,
            ],
        }
    }
}

/// The bytes of `field` holding `value`.
///
/// # Errors
///
/// [`EncodeError::Overflow`] when the field cannot hold it.
pub fn encode(field: Field, first: u8, value: i64) -> (r: Result<Vec<u8>, EncodeError>)
    ensures
        match r {
            Ok(b) => field.accepts(value) && b@ == field.packed(first, value),
            Err(e) => !field.accepts(value) && e == EncodeError::Overflow,
        },
{
    let ok: bool = match field {
        Field::Imm12 => fits_unsigned(value, 12),
        Field::Disp20 => fits_signed(value, 20),
        Field::Pc12Dbl => value % 2 == 0 && fits_signed(value, 13),
        Field::Pc16Dbl => value % 2 == 0 && fits_signed(value, 17),
        Field::Pc24Dbl => value % 2 == 0 && fits_signed(value, 25),
        Field::Pc32Dbl => value % 2 == 0 && fits_signed(value, 33),
    };
    if !ok {
        return Err(EncodeError::Overflow);
    }
    let half: i64 = value >> 1;
    let mut b: Vec<u8> = Vec::new();
    match field {
        Field::Imm12 => {
            b.push(first & 0xf0 | ((value >> 8) as u8) & 0x0f);
            b.push(value as u8);
        },
        Field::Disp20 => {
            b.push(first & 0xf0 | ((value >> 8) as u8) & 0x0f);
            b.push(value as u8);
            b.push((value >> 12) as u8);
        },
        Field::Pc12Dbl => {
            b.push(first & 0xf0 | ((half >> 8) as u8) & 0x0f);
            b.push(half as u8);
        },
        Field::Pc16Dbl => {
            b.push((half >> 8) as u8);
            b.push(half as u8);
        },
        Field::Pc24Dbl => {
            b.push((half >> 16) as u8);
            b.push((half >> 8) as u8);
            b.push(half as u8);
        },
        Field::Pc32Dbl => {
            b.push((half >> 24) as u8);
            b.push((half >> 16) as u8);
            b.push((half >> 8) as u8);
            b.push(half as u8);
        },
    }
    assert(b@ =~= field.packed(first, value));
    Ok(b)
}

/// Whether the opcode is of `lgrl`.
#[verifier::allow_in_spec]
pub fn is_lgrl(a: u8, b: u8) -> bool
    returns
        a == 0xc4 && b & 0x0f == 0x08,
{
    a == 0xc4 && b & 0x0f == 0x08
}

/// Whether these are the first, third and last byte of
/// `lg %rx,D(%r12)`.
#[verifier::allow_in_spec]
pub fn is_lg_got(first: u8, third: u8, last: u8) -> bool
    returns
        first == 0xe3 && third & 0xf0 == 0xc0 && last == 0x04,
{
    first == 0xe3 && third & 0xf0 == 0xc0 && last == 0x04
}

/// Whether the opcode is of `brasl %r14,..`.
#[verifier::allow_in_spec]
pub fn is_brasl_r14(a: u8, b: u8) -> bool
    returns
        a == 0xc0 && b == 0xe5,
{
    a == 0xc0 && b == 0xe5
}

/// The `sllg %rx,%ry,0` that takes the place of an initial-exec load
/// `lg %rx,0(%ry)` through either register operand, the other being
/// `%r12` or none.
pub open spec fn spec_ie_load_to_le(b: Seq<u8>) -> Option<Seq<u8>> {
    if b[0] != 0xe3 || b[4] != 0x00 || b[5] != 0x04 {
        None
    } else if b[2] & 0xf0 == 0x00 || b[2] & 0xf0 == 0xc0 {
        Some(seq![0xeb, b[1] & 0xf0 | b[1] & 0x0f, 0, 0, 0, 0x0d])
    } else if b[1] & 0x0f == 0x00 || b[1] & 0x0f == 0x0c {
        Some(seq![0xeb, b[1] & 0xf0 | b[2] >> 4, 0, 0, 0, 0x0d])
    } else {
        None
    }
}

/// The instruction that takes the place of an initial-exec load, if `b` is
/// one.
pub fn ie_load_to_le(b: &[u8]) -> (r: Option<[u8; 6]>)
    requires
        b@.len() >= 6,
    ensures
        match (r, spec_ie_load_to_le(b@)) {
            (Some(a), Some(s)) => a@ == s,
            (None, None) => true,
            _ => false,
        },
{
    if b[0] != 0xe3 || b[4] != 0x00 || b[5] != 0x04 {
        return None;
    }
    if b[2] & 0xf0 == 0x00 || b[2] & 0xf0 == 0xc0 {
        let r: [u8; 6] = [0xeb, b[1] & 0xf0 | b[1] & 0x0f, 0, 0, 0, 0x0d];
        assert(r@ =~= seq![0xeb, b@[1] & 0xf0 | b@[1] & 0x0f, 0, 0, 0, 0x0d]);
        Some(r)
    } else if b[1] & 0x0f == 0x00 || b[1] & 0x0f == 0x0c {
        let r: [u8; 6] = [0xeb, b[1] & 0xf0 | b[2] >> 4, 0, 0, 0, 0x0d];
        assert(r@ =~= seq![0xeb, b@[1] & 0xf0 | b@[2] >> 4, 0, 0, 0, 0x0d]);
        Some(r)
    } else {
        None
    }
}

/// Whether the PLT header at `plt` reaches the GOT pointer `got`.
pub open spec fn header_reaches(plt: u64, got: u64) -> bool {
    Field::Pc32Dbl.accepts(got.wrapping_sub(plt.wrapping_add(6)) as i64)
}

/// The PLT header at `plt`: save the relocation offset and the link map in
/// the caller's frame, and jump to the resolver.
pub open spec fn header_code(plt: u64, got: u64) -> Seq<u8> {
    seq![0xe3u8, 0x10, 0xf0, 0x38, 0x00, 0x24, 0xc0, 0x10] + Field::Pc32Dbl.packed(
        0,
        got.wrapping_sub(plt.wrapping_add(6)) as i64,
    ) + seq![
        0xd2u8,
        0x07,
        0xf0,
        0x30,
        0x10,
        0x08,
        0xe3,
        0x10,
        0x10,
        0x10,
        0x00,
        0x04,
        0x07,
        0xf1,
        0x07,
        0x00,
        0x07,
        0x00,
        0x07,
        0x00,
    ]
}

/// The code of the PLT header.
///
/// # Errors
///
/// [`EncodeError::Overflow`] when the GOT is out of reach.
pub fn plt_header(plt: u64, got: u64) -> (r: Result<Vec<u8>, EncodeError>)
    ensures
        match r {
            Ok(b) => header_reaches(plt, got) && b@ == header_code(plt, got),
            Err(e) => !header_reaches(plt, got) && e == EncodeError::Overflow,
        },
{
    let distance: Vec<u8> = encode(
        Field::Pc32Dbl,
        0,
        got.wrapping_sub(plt.wrapping_add(6)) as i64,
    )?;
    let mut code: Vec<u8> = Vec::new();
    crate::bytes::push_all(&mut code, &[0xe3, 0x10, 0xf0, 0x38, 0x00, 0x24, 0xc0, 0x10]);
    crate::bytes::push_all(&mut code, &distance);
    crate::bytes::push_all(
        &mut code,
        &[
            0xd2, 0x07, 0xf0, 0x30, 0x10, 0x08, 0xe3, 0x10, 0x10, 0x10, 0x00, 0x04, 0x07, 0xf1,
            0x07, 0x00, 0x07, 0x00, 0x07, 0x00,
        ],
    );
    assert(code@ =~= header_code(plt, got));
    Ok(code)
}

/// Whether the PLT entry at `entry` reaches its slot and the header.
pub open spec fn entry_reaches(entry: u64, slot: u64, plt: u64) -> bool {
    &&& Field::Pc32Dbl.accepts(slot.wrapping_sub(entry) as i64)
    &&& Field::Pc32Dbl.accepts(plt.wrapping_sub(entry.wrapping_add(22)) as i64)
}

/// The PLT entry at `entry`: jump through the word at `slot`; its lazy half
/// passes the relocation offset `rela` to the header.
pub open spec fn entry_code(entry: u64, slot: u64, plt: u64, rela: u32) -> Seq<u8> {
    seq![0xc0u8, 0x10] + Field::Pc32Dbl.packed(0, slot.wrapping_sub(entry) as i64) + seq![
        0xe3u8,
        0x10,
        0x10,
        0x00,
        0x00,
        0x04,
        0x07,
        0xf1,
        0x0d,
        0x10,
        0xe3,
        0x10,
        0x10,
        0x0c,
        0x00,
        0x14,
        0xc0,
        0xf4,
    ] + Field::Pc32Dbl.packed(0, plt.wrapping_sub(entry.wrapping_add(22)) as i64) + bytes::spec_be32(rela)
}

/// The code of a PLT entry.
///
/// # Errors
///
/// [`EncodeError::Overflow`] when the slot or the header is out of reach.
pub fn plt_entry(entry: u64, slot: u64, plt: u64, rela: u32) -> (r: Result<Vec<u8>, EncodeError>)
    ensures
        match r {
            Ok(b) => entry_reaches(entry, slot, plt) && b@ == entry_code(entry, slot, plt, rela),
            Err(e) => !entry_reaches(entry, slot, plt) && e == EncodeError::Overflow,
        },
{
    let to_slot: Vec<u8> = encode(Field::Pc32Dbl, 0, slot.wrapping_sub(entry) as i64)?;
    let to_header: Vec<u8> = encode(
        Field::Pc32Dbl,
        0,
        plt.wrapping_sub(entry.wrapping_add(22)) as i64,
    )?;
    let offset: [u8; 4] = crate::bytes::be32(rela);
    let mut code: Vec<u8> = Vec::new();
    crate::bytes::push_all(&mut code, &[0xc0, 0x10]);
    crate::bytes::push_all(&mut code, &to_slot);
    crate::bytes::push_all(
        &mut code,
        &[
            0xe3, 0x10, 0x10, 0x00, 0x00, 0x04, 0x07, 0xf1, 0x0d, 0x10, 0xe3, 0x10, 0x10, 0x0c,
            0x00, 0x14, 0xc0, 0xf4,
        ],
    );
    crate::bytes::push_all(&mut code, &to_header);
    crate::bytes::push_all(&mut code, &offset);
    assert(code@ =~= entry_code(entry, slot, plt, rela));
    Ok(code)
}

/// Fills `out` with `nopr`s.
pub fn write_nops(out: &mut [u8])
    ensures
        final(out)@ == Seq::new(old(out)@.len(), |i: int| 0x07u8),
{
    let mut i: usize = 0;
    while i < out.len()
        invariant
            i <= out@.len(),
            out@.len() == old(out)@.len(),
            forall|j: int| 0 <= j < i ==> #[trigger] out@[j] == 0x07u8,
        decreases out@.len() - i,
    {
        out[i] = 0x07;
        i += 1;
    }
    assert(out@ =~= Seq::new(old(out)@.len(), |i: int| 0x07u8));
}

/// The bits of instructions that hold a value.
proof fn held_bits(first: u8, value: i64, half: i64)
    by (bit_vector)
    requires
        half == value >> 1,
    ensures
        0 <= value && value < 0x1000 ==> (((first & 0xf0 | ((value >> 8) as u8) & 0x0f)
            & 0x0f) as i64) * 0x100 + ((value as u8) as i64) == value,
        (first & 0xf0 | ((value >> 8) as u8) & 0x0f) & 0xf0 == first & 0xf0,
        -0x8_0000 <= value && value < 0x8_0000 ==> ((((value >> 12) as u8) as i8) as i64) * 0x1000
            + (((first & 0xf0 | ((value >> 8) as u8) & 0x0f) & 0x0f) as i64) * 0x100 + ((
        value as u8) as i64) == value,
        -0x1000 <= value && value < 0x1000 && value % 2 == 0 ==> 2 * (((((((first & 0xf0 | ((half
            >> 8) as u8) & 0x0f) << 4) as i8) >> 4) as i64)) * 0x100 + ((half as u8) as i64))
            == value,
        (first & 0xf0 | ((half >> 8) as u8) & 0x0f) & 0xf0 == first & 0xf0,
        -0x1_0000 <= value && value < 0x1_0000 && value % 2 == 0 ==> 2 * (((((half
            >> 8) as u8) as i8) as i64) * 0x100 + ((half as u8) as i64)) == value,
        -0x100_0000 <= value && value < 0x100_0000 && value % 2 == 0 ==> 2 * (((((half
            >> 16) as u8) as i8) as i64) * 0x1_0000 + (((half >> 8) as u8) as i64) * 0x100 + ((
        half as u8) as i64)) == value,
        -0x1_0000_0000 <= value && value < 0x1_0000_0000 && value % 2 == 0 ==> 2 * (((((half
            >> 24) as u8) as i8) as i64) * 0x100_0000 + (((half >> 16) as u8) as i64) * 0x1_0000 + (((
        half >> 8) as u8) as i64) * 0x100 + ((half as u8) as i64)) == value,
{
}

/// What a field was given is what it holds: a displacement, or a distance in
/// halfwords with the most significant byte first; a register that shares
/// its first byte stays.
pub proof fn held_values_read_back(first: u8, value: i64)
    ensures
        Field::Imm12.accepts(value) ==> ({
            let b = Field::Imm12.packed(first, value);
            ((b[0] & 0x0f) as i64) * 0x100 + b[1] == value && b[0] & 0xf0 == first & 0xf0
        }),
        Field::Disp20.accepts(value) ==> ({
            let b = Field::Disp20.packed(first, value);
            ((b[2] as i8) as i64) * 0x1000 + ((b[0] & 0x0f) as i64) * 0x100 + b[1] == value && b[0]
                & 0xf0 == first & 0xf0
        }),
        Field::Pc12Dbl.accepts(value) ==> ({
            let b = Field::Pc12Dbl.packed(first, value);
            2 * (((((b[0] << 4) as i8) >> 4) as i64) * 0x100 + b[1]) == value && b[0] & 0xf0 == first
                & 0xf0
        }),
        Field::Pc16Dbl.accepts(value) ==> ({
            let b = Field::Pc16Dbl.packed(first, value);
            2 * (((b[0] as i8) as i64) * 0x100 + b[1]) == value
        }),
        Field::Pc24Dbl.accepts(value) ==> ({
            let b = Field::Pc24Dbl.packed(first, value);
            2 * (((b[0] as i8) as i64) * 0x1_0000 + b[1] * 0x100 + b[2]) == value
        }),
        Field::Pc32Dbl.accepts(value) ==> ({
            let b = Field::Pc32Dbl.packed(first, value);
            2 * (((b[0] as i8) as i64) * 0x100_0000 + b[1] * 0x1_0000 + b[2] * 0x100 + b[3])
                == value
        }),
{
    vstd::arithmetic::power2::lemma2_to64();
    vstd::arithmetic::power2::lemma2_to64_rest();
    held_bits(first, value, value >> 1);
}

/// Which values a field takes.
pub proof fn fields_take_what_they_hold(value: i64)
    ensures
        Field::Imm12.accepts(value) == (0 <= value < 0x1000),
        Field::Disp20.accepts(value) == (-0x8_0000 <= value < 0x8_0000),
        Field::Pc12Dbl.accepts(value) == (-0x1000 <= value < 0x1000 && value % 2 == 0),
        Field::Pc16Dbl.accepts(value) == (-0x1_0000 <= value < 0x1_0000 && value % 2 == 0),
        Field::Pc24Dbl.accepts(value) == (-0x100_0000 <= value < 0x100_0000 && value % 2 == 0),
        Field::Pc32Dbl.accepts(value) == (-0x1_0000_0000 <= value < 0x1_0000_0000 && value % 2
            == 0),
{
    vstd::arithmetic::power2::lemma2_to64();
    vstd::arithmetic::power2::lemma2_to64_rest();
}

/// A PLT entry jumps through the word at its slot: its `larl` makes up the
/// address of the slot, and its lazy half goes to the header with the offset
/// of the relocation.
pub proof fn entries_lead_to_their_slot(entry: u64, slot: u64, plt: u64, rela: u32)
    requires
        entry_reaches(entry, slot, plt),
    ensures
        ({
            let b = entry_code(entry, slot, plt, rela);
            let to_slot = 2 * (((b[2] as i8) as i64) * 0x100_0000 + b[3] * 0x1_0000 + b[4] * 0x100
                + b[5]);
            let to_header = 2 * (((b[24] as i8) as i64) * 0x100_0000 + b[25] * 0x1_0000 + b[26]
                * 0x100 + b[27]);
            &&& b.len() == 32
            &&& b[0] == 0xc0 && b[1] == 0x10
            &&& to_slot == slot.wrapping_sub(entry) as i64
            &&& b[22] == 0xc0 && b[23] == 0xf4
            &&& to_header == plt.wrapping_sub(entry.wrapping_add(22)) as i64
            &&& b.subrange(28, 32) == bytes::spec_be32(rela)
        }),
{
    let a = slot.wrapping_sub(entry) as i64;
    let c = plt.wrapping_sub(entry.wrapping_add(22)) as i64;
    held_values_read_back(0, a);
    held_values_read_back(0, c);
    let b = entry_code(entry, slot, plt, rela);
    let p = Field::Pc32Dbl.packed(0, a);
    let q = Field::Pc32Dbl.packed(0, c);
    assert(b[2] == p[0] && b[3] == p[1] && b[4] == p[2] && b[5] == p[3]);
    assert(b[24] == q[0] && b[25] == q[1] && b[26] == q[2] && b[27] == q[3]);
    assert(b.subrange(28, 32) =~= bytes::spec_be32(rela));
}

} // verus!
