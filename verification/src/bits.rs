//! Ranges of signed and unsigned bit fields, and pages.

use vstd::prelude::*;

verus! {

/// Whether `v` is representable as a signed number of `bits` bits.
pub open spec fn spec_fits_signed(v: int, bits: u32) -> bool {
    let limit = vstd::arithmetic::power2::pow2((bits - 1) as nat);
    -limit <= v < limit
}

/// Whether `v` is representable as an unsigned number of `bits` bits.
pub open spec fn spec_fits_unsigned(v: int, bits: u32) -> bool {
    0 <= v < vstd::arithmetic::power2::pow2(bits as nat)
}

/// Two to the power `bits`.
fn power(bits: u32) -> (r: u64)
    requires
        bits <= 63,
    ensures
        r == vstd::arithmetic::power2::pow2(bits as nat),
        1 <= r <= 0x8000_0000_0000_0000,
{
    proof {
        vstd::arithmetic::power2::lemma2_to64();
        vstd::arithmetic::power2::lemma2_to64_rest();
        if bits < 63 {
            vstd::arithmetic::power2::lemma_pow2_strictly_increases(bits as nat, 63);
        }
        vstd::arithmetic::power2::lemma_pow2_pos(bits as nat);
        vstd::bits::lemma_u64_shl_is_mul(1, bits as u64);
    }
    1u64 << (bits as u64)
}

/// Whether `v` is representable as a signed number of `bits` bits.
pub fn fits_signed(v: i64, bits: u32) -> (r: bool)
    requires
        1 <= bits <= 63,
    ensures
        r == spec_fits_signed(v as int, bits),
{
    proof {
        vstd::arithmetic::power2::lemma2_to64();
        vstd::arithmetic::power2::lemma2_to64_rest();
        if bits < 63 {
            vstd::arithmetic::power2::lemma_pow2_strictly_increases((bits - 1) as nat, 62);
        }
    }
    let limit: i64 = power(bits - 1) as i64;
    -limit <= v && v < limit
}

/// Whether `v` is representable as an unsigned number of `bits` bits.
pub fn fits_unsigned(v: i64, bits: u32) -> (r: bool)
    requires
        bits <= 62,
    ensures
        r == spec_fits_unsigned(v as int, bits),
{
    proof {
        vstd::arithmetic::power2::lemma2_to64();
        vstd::arithmetic::power2::lemma2_to64_rest();
        if bits < 62 {
            vstd::arithmetic::power2::lemma_pow2_strictly_increases(bits as nat, 62);
        }
    }
    let limit: i64 = power(bits) as i64;
    0 <= v && v < limit
}

/// The address with its low 12 bits cleared.
#[verifier::allow_in_spec]
pub fn page(address: u64) -> u64
    returns
        address & !0xfff,
{
    address & !0xfff
}

/// The first of `p`, `2p`, `4p`, … that is at least `n`.
pub open spec fn doubled_to(p: int, n: int) -> int
    decreases
            if n > p {
                n - p
            } else {
                0
            },
{
    if p <= 0 || p >= n {
        p
    } else {
        doubled_to(2 * p, n)
    }
}

/// Doubling never goes below where it starts, and stops as soon as it can.
pub proof fn doubling_grows(p: int, n: int)
    requires
        0 < p,
    ensures
        doubled_to(p, n) >= p,
        doubled_to(p, n) >= n,
        p < n ==> doubled_to(p, n) < 2 * n,
    decreases
            if n > p {
                n - p
            } else {
                0
            },
{
    if p < n {
        doubling_grows(2 * p, n);
    }
}

/// The smallest power of two that is at least `n`, if 64 bits hold it.
pub fn next_power_of_two(n: u64) -> (r: Option<u64>)
    ensures
        match r {
            Some(p) => p == doubled_to(1, n as int),
            None => doubled_to(1, n as int) > u64::MAX,
        },
{
    let mut p: u64 = 1;
    while p < n
        invariant
            p >= 1,
            doubled_to(1, n as int) == doubled_to(p as int, n as int),
        decreases
                if n > p {
                    n - p
                } else {
                    0
                },
    {
        if p > u64::MAX / 2 {
            proof {
                doubling_grows(2 * p, n as int);
            }
            return None;
        }
        p = p * 2;
    }
    Some(p)
}

/// `value + addend`, if 64 bits hold it.
pub open spec fn offset_by(value: u64, addend: i64) -> Option<u64> {
    if 0 <= value + addend <= u64::MAX {
        Some((value + addend) as u64)
    } else {
        None
    }
}

/// `value + addend`, if 64 bits hold it.
pub fn checked_offset(value: u64, addend: i64) -> (r: Option<u64>)
    ensures
        r == offset_by(value, addend),
{
    let sum: i128 = value as i128 + addend as i128;
    if 0 <= sum && sum <= u64::MAX as i128 {
        Some(sum as u64)
    } else {
        None
    }
}

/// Numbers of few bits, and numbers of one kind as the other.
proof fn few_bits_and_signs(x: u32, a: u64, d: i64)
    by (bit_vector)
    ensures
        x < 0x1000 ==> x & !0x8000_0000u32 == x,
        x < 0x1000 ==> x & 0x8000_0000u32 == 0,
        x >> 12 < 0x10_0000,
        x & 0xfff < 0x1000,
        a < 0x8000_0000_0000_0000 ==> a as i64 == a,
        a >= 0x8000_0000_0000_0000 ==> a as i64 == a - 0x1_0000_0000_0000_0000,
        d >= 0 ==> d as u64 == d,
        d < 0 ==> d as u64 == d + 0x1_0000_0000_0000_0000,
{
}

/// A number of few bits has no high bit to clear, and one without its low 12
/// bits has 20.
pub proof fn small_numbers(x: u32)
    ensures
        x < 0x1000 ==> x & !0x8000_0000u32 == x,
        x < 0x1000 ==> x & 0x8000_0000u32 == 0,
        x >> 12 < 0x10_0000,
        x & 0xfff < 0x1000,
{
    few_bits_and_signs(x, 0, 0);
}

/// Numbers of one kind as the other.
pub proof fn signs(a: u64, d: i64)
    ensures
        a as i64 == (if a < 0x8000_0000_0000_0000 {
            a as int
        } else {
            a - 0x1_0000_0000_0000_0000
        }),
        d as u64 == (if d >= 0 {
            d as int
        } else {
            d + 0x1_0000_0000_0000_0000
        }),
{
    few_bits_and_signs(0, a, d);
}

/// The low bits of a number hold the number where it fits them, and are its
/// remainder where it does not.
pub proof fn low_bits(v: u64, old: u64)
    by (bit_vector)
    ensures
        -0x8000_0000 <= v as i64 && v as i64 <= 0x7fff_ffff ==> ((v as u32) as i32) as i64
            == v as i64,
        -0x8000 <= v as i64 && v as i64 <= 0x7fff ==> ((v as u16) as i16) as i64 == v as i64,
        -0x80 <= v as i64 && v as i64 <= 0x7f ==> ((v as u8) as i8) as i64 == v as i64,
        v as u32 == v % 0x1_0000_0000,
        v as u16 == v % 0x1_0000,
        v as u8 == v % 0x100,
        ((v >> 32) as u32) as u64 * 0x1_0000_0000 + (v as u32) == v,
        (old << 32 | v as u32 as u64) >> 32 == old as u32,
        old <= 0xffff_ffff && v <= 0xffff_ffff ==> old << 32 | v == old * 0x1_0000_0000 + v,
        (v >> 32) as u8 == ((v >> 32) as u32) as u8,
        (v >> 40) as u8 == (((v >> 32) as u32) >> 8) as u8,
        (v >> 48) as u8 == (((v >> 32) as u32) >> 16) as u8,
        (v >> 56) as u8 == (((v >> 32) as u32) >> 24) as u8,
        v as u8 == (v as u32) as u8,
        (v >> 8) as u8 == ((v as u32) >> 8) as u8,
        (v >> 16) as u8 == ((v as u32) >> 16) as u8,
        (v >> 24) as u8 == ((v as u32) >> 24) as u8,
        (v as i64) as u32 == v as u32,
{
}

/// The low half of a sum or a difference is its remainder.
pub proof fn low_halves(a: u64, b: u64)
    ensures
        a as u32 == a as int % 0x1_0000_0000,
        a.wrapping_add(b) as u32 == (a + b) % 0x1_0000_0000,
        a.wrapping_sub(b) as u32 == (a - b) % 0x1_0000_0000,
{
    let sum = a.wrapping_add(b);
    let less = a.wrapping_sub(b);
    assert(a as u32 == a as int % 0x1_0000_0000) by {
        low_bits(a, 0);
    }
    assert(sum as u32 == sum as int % 0x1_0000_0000) by {
        low_bits(sum, 0);
    }
    assert(less as u32 == less as int % 0x1_0000_0000) by {
        low_bits(less, 0);
    }
    vstd::arithmetic::div_mod::lemma_mod_multiples_vanish(
        0x1_0000_0000,
        sum as int,
        0x1_0000_0000,
    );
    vstd::arithmetic::div_mod::lemma_mod_multiples_vanish(
        -0x1_0000_0000,
        less as int,
        0x1_0000_0000,
    );
}

} // verus!
