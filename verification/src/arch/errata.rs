//! Cortex-A53 errata 843419 and 835769: the instruction sequences they are
//! about.

use vstd::prelude::*;

use crate::bytes::get_u32;

verus! {

/// The register in the low 5 bits: what is loaded, stored or computed.
#[verifier::allow_in_spec]
pub fn rt(insn: u32) -> u32
    returns
        (insn & 0x1f),
{
    insn & 0x1f
}

/// The base register, or the first operand.
#[verifier::allow_in_spec]
pub fn rn(insn: u32) -> u32
    returns
        ((insn >> 5) & 0x1f),
{
    (insn >> 5) & 0x1f
}

/// The second register of a pair, or the addend of a multiply-accumulate.
#[verifier::allow_in_spec]
pub fn rt2(insn: u32) -> u32
    returns
        ((insn >> 10) & 0x1f),
{
    (insn >> 10) & 0x1f
}

/// The second operand.
#[verifier::allow_in_spec]
pub fn rm(insn: u32) -> u32
    returns
        ((insn >> 16) & 0x1f),
{
    (insn >> 16) & 0x1f
}

/// `adrp`.
#[verifier::allow_in_spec]
pub fn is_adrp(insn: u32) -> bool
    returns
        (insn & 0x9f00_0000 == 0x9000_0000),
{
    insn & 0x9f00_0000 == 0x9000_0000
}

/// Whether an instruction may go elsewhere.
#[verifier::allow_in_spec]
pub fn is_branch(insn: u32) -> bool
    returns
        (insn & 0xfe00_0000 == 0xd600_0000 || insn & 0xfe00_0000 == 0x5400_0000 || insn & 0x7c00_0000
            == 0x1400_0000 || insn & 0x7c00_0000 == 0x3400_0000),
{
    insn & 0xfe00_0000 == 0xd600_0000 || insn & 0xfe00_0000 == 0x5400_0000 || insn & 0x7c00_0000
        == 0x1400_0000 || insn & 0x7c00_0000 == 0x3400_0000
}

/// A load or store of the exclusive group.
#[verifier::allow_in_spec]
pub fn is_exclusive(insn: u32) -> bool
    returns
        (insn & 0x3f00_0000 == 0x0800_0000),
{
    insn & 0x3f00_0000 == 0x0800_0000
}

/// A load from a literal.
#[verifier::allow_in_spec]
pub fn is_literal(insn: u32) -> bool
    returns
        (insn & 0x3b00_0000 == 0x1800_0000),
{
    insn & 0x3b00_0000 == 0x1800_0000
}

/// A load or store of one register with an unsigned offset.
#[verifier::allow_in_spec]
pub fn is_unsigned_offset(insn: u32) -> bool
    returns
        (insn & 0x3b00_0000 == 0x3900_0000),
{
    insn & 0x3b00_0000 == 0x3900_0000
}

/// A load or store of one register that then changes its base.
#[verifier::allow_in_spec]
pub fn is_post_indexed(insn: u32) -> bool
    returns
        (insn & 0x3b20_0c00 == 0x3800_0400),
{
    insn & 0x3b20_0c00 == 0x3800_0400
}

/// A load or store of one register that first changes its base.
#[verifier::allow_in_spec]
pub fn is_pre_indexed(insn: u32) -> bool
    returns
        (insn & 0x3b20_0c00 == 0x3800_0c00),
{
    insn & 0x3b20_0c00 == 0x3800_0c00
}

/// A load or store of one register, however it is addressed.
#[verifier::allow_in_spec]
pub fn is_single(insn: u32) -> bool
    returns
        (insn & 0x3b00_0c00 == 0x3800_0000 || is_post_indexed(insn) || insn & 0x3b20_0c00 == 0x3800_0800
            || is_pre_indexed(insn) || insn & 0x3b20_0c00 == 0x3820_0800 || is_unsigned_offset(insn)),
{
    insn & 0x3b00_0c00 == 0x3800_0000 || is_post_indexed(insn) || insn & 0x3b20_0c00 == 0x3800_0800
        || is_pre_indexed(insn) || insn & 0x3b20_0c00 == 0x3820_0800 || is_unsigned_offset(insn)
}

/// `stp` that changes its base.
#[verifier::allow_in_spec]
pub fn is_stp_writeback(insn: u32) -> bool
    returns
        (insn & 0x3bc0_0000 == 0x2880_0000 || insn & 0x3bc0_0000 == 0x2980_0000),
{
    insn & 0x3bc0_0000 == 0x2880_0000 || insn & 0x3bc0_0000 == 0x2980_0000
}

/// `stp` or `stnp`.
#[verifier::allow_in_spec]
pub fn is_store_pair(insn: u32) -> bool
    returns
        (is_stp_writeback(insn) || insn & 0x3bc0_0000 == 0x2900_0000 || insn & 0x3bc0_0000 == 0x2800_0000),
{
    is_stp_writeback(insn) || insn & 0x3bc0_0000 == 0x2900_0000 || insn & 0x3bc0_0000 == 0x2800_0000
}

/// The opcode of an `st1` of whole vectors.
#[verifier::allow_in_spec]
pub fn is_st1_vectors(insn: u32) -> bool
    returns
        (insn & 0xf000 == 0x2000 || insn & 0xf000 == 0x6000 || insn & 0xf000 == 0x7000 || insn & 0xf000
            == 0xa000),
{
    insn & 0xf000 == 0x2000 || insn & 0xf000 == 0x6000 || insn & 0xf000 == 0x7000 || insn & 0xf000
        == 0xa000
}

/// The opcode of an `st1` of one lane.
#[verifier::allow_in_spec]
pub fn is_st1_lane(insn: u32) -> bool
    returns
        (insn & 0x0040_e000 == 0 || insn & 0x0040_e000 == 0x4000 || insn & 0x0040_e000 == 0x8000),
{
    insn & 0x0040_e000 == 0 || insn & 0x0040_e000 == 0x4000 || insn & 0x0040_e000 == 0x8000
}

/// `st1` that changes its base.
#[verifier::allow_in_spec]
pub fn is_st1_writeback(insn: u32) -> bool
    returns
        ((insn & 0xbfe0_0000 == 0x0c80_0000 && is_st1_vectors(insn)) || (insn & 0xbfe0_0000 == 0x0d80_0000
            && is_st1_lane(insn))),
{
    (insn & 0xbfe0_0000 == 0x0c80_0000 && is_st1_vectors(insn)) || (insn & 0xbfe0_0000 == 0x0d80_0000
        && is_st1_lane(insn))
}

/// `st1`.
#[verifier::allow_in_spec]
pub fn is_st1(insn: u32) -> bool
    returns
        ((insn & 0xbfff_0000 == 0x0c00_0000 && is_st1_vectors(insn)) || (insn & 0xbfff_0000 == 0x0d00_0000
            && is_st1_lane(insn)) || is_st1_writeback(insn)),
{
    (insn & 0xbfff_0000 == 0x0c00_0000 && is_st1_vectors(insn)) || (insn & 0xbfff_0000 == 0x0d00_0000
        && is_st1_lane(insn)) || is_st1_writeback(insn)
}

/// Whether one of the loads and stores that [`is_erratum_843419`] looks at
/// loads a register.
#[verifier::allow_in_spec]
pub fn loads(insn: u32) -> bool
    returns
        (insn & 0x3f40_0000 == 0x0840_0000 || is_literal(insn) || (is_single(insn) && (insn >> 22) & 3
            != 0 && !((insn >> 30) == 0 && (insn >> 26) & 1 == 1 && (insn >> 22) & 3 == 2) && !((insn
            >> 30) == 3 && (insn >> 26) & 1 == 0 && (insn >> 22) & 3 == 2))),
{
    insn & 0x3f40_0000 == 0x0840_0000 || is_literal(insn) || (is_single(insn) && (insn >> 22) & 3
        != 0 && !((insn >> 30) == 0 && (insn >> 26) & 1 == 1 && (insn >> 22) & 3 == 2) && !((insn
        >> 30) == 3 && (insn >> 26) & 1 == 0 && (insn >> 22) & 3 == 2))
}

/// Whether a load or store writes register `r`: it loads it, or changes it
/// as its base.
#[verifier::allow_in_spec]
pub fn writes(insn: u32, r: u32) -> bool
    returns
        ((loads(insn) && rt(insn) == r) || ((is_pre_indexed(insn) || is_post_indexed(insn)
            || is_stp_writeback(insn) || is_st1_writeback(insn)) && rn(insn) == r)),
{
    (loads(insn) && rt(insn) == r) || ((is_pre_indexed(insn) || is_post_indexed(insn)
        || is_stp_writeback(insn) || is_st1_writeback(insn)) && rn(insn) == r)
}

/// Whether three instructions make erratum 843419: an `adrp`, a load or
/// store that leaves its register alone, and a load or store with an
/// unsigned offset from that register.
#[verifier::allow_in_spec]
pub fn is_erratum_843419(first: u32, second: u32, last: u32) -> bool
    returns
        (is_adrp(first) && second & 0x0a00_0000 == 0x0800_0000 && (is_exclusive(second) || is_literal(
            second,
        ) || is_single(second) || is_store_pair(second) || is_st1(second)) && !writes(second, rt(first))
            && is_unsigned_offset(last) && rn(last) == rt(first)),
{
    is_adrp(first) && second & 0x0a00_0000 == 0x0800_0000 && (is_exclusive(second) || is_literal(
        second,
    ) || is_single(second) || is_store_pair(second) || is_st1(second)) && !writes(second, rt(first))
        && is_unsigned_offset(last) && rn(last) == rt(first)
}

/// A word of code.
pub open spec fn word(code: Seq<u8>, at: int) -> u32 {
    match crate::bytes::u32_at(code, at) {
        Some(w) => w,
        None => 0,
    }
}

/// A word of code.
fn read_word(code: &[u8], at: u64) -> (r: u32)
    ensures
        r == word(code@, at as int),
{
    match get_u32(code, at) {
        Some(w) => w,
        None => 0,
    }
}

/// The bytes from address `address` to the next place where a sequence of
/// erratum 843419 may start: the last two words of a page.
#[verifier::allow_in_spec]
pub fn to_page_end(address: u64) -> u64
    returns
        (if address & 0xfff < 0xff8 {
            (0xff8 - (address & 0xfff)) as u64
        } else {
            0
        }),
{
    if address & 0xfff < 0xff8 {
        (0xff8 - (address & 0xfff)) as u64
    } else {
        0
    }
}

/// Where the instruction to patch is when a sequence of erratum 843419
/// starts at `at`: its third or, unless the third is a branch, its fourth.
pub open spec fn patch_843419(code: Seq<u8>, at: int, end: int) -> Option<int> {
    if end - at < 12 {
        None
    } else if is_erratum_843419(word(code, at), word(code, at + 4), word(code, at + 8)) {
        Some(at + 8)
    } else if end - at > 12 && !is_branch(word(code, at + 8)) && is_erratum_843419(
        word(code, at),
        word(code, at + 4),
        word(code, at + 12),
    ) {
        Some(at + 12)
    } else {
        None
    }
}

/// The instructions to patch for erratum 843419 from `at` on, in code at
/// `base` that ends at `end`.
pub open spec fn found_843419(code: Seq<u8>, base: u64, at: int, end: int) -> Seq<u64>
    decreases end - at + 0x1000,
{
    let first = at + to_page_end(base.wrapping_add(at as u64));
    if at < 0 || first >= end || end - first < 12 {
        Seq::empty()
    } else {
        let step: int = if base.wrapping_add(first as u64) & 0xfff == 0xff8 {
            4
        } else {
            0xffc
        };
        let rest = found_843419(code, base, first + step, end);
        match patch_843419(code, first, end) {
            Some(p) => seq![p as u64] + rest,
            None => rest,
        }
    }
}

/// The offsets of the instructions to patch for erratum 843419 in `code`
/// from `start` up to `end`, which is at `base`.
pub fn scan_843419(code: &[u8], base: u64, start: u64, end: u64) -> (r: Vec<u64>)
    requires
        end <= code@.len(),
    ensures
        r@ == found_843419(code@, base, start as int, end as int),
{
    let _len: usize = code.len();
    let mut out: Vec<u64> = Vec::new();
    let mut at: u64 = start;
    let ghost whole = found_843419(code@, base, start as int, end as int);
    assert(whole =~= out@ + whole);
    while at < end
        invariant
            end <= code@.len(),
            code@.len() <= usize::MAX,
            whole == found_843419(code@, base, start as int, end as int),
            whole == out@ + found_843419(code@, base, at as int, end as int),
        decreases end - at,
    {
        let ghost before = out@;
        let skip: u64 = to_page_end(base.wrapping_add(at));
        proof {
            let a = base.wrapping_add(at);
            assert(a & 0xfff < 0x1000) by (bit_vector);
        }
        if skip >= end - at || end - at - skip < 12 {
            assert(out@ =~= whole);
            return out;
        }
        let first: u64 = at + skip;
        let w0: u32 = read_word(code, first);
        let w1: u32 = read_word(code, first + 4);
        let w2: u32 = read_word(code, first + 8);
        let step: u64 = if base.wrapping_add(first) & 0xfff == 0xff8 {
            4
        } else {
            0xffc
        };
        let ghost rest = found_843419(code@, base, first + step, end as int);
        if is_erratum_843419(w0, w1, w2) {
            out.push(first + 8);
            assert(before + (seq![(first + 8) as u64] + rest) =~= out@ + rest);
        } else if end - first > 12 && !is_branch(w2) {
            if is_erratum_843419(w0, w1, read_word(code, first + 12)) {
                out.push(first + 12);
                assert(before + (seq![(first + 12) as u64] + rest) =~= out@ + rest);
            }
        }
        assert(whole == out@ + rest);
        if step >= end - first {
            assert(rest =~= Seq::empty());
            assert(whole =~= out@);
            return out;
        }
        at = first + step;
    }
    assert(whole =~= out@);
    out
}

/// Whether an instruction multiplies and accumulates 64 bits.
#[verifier::allow_in_spec]
pub fn is_multiply_accumulate(insn: u32) -> bool
    returns
        (insn & 0xff00_0000 == 0x9b00_0000 && ((insn >> 21) & 7 == 0 || (insn >> 21) & 7 == 1 || (insn
            >> 21) & 7 == 5) && rt2(insn) != 31),
{
    insn & 0xff00_0000 == 0x9b00_0000 && ((insn >> 21) & 7 == 0 || (insn >> 21) & 7 == 1 || (insn
        >> 21) & 7 == 5) && rt2(insn) != 31
}

/// A load or store of a pair, not of the exclusive group.
#[verifier::allow_in_spec]
pub fn is_pair(insn: u32) -> bool
    returns
        (insn & 0x3b80_0000 == 0x2800_0000 || insn & 0x3b80_0000 == 0x2880_0000 || insn & 0x3b80_0000
            == 0x2900_0000 || insn & 0x3b80_0000 == 0x2980_0000),
{
    insn & 0x3b80_0000 == 0x2800_0000 || insn & 0x3b80_0000 == 0x2880_0000 || insn & 0x3b80_0000
        == 0x2900_0000 || insn & 0x3b80_0000 == 0x2980_0000
}

/// A load or store of several whole vectors.
#[verifier::allow_in_spec]
pub fn is_vectors(insn: u32) -> bool
    returns
        ((insn & 0xbfbf_0000 == 0x0c00_0000 || insn & 0xbfa0_0000 == 0x0c80_0000) && ((insn >> 12) & 0xf
            == 0 || (insn >> 12) & 0xf == 2 || (insn >> 12) & 0xf == 4 || (insn >> 12) & 0xf == 6 || (
        insn >> 12) & 0xf == 7 || (insn >> 12) & 0xf == 8 || (insn >> 12) & 0xf == 10)),
{
    (insn & 0xbfbf_0000 == 0x0c00_0000 || insn & 0xbfa0_0000 == 0x0c80_0000) && ((insn >> 12) & 0xf
        == 0 || (insn >> 12) & 0xf == 2 || (insn >> 12) & 0xf == 4 || (insn >> 12) & 0xf == 6 || (
    insn >> 12) & 0xf == 7 || (insn >> 12) & 0xf == 8 || (insn >> 12) & 0xf == 10)
}

/// A load or store of one lane.
#[verifier::allow_in_spec]
pub fn is_lane(insn: u32) -> bool
    returns
        (insn & 0xbf9f_0000 == 0x0d00_0000 || insn & 0xbf80_0000 == 0x0d80_0000),
{
    insn & 0xbf9f_0000 == 0x0d00_0000 || insn & 0xbf80_0000 == 0x0d80_0000
}

/// Whether an instruction loads or stores.
#[verifier::allow_in_spec]
pub fn is_memory(insn: u32) -> bool
    returns
        (is_exclusive(insn) || is_pair(insn) || is_literal(insn) || is_single(insn) || is_vectors(insn)
            || is_lane(insn)),
{
    is_exclusive(insn) || is_pair(insn) || is_literal(insn) || is_single(insn) || is_vectors(insn)
        || is_lane(insn)
}

/// Whether an instruction that loads or stores is about two registers.
#[verifier::allow_in_spec]
pub fn is_two(insn: u32) -> bool
    returns
        (if is_exclusive(insn) {
            (insn >> 21) & 1 != 0
        } else {
            is_pair(insn)
        }),
{
    if is_exclusive(insn) {
        (insn >> 21) & 1 != 0
    } else {
        is_pair(insn)
    }
}

/// Whether an instruction that loads or stores general registers loads.
#[verifier::allow_in_spec]
pub fn reads_memory(insn: u32) -> bool
    returns
        (if is_exclusive(insn) || is_pair(insn) {
            (insn >> 22) & 1 != 0
        } else {
            is_literal(insn) || (insn >> 22) & 3 != 0
        }),
{
    if is_exclusive(insn) || is_pair(insn) {
        (insn >> 22) & 1 != 0
    } else {
        is_literal(insn) || (insn >> 22) & 3 != 0
    }
}

/// Whether a multiply-accumulate reads register `r`.
#[verifier::allow_in_spec]
pub fn multiplies(insn: u32, r: u32) -> bool
    returns
        (rn(insn) == r || rm(insn) == r || rt2(insn) == r),
{
    rn(insn) == r || rm(insn) == r || rt2(insn) == r
}

/// Whether two instructions make erratum 835769: a load or store, then a
/// 64-bit multiply-accumulate that does not wait for what is loaded.
#[verifier::allow_in_spec]
pub fn is_erratum_835769(first: u32, second: u32) -> bool
    returns
        (is_multiply_accumulate(second) && is_memory(first) && ((first >> 26) & 1 != 0 || !(reads_memory(
            first,
        ) && (multiplies(second, rt(first)) || (is_two(first) && multiplies(second, rt2(first))))))),
{
    is_multiply_accumulate(second) && is_memory(first) && ((first >> 26) & 1 != 0 || !(reads_memory(
        first,
    ) && (multiplies(second, rt(first)) || (is_two(first) && multiplies(second, rt2(first))))))
}

/// The instructions to patch for erratum 835769 from `at` on, in code that
/// ends at `end`.
pub open spec fn found_835769(code: Seq<u8>, at: int, end: int) -> Seq<u64>
    decreases end - at,
{
    if at + 4 >= end {
        Seq::empty()
    } else {
        let rest = found_835769(code, at + 4, end);
        if is_erratum_835769(word(code, at), word(code, at + 4)) {
            seq![(at + 4) as u64] + rest
        } else {
            rest
        }
    }
}

/// The offsets of the instructions to patch for erratum 835769 in `code`
/// from `start` up to `end`.
pub fn scan_835769(code: &[u8], start: u64, end: u64) -> (r: Vec<u64>)
    requires
        end <= code@.len(),
    ensures
        r@ == found_835769(code@, start as int, end as int),
{
    let mut out: Vec<u64> = Vec::new();
    let mut at: u64 = start;
    let ghost whole = found_835769(code@, start as int, end as int);
    assert(whole =~= out@ + whole);
    while at < end && end - at > 4
        invariant
            whole == out@ + found_835769(code@, at as int, end as int),
        decreases end - at,
    {
        let ghost before = out@;
        let ghost rest = found_835769(code@, at + 4, end as int);
        if is_erratum_835769(read_word(code, at), read_word(code, at + 4)) {
            out.push(at + 4);
            assert(before + (seq![(at + 4) as u64] + rest) =~= out@ + rest);
        }
        at += 4;
    }
    assert(whole =~= out@);
    out
}

/// A patched instruction of erratum 843419 lies inside the code and comes
/// after an `adrp` in the last two words of a page.
pub proof fn patches_843419_follow_an_adrp(code: Seq<u8>, at: int, end: int)
    ensures
        match patch_843419(code, at, end) {
            Some(p) => at + 8 <= p < end && is_adrp(word(code, at)) && is_unsigned_offset(
                word(code, p),
            ) && rn(word(code, p)) == rt(word(code, at)),
            None => true,
        },
{
}

} // verus!
