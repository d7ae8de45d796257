//! ULEB128 numbers: 7 bits a byte, the lowest first, all but the last byte
//! marked as continued.

use vstd::prelude::*;

verus! {

/// Where the number at `at` of `s` ends, if it does.
pub open spec fn uleb_end(s: Seq<u8>, at: int) -> Option<int>
    decreases s.len() - at,
{
    if at < 0 || at >= s.len() {
        None
    } else if s[at] & 0x80 == 0 {
        Some(at + 1)
    } else {
        uleb_end(s, at + 1)
    }
}

/// The number in the bytes from `at` up to `end`; bits past the 64th are
/// dropped.
pub open spec fn uleb_value(s: Seq<u8>, at: int, end: int) -> u64
    decreases end - at,
{
    if at >= end {
        0
    } else {
        (s[at] & 0x7f) as u64 | uleb_value(s, at + 1, end) << 7
    }
}

/// `s` with the bytes from `at` up to `end` holding `value`; bits that need
/// more of them are dropped.
pub open spec fn uleb_written(s: Seq<u8>, at: int, end: int, value: u64) -> Seq<u8>
    decreases end - at,
{
    if at + 1 >= end {
        s.update(at, (value as u8) & 0x7f)
    } else {
        uleb_written(s.update(at, 0x80 | (value as u8) & 0x7f), at + 1, end, value >> 7)
    }
}

/// A number is made of its low 7 bits and the rest, and the high bit of a
/// byte is free to tell whether there is a rest.
pub proof fn septets(value: u64, b: u8)
    by (bit_vector)
    ensures
        value <= 0x7f ==> ((value as u8) & 0x7f) & 0x80 == 0 && ((((value as u8) & 0x7f)
            & 0x7f) as u64 | (0u64 << 7)) == value,
        (0x80 | (value as u8) & 0x7f) & 0x80 != 0 && (((0x80 | (value as u8) & 0x7f) & 0x7f) as u64
            | ((value >> 7) << 7)) == value,
        (b & 0x7f) as u64 | 0u64 << 7 == (b & 0x7f) as u64,
        value >> 7 != 0 ==> value >> 7 < value,
        value >> 7 == 0 ==> ((value & 0x7f) as u8) & 0x80 == 0 && (((value & 0x7f) as u8
            & 0x7f) as u64 | 0u64 << 7) == value,
        ((value & 0x7f) as u8 | 0x80) & 0x80 != 0 && ((((value & 0x7f) as u8 | 0x80)
            & 0x7f) as u64 | (value >> 7) << 7) == value,
{
}

/// What is left of `value` for the last of `n` bytes.
pub open spec fn uleb_rest(n: int, value: u64) -> u64
    decreases n,
{
    if n <= 1 {
        value
    } else {
        uleb_rest(n - 1, value >> 7)
    }
}

/// Writing a number changes no byte outside it.
pub proof fn written_elsewhere(s: Seq<u8>, at: int, end: int, value: u64)
    requires
        0 <= at < end <= s.len(),
    ensures
        uleb_written(s, at, end, value).len() == s.len(),
        forall|i: int|
            0 <= i < s.len() && !(at <= i < end) ==> #[trigger] uleb_written(
                s,
                at,
                end,
                value,
            )[i] == s[i],
    decreases end - at,
{
    if at + 1 < end {
        let t = s.update(at, 0x80 | (value as u8) & 0x7f);
        written_elsewhere(t, at + 1, end, value >> 7);
        assert(uleb_written(s, at, end, value) == uleb_written(t, at + 1, end, value >> 7));
    }
}

/// A number written over one of the same length reads back, if that length
/// holds it.
pub proof fn written_reads_back(s: Seq<u8>, at: int, end: int, value: u64)
    requires
        0 <= at < end <= s.len(),
        uleb_rest(end - at, value) <= 0x7f,
    ensures
        uleb_end(uleb_written(s, at, end, value), at) == Some(end),
        uleb_value(uleb_written(s, at, end, value), at, end) == value,
    decreases end - at,
{
    let w = uleb_written(s, at, end, value);
    if at + 1 >= end {
        assert(w[at] == (value as u8) & 0x7f);
        assert(uleb_value(w, at + 1, end) == 0);
        septets(value, 0);
    } else {
        let first = 0x80 | (value as u8) & 0x7f;
        let t = s.update(at, first);
        written_elsewhere(t, at + 1, end, value >> 7);
        written_reads_back(t, at + 1, end, value >> 7);
        assert(w == uleb_written(t, at + 1, end, value >> 7));
        assert(w[at] == first);
        septets(value, 0);
    }
}

/// The index of the last byte of the number at `at`, if it has one.
pub fn last_byte(data: &[u8], at: u64) -> (r: Option<usize>)
    ensures
        match r {
            Some(last) => at <= last < data@.len() && at as usize == at && uleb_end(data@, at as int)
                == Some(last + 1),
            None => uleb_end(data@, at as int) is None,
        },
{
    let len: usize = data.len();
    if at >= len as u64 {
        return None;
    }
    let mut last: usize = at as usize;
    while data[last] & 0x80 != 0
        invariant
            at <= last < len,
            len == data@.len(),
            uleb_end(data@, at as int) == uleb_end(data@, last as int),
        decreases len - last,
    {
        if last + 1 >= len {
            assert(uleb_end(data@, last + 1) is None);
            return None;
        }
        last += 1;
    }
    Some(last)
}

/// The number in the bytes from `start` to `last`.
pub fn value_of(data: &[u8], start: usize, last: usize) -> (r: u64)
    requires
        start <= last < data@.len(),
    ensures
        r == uleb_value(data@, start as int, last + 1),
{
    let mut i: usize = last;
    let mut value: u64 = (data[last] & 0x7f) as u64;
    proof {
        let b = data@[last as int];
        assert(uleb_value(data@, last + 1, last + 1) == 0);
        septets(0, b);
    }
    while i > start
        invariant
            start <= i <= last < data@.len(),
            value == uleb_value(data@, i as int, last + 1),
        decreases i,
    {
        i -= 1;
        value = (data[i] & 0x7f) as u64 | value << 7;
    }
    value
}

/// Writes `value` over the bytes from `start` to `last`.
pub fn rewrite(out: &mut [u8], start: usize, last: usize, value: u64)
    requires
        start <= last < old(out)@.len(),
    ensures
        final(out)@ == uleb_written(old(out)@, start as int, last + 1, value),
{
    let len: usize = out.len();
    let mut i: usize = start;
    let mut v: u64 = value;
    while i < last
        invariant
            start <= i <= last < len,
            len == out@.len(),
            len == old(out)@.len(),
            uleb_written(old(out)@, start as int, last + 1, value) == uleb_written(
                out@,
                i as int,
                last + 1,
                v,
            ),
        decreases last - i,
    {
        out[i] = 0x80 | (v as u8) & 0x7f;
        v = v >> 7;
        i += 1;
    }
    out[last] = (v as u8) & 0x7f;
}

/// What is left of `value` for the last of `n` bytes.
pub fn rest_of(n: usize, value: u64) -> (r: u64)
    requires
        n >= 1,
    ensures
        r == uleb_rest(n as int, value),
{
    let mut left: usize = n;
    let mut v: u64 = value;
    while left > 1
        invariant
            1 <= left,
            uleb_rest(left as int, v) == uleb_rest(n as int, value),
        decreases left,
    {
        v = v >> 7;
        left -= 1;
    }
    v
}

/// The shortest encoding of `value`.
pub open spec fn uleb_bytes(value: u64) -> Seq<u8>
    decreases value,
{
    if value >> 7 == 0 {
        seq![(value & 0x7f) as u8]
    } else {
        proof {
            septets(value, 0);
        }
        seq![(value & 0x7f) as u8 | 0x80] + uleb_bytes(value >> 7)
    }
}

/// Appends the shortest encoding of `value`.
pub fn push_uleb(out: &mut Vec<u8>, value: u64)
    ensures
        final(out)@ == old(out)@ + uleb_bytes(value),
{
    let mut v: u64 = value;
    while v >> 7 != 0
        invariant
            old(out)@ + uleb_bytes(value) == out@ + uleb_bytes(v),
        decreases v,
    {
        proof {
            septets(v, 0);
        }
        let ghost before = out@;
        out.push((v & 0x7f) as u8 | 0x80);
        assert(before + uleb_bytes(v) =~= out@ + uleb_bytes(v >> 7));
        v = v >> 7;
    }
    let ghost before = out@;
    out.push((v & 0x7f) as u8);
    assert(before + uleb_bytes(v) =~= out@);
}

/// A number appended to a sequence reads back from it.
pub proof fn pushed_reads_back(s: Seq<u8>, at: int, value: u64)
    requires
        0 <= at,
        at + uleb_bytes(value).len() <= s.len(),
        s.subrange(at, at + uleb_bytes(value).len()) == uleb_bytes(value),
    ensures
        uleb_end(s, at) == Some(at + uleb_bytes(value).len()),
        uleb_value(s, at, at + uleb_bytes(value).len()) == value,
        uleb_bytes(value).len() >= 1,
    decreases value,
{
    let b = uleb_bytes(value);
    assert(s[at] == s.subrange(at, at + b.len())[0]);
    if value >> 7 == 0 {
        septets(value, 0);
        assert(uleb_value(s, at + 1, at + 1) == 0);
    } else {
        septets(value, 0);
        let rest = uleb_bytes(value >> 7);
        assert(s.subrange(at + 1, at + 1 + rest.len()) =~= rest) by {
            assert forall|i: int| 0 <= i < rest.len() implies s[at + 1 + i] == rest[i] by {
                assert(s.subrange(at, at + b.len())[i + 1] == b[i + 1]);
            }
        }
        pushed_reads_back(s, at + 1, value >> 7);
    }
}

} // verus!
