//! Bytes in a buffer: reading and writing fixed-width numbers at an offset.
//!
//! Offsets are 64-bit because that is what relocations carry. An access
//! that does not lie wholly inside the buffer reads nothing and writes
//! nothing.

use vstd::prelude::*;

verus! {

/// Whether `n` bytes at `at` lie inside `s`.
pub open spec fn inside(s: Seq<u8>, at: int, n: int) -> bool {
    0 <= at && at + n <= s.len()
}

/// `s` with `b` written over it at `at`.
pub open spec fn overlay(s: Seq<u8>, at: int, b: Seq<u8>) -> Seq<u8> {
    Seq::new(s.len(), |i: int| if at <= i < at + b.len() { b[i - at] } else { s[i] })
}

/// `s` with `b` written over it at `at`, or `s` itself when `b` does not
/// lie inside it.
pub open spec fn stored(s: Seq<u8>, at: int, b: Seq<u8>) -> Seq<u8> {
    if inside(s, at, b.len() as int) {
        overlay(s, at, b)
    } else {
        s
    }
}

/// The byte at `at`, if there is one.
pub open spec fn byte_at(s: Seq<u8>, at: int) -> Option<u8> {
    if 0 <= at < s.len() {
        Some(s[at])
    } else {
        None
    }
}

/// The little-endian bytes of a 16-bit number.
pub open spec fn spec_le16(x: u16) -> Seq<u8> {
    seq![x as u8, (x >> 8) as u8]
}

/// The little-endian bytes of a 32-bit number.
pub open spec fn spec_le32(x: u32) -> Seq<u8> {
    seq![x as u8, (x >> 8) as u8, (x >> 16) as u8, (x >> 24) as u8]
}

/// The little-endian bytes of a 64-bit number.
pub open spec fn spec_le64(x: u64) -> Seq<u8> {
    seq![
        x as u8,
        (x >> 8) as u8,
        (x >> 16) as u8,
        (x >> 24) as u8,
        (x >> 32) as u8,
        (x >> 40) as u8,
        (x >> 48) as u8,
        (x >> 56) as u8,
    ]
}

/// The big-endian bytes of a 16-bit number.
pub open spec fn spec_be16(x: u16) -> Seq<u8> {
    seq![(x >> 8) as u8, x as u8]
}

/// The big-endian bytes of a 32-bit number.
pub open spec fn spec_be32(x: u32) -> Seq<u8> {
    seq![(x >> 24) as u8, (x >> 16) as u8, (x >> 8) as u8, x as u8]
}

/// The big-endian bytes of a 64-bit number.
pub open spec fn spec_be64(x: u64) -> Seq<u8> {
    seq![
        (x >> 56) as u8,
        (x >> 48) as u8,
        (x >> 40) as u8,
        (x >> 32) as u8,
        (x >> 24) as u8,
        (x >> 16) as u8,
        (x >> 8) as u8,
        x as u8,
    ]
}

/// The 16-bit number whose little-endian bytes these are.
pub open spec fn u16_of(a: u8, b: u8) -> u16 {
    (a as u16) | ((b as u16) << 8)
}

/// The 32-bit number whose little-endian bytes these are.
pub open spec fn u32_of(a: u8, b: u8, c: u8, d: u8) -> u32 {
    (a as u32) | ((b as u32) << 8) | ((c as u32) << 16) | ((d as u32) << 24)
}

/// The little-endian 16-bit number at `at`, if it lies inside `s`.
pub open spec fn u16_at(s: Seq<u8>, at: int) -> Option<u16> {
    if inside(s, at, 2) {
        Some(u16_of(s[at], s[at + 1]))
    } else {
        None
    }
}

/// The little-endian 32-bit number at `at`, if it lies inside `s`.
pub open spec fn u32_at(s: Seq<u8>, at: int) -> Option<u32> {
    if inside(s, at, 4) {
        Some(u32_of(s[at], s[at + 1], s[at + 2], s[at + 3]))
    } else {
        None
    }
}

/// The bytes of a number make it up.
proof fn bytes_make_the_number(h: u16, w: u32)
    by (bit_vector)
    ensures
        (h as u8) as u16 | (((h >> 8) as u8) as u16) << 8 == h,
        (w as u8) as u32 | (((w >> 8) as u8) as u32) << 8 | (((w >> 16) as u8) as u32) << 16 | (((w
            >> 24) as u8) as u32) << 24 == w,
{
}

/// Reading a 16-bit number back gives what was written.
pub proof fn u16_round_trip(s: Seq<u8>, at: int, x: u16)
    requires
        inside(s, at, 2),
    ensures
        u16_at(stored(s, at, spec_le16(x)), at) == Some(x),
{
    bytes_make_the_number(x, 0);
}

/// Reading a 32-bit number back gives what was written.
pub proof fn u32_round_trip(s: Seq<u8>, at: int, x: u32)
    requires
        inside(s, at, 4),
    ensures
        u32_at(stored(s, at, spec_le32(x)), at) == Some(x),
{
    bytes_make_the_number(0, x);
}

/// A write changes the bytes it covers and no others, and never the length.
pub proof fn stores_touch_only_their_bytes(s: Seq<u8>, at: int, b: Seq<u8>)
    ensures
        stored(s, at, b).len() == s.len(),
        forall|i: int| 0 <= i < s.len() && !(at <= i < at + b.len()) ==> stored(s, at, b)[i] == s[i],
        inside(s, at, b.len() as int) ==> stored(s, at, b).subrange(at, at + b.len()) == b,
{
    if inside(s, at, b.len() as int) {
        assert(stored(s, at, b).subrange(at, at + b.len()) =~= b);
    }
}

/// The index of `n` bytes at `offset` of a buffer of `len` bytes, if they
/// lie inside it.
pub fn place(len: usize, offset: u64, n: usize) -> (r: Option<usize>)
    ensures
        r == (if offset + n <= len {
            Some(offset as usize)
        } else {
            None
        }),
        offset <= len ==> offset as usize == offset,
{
    if offset > len as u64 {
        return None;
    }
    let at: usize = offset as usize;
    if len - at < n {
        None
    } else {
        Some(at)
    }
}

/// Writes `b` over `out` at `at`.
pub fn write_over(out: &mut [u8], at: usize, b: &[u8])
    requires
        at + b@.len() <= old(out)@.len(),
    ensures
        final(out)@ == overlay(old(out)@, at as int, b@),
{
    let len: usize = out.len();
    let mut i: usize = 0;
    while i < b.len()
        invariant
            i <= b@.len(),
            at + b@.len() <= out@.len(),
            out@.len() == len,
            out@.len() == old(out)@.len(),
            forall|j: int|
                0 <= j < out@.len() ==> #[trigger] out@[j] == (if at <= j < at + i {
                    b@[j - at]
                } else {
                    old(out)@[j]
                }),
        decreases b@.len() - i,
    {
        out[at + i] = b[i];
        i += 1;
    }
    assert(out@ =~= overlay(old(out)@, at as int, b@));
}

/// Writes `b` at `offset` when it lies inside `out`, and says whether it
/// did.
pub fn store(out: &mut [u8], offset: u64, b: &[u8]) -> (r: bool)
    ensures
        final(out)@ == stored(old(out)@, offset as int, b@),
        r == inside(old(out)@, offset as int, b@.len() as int),
{
    match place(out.len(), offset, b.len()) {
        Some(at) => {
            write_over(out, at, b);
            true
        },
        None => false,
    }
}

/// The byte at `offset`, if there is one.
pub fn get_byte(data: &[u8], offset: u64) -> (r: Option<u8>)
    ensures
        r == byte_at(data@, offset as int),
{
    match place(data.len(), offset, 1) {
        Some(at) => Some(data[at]),
        None => None,
    }
}

/// The byte `back` bytes before `offset`, if there is one.
pub fn byte_before(data: &[u8], offset: u64, back: u64) -> (r: Option<u8>)
    ensures
        r == byte_at(data@, offset - back),
{
    if offset < back {
        None
    } else {
        get_byte(data, offset - back)
    }
}

/// The byte `forward` bytes after `offset`, if there is one.
pub fn byte_after(data: &[u8], offset: u64, forward: u64) -> (r: Option<u8>)
    ensures
        r == byte_at(data@, offset + forward),
{
    let len: usize = data.len();
    match offset.checked_add(forward) {
        Some(at) if at < len as u64 => get_byte(data, at),
        _ => None,
    }
}

/// The little-endian bytes of a 16-bit number.
pub fn le16(x: u16) -> (r: [u8; 2])
    ensures
        r@ == spec_le16(x),
{
    let r: [u8; 2] = [x as u8, (x >> 8) as u8];
    assert(r@ =~= spec_le16(x));
    r
}

/// The little-endian bytes of a 32-bit number.
pub fn le32(x: u32) -> (r: [u8; 4])
    ensures
        r@ == spec_le32(x),
{
    let r: [u8; 4] = [x as u8, (x >> 8) as u8, (x >> 16) as u8, (x >> 24) as u8];
    assert(r@ =~= spec_le32(x));
    r
}

/// The little-endian bytes of a 64-bit number.
pub fn le64(x: u64) -> (r: [u8; 8])
    ensures
        r@ == spec_le64(x),
{
    let r: [u8; 8] = [
        x as u8,
        (x >> 8) as u8,
        (x >> 16) as u8,
        (x >> 24) as u8,
        (x >> 32) as u8,
        (x >> 40) as u8,
        (x >> 48) as u8,
        (x >> 56) as u8,
    ];
    assert(r@ =~= spec_le64(x));
    r
}

/// The big-endian bytes of a 16-bit number.
pub fn be16(x: u16) -> (r: [u8; 2])
    ensures
        r@ == spec_be16(x),
{
    let r: [u8; 2] = [(x >> 8) as u8, x as u8];
    assert(r@ =~= spec_be16(x));
    r
}

/// The big-endian bytes of a 32-bit number.
pub fn be32(x: u32) -> (r: [u8; 4])
    ensures
        r@ == spec_be32(x),
{
    let r: [u8; 4] = [(x >> 24) as u8, (x >> 16) as u8, (x >> 8) as u8, x as u8];
    assert(r@ =~= spec_be32(x));
    r
}

/// The big-endian bytes of a 64-bit number.
pub fn be64(x: u64) -> (r: [u8; 8])
    ensures
        r@ == spec_be64(x),
{
    let r: [u8; 8] = [
        (x >> 56) as u8,
        (x >> 48) as u8,
        (x >> 40) as u8,
        (x >> 32) as u8,
        (x >> 24) as u8,
        (x >> 16) as u8,
        (x >> 8) as u8,
        x as u8,
    ];
    assert(r@ =~= spec_be64(x));
    r
}

/// The little-endian 16-bit number at `offset`, if it lies inside `data`.
pub fn get_u16(data: &[u8], offset: u64) -> (r: Option<u16>)
    ensures
        r == u16_at(data@, offset as int),
{
    match place(data.len(), offset, 2) {
        Some(at) => Some((data[at] as u16) | ((data[at + 1] as u16) << 8)),
        None => None,
    }
}

/// The little-endian 32-bit number at `offset`, if it lies inside `data`.
pub fn get_u32(data: &[u8], offset: u64) -> (r: Option<u32>)
    ensures
        r == u32_at(data@, offset as int),
{
    match place(data.len(), offset, 4) {
        Some(at) => Some(
            (data[at] as u32) | ((data[at + 1] as u32) << 8) | ((data[at + 2] as u32) << 16) | ((
            data[at + 3] as u32) << 24),
        ),
        None => None,
    }
}

/// Writes a little-endian 32-bit number at `offset`, and says whether it
/// lies inside `out`.
pub fn put_u32(out: &mut [u8], offset: u64, x: u32) -> (r: bool)
    ensures
        final(out)@ == stored(old(out)@, offset as int, spec_le32(x)),
        r == inside(old(out)@, offset as int, 4),
{
    let b: [u8; 4] = le32(x);
    store(out, offset, &b)
}

/// Writes a little-endian 16-bit number at `offset`, and says whether it
/// lies inside `out`.
pub fn put_u16(out: &mut [u8], offset: u64, x: u16) -> (r: bool)
    ensures
        final(out)@ == stored(old(out)@, offset as int, spec_le16(x)),
        r == inside(old(out)@, offset as int, 2),
{
    let b: [u8; 2] = le16(x);
    store(out, offset, &b)
}

/// Fills `out` with `word` in 4-byte steps; a partial word is zeroed.
pub open spec fn filled_with(s: Seq<u8>, word: u32) -> Seq<u8> {
    Seq::new(
        s.len(),
        |i: int|
            if i < s.len() - s.len() % 4 {
                spec_le32(word)[i % 4]
            } else {
                0u8
            },
    )
}

/// Fills `out` with the 4-byte instruction `word`; a partial word at the
/// end is zeroed.
pub fn fill_words(out: &mut [u8], word: u32)
    ensures
        final(out)@ == filled_with(old(out)@, word),
{
    let b: [u8; 4] = le32(word);
    let whole: usize = out.len() - out.len() % 4;
    let mut i: usize = 0;
    while i < out.len()
        invariant
            i <= out@.len(),
            out@.len() == old(out)@.len(),
            whole == old(out)@.len() - old(out)@.len() % 4,
            b@ == spec_le32(word),
            forall|j: int|
                0 <= j < i ==> #[trigger] out@[j] == filled_with(old(out)@, word)[j],
        decreases out@.len() - i,
    {
        if i < whole {
            out[i] = b[i % 4];
        } else {
            out[i] = 0;
        }
        i += 1;
    }
    assert(out@ =~= filled_with(old(out)@, word));
}

/// Fills `out` with zeros.
pub fn fill_zero(out: &mut [u8])
    ensures
        final(out)@ == Seq::new(old(out)@.len(), |i: int| 0u8),
{
    let mut i: usize = 0;
    while i < out.len()
        invariant
            i <= out@.len(),
            out@.len() == old(out)@.len(),
            forall|j: int| 0 <= j < i ==> #[trigger] out@[j] == 0u8,
        decreases out@.len() - i,
    {
        out[i] = 0;
        i += 1;
    }
    assert(out@ =~= Seq::new(old(out)@.len(), |i: int| 0u8));
}

/// Appends `b` to `out`.
pub fn push_all(out: &mut Vec<u8>, b: &[u8])
    ensures
        final(out)@ == old(out)@ + b@,
{
    let mut i: usize = 0;
    while i < b.len()
        invariant
            i <= b@.len(),
            out@ =~= old(out)@ + b@.subrange(0, i as int),
        decreases b@.len() - i,
    {
        out.push(b[i]);
        i += 1;
    }
    assert(b@.subrange(0, b@.len() as int) =~= b@);
}

/// A copy of `b`.
pub fn copied(b: &[u8]) -> (r: Vec<u8>)
    ensures
        r@ == b@,
{
    let mut r: Vec<u8> = Vec::new();
    push_all(&mut r, b);
    assert(r@ =~= b@);
    r
}

/// Whether two byte strings are equal.
pub fn same(a: &[u8], b: &[u8]) -> (r: bool)
    ensures
        r == (a@ == b@),
{
    if a.len() != b.len() {
        return false;
    }
    let mut i: usize = 0;
    while i < a.len()
        invariant
            i <= a@.len(),
            a@.len() == b@.len(),
            forall|j: int| 0 <= j < i ==> a@[j] == b@[j],
        decreases a@.len() - i,
    {
        if a[i] != b[i] {
            return false;
        }
        i += 1;
    }
    assert(a@ =~= b@);
    true
}

/// Whether `a` comes before `b` byte by byte, from byte `i` on.
pub open spec fn less_from(a: Seq<u8>, b: Seq<u8>, i: int) -> bool
    decreases b.len() - i,
{
    if i < 0 || i >= b.len() {
        false
    } else if i >= a.len() {
        true
    } else if a[i] != b[i] {
        a[i] < b[i]
    } else {
        less_from(a, b, i + 1)
    }
}

/// Whether `a` comes before `b` byte by byte.
pub fn less(a: &[u8], b: &[u8]) -> (r: bool)
    ensures
        r == less_from(a@, b@, 0),
{
    let mut i: usize = 0;
    while i < b.len()
        invariant
            i <= b@.len(),
            less_from(a@, b@, 0) == less_from(a@, b@, i as int),
        decreases b@.len() - i,
    {
        if i >= a.len() {
            return true;
        }
        if a[i] != b[i] {
            return a[i] < b[i];
        }
        i += 1;
    }
    false
}

/// Bytes that are those of a number are read as it.
pub proof fn words_are_read(s: Seq<u8>, at: int, x: u32)
    requires
        inside(s, at, 4),
        s.subrange(at, at + 4) == spec_le32(x),
    ensures
        u32_at(s, at) == Some(x),
{
    u32_round_trip(s, at, x);
    let w = s.subrange(at, at + 4);
    assert(w[0] == s[at] && w[1] == s[at + 1] && w[2] == s[at + 2] && w[3] == s[at + 3]);
}

/// Bytes that are those of a short number are read as it.
pub proof fn halves_are_read(s: Seq<u8>, at: int, x: u16)
    requires
        inside(s, at, 2),
        s.subrange(at, at + 2) == spec_le16(x),
    ensures
        u16_at(s, at) == Some(x),
{
    u16_round_trip(s, at, x);
    let h = s.subrange(at, at + 2);
    assert(h[0] == s[at] && h[1] == s[at + 1]);
}

/// The first difference decides the order: of two that are equal as far as
/// one of them goes, the shorter comes first; of two that differ, the one
/// with the smaller byte.
pub proof fn the_first_difference_decides(a: Seq<u8>, b: Seq<u8>, i: int, k: int)
    requires
        0 <= i <= k <= a.len(),
        k <= b.len(),
        forall|n: int| i <= n < k ==> a[n] == b[n],
    ensures
        k == a.len() && k < b.len() ==> less_from(a, b, i),
        k == b.len() ==> !less_from(a, b, i),
        k < a.len() && k < b.len() && a[k] != b[k] ==> less_from(a, b, i) == (a[k] < b[k]),
    decreases k - i,
{
    if i < k {
        the_first_difference_decides(a, b, i + 1, k);
    }
}

} // verus!
