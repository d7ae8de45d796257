//! The hash tables of the dynamic symbols.

use vstd::prelude::*;

use crate::bytes::{le32, le64, push_all};
use crate::error::Error;

verus! {

/// The GNU hash of a name whose bytes before `i` hash to `h`.
pub open spec fn gnu_from(name: Seq<u8>, h: u32, i: int) -> u32
    decreases name.len() - i,
{
    if i < 0 || i >= name.len() {
        h
    } else {
        gnu_from(name, h.wrapping_mul(33).wrapping_add(name[i] as u32), i + 1)
    }
}

/// The GNU hash of a symbol name.
pub open spec fn spec_gnu_hash(name: Seq<u8>) -> u32 {
    gnu_from(name, 5381, 0)
}

/// The GNU hash of a symbol name.
pub fn gnu_hash(name: &[u8]) -> (r: u32)
    ensures
        r == spec_gnu_hash(name@),
{
    let mut h: u32 = 5381;
    let mut i: usize = 0;
    while i < name.len()
        invariant
            i <= name@.len(),
            gnu_from(name@, 5381, 0) == gnu_from(name@, h, i as int),
        decreases name@.len() - i,
    {
        h = h.wrapping_mul(33).wrapping_add(name[i] as u32);
        i += 1;
    }
    h
}

/// The System V hash with one more byte.
pub open spec fn sysv_step(h: u32, b: u8) -> u32 {
    let sum = (h << 4).wrapping_add(b as u32);
    let g = sum & 0xf000_0000;
    (if g != 0 {
        sum ^ (g >> 24)
    } else {
        sum
    }) & !g
}

/// The System V hash of a name whose bytes before `i` hash to `h`.
pub open spec fn sysv_from(name: Seq<u8>, h: u32, i: int) -> u32
    decreases name.len() - i,
{
    if i < 0 || i >= name.len() {
        h
    } else {
        sysv_from(name, sysv_step(h, name[i]), i + 1)
    }
}

/// The System V ELF hash of a name.
pub open spec fn spec_sysv_hash(name: Seq<u8>) -> u32 {
    sysv_from(name, 0, 0)
}

/// The System V ELF hash of a name.
pub fn sysv_hash(name: &[u8]) -> (r: u32)
    ensures
        r == spec_sysv_hash(name@),
{
    let mut h: u32 = 0;
    let mut i: usize = 0;
    while i < name.len()
        invariant
            i <= name@.len(),
            sysv_from(name@, 0, 0) == sysv_from(name@, h, i as int),
        decreases name@.len() - i,
    {
        let sum: u32 = (h << 4).wrapping_add(name[i] as u32);
        let g: u32 = sum & 0xf000_0000;
        h = (if g != 0 {
            sum ^ (g >> 24)
        } else {
            sum
        }) & !g;
        i += 1;
    }
    h
}

/// The smallest power of two times `p` that is at least `n`.
pub open spec fn doubled(p: int, n: int) -> int
    decreases 2 * n - p,
{
    if p >= n || p <= 0 {
        p
    } else {
        doubled(2 * p, n)
    }
}

/// The number of 64-bit words of the Bloom filter of `count` names: twelve
/// bits for each, rounded up to a power of two.
pub open spec fn filter_words(count: int) -> int {
    let n = count * 12 / 64;
    doubled(
        1,
        if n < 1 {
            1
        } else {
            n
        },
    )
}

/// How far the second bit of a hash is shifted.
pub const FILTER_SHIFT: u32 = 26;

/// The bits a hash sets in its word of the filter.
#[verifier::allow_in_spec]
pub fn filter_bits(hash: u32) -> u64
    returns
        ((1u64 << (hash % 64)) | (1u64 << ((hash >> 26) % 64))),
{
    (1u64 << (hash % 64)) | (1u64 << ((hash >> 26) % 64))
}

/// The word of the filter a hash sets bits in.
#[verifier::allow_in_spec]
pub fn filter_word(hash: u32, words: u32) -> u32
    requires
        words > 0,
    returns
        (hash >> 6) % words,
{
    (hash >> 6) % words
}

/// Word `w` of the filter of the first `n` hashes.
pub open spec fn filtered(hashes: Seq<u32>, words: u32, w: int, n: int) -> u64
    decreases n,
{
    if n <= 0 {
        0
    } else {
        let before = filtered(hashes, words, w, n - 1);
        if (hashes[n - 1] >> 6) % words == w {
            before | filter_bits(hashes[n - 1])
        } else {
            before
        }
    }
}

/// The first position from `i` on whose hash is in bucket `b`.
pub open spec fn first_in(hashes: Seq<u32>, buckets: u32, b: int, i: int) -> Option<int>
    decreases hashes.len() - i,
{
    if i < 0 || i >= hashes.len() {
        None
    } else if hashes[i] % buckets == b {
        Some(i)
    } else {
        first_in(hashes, buckets, b, i + 1)
    }
}

/// The symbol bucket `b` starts at, 0 where it is empty; `base` is the
/// number of the first hashed symbol.
pub open spec fn gnu_bucket(hashes: Seq<u32>, buckets: u32, base: int, b: int) -> u32 {
    match first_in(hashes, buckets, b, 0) {
        Some(p) => (base + p) as u32,
        None => 0,
    }
}

/// The chain word of position `p`: its hash, the lowest bit telling whether
/// it is the last of its bucket.
pub open spec fn gnu_chain(hashes: Seq<u32>, buckets: u32, p: int) -> u32 {
    if p + 1 < hashes.len() && hashes[p + 1] % buckets == hashes[p] % buckets {
        hashes[p] & !1u32
    } else {
        hashes[p] | 1u32
    }
}

/// 64-bit words from `i` on.
pub open spec fn words64(words: Seq<u64>, i: int) -> Seq<u8>
    decreases words.len() - i,
{
    if i < 0 || i >= words.len() {
        Seq::empty()
    } else {
        crate::bytes::spec_le64(words[i]) + words64(words, i + 1)
    }
}

/// 32-bit words from `i` on.
pub open spec fn words32(words: Seq<u32>, i: int) -> Seq<u8>
    decreases words.len() - i,
{
    if i < 0 || i >= words.len() {
        Seq::empty()
    } else {
        crate::bytes::spec_le32(words[i]) + words32(words, i + 1)
    }
}

/// The contents of `.gnu.hash`.
pub open spec fn gnu_table(hashes: Seq<u32>, buckets: u32, base: int) -> Seq<u8> {
    let words = filter_words(hashes.len() as int);
    words32(seq![buckets, base as u32, words as u32, FILTER_SHIFT], 0) + words64(
        Seq::new(
            words as nat,
            |w: int| filtered(hashes, words as u32, w, hashes.len() as int),
        ),
        0,
    ) + words32(
        Seq::new(buckets as nat, |b: int| gnu_bucket(hashes, buckets, base, b)),
        0,
    ) + words32(Seq::new(hashes.len(), |p: int| gnu_chain(hashes, buckets, p)), 0)
}

/// Appends 64-bit words.
fn push_words64(out: &mut Vec<u8>, words: &Vec<u64>)
    ensures
        final(out)@ == old(out)@ + words64(words@, 0),
{
    let ghost whole = out@ + words64(words@, 0);
    let mut i: usize = 0;
    while i < words.len()
        invariant
            i <= words@.len(),
            whole == out@ + words64(words@, i as int),
        decreases words@.len() - i,
    {
        let ghost before = out@;
        push_all(out, &le64(words[i]));
        proof {
            let rest = words64(words@, i + 1);
            assert(before + (crate::bytes::spec_le64(words@[i as int]) + rest) =~= out@ + rest);
        }
        i += 1;
    }
    assert(whole =~= out@);
}

/// Appends 32-bit words.
fn push_words32(out: &mut Vec<u8>, words: &Vec<u32>)
    ensures
        final(out)@ == old(out)@ + words32(words@, 0),
{
    let ghost whole = out@ + words32(words@, 0);
    let mut i: usize = 0;
    while i < words.len()
        invariant
            i <= words@.len(),
            whole == out@ + words32(words@, i as int),
        decreases words@.len() - i,
    {
        let ghost before = out@;
        push_all(out, &le32(words[i]));
        proof {
            let rest = words32(words@, i + 1);
            assert(before + (crate::bytes::spec_le32(words@[i as int]) + rest) =~= out@ + rest);
        }
        i += 1;
    }
    assert(whole =~= out@);
}

/// Doubling stays below twice what is asked for.
proof fn doubled_bound(p: int, n: int)
    requires
        p >= 1,
        p < 2 * n || p == 1,
    ensures
        1 <= doubled(p, n),
        doubled(p, n) < 2 * n || doubled(p, n) == 1,
    decreases 2 * n - p,
{
    if p < n {
        doubled_bound(2 * p, n);
    }
}

/// The number of words of the Bloom filter.
fn count_filter_words(count: u32) -> (r: u32)
    ensures
        r == filter_words(count as int),
        r > 0,
{
    let n: u64 = (count as u64) * 12 / 64;
    let least: u64 = if n < 1 {
        1
    } else {
        n
    };
    proof {
        doubled_bound(1, least as int);
    }
    let mut p: u64 = 1;
    while p < least
        invariant
            1 <= p,
            p < 2 * least || p == 1,
            least <= 0x3000_0000,
            doubled(1, least as int) == doubled(p as int, least as int),
        decreases 2 * least - p,
    {
        p = p * 2;
    }
    p as u32
}

/// Whether no bucket comes before an earlier one.
pub open spec fn in_bucket_order(hashes: Seq<u32>, buckets: u32) -> bool {
    forall|p: int, q: int|
        0 <= p <= q < hashes.len() ==> (#[trigger] hashes[p]) % buckets <= (#[trigger] hashes[q])
            % buckets
}

/// A position whose hash is in a bucket bounds the first such position.
proof fn first_in_bound(hashes: Seq<u32>, buckets: u32, b: int, i: int, p: int)
    requires
        0 <= i <= p < hashes.len(),
        hashes[p] % buckets == b,
    ensures
        match first_in(hashes, buckets, b, i) {
            Some(f) => i <= f <= p && hashes[f] % buckets == b,
            None => false,
        },
    decreases p - i,
{
    if hashes[i] % buckets != b {
        first_in_bound(hashes, buckets, b, i + 1, p);
    }
}

/// Where no position below `n` has a hash in a bucket, the first that does
/// is at `n` or after it.
proof fn first_in_skips(hashes: Seq<u32>, buckets: u32, b: int, i: int, n: int)
    requires
        0 <= i <= n <= hashes.len(),
        forall|q: int| i <= q < n ==> (#[trigger] hashes[q]) % buckets != b,
    ensures
        first_in(hashes, buckets, b, i) == first_in(hashes, buckets, b, n),
    decreases n - i,
{
    if i < n {
        assert(hashes[i] % buckets != b);
        first_in_skips(hashes, buckets, b, i + 1, n);
    }
}

/// Bits that are set stay so; the lowest bit does not touch the others.
proof fn bits_that_are_set(before: u64, bits: u64, more: u64, h: u32)
    by (bit_vector)
    ensures
        (before | bits) & bits == bits,
        (before & bits == bits) ==> (before | more) & bits == bits,
        (h & !1u32) & 1u32 == 0u32,
        (h & !1u32) | 1u32 == h | 1u32 && (h | 1u32) | 1u32 == h | 1u32,
        h < 0x1000_0000 ==> h << 4 == h * 16,
        (h & 0xf000_0000) >> 24 == ((h >> 28) << 4),
        (if h & 0xf000_0000 != 0 {
            h ^ ((h & 0xf000_0000) >> 24)
        } else {
            h
        }) & !(h & 0xf000_0000) == (h & 0x0fff_ffff) ^ ((h >> 28) << 4),
        (h & 0x0fff_ffff) ^ ((h >> 28) << 4) < 0x1000_0000,
        h & 0x0fff_ffff == h % 0x1000_0000,
        h >> 28 == h / 0x1000_0000,
{
}

/// A word of the filter has every bit its hashes set.
proof fn filter_has(hashes: Seq<u32>, words: u32, w: int, n: int, p: int)
    requires
        0 <= p < n,
        (hashes[p] >> 6) % words == w,
    ensures
        filtered(hashes, words, w, n) & filter_bits(hashes[p]) == filter_bits(hashes[p]),
    decreases n,
{
    let before = filtered(hashes, words, w, n - 1);
    let bits = filter_bits(hashes[p]);
    if p == n - 1 {
        bits_that_are_set(before, bits, 0, 0);
    } else {
        filter_has(hashes, words, w, n - 1, p);
        let more = filter_bits(hashes[n - 1]);
        bits_that_are_set(before, bits, more, 0);
    }
}

/// Whether a lookup finds the name at position `p`: its filter word has its
/// bits, its bucket starts at it or before it, and no chain word from there
/// to it ends the bucket; its own has its hash.
pub open spec fn gnu_finds(hashes: Seq<u32>, buckets: u32, base: int, p: int) -> bool {
    let words = filter_words(hashes.len() as int);
    let w = ((hashes[p] >> 6) % (words as u32)) as int;
    let start = gnu_bucket(hashes, buckets, base, (hashes[p] % buckets) as int) - base;
    &&& filtered(hashes, words as u32, w, hashes.len() as int) & filter_bits(hashes[p])
        == filter_bits(hashes[p])
    &&& 0 <= start <= p
    &&& forall|q: int| start <= q < p ==> #[trigger] gnu_chain(hashes, buckets, q) & 1u32 == 0u32
    &&& gnu_chain(hashes, buckets, p) | 1u32 == hashes[p] | 1u32
}

/// A name that was hashed is found.
pub proof fn gnu_lookups_find(hashes: Seq<u32>, buckets: u32, base: int, p: int)
    requires
        buckets > 0,
        in_bucket_order(hashes, buckets),
        0 <= p < hashes.len(),
        1 <= base,
        base + hashes.len() - 1 <= u32::MAX,
    ensures
        gnu_finds(hashes, buckets, base, p),
{
    let words = filter_words(hashes.len() as int);
    let w = ((hashes[p] >> 6) % (words as u32)) as int;
    let b = (hashes[p] % buckets) as int;
    filter_has(hashes, words as u32, w, hashes.len() as int, p);
    first_in_bound(hashes, buckets, b, 0, p);
    let start = first_in(hashes, buckets, b, 0).unwrap();
    assert forall|q: int| start <= q < p implies #[trigger] gnu_chain(hashes, buckets, q) & 1u32
        == 0u32 by {
        assert(hashes[start] % buckets <= hashes[q] % buckets);
        assert(hashes[q] % buckets <= hashes[p] % buckets);
        assert(hashes[start] % buckets <= hashes[q + 1] % buckets);
        assert(hashes[q + 1] % buckets <= hashes[p] % buckets);
        let h = hashes[q];
        bits_that_are_set(0, 0, 0, h);
    }
    let h = hashes[p];
    bits_that_are_set(0, 0, 0, h);
}

/// Builds `.gnu.hash` of symbols that are sorted by bucket; `first_hashed`
/// symbols come before them.
pub fn build_gnu_hash(hashes: &Vec<u32>, buckets: u32, first_hashed: usize) -> (r: Result<
    Vec<u8>,
    Error,
>)
    requires
        buckets > 0,
    ensures
        match r {
            Ok(data) => data@ == gnu_table(hashes@, buckets, first_hashed + 1),
            Err(e) => e == Error::Limit("GNU hash table too large"),
        },
        r is Ok <==> first_hashed + (if hashes@.len() == 0 {
            1
        } else {
            hashes@.len() as int
        }) <= u32::MAX,
{
    let count: usize = hashes.len();
    if first_hashed as u64 >= u32::MAX as u64 || count as u64 > u32::MAX as u64 - first_hashed as u64 {
        return Err(Error::Limit("GNU hash table too large"));
    }
    let base: u32 = first_hashed as u32 + 1;
    let words: u32 = count_filter_words(count as u32);
    let mut bloom: Vec<u64> = Vec::new();
    let mut w: u32 = 0;
    while w < words
        invariant
            w <= words,
            bloom@ == Seq::new(w as nat, |k: int| 0u64),
        decreases words - w,
    {
        bloom.push(0);
        w += 1;
        assert(bloom@ =~= Seq::new(w as nat, |k: int| 0u64));
    }
    let mut starts: Vec<u32> = Vec::new();
    let mut b: u32 = 0;
    while b < buckets
        invariant
            b <= buckets,
            starts@ == Seq::new(b as nat, |k: int| 0u32),
        decreases buckets - b,
    {
        starts.push(0);
        b += 1;
        assert(starts@ =~= Seq::new(b as nat, |k: int| 0u32));
    }
    let mut chains: Vec<u32> = Vec::new();
    let mut p: usize = 0;
    while p < count
        invariant
            p <= count,
            count == hashes@.len(),
            words > 0,
            buckets > 0,
            base == first_hashed + 1,
            first_hashed + count <= u32::MAX,
            bloom@.len() == words,
            starts@.len() == buckets,
            chains@.len() == p,
            forall|k: int|
                0 <= k < words ==> #[trigger] bloom@[k] == filtered(hashes@, words, k, p as int),
            forall|k: int| #![trigger starts@[k]]
                0 <= k < buckets ==> (starts@[k] == 0 ==> forall|q: int|
                    0 <= q < p ==> (#[trigger] hashes@[q]) % buckets != k) && (starts@[k] != 0
                    ==> starts@[k] == gnu_bucket(hashes@, buckets, base as int, k)),
            forall|k: int| 0 <= k < p ==> #[trigger] chains@[k] == gnu_chain(hashes@, buckets, k),
        decreases count - p,
    {
        let hash: u32 = hashes[p];
        let word: usize = filter_word(hash, words) as usize;
        let bits: u64 = bloom[word] | filter_bits(hash);
        bloom.set(word, bits);
        let bucket: u32 = hash % buckets;
        let at: usize = bucket as usize;
        if starts[at] == 0 {
            proof {
                first_in_skips(hashes@, buckets, bucket as int, 0, p as int);
            }
            starts.set(at, base + p as u32);
        }
        let last: bool = p + 1 >= count || hashes[p + 1] % buckets != bucket;
        chains.push(
            if last {
                hash | 1
            } else {
                hash & !1
            },
        );
        p += 1;
    }
    proof {
        assert(bloom@ =~= Seq::new(
            words as nat,
            |w: int| filtered(hashes@, words, w, count as int),
        ));
        assert forall|k: int| 0 <= k < buckets implies #[trigger] starts@[k] == gnu_bucket(
            hashes@,
            buckets,
            base as int,
            k,
        ) by {
            if starts@[k] == 0 {
                first_in_skips(hashes@, buckets, k, 0, count as int);
            }
        }
        assert(starts@ =~= Seq::new(
            buckets as nat,
            |b: int| gnu_bucket(hashes@, buckets, base as int, b),
        ));
        assert(chains@ =~= Seq::new(hashes@.len(), |p: int| gnu_chain(hashes@, buckets, p)));
    }
    let mut header: Vec<u32> = Vec::new();
    header.push(buckets);
    header.push(base);
    header.push(words);
    header.push(FILTER_SHIFT);
    assert(header@ =~= seq![buckets, base, words, FILTER_SHIFT]);
    let mut data: Vec<u8> = Vec::new();
    push_words32(&mut data, &header);
    assert(data@ =~= words32(header@, 0));
    push_words64(&mut data, &bloom);
    push_words32(&mut data, &starts);
    push_words32(&mut data, &chains);
    Ok(data)
}

/// The number of the last of the first `n` symbols whose hash is in bucket
/// `b`, 0 where there is none; symbols are numbered from 1.
pub open spec fn last_in(hashes: Seq<u32>, buckets: u32, b: int, n: int) -> u32
    decreases n,
{
    if n <= 0 {
        0
    } else if hashes[n - 1] % buckets == b {
        n as u32
    } else {
        last_in(hashes, buckets, b, n - 1)
    }
}

/// The symbol that comes after symbol `n` in its bucket, 0 for the last and
/// for the null symbol.
pub open spec fn sysv_chain(hashes: Seq<u32>, buckets: u32, n: int) -> u32 {
    if n <= 0 {
        0
    } else {
        last_in(hashes, buckets, (hashes[n - 1] % buckets) as int, n - 1)
    }
}

/// The contents of `.hash`: as many buckets as symbols, the null symbol
/// included.
pub open spec fn sysv_table(hashes: Seq<u32>) -> Seq<u8> {
    let count = (hashes.len() + 1) as u32;
    words32(seq![count, count], 0) + words32(
        Seq::new(count as nat, |b: int| last_in(hashes, count, b, hashes.len() as int)),
        0,
    ) + words32(Seq::new(count as nat, |n: int| sysv_chain(hashes, count, n)), 0)
}

/// Whether following the chains from symbol `from` leads to symbol `n`.
pub open spec fn leads_to(hashes: Seq<u32>, buckets: u32, from: int, n: int) -> bool
    decreases from,
{
    from == n || (from > 0 && from <= hashes.len() && sysv_chain(hashes, buckets, from) < from
        && leads_to(hashes, buckets, sysv_chain(hashes, buckets, from) as int, n))
}

/// A symbol of a bucket is found from the last one of the bucket.
proof fn bucket_leads(hashes: Seq<u32>, buckets: u32, b: int, m: int, n: int)
    requires
        buckets > 0,
        0 < n <= m <= hashes.len(),
        hashes.len() <= u32::MAX,
        hashes[n - 1] % buckets == b,
    ensures
        0 < last_in(hashes, buckets, b, m) <= m,
        leads_to(hashes, buckets, last_in(hashes, buckets, b, m) as int, n),
    decreases m,
{
    if m == n {
    } else if hashes[m - 1] % buckets == b {
        bucket_leads(hashes, buckets, b, m - 1, n);
        assert(sysv_chain(hashes, buckets, m) == last_in(hashes, buckets, b, m - 1));
    } else {
        bucket_leads(hashes, buckets, b, m - 1, n);
    }
}

/// Whether a lookup finds symbol `n`: following the chains from its bucket
/// leads to it.
pub open spec fn sysv_finds(hashes: Seq<u32>, n: int) -> bool {
    let count = (hashes.len() + 1) as u32;
    let b = (hashes[n - 1] % count) as int;
    leads_to(hashes, count, last_in(hashes, count, b, hashes.len() as int) as int, n)
}

/// A name that was hashed is found.
pub proof fn sysv_lookups_find(hashes: Seq<u32>, n: int)
    requires
        0 < n <= hashes.len(),
        hashes.len() < u32::MAX,
    ensures
        sysv_finds(hashes, n),
{
    let count = (hashes.len() + 1) as u32;
    bucket_leads(hashes, count, (hashes[n - 1] % count) as int, hashes.len() as int, n);
}

/// Builds `.hash` of every symbol after the null one.
pub fn build_sysv_hash(hashes: &Vec<u32>) -> (r: Result<Vec<u8>, Error>)
    ensures
        match r {
            Ok(data) => data@ == sysv_table(hashes@),
            Err(e) => e == Error::Limit("hash table too large"),
        },
        r is Ok <==> hashes@.len() < u32::MAX,
{
    let total: usize = hashes.len();
    if total as u64 >= u32::MAX as u64 {
        return Err(Error::Limit("hash table too large"));
    }
    let count: u32 = total as u32 + 1;
    let mut heads: Vec<u32> = Vec::new();
    let mut b: u32 = 0;
    while b < count
        invariant
            b <= count,
            heads@ == Seq::new(b as nat, |k: int| 0u32),
        decreases count - b,
    {
        heads.push(0);
        b += 1;
        assert(heads@ =~= Seq::new(b as nat, |k: int| 0u32));
    }
    let mut chains: Vec<u32> = Vec::new();
    chains.push(0);
    let mut n: usize = 0;
    while n < total
        invariant
            n <= total,
            total == hashes@.len(),
            count == total + 1,
            heads@.len() == count,
            chains@.len() == n + 1,
            forall|k: int|
                0 <= k < count ==> #[trigger] heads@[k] == last_in(hashes@, count, k, n as int),
            forall|k: int| 0 <= k <= n ==> #[trigger] chains@[k] == sysv_chain(hashes@, count, k),
        decreases total - n,
    {
        let bucket: usize = (hashes[n] % count) as usize;
        chains.push(heads[bucket]);
        heads.set(bucket, n as u32 + 1);
        n += 1;
    }
    proof {
        assert(heads@ =~= Seq::new(
            count as nat,
            |b: int| last_in(hashes@, count, b, total as int),
        ));
        assert(chains@ =~= Seq::new(count as nat, |n: int| sysv_chain(hashes@, count, n)));
    }
    let mut header: Vec<u32> = Vec::new();
    header.push(count);
    header.push(count);
    assert(header@ =~= seq![count, count]);
    let mut data: Vec<u8> = Vec::new();
    push_words32(&mut data, &header);
    assert(data@ =~= words32(header@, 0));
    push_words32(&mut data, &heads);
    push_words32(&mut data, &chains);
    Ok(data)
}

/// The GNU hash of a name that is one byte longer is 33 times the hash
/// before and the byte, starting from 5381.
pub proof fn gnu_hashes_grow(name: Seq<u8>, b: u8)
    ensures
        spec_gnu_hash(Seq::empty()) == 5381,
        spec_gnu_hash(name.push(b)) == (spec_gnu_hash(name) * 33 + b) % 0x1_0000_0000,
{
    gnu_grows(name, b, 5381, 0);
}

/// The GNU hash from some byte on, of a name that is one byte longer.
proof fn gnu_grows(name: Seq<u8>, b: u8, h: u32, i: int)
    requires
        0 <= i <= name.len(),
    ensures
        gnu_from(name.push(b), h, i) == (gnu_from(name, h, i) * 33 + b) % 0x1_0000_0000,
    decreases name.len() - i,
{
    if i < name.len() {
        gnu_grows(name, b, h.wrapping_mul(33).wrapping_add(name[i] as u32), i + 1);
    } else {
        reveal_with_fuel(gnu_from, 2);
        assert(h.wrapping_mul(33) == (h * 33) % 0x1_0000_0000);
        vstd::arithmetic::div_mod::lemma_add_mod_noop((h * 33) as int, b as int, 0x1_0000_0000);
    }
}

/// The System V hash of a name that is one byte longer is 16 times the hash
/// before and the byte, with what goes over 28 bits folded in four bits up.
pub proof fn sysv_hashes_grow(name: Seq<u8>, b: u8)
    ensures
        spec_sysv_hash(Seq::empty()) == 0,
        spec_sysv_hash(name) < 0x1000_0000,
        ({
            let sum = ((spec_sysv_hash(name) * 16 + b) % 0x1_0000_0000) as u32;
            spec_sysv_hash(name.push(b)) == ((sum % 0x1000_0000) ^ ((sum / 0x1000_0000) << 4))
        }),
{
    sysv_grows(name, b, 0, 0);
}

/// The System V hash from some byte on, of a name that is one byte longer.
proof fn sysv_grows(name: Seq<u8>, b: u8, h: u32, i: int)
    requires
        0 <= i <= name.len(),
        h < 0x1000_0000,
    ensures
        sysv_from(name, h, i) < 0x1000_0000,
        ({
            let sum = ((sysv_from(name, h, i) * 16 + b) % 0x1_0000_0000) as u32;
            sysv_from(name.push(b), h, i) == ((sum % 0x1000_0000) ^ ((sum / 0x1000_0000) << 4))
        }),
    decreases name.len() - i,
{
    let next = if i < name.len() {
        name[i]
    } else {
        b
    };
    let sum = (h << 4).wrapping_add(next as u32);
    bits_that_are_set(0, 0, 0, h);
    bits_that_are_set(0, 0, 0, sum);
    assert(sum == (h * 16 + next) % 0x1_0000_0000);
    if i < name.len() {
        sysv_grows(name, b, sysv_step(h, name[i]), i + 1);
    } else {
        reveal_with_fuel(sysv_from, 2);
    }
}

/// The filter has at least 12 bits for a symbol, but for what a word rounds
/// off, and a power of two of words.
pub proof fn filters_have_room(count: int)
    requires
        0 <= count,
    ensures
        filter_words(count) >= 1,
        filter_words(count) * 64 > count * 12 - 64,
        count * 12 / 64 > 1 ==> filter_words(count) < 2 * (count * 12 / 64),
        count * 12 / 64 <= 1 ==> filter_words(count) == 1,
{
    let n = count * 12 / 64;
    let m: int = if n < 1 {
        1
    } else {
        n
    };
    doubled_stops(1, m);
}

/// Doubling stops as soon as it can.
proof fn doubled_stops(p: int, n: int)
    requires
        0 < p,
    ensures
        doubled(p, n) >= n,
        doubled(p, n) >= p,
        p >= n ==> doubled(p, n) == p,
        p < n ==> doubled(p, n) < 2 * n,
    decreases 2 * n - p,
{
    if p < n {
        doubled_stops(2 * p, n);
    }
}

/// The length of numbers, and where each is.
proof fn numbers_are_held(words: Seq<u32>, i: int, k: int, before: Seq<u8>, after: Seq<u8>)
    requires
        0 <= i <= words.len(),
    ensures
        words32(words, i).len() == 4 * (words.len() - i),
        i <= k < words.len() ==> crate::bytes::u32_at(
            before + words32(words, i) + after,
            before.len() + 4 * (k - i),
        ) == Some(words[k]),
    decreases words.len() - i,
{
    if i < words.len() {
        let w = crate::bytes::spec_le32(words[i]);
        let s = before + words32(words, i) + after;
        numbers_are_held(words, i + 1, k, before + w, after);
        if k == i {
            assert(s.subrange(before.len() as int, before.len() as int + 4) =~= w);
            crate::bytes::words_are_read(s, before.len() as int, words[i]);
        } else if i < k < words.len() {
            assert(s =~= (before + w) + words32(words, i + 1) + after);
        }
    }
}

/// The length of numbers of 64 bits.
proof fn long_numbers_take_eight(words: Seq<u64>, i: int)
    requires
        0 <= i <= words.len(),
    ensures
        words64(words, i).len() == 8 * (words.len() - i),
    decreases words.len() - i,
{
    if i < words.len() {
        long_numbers_take_eight(words, i + 1);
    }
}

/// A GNU hash table starts with how many buckets there are, the number of
/// the first symbol, how many words the filter has, and its shift; behind
/// the filter are the buckets and the chain, in words of four bytes.
pub proof fn gnu_tables_hold_their_parts(hashes: Seq<u32>, buckets: u32, base: u32, b: int, p: int)
    requires
        filter_words(hashes.len() as int) <= u32::MAX,
    ensures
        ({
            let t = gnu_table(hashes, buckets, base as int);
            let words = filter_words(hashes.len() as int);
            &&& crate::bytes::u32_at(t, 0) == Some(buckets)
            &&& crate::bytes::u32_at(t, 4) == Some(base)
            &&& crate::bytes::u32_at(t, 8) == Some(words as u32)
            &&& crate::bytes::u32_at(t, 12) == Some(26u32)
            &&& t.len() == 16 + 8 * words + 4 * buckets + 4 * hashes.len()
            &&& 0 <= b < buckets ==> crate::bytes::u32_at(t, 16 + 8 * words + 4 * b) == Some(
                gnu_bucket(hashes, buckets, base as int, b),
            )
            &&& 0 <= p < hashes.len() ==> crate::bytes::u32_at(
                t,
                16 + 8 * words + 4 * buckets + 4 * p,
            ) == Some(gnu_chain(hashes, buckets, p))
        }),
{
    let t = gnu_table(hashes, buckets, base as int);
    let words = filter_words(hashes.len() as int);
    filters_have_room(hashes.len() as int);
    let head = seq![buckets, base, words as u32, FILTER_SHIFT];
    let filter = Seq::new(
        words as nat,
        |w: int| filtered(hashes, words as u32, w, hashes.len() as int),
    );
    let firsts = Seq::new(buckets as nat, |b: int| gnu_bucket(hashes, buckets, base as int, b));
    let chain = Seq::new(hashes.len(), |p: int| gnu_chain(hashes, buckets, p));
    let h = words32(head, 0);
    let f = words64(filter, 0);
    let c = words32(firsts, 0);
    let d = words32(chain, 0);
    long_numbers_take_eight(filter, 0);
    let none = Seq::<u8>::empty();
    assert(t =~= none + h + (f + c + d));
    numbers_are_held(head, 0, 0, none, f + c + d);
    numbers_are_held(head, 0, 1, none, f + c + d);
    numbers_are_held(head, 0, 2, none, f + c + d);
    numbers_are_held(head, 0, 3, none, f + c + d);
    numbers_are_held(firsts, 0, b, h + f, d);
    numbers_are_held(chain, 0, p, h + f + c, none);
    assert(t =~= (h + f) + c + d);
    assert(t =~= (h + f + c) + d + none);
}

/// A System V hash table holds the number of buckets and of symbols, then
/// the buckets and the chain.
pub proof fn sysv_tables_hold_their_parts(hashes: Seq<u32>, b: int, n: int)
    requires
        hashes.len() < u32::MAX,
    ensures
        ({
            let t = sysv_table(hashes);
            let count = (hashes.len() + 1) as u32;
            &&& crate::bytes::u32_at(t, 0) == Some(count)
            &&& crate::bytes::u32_at(t, 4) == Some(count)
            &&& t.len() == 8 + 8 * count
            &&& 0 <= b < count ==> crate::bytes::u32_at(t, 8 + 4 * b) == Some(
                last_in(hashes, count, b, hashes.len() as int),
            )
            &&& 0 <= n < count ==> crate::bytes::u32_at(t, 8 + 4 * count + 4 * n) == Some(
                sysv_chain(hashes, count, n),
            )
        }),
{
    let t = sysv_table(hashes);
    let count = (hashes.len() + 1) as u32;
    let head = seq![count, count];
    let lasts = Seq::new(count as nat, |b: int| last_in(hashes, count, b, hashes.len() as int));
    let chain = Seq::new(count as nat, |n: int| sysv_chain(hashes, count, n));
    let h = words32(head, 0);
    let c = words32(lasts, 0);
    let d = words32(chain, 0);
    let none = Seq::<u8>::empty();
    assert(t =~= none + h + (c + d));
    numbers_are_held(head, 0, 0, none, c + d);
    numbers_are_held(head, 0, 1, none, c + d);
    numbers_are_held(lasts, 0, b, h, d);
    numbers_are_held(chain, 0, n, h + c, none);
    assert(t =~= (h + c) + d + none);
}

} // verus!
