use qld::bits::{fits_signed, fits_unsigned, next_power_of_two, page};
use qld::bytes::{copied, fill_words, get_byte, get_u16, get_u32, less, put_u16, put_u32, same, store};
use qld::elf::dynsym::hash::{build_gnu_hash, build_sysv_hash};
use qld::elf::dynsym::{gnu_hash, sysv_hash};
use qld::error::Error;
use qld::leb::push_uleb;
use qld::order::{first_of_each, row_set, stable_order};
use qld::parallel::{concatenated, numbers, sorted};
use qld::text::push_decimal;

#[test]
fn stored_numbers_read_back() {
    let mut out = vec![0u8; 8];
    assert!(put_u32(&mut out, 2, 0x0102_0304));
    assert_eq!(out, [0, 0, 4, 3, 2, 1, 0, 0]);
    assert_eq!(get_u32(&out, 2), Some(0x0102_0304));
    assert!(put_u16(&mut out, 6, 0xbeef));
    assert_eq!(get_u16(&out, 6), Some(0xbeef));
    // What lies outside is neither written nor read.
    assert!(!put_u32(&mut out, 5, 7));
    assert!(!store(&mut out, u64::MAX, &[1]));
    assert_eq!(out, [0, 0, 4, 3, 2, 1, 0xef, 0xbe]);
    assert_eq!(get_u32(&out, 5), None);
    assert_eq!(get_byte(&out, 8), None);
}

#[test]
fn bytes_are_compared_and_copied() {
    assert!(same(b"abc", b"abc"));
    assert!(!same(b"abc", b"ab"));
    assert!(less(b"ab", b"abc"));
    assert!(less(b"abc", b"b"));
    assert!(!less(b"abc", b"abc"));
    assert_eq!(copied(b"xyz"), b"xyz");
    let mut out = vec![9u8; 6];
    fill_words(&mut out, 0x0403_0201);
    assert_eq!(&out[..4], &[1, 2, 3, 4]);
}

#[test]
fn uleb_takes_seven_bits_a_byte() {
    let encoded = |n: u64| {
        let mut out = Vec::new();
        push_uleb(&mut out, n);
        out
    };
    assert_eq!(encoded(0), [0]);
    assert_eq!(encoded(127), [0x7f]);
    assert_eq!(encoded(128), [0x80, 0x01]);
    assert_eq!(encoded(300), [0xac, 0x02]);
    assert_eq!(encoded(u64::MAX).len(), 10);
}

#[test]
fn ranges_end_at_powers_of_two() {
    assert!(fits_signed(-128, 8) && fits_signed(127, 8));
    assert!(!fits_signed(128, 8) && !fits_signed(-129, 8));
    assert!(fits_unsigned(255, 8) && !fits_unsigned(256, 8) && !fits_unsigned(-1, 8));
    assert_eq!(page(0x1fff), 0x1000);
    assert_eq!(next_power_of_two(5), Some(8));
    assert_eq!(next_power_of_two(8), Some(8));
    assert_eq!(next_power_of_two(u64::MAX), None);
}

#[test]
fn decimals_are_written_out() {
    let mut text = String::from("n=");
    push_decimal(&mut text, 0);
    push_decimal(&mut text, 18_446_744_073_709_551_615);
    assert_eq!(text, "n=018446744073709551615");
}

#[test]
fn sorting_is_by_key_and_stable() {
    assert_eq!(stable_order(&[(2, 0), (1, 5), (2, 0), (1, 4)]), [3, 1, 0, 2]);
    let rows = vec![(2, 1, 0), (1, 9, 9), (2, 0, 5), (1, 9, 9)];
    assert_eq!(sorted(rows.clone()), [(1, 9, 9), (1, 9, 9), (2, 0, 5), (2, 1, 0)]);
    assert_eq!(row_set(rows.clone()), [(1, 9, 9), (2, 0, 5), (2, 1, 0)]);
    assert_eq!(first_of_each(rows), [(1, 9, 9), (2, 0, 5)]);
}

#[test]
fn lists_are_put_together_in_order() {
    assert_eq!(numbers(3), [0, 1, 2]);
    assert_eq!(concatenated(&vec![vec![3u8, 1], vec![], vec![2]]), [3, 1, 2]);
}

#[test]
fn hashes_have_their_published_values() {
    assert_eq!(gnu_hash(b""), 0x1505);
    assert_eq!(gnu_hash(b"printf"), 0x156b_2bb8);
    assert_eq!(gnu_hash(b"exit"), 0x7c96_7e3f);
    assert_eq!(gnu_hash(b"syscall"), 0xbac2_12a0);
    assert_eq!(sysv_hash(b""), 0);
    assert_eq!(sysv_hash(b"printf"), 0x0779_05a6);
    assert_eq!(sysv_hash(b"exit"), 0x0006_cf04);
    assert_eq!(sysv_hash(b"syscall"), 0x0b09_985c);
}

fn word(data: &[u8], at: usize) -> u32 {
    u32::from_le_bytes([data[at], data[at + 1], data[at + 2], data[at + 3]])
}

/// Where a GNU hash table leads for a hash: every symbol it would be
/// compared with.
fn gnu_candidates(table: &[u8], hash: u32) -> Vec<u32> {
    let (buckets, base) = (word(table, 0), word(table, 4));
    let (words, shift) = (word(table, 8), word(table, 12));
    let filter = 16 + ((hash >> 6) % words) as usize * 8;
    let bits = u64::from(word(table, filter)) | u64::from(word(table, filter + 4)) << 32;
    let mask = 1u64 << (hash % 64) | 1u64 << ((hash >> shift) % 64);
    let mut found = Vec::new();
    if bits & mask != mask {
        return found;
    }
    let heads = 16 + words as usize * 8;
    let chains = heads + buckets as usize * 4;
    let mut symbol = word(table, heads + (hash % buckets) as usize * 4);
    while symbol != 0 {
        let chain = word(table, chains + (symbol - base) as usize * 4);
        if chain | 1 == hash | 1 {
            found.push(symbol);
        }
        symbol = if chain & 1 == 0 { symbol + 1 } else { 0 };
    }
    found
}

#[test]
fn gnu_lookups_lead_to_every_symbol() {
    let buckets = 3;
    let mut hashes: Vec<u32> = (0..20u32).map(|i| gnu_hash(format!("sym{i}").as_bytes())).collect();
    hashes.sort_by_key(|h| h % buckets);
    let table = build_gnu_hash(&hashes, buckets, 4).unwrap();
    for (position, &hash) in hashes.iter().enumerate() {
        assert!(gnu_candidates(&table, hash).contains(&(5 + position as u32)));
    }
    assert_eq!(word(&table, 8), 4, "twelve bits for each of twenty names");
    let empty = build_gnu_hash(&Vec::new(), 1, 7).unwrap();
    assert_eq!(empty.len(), 28);
    assert_eq!(
        build_gnu_hash(&Vec::new(), 1, u32::MAX as usize),
        Err(Error::Limit("GNU hash table too large"))
    );
}

#[test]
fn sysv_lookups_lead_to_every_symbol() {
    let hashes: Vec<u32> = (0..9u32).map(|i| sysv_hash(format!("f{i}").as_bytes())).collect();
    let table = build_sysv_hash(&hashes).unwrap();
    let count = word(&table, 0);
    assert_eq!((count, word(&table, 4)), (10, 10));
    for (position, hash) in hashes.iter().enumerate() {
        let mut symbol = word(&table, 8 + (hash % count) as usize * 4);
        while symbol != position as u32 + 1 {
            assert_ne!(symbol, 0);
            symbol = word(&table, 8 + (count + symbol) as usize * 4);
        }
    }
}
