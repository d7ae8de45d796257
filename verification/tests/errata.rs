use qld::elf::arch::aarch64_errata::{code_ranges, mapping_symbol};

#[test]
fn mapping_symbols_are_recognized() {
    assert_eq!(mapping_symbol(b"$x"), Some(true));
    assert_eq!(mapping_symbol(b"$d.12"), Some(false));
    assert_eq!(mapping_symbol(b"$xyz"), None);
    assert_eq!(mapping_symbol(b"$t"), None);
    assert_eq!(mapping_symbol(b"x"), None);
}

#[test]
fn code_ranges_follow_mapping_symbols() {
    let symbols = [
        (1, 0, false),
        (1, 8, true),
        (1, 16, true),
        (1, 32, false),
        (1, 40, true),
    ];
    assert_eq!(code_ranges(&symbols, 64), [(8, 32), (40, 64)]);
    assert!(code_ranges(&[], 64).is_empty());
}
