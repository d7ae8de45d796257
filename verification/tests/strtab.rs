use qld::elf::dynsym::StrTab;

#[test]
fn add_all_matches_adding_one_by_one() {
    // Duplicates within the batch, strings present before it, empty
    // strings, and enough strings for several parallel tasks.
    let mut texts: Vec<Vec<u8>> = Vec::new();
    for i in 0..20_000u32 {
        texts.push(format!("sym{}", i % 7_001).into_bytes());
        if i % 97 == 0 {
            texts.push(Vec::new());
            texts.push(b"libc.so.6".to_vec());
        }
    }
    let refs: Vec<&[u8]> = texts.iter().map(Vec::as_slice).collect();
    let mut one = StrTab::new();
    let mut all = StrTab::new();
    for table in [&mut one, &mut all] {
        table.add(b"libc.so.6").unwrap();
        table.add(b"sym5").unwrap();
    }
    let expected: Vec<u32> = refs.iter().map(|t| one.add(t).unwrap()).collect();
    let offsets = all.add_all(&refs).unwrap();
    assert_eq!(offsets, expected);
    assert_eq!(all.bytes(), one.bytes());
    // Later single additions still find the batch's strings.
    assert_eq!(all.add(b"sym42").unwrap(), one.add(b"sym42").unwrap());
    assert_eq!(all.add(b"new").unwrap(), one.add(b"new").unwrap());
    assert_eq!(all.bytes(), one.bytes());
}
